use vstd::prelude::*;

use super::greedy::{
    cash_of,
    holds_any_jail_card,
    player_cash,
    price_of,
    tile_price,
};
use super::model::{
    JailAction,
    PlayerStrategy,
    DecidingPolicy,
};
use super::trading::{
    monopoly_swap_from,
    propose_monopoly_swap,
};
use crate::game::board::data::{
    HOTEL_IMPROVEMENT_LEVEL,
    MAX_HOUSE_IMPROVEMENT_LEVEL,
};
use crate::game::board::model::PlayerId;
use crate::game::engine::event::GameEvent;
use crate::game::engine::improvement::{
    can_improve_property,
    can_improve_spec,
    property_tile,
};
use crate::game::engine::liquidation::{
    LiquidationAction,
    default_liquidation_action,
    is_legal_liquidation,
    legal_liquidation_actions,
};
use crate::game::engine::mortgage::{
    can_mortgage_spec,
    property_group,
};
use crate::game::engine::trade::{
    calculate_tile_set_purchase_value,
    purchase_value_below,
};
use crate::game::ruleset::model::Ruleset;
use crate::game::state::model::GameState;
use crate::game::tile::data::{
    PROPERTY_COUNT,
    TILE_COUNT,
};
use crate::game::tile::lut::{
    HOUSE_PURCHASE_PRICE_BY_TILE_ID,
    OWNABLE_TILE_SET_MASK,
    OWNERSHIP_GROUP_INDEX_BY_TILE_ID,
    PURCHASE_PRICE_BY_TILE_ID,
    TILE_ID_BY_PROPERTY_ID,
    TILE_SET_MASK_BY_OWNERSHIP_GROUP,
    UNMORTGAGE_PRICE_BY_TILE_ID,
    lemma_property_tables,
};
use crate::game::tile::model::{
    Cash,
    OWNERSHIP_GROUP_COUNT,
    PropertyId,
    TileId,
    TileSetMask,
    contains_tile,
    count_tiles,
    tile_count,
    tile_in,
};
use crate::game::trade::model::TradeOffer;

verus! {

/// Percentages are hundredths.
pub const PERCENT_DIVISOR: Cash = 100;

/// Which street a strategy builds on first.
#[derive(Debug, Clone, Copy, PartialEq, Eq, Hash, Structural)]
pub enum BuildingAllocation {
    /// The least built street first.
    Spread,
    /// The street of the most built group first.
    Concentrate,
}

impl Default for BuildingAllocation {
    fn default() -> (allocation: Self)
        ensures
            allocation == BuildingAllocation::Spread,
    {
        BuildingAllocation::Spread
    }
}

/// How far a strategy builds on a street.
#[derive(Debug, Clone, Copy, PartialEq, Eq, Hash, Structural)]
pub enum DevelopmentCeiling {
    ThreeHouses,
    FourHouses,
    Hotel,
}

impl Default for DevelopmentCeiling {
    fn default() -> (ceiling: Self)
        ensures
            ceiling == DevelopmentCeiling::Hotel,
    {
        DevelopmentCeiling::Hotel
    }
}

impl DevelopmentCeiling {
    pub open spec fn level_spec(self) -> u8 {
        match self {
            DevelopmentCeiling::ThreeHouses => 3,
            DevelopmentCeiling::FourHouses => MAX_HOUSE_IMPROVEMENT_LEVEL,
            DevelopmentCeiling::Hotel => HOTEL_IMPROVEMENT_LEVEL,
        }
    }

    /// The improvement level at which the strategy stops building on a street.
    pub fn improvement_level(self) -> (level: u8)
        ensures
            level == self.level_spec(),
    {
        match self {
            DevelopmentCeiling::ThreeHouses => 3,
            DevelopmentCeiling::FourHouses => MAX_HOUSE_IMPROVEMENT_LEVEL,
            DevelopmentCeiling::Hotel => HOTEL_IMPROVEMENT_LEVEL,
        }
    }
}

/// A strategy whose decisions follow a set of thresholds, each a percentage of a price on top
/// of a cash reserve.
#[derive(Debug, Clone, Copy, PartialEq, Eq, Hash, Structural)]
pub struct ConfigurableStrategy {
    pub cash_reserve: Cash,
    pub purchase_cash_percent: Cash,
    pub auction_bid_percent: Cash,
    pub improvement_cash_percent: Cash,
    pub unmortgage_cash_percent: Cash,
    pub trade_offer_percent: Cash,
    pub trade_accept_percent: Cash,
    pub pays_bail_when_affordable: bool,
    pub mortgages_before_selling_buildings: bool,
    pub jail_camping_unowned_tile_threshold: Option<u8>,
    pub building_allocation: BuildingAllocation,
    pub development_ceiling: DevelopmentCeiling,
    pub offers_property_swaps: bool,
    pub property_swap_offer_percent: Option<Cash>,
    pub monopoly_trade_premium_percent: Cash,
    pub makes_trade_counteroffers: bool,
    pub trade_counteroffer_limit_percent: Option<Cash>,
}

/// The settings of the baseline strategy.
pub open spec fn baseline_spec() -> ConfigurableStrategy {
    ConfigurableStrategy {
        cash_reserve: 100,
        purchase_cash_percent: 100,
        auction_bid_percent: 100,
        improvement_cash_percent: 100,
        unmortgage_cash_percent: 100,
        trade_offer_percent: 150,
        trade_accept_percent: 100,
        pays_bail_when_affordable: false,
        mortgages_before_selling_buildings: false,
        jail_camping_unowned_tile_threshold: None,
        building_allocation: BuildingAllocation::Spread,
        development_ceiling: DevelopmentCeiling::Hotel,
        offers_property_swaps: false,
        property_swap_offer_percent: None,
        monopoly_trade_premium_percent: 0,
        makes_trade_counteroffers: false,
        trade_counteroffer_limit_percent: None,
    }
}

/// The cash a strategy wants before it pays `price`: `percent` of the price on top of its
/// reserve.
pub open spec fn required_cash(price: int, percent: int, reserve: int) -> int {
    price * percent / PERCENT_DIVISOR as int + reserve
}

impl ConfigurableStrategy {
    pub fn new() -> (strategy: Self)
        ensures
            strategy == baseline_spec(),
    {
        ConfigurableStrategy {
            cash_reserve: 100,
            purchase_cash_percent: 100,
            auction_bid_percent: 100,
            improvement_cash_percent: 100,
            unmortgage_cash_percent: 100,
            trade_offer_percent: 150,
            trade_accept_percent: 100,
            pays_bail_when_affordable: false,
            mortgages_before_selling_buildings: false,
            jail_camping_unowned_tile_threshold: None,
            building_allocation: BuildingAllocation::Spread,
            development_ceiling: DevelopmentCeiling::Hotel,
            offers_property_swaps: false,
            property_swap_offer_percent: None,
            monopoly_trade_premium_percent: 0,
            makes_trade_counteroffers: false,
            trade_counteroffer_limit_percent: None,
        }
    }

    /// The cash the strategy wants before it pays `price`.
    pub fn calculate_required_cash(&self, price: Cash, cash_percent: Cash) -> (required: u64)
        ensures
            required == required_cash(price as int, cash_percent as int, self.cash_reserve as int),
    {
        assert(price * cash_percent <= 0xffff_ffff * 0xffff_ffff) by (nonlinear_arith);
        (price as u64 * cash_percent as u64) / PERCENT_DIVISOR as u64 + self.cash_reserve as u64
    }
}

impl Default for ConfigurableStrategy {
    fn default() -> (strategy: Self)
        ensures
            strategy == baseline_spec(),
    {
        ConfigurableStrategy::new()
    }
}

/// The tiles that the players `0..count` own together.
pub open spec fn owned_by_anyone<const N: usize>(state: GameState<N>, count: nat) -> TileSetMask
    decreases count,
{
    if count == 0 {
        0
    } else {
        owned_by_anyone(state, (count - 1) as nat) | state.board.owned_tiles_by_player_id@[count - 1]
    }
}

/// The number of ownable tiles that nobody owns.
pub open spec fn unowned_tile_count<const N: usize>(state: GameState<N>) -> nat {
    tile_count(OWNABLE_TILE_SET_MASK & !owned_by_anyone(state, N as nat))
}

/// The jail action of a configurable strategy: roll while few tiles remain unowned (camping),
/// else use a jail card, else pay bail when the strategy pays and can afford it above its
/// reserve, else roll.
pub open spec fn configurable_jail_choice<const N: usize>(
    strategy: ConfigurableStrategy,
    state: GameState<N>,
    rules: Ruleset,
    player: int,
) -> JailAction {
    configurable_jail_answer(
        strategy,
        cash_of(state, player),
        holds_any_jail_card(state, player),
        unowned_tile_count(state),
        rules,
    )
}

/// The highest bid of `strategy` for a tile of `price` by a player with `cash`: its share of the
/// price, capped at what the cash leaves above the reserve.
pub open spec fn configurable_bid(strategy: ConfigurableStrategy, cash: int, price: int) -> int {
    let spendable = if cash >= strategy.cash_reserve {
        cash - strategy.cash_reserve
    } else {
        0
    };
    let max_bid = price * strategy.auction_bid_percent / PERCENT_DIVISOR as int;
    if max_bid < spendable {
        max_bid
    } else {
        spendable
    }
}

/// The jail action of `strategy` for a player with `cash`, who holds a get-out-of-jail-free
/// card where `holds_jail_card`, while `unowned` ownable tiles are unowned: it camps in jail
/// while few tiles are left to buy, else uses a card, else pays bail where it may and can.
pub open spec fn configurable_jail_answer(
    strategy: ConfigurableStrategy,
    cash: int,
    holds_jail_card: bool,
    unowned: nat,
    rules: Ruleset,
) -> JailAction {
    let camping = match strategy.jail_camping_unowned_tile_threshold {
        Some(threshold) => unowned <= threshold,
        None => false,
    };
    let pays = strategy.jail_camping_unowned_tile_threshold is Some || strategy.pays_bail_when_affordable;
    if camping {
        JailAction::RollForDoubles
    } else if holds_jail_card {
        JailAction::UseGetOutOfJailFreeCard
    } else if pays && cash >= strategy.cash_reserve && cash - strategy.cash_reserve >= rules.jail_bail_amount {
        JailAction::PayBail
    } else {
        JailAction::RollForDoubles
    }
}

/// The levels of the streets `0..count` of ownership group `group`, added up.
pub open spec fn group_development<const N: usize>(state: GameState<N>, group: int, count: nat) -> nat
    decreases count,
{
    if count == 0 {
        0
    } else {
        group_development(state, group, (count - 1) as nat) + if property_group(count - 1) == group {
            state.level(count - 1) as nat
        } else {
            0nat
        }
    }
}

/// The priority of building on `property`: the development of its group (higher first), the
/// group's index and the street's level (lower first). Spreading looks at the level alone.
pub open spec fn build_priority<const N: usize>(
    allocation: BuildingAllocation,
    state: GameState<N>,
    property: int,
) -> (int, int, int) {
    match allocation {
        BuildingAllocation::Spread => (0, 0, state.level(property) as int),
        BuildingAllocation::Concentrate => (
            group_development(state, property_group(property) as int, PROPERTY_COUNT as nat) as int,
            property_group(property) as int,
            state.level(property) as int,
        ),
    }
}

/// Whether the priority `first` comes before `second`.
pub open spec fn builds_before(first: (int, int, int), second: (int, int, int)) -> bool {
    first.0 > second.0 || (first.0 == second.0 && (first.1 < second.1 || (first.1 == second.1 && first.2 < second.2)))
}

/// Whether the strategy would build on `property`: below its ceiling, affordable above the
/// reserve, and legal.
pub open spec fn build_candidate<const N: usize>(
    strategy: ConfigurableStrategy,
    state: GameState<N>,
    rules: Ruleset,
    player: int,
    property: int,
) -> bool {
    &&& 0 <= property < PROPERTY_COUNT
    &&& state.level(property) < strategy.development_ceiling.level_spec()
    &&& cash_of(state, player) >= required_cash(
        HOUSE_PURCHASE_PRICE_BY_TILE_ID@[property_tile(property)] as int,
        strategy.improvement_cash_percent as int,
        strategy.cash_reserve as int,
    )
    &&& can_improve_spec(state, rules, player, property)
}

/// Whether `tile` is a mortgaged tile of `player` that the strategy can afford to lift.
pub open spec fn unmortgage_candidate<const N: usize>(
    strategy: ConfigurableStrategy,
    state: GameState<N>,
    player: int,
    tile: int,
) -> bool {
    &&& 0 <= tile < TILE_COUNT
    &&& state.board.owns(player, tile)
    &&& state.board.mortgaged(tile)
    &&& cash_of(state, player) >= required_cash(
        UNMORTGAGE_PRICE_BY_TILE_ID@[tile] as int,
        strategy.unmortgage_cash_percent as int,
        strategy.cash_reserve as int,
    )
}

/// The value of a whole ownership group.
pub open spec fn group_value(group: int) -> nat {
    purchase_value_below(TILE_SET_MASK_BY_OWNERSHIP_GROUP@[group], TILE_COUNT as nat)
}

/// Whether the tiles `owned` include the whole ownership group `group`.
pub open spec fn holds_group(owned: TileSetMask, group: int) -> bool {
    forall|tile: int| tile_in(TILE_SET_MASK_BY_OWNERSHIP_GROUP@[group], tile) ==> tile_in(owned, tile)
}

/// The premium on the groups `0..count` that a trade completes (or, with `completing` false,
/// breaks up) for a player who holds `before` and then `after`: `percent` of each group's value.
pub open spec fn group_premium(before: TileSetMask, after: TileSetMask, percent: int, completing: bool, count: nat) -> int
    decreases count,
{
    if count == 0 {
        0
    } else {
        let group = count - 1;
        let changed = if completing {
            !holds_group(before, group) && holds_group(after, group)
        } else {
            holds_group(before, group) && !holds_group(after, group)
        };
        group_premium(before, after, percent, completing, (count - 1) as nat) + if changed {
            group_value(group) * percent / PERCENT_DIVISOR as int
        } else {
            0
        }
    }
}

/// Whether a configurable strategy accepts `offer` as its recipient `player`: what it receives,
/// with the premium on the groups the trade completes, against `trade_accept_percent` of what
/// it gives, with the premium on the groups the trade breaks up.
pub open spec fn accepts_trade<const N: usize>(
    strategy: ConfigurableStrategy,
    state: GameState<N>,
    player: int,
    offer: TradeOffer,
) -> bool {
    let owned = if 0 <= player < N {
        state.board.owned_tiles_by_player_id@[player]
    } else {
        0
    };
    let after = (owned & !offer.requested_tiles) | offer.offered_tiles;
    let premium = strategy.monopoly_trade_premium_percent as int;
    let received = offer.offered_cash + purchase_value_below(offer.offered_tiles, TILE_COUNT as nat) + group_premium(
        owned,
        after,
        premium,
        true,
        OWNERSHIP_GROUP_COUNT as nat,
    );
    let given = offer.requested_cash + purchase_value_below(offer.requested_tiles, TILE_COUNT as nat) + group_premium(
        owned,
        after,
        premium,
        false,
        OWNERSHIP_GROUP_COUNT as nat,
    );
    received * PERCENT_DIVISOR > given * strategy.trade_accept_percent
}

/// The counteroffer of a configurable strategy that refused `rejected`: the same tiles and jail
/// cards the other way round, for the least cash it would accept.
pub open spec fn counteroffer_spec(strategy: ConfigurableStrategy, rejected: TradeOffer) -> Option<TradeOffer> {
    let given = purchase_value_below(rejected.requested_tiles, TILE_COUNT as nat);
    let received_tiles = purchase_value_below(rejected.offered_tiles, TILE_COUNT as nat);
    let wanted = given * strategy.trade_accept_percent / PERCENT_DIVISOR as int + 1 - received_tiles;
    let cash = if wanted > 0 {
        wanted
    } else {
        0
    };
    if !strategy.makes_trade_counteroffers || cash > Cash::MAX {
        None
    } else {
        Some(
            TradeOffer {
                proposer_player_id: rejected.recipient_player_id,
                recipient_player_id: rejected.proposer_player_id,
                offered_cash: 0,
                offered_tiles: rejected.requested_tiles,
                offered_get_out_of_jail_free_cards: rejected.requested_get_out_of_jail_free_cards,
                requested_cash: cash as Cash,
                requested_tiles: rejected.offered_tiles,
                requested_get_out_of_jail_free_cards: rejected.offered_get_out_of_jail_free_cards,
            },
        )
    }
}

/// Whether `tiles` include the whole ownership group `group`.
fn holds_whole_group(tiles: TileSetMask, group: usize) -> (holds: bool)
    requires
        group < OWNERSHIP_GROUP_COUNT,
    ensures
        holds == holds_group(tiles, group as int),
{
    crate::game::tile::model::holds_all_tiles(tiles, TILE_SET_MASK_BY_OWNERSHIP_GROUP[group])
}

proof fn lemma_group_value_bound(group: int)
    ensures
        group_value(group) <= 16000,
{
    crate::game::engine::trade::lemma_purchase_value_bound(TILE_SET_MASK_BY_OWNERSHIP_GROUP@[group], TILE_COUNT as nat);
}

proof fn lemma_group_premium_bound(before: TileSetMask, after: TileSetMask, percent: int, completing: bool, count: nat)
    requires
        0 <= percent <= Cash::MAX,
    ensures
        0 <= group_premium(before, after, percent, completing, count) <= 16000 * Cash::MAX * count,
    decreases count,
{
    if count > 0 {
        lemma_group_premium_bound(before, after, percent, completing, (count - 1) as nat);
        lemma_group_value_bound(count - 1);
        let value = group_value(count - 1) as int;
        assert(value * percent / 100 <= 16000 * Cash::MAX) by (nonlinear_arith)
            requires
                0 <= value <= 16000,
                0 <= percent <= Cash::MAX,
        ;
        assert(value * percent / 100 >= 0) by (nonlinear_arith)
            requires
                0 <= value,
                0 <= percent,
        ;
    }
}

/// The premium on the groups that a trade completes or breaks up for a player who holds
/// `before` and then `after`.
fn calculate_group_premium(before: TileSetMask, after: TileSetMask, percent: Cash, completing: bool) -> (premium: u128)
    ensures
        premium == group_premium(before, after, percent as int, completing, OWNERSHIP_GROUP_COUNT as nat),
{
    let mut premium: u128 = 0;
    let mut group: usize = 0;
    while group < OWNERSHIP_GROUP_COUNT
        invariant
            group <= OWNERSHIP_GROUP_COUNT,
            premium == group_premium(before, after, percent as int, completing, group as nat),
        decreases OWNERSHIP_GROUP_COUNT - group,
    {
        proof {
            lemma_group_premium_bound(before, after, percent as int, completing, (group + 1) as nat);
            lemma_group_value_bound(group as int);
        }
        let held_before = holds_whole_group(before, group);
        let held_after = holds_whole_group(after, group);
        let changed = if completing {
            !held_before && held_after
        } else {
            held_before && !held_after
        };
        if changed {
            let value = calculate_tile_set_purchase_value(TILE_SET_MASK_BY_OWNERSHIP_GROUP[group]) as u128;
            assert(value * percent <= 16000 * 0xffff_ffff) by (nonlinear_arith)
                requires
                    value <= 16000,
                    percent <= 0xffff_ffff,
            ;
            premium = premium + value * percent as u128 / PERCENT_DIVISOR as u128;
        }
        group = group + 1;
    }
    premium
}

/// The cash offer for the tile that `player` lacks of the group `group`, when it lacks exactly
/// one that another player owns: the trade offer percentage of its price, if that leaves the
/// player its reserve.
pub open spec fn cash_offer_for_group<const N: usize>(
    strategy: ConfigurableStrategy,
    state: GameState<N>,
    player: PlayerId,
    group: int,
) -> Option<TradeOffer> {
    let owned = state.board.owned_tiles_by_player_id@[player as int];
    let group_tiles = TILE_SET_MASK_BY_OWNERSHIP_GROUP@[group];
    let owned_group_tiles = owned & group_tiles;
    let missing = group_tiles & !owned_group_tiles;
    if owned_group_tiles != 0 && missing != 0 && tile_count(missing) == 1 {
        let missing_tile = lowest_tile_from(missing, 0);
        let offered_cash = price_of(PURCHASE_PRICE_BY_TILE_ID@, missing_tile) * strategy.trade_offer_percent
            / PERCENT_DIVISOR as int;
        match state.board.owner_of(missing_tile) {
            Some(owner) => if state.cash(player as int) >= offered_cash + strategy.cash_reserve {
                Some(
                    TradeOffer {
                        proposer_player_id: player,
                        recipient_player_id: owner,
                        offered_cash: offered_cash as Cash,
                        offered_tiles: 0,
                        offered_get_out_of_jail_free_cards: 0,
                        requested_cash: 0,
                        requested_tiles: 1u64 << (missing_tile as u8),
                        requested_get_out_of_jail_free_cards: 0,
                    },
                )
            } else {
                None
            },
            None => None,
        }
    } else {
        None
    }
}

/// The first cash offer, in group order from `group` on.
pub open spec fn cash_offer_from<const N: usize>(
    strategy: ConfigurableStrategy,
    state: GameState<N>,
    player: PlayerId,
    group: int,
) -> Option<TradeOffer>
    decreases OWNERSHIP_GROUP_COUNT - group,
{
    if group < 0 || group >= OWNERSHIP_GROUP_COUNT {
        None
    } else {
        match cash_offer_for_group(strategy, state, player, group) {
            Some(offer) => Some(offer),
            None => cash_offer_from(strategy, state, player, group + 1),
        }
    }
}

/// The trade that the configurable strategy proposes: none when it offers nothing for trades;
/// else a swap that completes a group on both sides, where it makes swaps and has one, and
/// otherwise the first cash offer for a group's last tile.
/// Whether the configurable strategy of `player` accepts `counteroffer`: within its limit on
/// what it pays for what it receives, where it has one, and otherwise as any offer.
pub open spec fn accepts_counteroffer<const N: usize>(
    strategy: ConfigurableStrategy,
    state: GameState<N>,
    player: int,
    counteroffer: TradeOffer,
) -> bool {
    match strategy.trade_counteroffer_limit_percent {
        Some(limit) => (counteroffer.requested_cash + purchase_value_below(counteroffer.requested_tiles, TILE_COUNT as nat))
            * PERCENT_DIVISOR <= (counteroffer.offered_cash + purchase_value_below(
            counteroffer.offered_tiles,
            TILE_COUNT as nat,
        )) * limit,
        None => accepts_trade(strategy, state, player, counteroffer),
    }
}

pub open spec fn configurable_trade_offer<const N: usize>(
    strategy: ConfigurableStrategy,
    state: GameState<N>,
    rules: Ruleset,
    player: PlayerId,
) -> Option<TradeOffer> {
    if strategy.trade_offer_percent == 0 || player >= N {
        None
    } else if strategy.offers_property_swaps && monopoly_swap_from(strategy, state, rules, player, 0) is Some {
        monopoly_swap_from(strategy, state, rules, player, 0)
    } else {
        cash_offer_from(strategy, state, player, 0)
    }
}

/// Whether `action` is the configurable strategy's way to raise cash: a legal action; a mortgage
/// while one is possible when the strategy mortgages before selling buildings, and otherwise
/// the default choice.
pub open spec fn configurable_liquidation_choice<const N: usize>(
    strategy: ConfigurableStrategy,
    state: GameState<N>,
    rules: Ruleset,
    player: PlayerId,
    action: Option<LiquidationAction>,
) -> bool {
    &&& action matches Some(action) ==> is_legal_liquidation(state, rules, player as int, action)
    &&& strategy.mortgages_before_selling_buildings ==> (action matches Some(LiquidationAction::Mortgage(_))
        || forall|tile: int| 0 <= tile < TILE_COUNT ==> !#[trigger] can_mortgage_spec(state, player as int, tile))
    &&& !strategy.mortgages_before_selling_buildings ==> crate::game::engine::liquidation::default_liquidation_spec(
        state,
        rules,
        player as int,
        action,
    )
}

/// Whether `choice` is the configurable strategy's street to build on: a candidate that no
/// other candidate comes before in its building order, the lowest such on a tie; none when
/// there is no candidate.
pub open spec fn configurable_improvement_choice<const N: usize>(
    strategy: ConfigurableStrategy,
    state: GameState<N>,
    rules: Ruleset,
    player: PlayerId,
    choice: Option<PropertyId>,
) -> bool {
    &&& choice matches Some(property) ==> {
        &&& build_candidate(strategy, state, rules, player as int, property as int)
        &&& forall|other: int| #[trigger]
            build_candidate(strategy, state, rules, player as int, other) ==> !builds_before(
                build_priority(strategy.building_allocation, state, other),
                build_priority(strategy.building_allocation, state, property as int),
            )
        &&& forall|other: int|
            0 <= other < property && #[trigger] build_candidate(strategy, state, rules, player as int, other)
                ==> builds_before(
                build_priority(strategy.building_allocation, state, property as int),
                build_priority(strategy.building_allocation, state, other),
            )
    }
    &&& choice is None ==> forall|other: int| !#[trigger] build_candidate(strategy, state, rules, player as int, other)
}

/// Whether `choice` is the configurable strategy's tile to unmortgage: the cheapest candidate,
/// the lowest on a tie; none when there is no candidate.
pub open spec fn configurable_unmortgage_choice<const N: usize>(
    strategy: ConfigurableStrategy,
    state: GameState<N>,
    player: PlayerId,
    choice: Option<TileId>,
) -> bool {
    &&& choice matches Some(tile) ==> {
        &&& unmortgage_candidate(strategy, state, player as int, tile as int)
        &&& forall|other: int| #[trigger]
            unmortgage_candidate(strategy, state, player as int, other) ==> UNMORTGAGE_PRICE_BY_TILE_ID@[tile as int]
                <= UNMORTGAGE_PRICE_BY_TILE_ID@[other]
        &&& forall|other: int|
            0 <= other < tile && #[trigger] unmortgage_candidate(strategy, state, player as int, other)
                ==> UNMORTGAGE_PRICE_BY_TILE_ID@[tile as int] < UNMORTGAGE_PRICE_BY_TILE_ID@[other]
    }
    &&& choice is None ==> forall|other: int| !#[trigger] unmortgage_candidate(strategy, state, player as int, other)
}

impl PlayerStrategy for ConfigurableStrategy {
    open spec fn policy_of(self) -> DecidingPolicy {
        DecidingPolicy::Configurable(self)
    }

    open spec fn observes(self, event: GameEvent, after: Self) -> bool {
        after == self
    }

    open spec fn chooses_purchase(self, cash: int, price: int, buy: bool, after: Self) -> bool {
        after == self && buy == (cash >= required_cash(price, self.purchase_cash_percent as int, self.cash_reserve as int))
    }

    open spec fn chooses_bid(self, cash: int, price: int, bid: Cash, after: Self) -> bool {
        after == self && bid == configurable_bid(self, cash, price)
    }

    open spec fn records(self, event: GameEvent, after: Self) -> bool {
        after == self
    }


    fn observe_public_event(&mut self, event: GameEvent) {
    }

    fn record_event(&mut self, event: GameEvent) {
    }

    fn choose_liquidation_action<const N: usize>(
        &mut self,
        state: &GameState<N>,
        rules: &Ruleset,
        player: PlayerId,
        required_amount: Cash,
    ) -> (action: Option<LiquidationAction>)
        ensures
            configurable_liquidation_choice(*old(self), *state, *rules, player, action),
    {
        if self.mortgages_before_selling_buildings {
            let legal = legal_liquidation_actions(state, rules, player);
            let mut index: usize = 0;
            while index < legal.len()
                invariant
                    N <= 256,
                    old(self).mortgages_before_selling_buildings,
                    index <= legal.len(),
                    legal@ == crate::game::engine::liquidation::legal_liquidations(*state, *rules, player as int),
                    forall|earlier: int| 0 <= earlier < index ==> !(legal@[earlier] is Mortgage),
                decreases legal.len() - index,
            {
                if let LiquidationAction::Mortgage(tile) = legal[index] {
                    proof {
                        crate::game::engine::liquidation::lemma_legal_liquidations_complete(*state, *rules, player as int, legal@[index as int]);
                        assert(legal@.contains(legal@[index as int]));
                    }
                    return Some(legal[index]);
                }
                index = index + 1;
            }
            proof {
                assert forall|tile: int| 0 <= tile < TILE_COUNT implies !#[trigger] can_mortgage_spec(
                    *state,
                    player as int,
                    tile,
                ) by {
                    crate::game::engine::liquidation::lemma_legal_liquidations_complete(
                        *state,
                        *rules,
                        player as int,
                        LiquidationAction::Mortgage(tile as TileId),
                    );
                }
            }
        }
        default_liquidation_action(state, rules, player)
    }

    fn should_purchase_property<const N: usize>(
        &mut self,
        state: &GameState<N>,
        rules: &Ruleset,
        player: PlayerId,
        tile: TileId,
    ) -> (buy: bool)
        ensures
            buy == (cash_of(*state, player as int) >= required_cash(
                price_of(PURCHASE_PRICE_BY_TILE_ID@, tile as int),
                old(self).purchase_cash_percent as int,
                old(self).cash_reserve as int,
            )),
            *final(self) == *old(self),
    {
        let price = tile_price(&PURCHASE_PRICE_BY_TILE_ID, tile);
        player_cash(state, player) as u64 >= self.calculate_required_cash(price, self.purchase_cash_percent)
    }

    fn choose_max_auction_bid<const N: usize>(
        &mut self,
        state: &GameState<N>,
        rules: &Ruleset,
        player: PlayerId,
        tile: TileId,
    ) -> (bid: Cash)
        ensures
            bid == configurable_bid(
                *old(self),
                cash_of(*state, player as int),
                price_of(PURCHASE_PRICE_BY_TILE_ID@, tile as int),
            ),
            *final(self) == *old(self),
    {
        let price = tile_price(&PURCHASE_PRICE_BY_TILE_ID, tile) as u64;
        assert(price * self.auction_bid_percent <= 0xffff_ffff * 0xffff_ffff) by (nonlinear_arith)
            requires
                price <= 0xffff_ffff,
                self.auction_bid_percent <= 0xffff_ffff,
        ;
        let max_bid = price * self.auction_bid_percent as u64 / PERCENT_DIVISOR as u64;
        let spendable = player_cash(state, player).saturating_sub(self.cash_reserve);
        if max_bid < spendable as u64 {
            max_bid as Cash
        } else {
            spendable
        }
    }

    open spec fn chooses_jail_action(
        self,
        cash: int,
        holds_jail_card: bool,
        unowned_tile_count: nat,
        rules: Ruleset,
        action: JailAction,
        after: Self,
    ) -> bool {
        after == self && action == configurable_jail_answer(self, cash, holds_jail_card, unowned_tile_count, rules)
    }

    fn choose_jail_action<const N: usize>(&mut self, state: &GameState<N>, rules: &Ruleset, player: PlayerId) -> (action:
        JailAction)
        ensures
            action == configurable_jail_choice(*old(self), *state, *rules, player as int),
            *final(self) == *old(self),
    {
        if let Some(threshold) = self.jail_camping_unowned_tile_threshold {
            let mut owned: TileSetMask = 0;
            let mut index: usize = 0;
            while index < N
                invariant
                    index <= N,
                    owned == owned_by_anyone(*state, index as nat),
                decreases N - index,
            {
                owned = owned | state.board.owned_tiles_by_player_id[index];
                index = index + 1;
            }
            let unowned = count_tiles(OWNABLE_TILE_SET_MASK & !owned);
            if unowned <= threshold as u32 {
                return JailAction::RollForDoubles;
            }
        }
        if state.get_out_of_jail_free_card_holder_by_deck_kind[0] == Some(player)
            || state.get_out_of_jail_free_card_holder_by_deck_kind[1] == Some(player) {
            return JailAction::UseGetOutOfJailFreeCard;
        }
        let pays = self.jail_camping_unowned_tile_threshold.is_some() || self.pays_bail_when_affordable;
        let cash = player_cash(state, player);
        if pays && cash >= self.cash_reserve && cash - self.cash_reserve >= rules.jail_bail_amount as Cash {
            return JailAction::PayBail;
        }
        JailAction::RollForDoubles
    }

    fn choose_property_to_improve<const N: usize>(
        &mut self,
        state: &GameState<N>,
        rules: &Ruleset,
        player: PlayerId,
    ) -> (choice: Option<PropertyId>)
        ensures
            configurable_improvement_choice(*old(self), *state, *rules, player, choice),
    {
        let mut development: [u32; 10] = [0u32, 0, 0, 0, 0, 0, 0, 0, 0, 0];
        let concentrate = self.building_allocation == BuildingAllocation::Concentrate;
        let mut property: usize = 0;
        while property < PROPERTY_COUNT
            invariant
                property <= PROPERTY_COUNT,
                forall|group: int| 0 <= group < OWNERSHIP_GROUP_COUNT ==> #[trigger] development@[group]
                    == group_development(*state, group, property as nat),
                forall|group: int| 0 <= group < OWNERSHIP_GROUP_COUNT ==> development@[group] <= 255 * property,
            decreases PROPERTY_COUNT - property,
        {
            proof {
                lemma_property_tables(property as int);
            }
            let group = OWNERSHIP_GROUP_INDEX_BY_TILE_ID[TILE_ID_BY_PROPERTY_ID[property] as usize] as usize;
            development[group] = development[group] + state.board.improvement_level_by_property_id[property] as u32;
            property = property + 1;
        }
        let ceiling = self.development_ceiling.improvement_level();
        let cash = player_cash(state, player) as u64;
        let mut selected: Option<PropertyId> = None;
        let mut selected_priority: (u32, u32, u32) = (0, 0, 0);
        let mut candidate: u8 = 0;
        while (candidate as usize) < PROPERTY_COUNT
            invariant
                N <= 256,
                candidate <= PROPERTY_COUNT,
                ceiling == self.development_ceiling.level_spec(),
                cash == cash_of(*state, player as int),
                concentrate == (self.building_allocation == BuildingAllocation::Concentrate),
                forall|group: int| 0 <= group < OWNERSHIP_GROUP_COUNT ==> #[trigger] development@[group]
                    == group_development(*state, group, PROPERTY_COUNT as nat),
                match selected {
                    Some(chosen) => {
                        &&& chosen < candidate
                        &&& build_candidate(*self, *state, *rules, player as int, chosen as int)
                        &&& build_priority(self.building_allocation, *state, chosen as int) == (
                            selected_priority.0 as int,
                            selected_priority.1 as int,
                            selected_priority.2 as int,
                        )
                        &&& forall|other: int|
                            0 <= other < candidate && #[trigger] build_candidate(*self, *state, *rules, player as int, other)
                                ==> !builds_before(
                                build_priority(self.building_allocation, *state, other),
                                build_priority(self.building_allocation, *state, chosen as int),
                            )
                        &&& forall|other: int|
                            0 <= other < chosen && #[trigger] build_candidate(*self, *state, *rules, player as int, other)
                                ==> builds_before(
                                build_priority(self.building_allocation, *state, chosen as int),
                                build_priority(self.building_allocation, *state, other),
                            )
                    },
                    None => forall|other: int|
                        0 <= other < candidate ==> !#[trigger] build_candidate(*self, *state, *rules, player as int, other),
                },
            decreases PROPERTY_COUNT - candidate,
        {
            proof {
                lemma_property_tables(candidate as int);
            }
            let index = candidate as usize;
            let tile = TILE_ID_BY_PROPERTY_ID[index];
            let level = state.board.improvement_level_by_property_id[index];
            let price = HOUSE_PURCHASE_PRICE_BY_TILE_ID[tile as usize] as Cash;
            if level < ceiling && cash >= self.calculate_required_cash(price, self.improvement_cash_percent)
                && can_improve_property(state, rules, player, candidate) {
                let group = OWNERSHIP_GROUP_INDEX_BY_TILE_ID[tile as usize] as u32;
                let priority: (u32, u32, u32) = if concentrate {
                    (development[group as usize], group, level as u32)
                } else {
                    (0, 0, level as u32)
                };
                let better = match selected {
                    None => true,
                    Some(_) => priority.0 > selected_priority.0 || (priority.0 == selected_priority.0 && (priority.1
                        < selected_priority.1 || (priority.1 == selected_priority.1 && priority.2 < selected_priority.2))),
                };
                if better {
                    selected = Some(candidate);
                    selected_priority = priority;
                }
            }
            candidate = candidate + 1;
        }
        selected
    }

    fn choose_tile_to_unmortgage<const N: usize>(
        &mut self,
        state: &GameState<N>,
        rules: &Ruleset,
        player: PlayerId,
    ) -> (choice: Option<TileId>)
        ensures
            configurable_unmortgage_choice(*old(self), *state, player, choice),
    {
        if (player as usize) >= N {
            return None;
        }
        let cash = state.cash_by_player_id[player as usize] as u64;
        let owned = state.board.owned_tiles_by_player_id[player as usize];
        let mut selected: Option<TileId> = None;
        let mut tile: u8 = 0;
        while (tile as usize) < TILE_COUNT
            invariant
                (player as usize) < N,
                tile <= TILE_COUNT,
                cash == cash_of(*state, player as int),
                owned == state.board.owned_tiles_by_player_id@[player as int],
                match selected {
                    Some(chosen) => {
                        &&& chosen < tile
                        &&& unmortgage_candidate(*self, *state, player as int, chosen as int)
                        &&& forall|other: int|
                            0 <= other < tile && #[trigger] unmortgage_candidate(*self, *state, player as int, other)
                                ==> UNMORTGAGE_PRICE_BY_TILE_ID@[chosen as int] <= UNMORTGAGE_PRICE_BY_TILE_ID@[other]
                        &&& forall|other: int|
                            0 <= other < chosen && #[trigger] unmortgage_candidate(*self, *state, player as int, other)
                                ==> UNMORTGAGE_PRICE_BY_TILE_ID@[chosen as int] < UNMORTGAGE_PRICE_BY_TILE_ID@[other]
                    },
                    None => forall|other: int|
                        0 <= other < tile ==> !#[trigger] unmortgage_candidate(*self, *state, player as int, other),
                },
            decreases TILE_COUNT - tile,
        {
            let price = UNMORTGAGE_PRICE_BY_TILE_ID[tile as usize] as Cash;
            if contains_tile(owned, tile) && contains_tile(state.board.mortgaged_tiles, tile) && cash
                >= self.calculate_required_cash(price, self.unmortgage_cash_percent) {
                let cheaper = match selected {
                    None => true,
                    Some(chosen) => price < UNMORTGAGE_PRICE_BY_TILE_ID[chosen as usize] as Cash,
                };
                if cheaper {
                    selected = Some(tile);
                }
            }
            tile = tile + 1;
        }
        selected
    }

    fn propose_trade<const N: usize>(&mut self, state: &GameState<N>, rules: &Ruleset, player: PlayerId) -> (offer: Option<
        TradeOffer,
    >)
        ensures
            old(self).trade_offer_percent == 0 ==> offer is None,
            offer matches Some(offer) ==> offer.proposer_player_id == player,
            offer == configurable_trade_offer(*old(self), *state, *rules, player),
            *final(self) == *old(self),
    {
        if self.trade_offer_percent == 0 || (player as usize) >= N {
            return None;
        }
        if self.offers_property_swaps {
            if let Some(offer) = propose_monopoly_swap(self, state, rules, player) {
                return Some(offer);
            }
        }
        let owned = state.board.owned_tiles_by_player_id[player as usize];
        let cash = state.cash_by_player_id[player as usize] as u64;
        let mut group: usize = 0;
        while group < OWNERSHIP_GROUP_COUNT
            invariant
                N <= 256,
                (player as usize) < N,
                old(self).trade_offer_percent != 0,
                group <= OWNERSHIP_GROUP_COUNT,
                *self == *old(self),
                owned == state.board.owned_tiles_by_player_id@[player as int],
                cash == state.cash(player as int),
                configurable_trade_offer(*old(self), *state, *rules, player) == cash_offer_from(
                    *old(self),
                    *state,
                    player,
                    group as int,
                ),
            decreases OWNERSHIP_GROUP_COUNT - group,
        {
            let group_tiles = TILE_SET_MASK_BY_OWNERSHIP_GROUP[group];
            let owned_group_tiles = owned & group_tiles;
            let missing = group_tiles & !owned_group_tiles;
            if owned_group_tiles != 0 && missing != 0 && count_tiles(missing) == 1 {
                let missing_tile = lowest_tile(missing);
                if let Some(owner) = state.board.get_tile_owner(missing_tile) {
                    let price = tile_price(&PURCHASE_PRICE_BY_TILE_ID, missing_tile) as u64;
                    assert(price * self.trade_offer_percent <= 0xffff_ffff * 0xffff_ffff) by (nonlinear_arith)
                        requires
                            price <= 0xffff_ffff,
                            self.trade_offer_percent <= 0xffff_ffff,
                    ;
                    let offered_cash = price * self.trade_offer_percent as u64 / PERCENT_DIVISOR as u64;
                    if cash >= offered_cash + self.cash_reserve as u64 {
                        return Some(
                            TradeOffer {
                                proposer_player_id: player,
                                recipient_player_id: owner,
                                offered_cash: offered_cash as Cash,
                                offered_tiles: 0,
                                offered_get_out_of_jail_free_cards: 0,
                                requested_cash: 0,
                                requested_tiles: 1u64 << missing_tile,
                                requested_get_out_of_jail_free_cards: 0,
                            },
                        );
                    }
                }
            }
            group = group + 1;
        }
        None
    }

    fn should_accept_trade<const N: usize>(
        &mut self,
        state: &GameState<N>,
        rules: &Ruleset,
        player: PlayerId,
        offer: &TradeOffer,
    ) -> (accept: bool)
        ensures
            accept == accepts_trade(*old(self), *state, player as int, *offer),
    {
        let owned = if (player as usize) < N {
            state.board.owned_tiles_by_player_id[player as usize]
        } else {
            0
        };
        let after = (owned & !offer.requested_tiles) | offer.offered_tiles;
        let completed = calculate_group_premium(owned, after, self.monopoly_trade_premium_percent, true);
        let broken = calculate_group_premium(owned, after, self.monopoly_trade_premium_percent, false);
        proof {
            lemma_group_premium_bound(owned, after, self.monopoly_trade_premium_percent as int, true, 10);
            lemma_group_premium_bound(owned, after, self.monopoly_trade_premium_percent as int, false, 10);
        }
        let received = offer.offered_cash as u128 + calculate_tile_set_purchase_value(offer.offered_tiles) as u128
            + completed;
        let given = offer.requested_cash as u128 + calculate_tile_set_purchase_value(offer.requested_tiles) as u128 + broken;
        assert(given * self.trade_accept_percent <= 0x1_0000_0000_0000_0000 * 0x1_0000_0000) by (nonlinear_arith)
            requires
                given <= 0x1_0000_0000_0000_0000,
                self.trade_accept_percent <= 0xffff_ffff,
        ;
        assert(received <= 0x1_0000_0000_0000_0000);
        received * 100u128 > given * self.trade_accept_percent as u128
    }

    fn counter_trade_offer<const N: usize>(
        &mut self,
        state: &GameState<N>,
        rules: &Ruleset,
        player: PlayerId,
        rejected: &TradeOffer,
    ) -> (offer: Option<TradeOffer>)
        ensures
            offer == counteroffer_spec(*old(self), *rejected),
    {
        if !self.makes_trade_counteroffers {
            return None;
        }
        let given = calculate_tile_set_purchase_value(rejected.requested_tiles) as u64;
        let received_tiles = calculate_tile_set_purchase_value(rejected.offered_tiles) as u64;
        assert(given * self.trade_accept_percent <= 0xffff_ffff * 0xffff_ffff) by (nonlinear_arith)
            requires
                given <= 0xffff_ffff,
                self.trade_accept_percent <= 0xffff_ffff,
        ;
        let wanted = given * self.trade_accept_percent as u64 / PERCENT_DIVISOR as u64 + 1;
        let cash = if wanted > received_tiles {
            wanted - received_tiles
        } else {
            0
        };
        if cash > Cash::MAX as u64 {
            return None;
        }
        Some(
            TradeOffer {
                proposer_player_id: rejected.recipient_player_id,
                recipient_player_id: rejected.proposer_player_id,
                offered_cash: 0,
                offered_tiles: rejected.requested_tiles,
                offered_get_out_of_jail_free_cards: rejected.requested_get_out_of_jail_free_cards,
                requested_cash: cash as Cash,
                requested_tiles: rejected.offered_tiles,
                requested_get_out_of_jail_free_cards: rejected.offered_get_out_of_jail_free_cards,
            },
        )
    }

    fn should_accept_counteroffer<const N: usize>(
        &mut self,
        state: &GameState<N>,
        rules: &Ruleset,
        player: PlayerId,
        original_offer: &TradeOffer,
        counteroffer: &TradeOffer,
    ) -> (accept: bool)
        ensures
            accept == accepts_counteroffer(*old(self), *state, player as int, *counteroffer),
    {
        match self.trade_counteroffer_limit_percent {
            Some(limit) => {
                let paid = counteroffer.requested_cash as u128 + calculate_tile_set_purchase_value(
                    counteroffer.requested_tiles,
                ) as u128;
                let received = counteroffer.offered_cash as u128 + calculate_tile_set_purchase_value(
                    counteroffer.offered_tiles,
                ) as u128;
                assert(received * limit <= 0x2_0000_0000 * 0x1_0000_0000) by (nonlinear_arith)
                    requires
                        received <= 0x2_0000_0000,
                        limit <= 0xffff_ffff,
                ;
                assert(paid * PERCENT_DIVISOR <= 0x2_0000_0000 * 100) by (nonlinear_arith)
                    requires
                        paid <= 0x2_0000_0000,
                ;
                paid * PERCENT_DIVISOR as u128 <= received * limit as u128
            },
            None => self.should_accept_trade(state, rules, player, counteroffer),
        }
    }
}

/// The lowest tile of the set `tiles`, which holds one.
pub fn lowest_tile(tiles: TileSetMask) -> (tile: TileId)
    requires
        tiles != 0,
    ensures
        tile < 64,
        tile_in(tiles, tile as int),
        forall|earlier: int| 0 <= earlier < tile ==> !tile_in(tiles, earlier),
        tile == lowest_tile_from(tiles, 0),
{
    proof {
        crate::game::tile::model::lemma_tiles_empty(tiles);
    }
    let mut tile: u8 = 0;
    while tile < 64
        invariant
            tile <= 64,
            exists|t: int| 0 <= t < 64 && tile_in(tiles, t),
            forall|earlier: int| 0 <= earlier < tile ==> !tile_in(tiles, earlier),
        decreases 64 - tile,
    {
        if contains_tile(tiles, tile) {
            proof {
                lemma_lowest_tile_from(tiles, tile as int, 0);
            }
            return tile;
        }
        tile = tile + 1;
    }
    tile
}

/// The lowest tile of `tiles` from the tile `from` on, or 64 where there is none.
pub open spec fn lowest_tile_from(tiles: TileSetMask, from: int) -> int
    decreases 64 - from,
{
    if from < 0 || from >= 64 {
        64
    } else if tile_in(tiles, from) {
        from
    } else {
        lowest_tile_from(tiles, from + 1)
    }
}

/// A tile of `tiles` with none of them below it, from `from` on, is the lowest from there.
pub proof fn lemma_lowest_tile_from(tiles: TileSetMask, tile: int, from: int)
    requires
        0 <= from <= tile < 64,
        tile_in(tiles, tile),
        forall|earlier: int| from <= earlier < tile ==> !tile_in(tiles, earlier),
    ensures
        lowest_tile_from(tiles, from) == tile,
    decreases tile - from,
{
    if from < tile {
        lemma_lowest_tile_from(tiles, tile, from + 1);
    }
}

} // verus!
