use vstd::prelude::*;

use super::model::{
    JailAction,
    PlayerStrategy,
    DecidingPolicy,
    improvement_choice_by,
};
use crate::game::board::model::PlayerId;
use crate::game::engine::event::GameEvent;
use crate::game::engine::improvement::{
    can_improve_property,
    can_improve_spec,
    property_tile,
};
use crate::game::engine::trade::{
    calculate_tile_set_purchase_value,
    purchase_value_below,
};
use crate::game::ruleset::model::Ruleset;
use crate::game::state::model::GameState;
use crate::game::tile::data::{
    PROPERTY_COUNT,
    TILE_COUNT,
};
use crate::game::tile::lut::{
    HOUSE_PURCHASE_PRICE_BY_TILE_ID,
    PURCHASE_PRICE_BY_TILE_ID,
    TILE_ID_BY_PROPERTY_ID,
    UNMORTGAGE_PRICE_BY_TILE_ID,
    lemma_property_tables,
};
use crate::game::tile::model::{
    Cash,
    PropertyId,
    TileId,
    contains_tile,
};
use crate::game::trade::model::TradeOffer;

verus! {

/// Buys whatever it can afford while keeping a cash reserve.
#[derive(Debug, Clone, Copy, PartialEq, Eq, Hash, Structural)]
pub struct GreedyStrategy {
    pub cash_reserve: Cash,
}

/// The cash of `player`, or nothing for a player who is not in the game.
pub open spec fn cash_of<const N: usize>(state: GameState<N>, player: int) -> int {
    if 0 <= player < N {
        state.cash(player) as int
    } else {
        0
    }
}

/// The printed price of `tile`, or nothing for a tile that is not on the board.
pub open spec fn price_of(prices: Seq<u16>, tile: int) -> int {
    if 0 <= tile < TILE_COUNT {
        prices[tile] as int
    } else {
        0
    }
}

/// Whether `player` holds a jail card of either deck.
pub open spec fn holds_any_jail_card<const N: usize>(state: GameState<N>, player: int) -> bool {
    state.get_out_of_jail_free_card_holder_by_deck_kind@[0] == Some(player as PlayerId)
        || state.get_out_of_jail_free_card_holder_by_deck_kind@[1] == Some(player as PlayerId)
}

/// The cash of `player`, or nothing for a player who is not in the game.
pub fn player_cash<const N: usize>(state: &GameState<N>, player: PlayerId) -> (cash: Cash)
    ensures
        cash == cash_of(*state, player as int),
{
    if (player as usize) < N {
        state.cash_by_player_id[player as usize]
    } else {
        0
    }
}

/// The price in `prices` of `tile`, or nothing for a tile that is not on the board.
pub fn tile_price(prices: &[u16; 40], tile: TileId) -> (price: Cash)
    ensures
        price == price_of(prices@, tile as int),
{
    if (tile as usize) < TILE_COUNT {
        prices[tile as usize] as Cash
    } else {
        0
    }
}

/// Whether the greedy strategy `strategy` buys `tile`: when the price leaves its reserve.
pub open spec fn greedy_buys<const N: usize>(strategy: GreedyStrategy, state: GameState<N>, player: PlayerId, tile: TileId) -> bool {
    cash_of(state, player as int) >= price_of(PURCHASE_PRICE_BY_TILE_ID@, tile as int) + strategy.cash_reserve
}

/// The cash that `amount` leaves above `reserve`, or nothing.
pub open spec fn spendable(amount: int, reserve: int) -> int {
    if amount >= reserve {
        amount - reserve
    } else {
        0
    }
}

/// The highest bid of the greedy strategy `strategy` for `tile`: the price, capped at the cash
/// above its reserve.
pub open spec fn greedy_bid<const N: usize>(strategy: GreedyStrategy, state: GameState<N>, player: PlayerId, tile: TileId) -> int {
    let spendable = spendable(cash_of(state, player as int) as int, strategy.cash_reserve as int);
    let price = price_of(PURCHASE_PRICE_BY_TILE_ID@, tile as int);
    if price < spendable {
        price
    } else {
        spendable
    }
}

/// The greedy strategy's way out of jail: its card, or else the dice.
pub open spec fn greedy_jail_choice<const N: usize>(state: GameState<N>, player: PlayerId) -> JailAction {
    if holds_any_jail_card(state, player as int) {
        JailAction::UseGetOutOfJailFreeCard
    } else {
        JailAction::RollForDoubles
    }
}

/// Whether the greedy strategy accepts `offer`: when it receives more purchase value than it
/// gives.
pub open spec fn greedy_accepts(offer: TradeOffer) -> bool {
    offer.offered_cash + purchase_value_below(offer.offered_tiles, TILE_COUNT as nat) > offer.requested_cash
        + purchase_value_below(offer.requested_tiles, TILE_COUNT as nat)
}

/// Whether `choice` is the greedy strategy's street to build on: the first that it can
/// afford, or none.
pub open spec fn greedy_improvement_choice<const N: usize>(
    strategy: GreedyStrategy,
    state: GameState<N>,
    rules: Ruleset,
    player: PlayerId,
    choice: Option<PropertyId>,
) -> bool {
    &&& choice matches Some(property) ==> property < PROPERTY_COUNT && greedy_can_build(strategy, state, rules, player, property as int)
    &&& forall|other: int|
        0 <= other < PROPERTY_COUNT && (choice matches Some(property) ==> other < property) ==> !greedy_can_build(
            strategy,
            state,
            rules,
            player,
            other,
        )
}

/// Whether the greedy strategy would build on `property`: it may, and can afford to.
pub open spec fn greedy_can_build<const N: usize>(
    strategy: GreedyStrategy,
    state: GameState<N>,
    rules: Ruleset,
    player: PlayerId,
    property: int,
) -> bool {
    can_improve_spec(state, rules, player as int, property) && cash_of(state, player as int)
        >= HOUSE_PURCHASE_PRICE_BY_TILE_ID@[property_tile(property)] + strategy.cash_reserve
}

/// Whether `choice` is the greedy strategy's tile to unmortgage: the first that it can
/// afford, or none.
pub open spec fn greedy_unmortgage_choice<const N: usize>(
    strategy: GreedyStrategy,
    state: GameState<N>,
    rules: Ruleset,
    player: PlayerId,
    choice: Option<TileId>,
) -> bool {
    &&& choice matches Some(tile) ==> tile < TILE_COUNT && greedy_can_unmortgage(strategy, state, player, tile as int)
    &&& forall|other: int|
        0 <= other < TILE_COUNT && (choice matches Some(tile) ==> other < tile) ==> !greedy_can_unmortgage(
            strategy,
            state,
            player,
            other,
        )
}

/// Whether the greedy strategy would unmortgage `tile`: it owns it mortgaged and can afford to.
pub open spec fn greedy_can_unmortgage<const N: usize>(strategy: GreedyStrategy, state: GameState<N>, player: PlayerId, tile: int) -> bool {
    state.board.owns(player as int, tile) && state.board.mortgaged(tile) && cash_of(state, player as int)
        >= UNMORTGAGE_PRICE_BY_TILE_ID@[tile] + strategy.cash_reserve
}

impl PlayerStrategy for GreedyStrategy {
    open spec fn policy_of(self) -> DecidingPolicy {
        DecidingPolicy::Greedy(self)
    }

    open spec fn observes(self, event: GameEvent, after: Self) -> bool {
        after == self
    }

    open spec fn chooses_purchase(self, cash: int, price: int, buy: bool, after: Self) -> bool {
        after == self && buy == (cash >= price + self.cash_reserve)
    }

    open spec fn chooses_bid(self, cash: int, price: int, bid: Cash, after: Self) -> bool {
        after == self && bid == if price < spendable(cash, self.cash_reserve as int) {
            price
        } else {
            spendable(cash, self.cash_reserve as int)
        }
    }

    open spec fn records(self, event: GameEvent, after: Self) -> bool {
        after == self
    }


    fn observe_public_event(&mut self, event: GameEvent) {
    }

    fn record_event(&mut self, event: GameEvent) {
    }

    fn should_purchase_property<const N: usize>(
        &mut self,
        state: &GameState<N>,
        rules: &Ruleset,
        player: PlayerId,
        tile: TileId,
    ) -> (buy: bool)
        ensures
            buy == greedy_buys(*old(self), *state, player, tile),
            *final(self) == *old(self),
    {
        let price = tile_price(&PURCHASE_PRICE_BY_TILE_ID, tile);
        player_cash(state, player) as u64 >= price as u64 + self.cash_reserve as u64
    }

    fn choose_max_auction_bid<const N: usize>(
        &mut self,
        state: &GameState<N>,
        rules: &Ruleset,
        player: PlayerId,
        tile: TileId,
    ) -> (bid: Cash)
        ensures
            bid == greedy_bid(*old(self), *state, player, tile),
            *final(self) == *old(self),
    {
        let price = tile_price(&PURCHASE_PRICE_BY_TILE_ID, tile);
        let spendable = player_cash(state, player).saturating_sub(self.cash_reserve);
        if price < spendable {
            price
        } else {
            spendable
        }
    }

    open spec fn chooses_jail_action(
        self,
        cash: int,
        holds_jail_card: bool,
        unowned_tile_count: nat,
        rules: Ruleset,
        action: JailAction,
        after: Self,
    ) -> bool {
        after == self && action == if holds_jail_card {
            JailAction::UseGetOutOfJailFreeCard
        } else {
            JailAction::RollForDoubles
        }
    }

    fn choose_jail_action<const N: usize>(&mut self, state: &GameState<N>, rules: &Ruleset, player: PlayerId) -> (action:
        JailAction)
        ensures
            action == greedy_jail_choice(*state, player),
            *final(self) == *old(self),
    {
        if state.get_out_of_jail_free_card_holder_by_deck_kind[0] == Some(player)
            || state.get_out_of_jail_free_card_holder_by_deck_kind[1] == Some(player) {
            JailAction::UseGetOutOfJailFreeCard
        } else {
            JailAction::RollForDoubles
        }
    }

    fn choose_property_to_improve<const N: usize>(
        &mut self,
        state: &GameState<N>,
        rules: &Ruleset,
        player: PlayerId,
    ) -> (choice: Option<PropertyId>)
        ensures
            greedy_improvement_choice(*old(self), *state, *rules, player, choice),
    {
        let cash = player_cash(state, player) as u64;
        let mut property: u8 = 0;
        while (property as usize) < PROPERTY_COUNT
            invariant
                N <= 256,
                property <= PROPERTY_COUNT,
                cash == cash_of(*state, player as int),
                forall|other: int|
                    0 <= other < property ==> !(can_improve_spec(*state, *rules, player as int, other) && cash_of(
                        *state,
                        player as int,
                    ) >= HOUSE_PURCHASE_PRICE_BY_TILE_ID@[property_tile(other)] + self.cash_reserve),
            decreases PROPERTY_COUNT - property,
        {
            proof {
                lemma_property_tables(property as int);
            }
            let price = HOUSE_PURCHASE_PRICE_BY_TILE_ID[TILE_ID_BY_PROPERTY_ID[property as usize] as usize] as u64;
            if cash >= price + self.cash_reserve as u64 && can_improve_property(state, rules, player, property) {
                proof {
                    assert(improvement_choice_by(self.policy_of(), *state, *rules, player, Some(property)));
                }
                return Some(property);
            }
            property = property + 1;
        }
        assert(improvement_choice_by(self.policy_of(), *state, *rules, player, None));
        None
    }

    fn choose_tile_to_unmortgage<const N: usize>(
        &mut self,
        state: &GameState<N>,
        rules: &Ruleset,
        player: PlayerId,
    ) -> (choice: Option<TileId>)
        ensures
            greedy_unmortgage_choice(*old(self), *state, *rules, player, choice),
    {
        if (player as usize) >= N {
            return None;
        }
        let cash = state.cash_by_player_id[player as usize] as u64;
        let owned = state.board.owned_tiles_by_player_id[player as usize];
        let mut tile: u8 = 0;
        while (tile as usize) < TILE_COUNT
            invariant
                (player as usize) < N,
                tile <= TILE_COUNT,
                cash == cash_of(*state, player as int),
                owned == state.board.owned_tiles_by_player_id@[player as int],
                forall|other: int|
                    0 <= other < tile ==> !(state.board.owns(player as int, other) && state.board.mortgaged(other)
                        && cash_of(*state, player as int) >= UNMORTGAGE_PRICE_BY_TILE_ID@[other] + self.cash_reserve),
            decreases TILE_COUNT - tile,
        {
            if contains_tile(owned, tile) && contains_tile(state.board.mortgaged_tiles, tile) && cash
                >= UNMORTGAGE_PRICE_BY_TILE_ID[tile as usize] as u64 + self.cash_reserve as u64 {
                return Some(tile);
            }
            tile = tile + 1;
        }
        None
    }

    fn propose_trade<const N: usize>(&mut self, state: &GameState<N>, rules: &Ruleset, player: PlayerId) -> (offer: Option<
        TradeOffer,
    >)
        ensures
            offer is None,
    {
        None
    }

    fn should_accept_trade<const N: usize>(
        &mut self,
        state: &GameState<N>,
        rules: &Ruleset,
        player: PlayerId,
        offer: &TradeOffer,
    ) -> (accept: bool)
        ensures
            accept == greedy_accepts(*offer),
    {
        let received = offer.offered_cash as u64 + calculate_tile_set_purchase_value(offer.offered_tiles) as u64;
        let given = offer.requested_cash as u64 + calculate_tile_set_purchase_value(offer.requested_tiles) as u64;
        received > given
    }
}

} // verus!
