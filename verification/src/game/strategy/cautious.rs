use vstd::prelude::*;

use super::greedy::{
    cash_of,
    holds_any_jail_card,
    player_cash,
    price_of,
    spendable,
    tile_price,
};
use super::model::{
    JailAction,
    PlayerStrategy,
    DecidingPolicy,
    improvement_choice_by,
};
use crate::game::board::model::PlayerId;
use crate::game::engine::event::GameEvent;
use crate::game::engine::improvement::{
    can_improve_property,
    can_improve_spec,
    property_tile,
};
use crate::game::engine::trade::{
    calculate_tile_set_purchase_value,
    purchase_value_below,
};
use crate::game::ruleset::model::Ruleset;
use crate::game::state::model::GameState;
use crate::game::tile::data::{
    PROPERTY_COUNT,
    TILE_COUNT,
};
use crate::game::tile::lut::{
    HOUSE_PURCHASE_PRICE_BY_TILE_ID,
    PURCHASE_PRICE_BY_TILE_ID,
    TILE_ID_BY_PROPERTY_ID,
    UNMORTGAGE_PRICE_BY_TILE_ID,
    lemma_property_tables,
};
use crate::game::tile::model::{
    Cash,
    PropertyId,
    TileId,
    contains_tile,
};
use crate::game::trade::model::TradeOffer;

verus! {

/// How many times a price the cautious strategy wants to hold before it spends.
pub const PURCHASE_CASH_MULTIPLIER: Cash = 2;

/// The cautious strategy accepts a trade that brings it five fourths of what it gives.
pub const ACCEPTED_TRADE_VALUE_MULTIPLIER: Cash = 5;

pub const ACCEPTED_TRADE_VALUE_DIVISOR: Cash = 4;

/// Spends only when it holds twice the price on top of a cash reserve, and trades only for
/// a clear gain.
#[derive(Debug, Clone, Copy, PartialEq, Eq, Hash, Structural)]
pub struct CautiousStrategy {
    pub cash_reserve: Cash,
}

/// Whether the cautious strategy `strategy` buys `tile`: when a multiple of the price leaves
/// its reserve.
pub open spec fn cautious_buys<const N: usize>(strategy: CautiousStrategy, state: GameState<N>, player: PlayerId, tile: TileId) -> bool {
    cash_of(state, player as int) >= price_of(PURCHASE_PRICE_BY_TILE_ID@, tile as int) * PURCHASE_CASH_MULTIPLIER
        + strategy.cash_reserve
}

/// The highest bid of the cautious strategy `strategy` for `tile`: half the price, capped at the
/// cash above its reserve.
pub open spec fn cautious_bid<const N: usize>(strategy: CautiousStrategy, state: GameState<N>, player: PlayerId, tile: TileId) -> int {
    let spendable = spendable(cash_of(state, player as int) as int, strategy.cash_reserve as int);
    let half_price = price_of(PURCHASE_PRICE_BY_TILE_ID@, tile as int) / 2;
    if half_price < spendable {
        half_price
    } else {
        spendable
    }
}

/// The cautious strategy's way out of jail: its card, else bail when the bail leaves its
/// reserve, else the dice.
pub open spec fn cautious_jail_choice<const N: usize>(
    strategy: CautiousStrategy,
    state: GameState<N>,
    rules: Ruleset,
    player: PlayerId,
) -> JailAction {
    if holds_any_jail_card(state, player as int) {
        JailAction::UseGetOutOfJailFreeCard
    } else if cash_of(state, player as int) >= rules.jail_bail_amount + strategy.cash_reserve {
        JailAction::PayBail
    } else {
        JailAction::RollForDoubles
    }
}

/// Whether the cautious strategy accepts `offer`: when what it receives outweighs what it gives
/// by its margin.
pub open spec fn cautious_accepts(offer: TradeOffer) -> bool {
    (offer.offered_cash + purchase_value_below(offer.offered_tiles, TILE_COUNT as nat)) * ACCEPTED_TRADE_VALUE_DIVISOR
        > (offer.requested_cash + purchase_value_below(offer.requested_tiles, TILE_COUNT as nat))
        * ACCEPTED_TRADE_VALUE_MULTIPLIER
}

/// Whether `choice` is the cautious strategy's street to build on: the first that it can
/// afford, or none.
pub open spec fn cautious_improvement_choice<const N: usize>(
    strategy: CautiousStrategy,
    state: GameState<N>,
    rules: Ruleset,
    player: PlayerId,
    choice: Option<PropertyId>,
) -> bool {
    &&& choice matches Some(property) ==> property < PROPERTY_COUNT && cautious_can_build(strategy, state, rules, player, property as int)
    &&& forall|other: int|
        0 <= other < PROPERTY_COUNT && (choice matches Some(property) ==> other < property) ==> !cautious_can_build(
            strategy,
            state,
            rules,
            player,
            other,
        )
}

/// Whether the cautious strategy would build on `property`: it may, and can afford to.
pub open spec fn cautious_can_build<const N: usize>(
    strategy: CautiousStrategy,
    state: GameState<N>,
    rules: Ruleset,
    player: PlayerId,
    property: int,
) -> bool {
    can_improve_spec(state, rules, player as int, property) && cash_of(state, player as int)
        >= HOUSE_PURCHASE_PRICE_BY_TILE_ID@[property_tile(property)] * PURCHASE_CASH_MULTIPLIER + strategy.cash_reserve
}

/// Whether `choice` is the cautious strategy's tile to unmortgage: the first that it can
/// afford, or none.
pub open spec fn cautious_unmortgage_choice<const N: usize>(
    strategy: CautiousStrategy,
    state: GameState<N>,
    rules: Ruleset,
    player: PlayerId,
    choice: Option<TileId>,
) -> bool {
    &&& choice matches Some(tile) ==> tile < TILE_COUNT && cautious_can_unmortgage(strategy, state, player, tile as int)
    &&& forall|other: int|
        0 <= other < TILE_COUNT && (choice matches Some(tile) ==> other < tile) ==> !cautious_can_unmortgage(
            strategy,
            state,
            player,
            other,
        )
}

/// Whether the cautious strategy would unmortgage `tile`: it owns it mortgaged and can afford to.
pub open spec fn cautious_can_unmortgage<const N: usize>(strategy: CautiousStrategy, state: GameState<N>, player: PlayerId, tile: int) -> bool {
    state.board.owns(player as int, tile) && state.board.mortgaged(tile) && cash_of(state, player as int)
        >= UNMORTGAGE_PRICE_BY_TILE_ID@[tile] * PURCHASE_CASH_MULTIPLIER + strategy.cash_reserve
}

impl PlayerStrategy for CautiousStrategy {
    open spec fn policy_of(self) -> DecidingPolicy {
        DecidingPolicy::Cautious(self)
    }

    open spec fn observes(self, event: GameEvent, after: Self) -> bool {
        after == self
    }

    open spec fn chooses_purchase(self, cash: int, price: int, buy: bool, after: Self) -> bool {
        after == self && buy == (cash >= price * PURCHASE_CASH_MULTIPLIER + self.cash_reserve)
    }

    open spec fn chooses_bid(self, cash: int, price: int, bid: Cash, after: Self) -> bool {
        after == self && bid == if price / 2 < spendable(cash, self.cash_reserve as int) {
            price / 2
        } else {
            spendable(cash, self.cash_reserve as int)
        }
    }

    open spec fn records(self, event: GameEvent, after: Self) -> bool {
        after == self
    }


    fn observe_public_event(&mut self, event: GameEvent) {
    }

    fn record_event(&mut self, event: GameEvent) {
    }

    fn should_purchase_property<const N: usize>(
        &mut self,
        state: &GameState<N>,
        rules: &Ruleset,
        player: PlayerId,
        tile: TileId,
    ) -> (buy: bool)
        ensures
            buy == cautious_buys(*old(self), *state, player, tile),
            *final(self) == *old(self),
    {
        let price = tile_price(&PURCHASE_PRICE_BY_TILE_ID, tile) as u64;
        let multiplier = PURCHASE_CASH_MULTIPLIER as u64;
        assert(price * multiplier <= 0x2_0000_0000) by (nonlinear_arith)
            requires
                price <= 0xffff_ffff,
                multiplier == 2,
        ;
        player_cash(state, player) as u64 >= price * multiplier + self.cash_reserve as u64
    }

    fn choose_max_auction_bid<const N: usize>(
        &mut self,
        state: &GameState<N>,
        rules: &Ruleset,
        player: PlayerId,
        tile: TileId,
    ) -> (bid: Cash)
        ensures
            bid == cautious_bid(*old(self), *state, player, tile),
            *final(self) == *old(self),
    {
        let half_price = tile_price(&PURCHASE_PRICE_BY_TILE_ID, tile) / 2;
        let spendable = player_cash(state, player).saturating_sub(self.cash_reserve);
        if half_price < spendable {
            half_price
        } else {
            spendable
        }
    }

    open spec fn chooses_jail_action(
        self,
        cash: int,
        holds_jail_card: bool,
        unowned_tile_count: nat,
        rules: Ruleset,
        action: JailAction,
        after: Self,
    ) -> bool {
        after == self && action == if holds_jail_card {
            JailAction::UseGetOutOfJailFreeCard
        } else if cash >= rules.jail_bail_amount + self.cash_reserve {
            JailAction::PayBail
        } else {
            JailAction::RollForDoubles
        }
    }

    fn choose_jail_action<const N: usize>(&mut self, state: &GameState<N>, rules: &Ruleset, player: PlayerId) -> (action:
        JailAction)
        ensures
            action == cautious_jail_choice(*old(self), *state, *rules, player),
            *final(self) == *old(self),
    {
        if state.get_out_of_jail_free_card_holder_by_deck_kind[0] == Some(player)
            || state.get_out_of_jail_free_card_holder_by_deck_kind[1] == Some(player) {
            return JailAction::UseGetOutOfJailFreeCard;
        }
        if player_cash(state, player) as u64 >= rules.jail_bail_amount as u64 + self.cash_reserve as u64 {
            return JailAction::PayBail;
        }
        JailAction::RollForDoubles
    }

    #[verifier::spinoff_prover]
    fn choose_property_to_improve<const N: usize>(
        &mut self,
        state: &GameState<N>,
        rules: &Ruleset,
        player: PlayerId,
    ) -> (choice: Option<PropertyId>)
        ensures
            cautious_improvement_choice(*old(self), *state, *rules, player, choice),
    {
        let cash = player_cash(state, player) as u64;
        let mut property: u8 = 0;
        while (property as usize) < PROPERTY_COUNT
            invariant
                N <= 256,
                property <= PROPERTY_COUNT,
                cash == cash_of(*state, player as int),
                forall|other: int|
                    0 <= other < property ==> !(can_improve_spec(*state, *rules, player as int, other) && cash_of(
                        *state,
                        player as int,
                    ) >= HOUSE_PURCHASE_PRICE_BY_TILE_ID@[property_tile(other)] * PURCHASE_CASH_MULTIPLIER
                        + self.cash_reserve),
            decreases PROPERTY_COUNT - property,
        {
            proof {
                lemma_property_tables(property as int);
            }
            let price = HOUSE_PURCHASE_PRICE_BY_TILE_ID[TILE_ID_BY_PROPERTY_ID[property as usize] as usize] as u64;
            if cash >= price * PURCHASE_CASH_MULTIPLIER as u64 + self.cash_reserve as u64 && can_improve_property(
                state,
                rules,
                player,
                property,
            ) {
                proof {
                    assert(improvement_choice_by(self.policy_of(), *state, *rules, player, Some(property)));
                }
                return Some(property);
            }
            property = property + 1;
        }
        assert(improvement_choice_by(self.policy_of(), *state, *rules, player, None));
        None
    }

    fn choose_tile_to_unmortgage<const N: usize>(
        &mut self,
        state: &GameState<N>,
        rules: &Ruleset,
        player: PlayerId,
    ) -> (choice: Option<TileId>)
        ensures
            cautious_unmortgage_choice(*old(self), *state, *rules, player, choice),
    {
        if (player as usize) >= N {
            return None;
        }
        let cash = state.cash_by_player_id[player as usize] as u64;
        let owned = state.board.owned_tiles_by_player_id[player as usize];
        let mut tile: u8 = 0;
        while (tile as usize) < TILE_COUNT
            invariant
                (player as usize) < N,
                tile <= TILE_COUNT,
                cash == cash_of(*state, player as int),
                owned == state.board.owned_tiles_by_player_id@[player as int],
                forall|other: int|
                    0 <= other < tile ==> !(state.board.owns(player as int, other) && state.board.mortgaged(other)
                        && cash_of(*state, player as int) >= UNMORTGAGE_PRICE_BY_TILE_ID@[other] * PURCHASE_CASH_MULTIPLIER
                        + self.cash_reserve),
            decreases TILE_COUNT - tile,
        {
            let price = UNMORTGAGE_PRICE_BY_TILE_ID[tile as usize] as u64;
            assert(price * (PURCHASE_CASH_MULTIPLIER as u64) <= 0xffff * 2) by (nonlinear_arith)
                requires
                    price <= 0xffff,
            ;
            if contains_tile(owned, tile) && contains_tile(state.board.mortgaged_tiles, tile) && cash
                >= price * PURCHASE_CASH_MULTIPLIER as u64
                + self.cash_reserve as u64 {
                return Some(tile);
            }
            tile = tile + 1;
        }
        None
    }

    fn propose_trade<const N: usize>(&mut self, state: &GameState<N>, rules: &Ruleset, player: PlayerId) -> (offer: Option<
        TradeOffer,
    >)
        ensures
            offer is None,
    {
        None
    }

    fn should_accept_trade<const N: usize>(
        &mut self,
        state: &GameState<N>,
        rules: &Ruleset,
        player: PlayerId,
        offer: &TradeOffer,
    ) -> (accept: bool)
        ensures
            accept == cautious_accepts(*offer),
    {
        let received = offer.offered_cash as u64 + calculate_tile_set_purchase_value(offer.offered_tiles) as u64;
        let given = offer.requested_cash as u64 + calculate_tile_set_purchase_value(offer.requested_tiles) as u64;
        let divisor = ACCEPTED_TRADE_VALUE_DIVISOR as u64;
        let multiplier = ACCEPTED_TRADE_VALUE_MULTIPLIER as u64;
        assert(received * divisor <= 0x10_0000_0000 && given * multiplier <= 0x10_0000_0000) by (nonlinear_arith)
            requires
                received <= 0x1_ffff_fffe,
                given <= 0x1_ffff_fffe,
                divisor == 4,
                multiplier == 5,
        ;
        received * divisor > given * multiplier
    }
}

} // verus!
