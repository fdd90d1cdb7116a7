use vstd::prelude::*;

use super::cautious::{
    CautiousStrategy,
    cautious_accepts,
    cautious_bid,
    cautious_buys,
    cautious_improvement_choice,
    cautious_jail_choice,
    cautious_unmortgage_choice,
};
use super::greedy::{
    GreedyStrategy,
    greedy_accepts,
    greedy_bid,
    greedy_buys,
    greedy_improvement_choice,
    greedy_jail_choice,
    greedy_unmortgage_choice,
};
use super::model::{
    JailAction,
    PlayerStrategy,
    DecidingPolicy,
};
use crate::game::board::model::PlayerId;
use crate::game::engine::event::GameEvent;
use crate::game::engine::liquidation::{
    LiquidationAction,
    default_liquidation_spec,
};
use crate::game::ruleset::model::Ruleset;
use crate::game::state::model::GameState;
use crate::game::tile::model::{
    Cash,
    PropertyId,
    TileId,
};
use crate::game::trade::model::TradeOffer;

verus! {

/// One of the fixed strategies, chosen at run time. Each decision is the chosen strategy's.
#[derive(Debug, Clone, Copy, PartialEq, Eq, Hash, Structural)]
pub enum AnyStrategy {
    Greedy(GreedyStrategy),
    Cautious(CautiousStrategy),
}

impl PlayerStrategy for AnyStrategy {
    open spec fn policy_of(self) -> DecidingPolicy {
        match self {
            AnyStrategy::Greedy(strategy) => DecidingPolicy::Greedy(strategy),
            AnyStrategy::Cautious(strategy) => DecidingPolicy::Cautious(strategy),
        }
    }

    open spec fn observes(self, event: GameEvent, after: Self) -> bool {
        after == self
    }

    open spec fn records(self, event: GameEvent, after: Self) -> bool {
        after == self
    }

    open spec fn chooses_purchase(self, cash: int, price: int, buy: bool, after: Self) -> bool {
        after == self && match self {
            AnyStrategy::Greedy(strategy) => strategy.chooses_purchase(cash, price, buy, strategy),
            AnyStrategy::Cautious(strategy) => strategy.chooses_purchase(cash, price, buy, strategy),
        }
    }

    open spec fn chooses_bid(self, cash: int, price: int, bid: Cash, after: Self) -> bool {
        after == self && match self {
            AnyStrategy::Greedy(strategy) => strategy.chooses_bid(cash, price, bid, strategy),
            AnyStrategy::Cautious(strategy) => strategy.chooses_bid(cash, price, bid, strategy),
        }
    }

    open spec fn chooses_jail_action(
        self,
        cash: int,
        holds_jail_card: bool,
        unowned_tile_count: nat,
        rules: Ruleset,
        action: JailAction,
        after: Self,
    ) -> bool {
        after == self && match self {
            AnyStrategy::Greedy(strategy) => strategy.chooses_jail_action(
                cash,
                holds_jail_card,
                unowned_tile_count,
                rules,
                action,
                strategy,
            ),
            AnyStrategy::Cautious(strategy) => strategy.chooses_jail_action(
                cash,
                holds_jail_card,
                unowned_tile_count,
                rules,
                action,
                strategy,
            ),
        }
    }


    fn observe_public_event(&mut self, event: GameEvent) {
    }

    fn record_event(&mut self, event: GameEvent) {
    }

    fn choose_liquidation_action<const N: usize>(
        &mut self,
        state: &GameState<N>,
        rules: &Ruleset,
        player: PlayerId,
        required_amount: Cash,
    ) -> (action: Option<LiquidationAction>)
        ensures
            *final(self) == *old(self),
            default_liquidation_spec(*state, *rules, player as int, action),
    {
        match *self {
            AnyStrategy::Greedy(mut strategy) => strategy.choose_liquidation_action(state, rules, player, required_amount),
            AnyStrategy::Cautious(mut strategy) => strategy.choose_liquidation_action(state, rules, player, required_amount),
        }
    }

    fn should_purchase_property<const N: usize>(
        &mut self,
        state: &GameState<N>,
        rules: &Ruleset,
        player: PlayerId,
        tile: TileId,
    ) -> (buy: bool)
        ensures
            *final(self) == *old(self),
            buy == match *old(self) {
                AnyStrategy::Greedy(strategy) => greedy_buys(strategy, *state, player, tile),
                AnyStrategy::Cautious(strategy) => cautious_buys(strategy, *state, player, tile),
            },
    {
        match *self {
            AnyStrategy::Greedy(mut strategy) => strategy.should_purchase_property(state, rules, player, tile),
            AnyStrategy::Cautious(mut strategy) => strategy.should_purchase_property(state, rules, player, tile),
        }
    }

    fn choose_max_auction_bid<const N: usize>(
        &mut self,
        state: &GameState<N>,
        rules: &Ruleset,
        player: PlayerId,
        tile: TileId,
    ) -> (bid: Cash)
        ensures
            *final(self) == *old(self),
            bid == match *old(self) {
                AnyStrategy::Greedy(strategy) => greedy_bid(strategy, *state, player, tile),
                AnyStrategy::Cautious(strategy) => cautious_bid(strategy, *state, player, tile),
            },
    {
        match *self {
            AnyStrategy::Greedy(mut strategy) => strategy.choose_max_auction_bid(state, rules, player, tile),
            AnyStrategy::Cautious(mut strategy) => strategy.choose_max_auction_bid(state, rules, player, tile),
        }
    }

    fn choose_jail_action<const N: usize>(&mut self, state: &GameState<N>, rules: &Ruleset, player: PlayerId) -> (action:
        JailAction)
        ensures
            *final(self) == *old(self),
            action == match *old(self) {
                AnyStrategy::Greedy(strategy) => greedy_jail_choice(*state, player),
                AnyStrategy::Cautious(strategy) => cautious_jail_choice(strategy, *state, *rules, player),
            },
    {
        match *self {
            AnyStrategy::Greedy(mut strategy) => strategy.choose_jail_action(state, rules, player),
            AnyStrategy::Cautious(mut strategy) => strategy.choose_jail_action(state, rules, player),
        }
    }

    fn choose_property_to_improve<const N: usize>(
        &mut self,
        state: &GameState<N>,
        rules: &Ruleset,
        player: PlayerId,
    ) -> (choice: Option<PropertyId>)
        ensures
            *final(self) == *old(self),
            match *old(self) {
                AnyStrategy::Greedy(strategy) => greedy_improvement_choice(strategy, *state, *rules, player, choice),
                AnyStrategy::Cautious(strategy) => cautious_improvement_choice(strategy, *state, *rules, player, choice),
            },
    {
        match *self {
            AnyStrategy::Greedy(mut strategy) => strategy.choose_property_to_improve(state, rules, player),
            AnyStrategy::Cautious(mut strategy) => strategy.choose_property_to_improve(state, rules, player),
        }
    }

    fn choose_tile_to_unmortgage<const N: usize>(
        &mut self,
        state: &GameState<N>,
        rules: &Ruleset,
        player: PlayerId,
    ) -> (choice: Option<TileId>)
        ensures
            *final(self) == *old(self),
            match *old(self) {
                AnyStrategy::Greedy(strategy) => greedy_unmortgage_choice(strategy, *state, *rules, player, choice),
                AnyStrategy::Cautious(strategy) => cautious_unmortgage_choice(strategy, *state, *rules, player, choice),
            },
    {
        match *self {
            AnyStrategy::Greedy(mut strategy) => strategy.choose_tile_to_unmortgage(state, rules, player),
            AnyStrategy::Cautious(mut strategy) => strategy.choose_tile_to_unmortgage(state, rules, player),
        }
    }

    fn propose_trade<const N: usize>(&mut self, state: &GameState<N>, rules: &Ruleset, player: PlayerId) -> (offer: Option<
        TradeOffer,
    >)
        ensures
            *final(self) == *old(self),
            offer is None,
    {
        match *self {
            AnyStrategy::Greedy(mut strategy) => strategy.propose_trade(state, rules, player),
            AnyStrategy::Cautious(mut strategy) => strategy.propose_trade(state, rules, player),
        }
    }

    fn should_accept_trade<const N: usize>(
        &mut self,
        state: &GameState<N>,
        rules: &Ruleset,
        player: PlayerId,
        offer: &TradeOffer,
    ) -> (accept: bool)
        ensures
            *final(self) == *old(self),
            accept == match *old(self) {
                AnyStrategy::Greedy(strategy) => greedy_accepts(*offer),
                AnyStrategy::Cautious(strategy) => cautious_accepts(*offer),
            },
    {
        match *self {
            AnyStrategy::Greedy(mut strategy) => strategy.should_accept_trade(state, rules, player, offer),
            AnyStrategy::Cautious(mut strategy) => strategy.should_accept_trade(state, rules, player, offer),
        }
    }
}

} // verus!
