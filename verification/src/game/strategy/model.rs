use vstd::prelude::*;

use crate::game::board::model::PlayerId;
use crate::game::engine::action::{
    LegalManagementActions,
    ManagementAction,
    ManagementPhase,
    management_action_legal,
};
use crate::game::engine::event::GameEvent;
use crate::game::engine::liquidation::{
    LiquidationAction,
    default_liquidation_action,
    default_liquidation_spec,
};
use crate::game::ruleset::model::Ruleset;
use crate::game::state::model::GameState;
use crate::game::strategy::cautious::{
    CautiousStrategy,
    cautious_accepts,
    cautious_improvement_choice,
    cautious_unmortgage_choice,
};
use crate::game::strategy::configurable::{
    ConfigurableStrategy,
    accepts_counteroffer,
    accepts_trade,
    configurable_improvement_choice,
    configurable_liquidation_choice,
    configurable_trade_offer,
    counteroffer_spec,
    configurable_unmortgage_choice,
    unowned_tile_count,
};
use crate::game::strategy::greedy::{
    GreedyStrategy,
    greedy_accepts,
    greedy_improvement_choice,
    greedy_unmortgage_choice,
};
use crate::game::strategy::rollout::RolloutConfig;
use crate::game::strategy::greedy::{
    cash_of,
    holds_any_jail_card,
    price_of,
};
use crate::game::tile::lut::PURCHASE_PRICE_BY_TILE_ID;
use crate::game::tile::model::{
    Cash,
    PropertyId,
    TileId,
};
use crate::game::trade::model::TradeOffer;

verus! {

#[derive(Debug, Clone, Copy, PartialEq, Eq, Hash, Structural)]
pub enum JailAction {
    RollForDoubles,
    PayBail,
    UseGetOutOfJailFreeCard,
}

/// The policy of a strategy of this library, by which it decides.
#[derive(Debug, Clone, Copy, PartialEq, Eq, Structural)]
pub enum DecidingPolicy {
    Greedy(GreedyStrategy),
    Cautious(CautiousStrategy),
    Configurable(ConfigurableStrategy),
    Rollout(ConfigurableStrategy, Option<RolloutConfig>),
    Unknown,
}

/// Whether `choice` may be the street that a player deciding by `policy` builds on next; a
/// rollout player builds as its baseline does, and of an unknown policy nothing is known.
pub open spec fn improvement_choice_by<const N: usize>(
    policy: DecidingPolicy,
    state: GameState<N>,
    rules: Ruleset,
    player: PlayerId,
    choice: Option<PropertyId>,
) -> bool {
    match policy {
        DecidingPolicy::Greedy(strategy) => greedy_improvement_choice(strategy, state, rules, player, choice),
        DecidingPolicy::Cautious(strategy) => cautious_improvement_choice(strategy, state, rules, player, choice),
        DecidingPolicy::Configurable(strategy) => configurable_improvement_choice(strategy, state, rules, player, choice),
        DecidingPolicy::Rollout(baseline, _) => configurable_improvement_choice(baseline, state, rules, player, choice),
        DecidingPolicy::Unknown => true,
    }
}

/// Whether `choice` may be the tile that a player deciding by `policy` unmortgages next; a
/// rollout player unmortgages as its baseline does, and of an unknown policy nothing is known.
pub open spec fn unmortgage_choice_by<const N: usize>(
    policy: DecidingPolicy,
    state: GameState<N>,
    rules: Ruleset,
    player: PlayerId,
    choice: Option<TileId>,
) -> bool {
    match policy {
        DecidingPolicy::Greedy(strategy) => greedy_unmortgage_choice(strategy, state, rules, player, choice),
        DecidingPolicy::Cautious(strategy) => cautious_unmortgage_choice(strategy, state, rules, player, choice),
        DecidingPolicy::Configurable(strategy) => configurable_unmortgage_choice(strategy, state, player, choice),
        DecidingPolicy::Rollout(baseline, _) => configurable_unmortgage_choice(baseline, state, player, choice),
        DecidingPolicy::Unknown => true,
    }
}

/// Whether `choice` may be the liquidation that a player deciding by `policy` answers: the
/// greedy and cautious players liquidate as the engine's default does, a configurable or
/// rollout player by its own order or, where it leaves the choice to the trait's default, as the
/// default does; of an unknown policy nothing is known.
pub open spec fn liquidation_choice_by<const N: usize>(
    policy: DecidingPolicy,
    state: GameState<N>,
    rules: Ruleset,
    player: PlayerId,
    choice: Option<LiquidationAction>,
) -> bool {
    match policy {
        DecidingPolicy::Greedy(_) => default_liquidation_spec(state, rules, player as int, choice),
        DecidingPolicy::Cautious(_) => default_liquidation_spec(state, rules, player as int, choice),
        DecidingPolicy::Configurable(strategy) => configurable_liquidation_choice(strategy, state, rules, player, choice)
            || default_liquidation_spec(state, rules, player as int, choice),
        DecidingPolicy::Rollout(baseline, _) => configurable_liquidation_choice(baseline, state, rules, player, choice)
            || default_liquidation_spec(state, rules, player as int, choice),
        DecidingPolicy::Unknown => true,
    }
}

/// Whether `offer` may be the trade that a player deciding by `policy` proposes: the greedy and
/// cautious players propose none, a configurable or rollout player the offer of its (baseline)
/// configuration; of an unknown policy nothing is known.
pub open spec fn trade_proposal_by<const N: usize>(
    policy: DecidingPolicy,
    state: GameState<N>,
    rules: Ruleset,
    player: PlayerId,
    offer: Option<TradeOffer>,
) -> bool {
    match policy {
        DecidingPolicy::Greedy(_) => offer is None,
        DecidingPolicy::Cautious(_) => offer is None,
        DecidingPolicy::Configurable(strategy) => offer == configurable_trade_offer(strategy, state, rules, player),
        DecidingPolicy::Rollout(baseline, _) => offer == configurable_trade_offer(baseline, state, rules, player),
        DecidingPolicy::Unknown => true,
    }
}

/// Whether a player deciding by `policy` may answer `accept` to the trade `offer`.
pub open spec fn trade_acceptance_by<const N: usize>(
    policy: DecidingPolicy,
    state: GameState<N>,
    player: PlayerId,
    offer: TradeOffer,
    accept: bool,
) -> bool {
    match policy {
        DecidingPolicy::Greedy(_) => accept == greedy_accepts(offer),
        DecidingPolicy::Cautious(_) => accept == cautious_accepts(offer),
        DecidingPolicy::Configurable(strategy) => accept == accepts_trade(strategy, state, player as int, offer),
        DecidingPolicy::Rollout(baseline, _) => accept == accepts_trade(baseline, state, player as int, offer),
        DecidingPolicy::Unknown => true,
    }
}

/// Whether a player deciding by `policy` may answer the refused offer `rejected` with `counter`:
/// a configurable player with its counteroffer, or none where it leaves the answer to the
/// trait's default; the other known policies make none.
pub open spec fn counteroffer_by(policy: DecidingPolicy, rejected: TradeOffer, counter: Option<TradeOffer>) -> bool {
    match policy {
        DecidingPolicy::Configurable(strategy) => counter == counteroffer_spec(strategy, rejected) || counter is None,
        DecidingPolicy::Unknown => true,
        _ => counter is None,
    }
}

/// Whether a player deciding by `policy` may answer `accept` to the `counter` made to its
/// refused offer: as to any offer, or, for a configurable player that has its own rule, by that
/// rule.
pub open spec fn counter_acceptance_by<const N: usize>(
    policy: DecidingPolicy,
    state: GameState<N>,
    player: PlayerId,
    counter: TradeOffer,
    accept: bool,
) -> bool {
    match policy {
        DecidingPolicy::Configurable(strategy) => accept == accepts_counteroffer(strategy, state, player as int, counter)
            || trade_acceptance_by(policy, state, player, counter, accept),
        _ => trade_acceptance_by(policy, state, player, counter, accept),
    }
}

/// `action` where the rules let `player` take it in the management `phase`, and none otherwise.
pub open spec fn legal_or_none<const N: usize>(
    state: GameState<N>,
    rules: Ruleset,
    player: PlayerId,
    phase: ManagementPhase,
    action: Option<ManagementAction>,
) -> Option<ManagementAction> {
    match action {
        Some(action) => if management_action_legal(state, rules, player as int, phase, action) {
            Some(action)
        } else {
            None
        },
        None => None,
    }
}

/// Whether a player deciding by `policy` may answer `chosen` in the management `phase`: the
/// street or tile that the policy picks, where the rules allow it, and no action otherwise. A
/// player that decides by rollouts, or by an unknown policy, may answer anything.
pub open spec fn management_choice_by<const N: usize>(
    policy: DecidingPolicy,
    state: GameState<N>,
    rules: Ruleset,
    player: PlayerId,
    phase: ManagementPhase,
    chosen: Option<ManagementAction>,
) -> bool {
    match policy {
        DecidingPolicy::Rollout(_, Some(_)) => true,
        DecidingPolicy::Unknown => true,
        _ => match phase {
            ManagementPhase::Building => exists|choice: Option<PropertyId>|
                #[trigger] improvement_choice_by(policy, state, rules, player, choice) && chosen == legal_or_none(
                    state,
                    rules,
                    player,
                    phase,
                    match choice {
                        Some(property) => Some(ManagementAction::Build(property)),
                        None => None,
                    },
                ),
            ManagementPhase::Unmortgaging => exists|choice: Option<TileId>|
                #[trigger] unmortgage_choice_by(policy, state, rules, player, choice) && chosen == legal_or_none(
                    state,
                    rules,
                    player,
                    phase,
                    match choice {
                        Some(tile) => Some(ManagementAction::Unmortgage(tile)),
                        None => None,
                    },
                ),
        },
    }
}

/// Whether the players `after` decide by the same policies as the players `before`, seat by
/// seat.
pub open spec fn policies_kept<S: PlayerStrategy>(before: Seq<S>, after: Seq<S>) -> bool {
    &&& after.len() == before.len()
    &&& forall|seat: int| 0 <= seat < before.len() ==> #[trigger] after[seat].policy_of() == before[seat].policy_of()
}

/// The decisions of one player. The engine checks every answer against the rules, so an
/// implementation may answer anything; an illegal answer is refused or replaced by the
/// engine's default.
pub trait PlayerStrategy: Sized {
    /// The policy by which this strategy decides, which none of its answers and observations
    /// changes; unknown unless an implementation names it.
    open spec fn policy_of(self) -> DecidingPolicy {
        DecidingPolicy::Unknown
    }

    /// Whether `after` is this strategy once it has seen the public `event`. Unless an
    /// implementation says more, anything may follow.
    open spec fn observes(self, event: GameEvent, after: Self) -> bool {
        true
    }

    /// Whether `after` is this strategy once it has recorded `event` of its own player. Unless
    /// an implementation says more, anything may follow.
    open spec fn records(self, event: GameEvent, after: Self) -> bool {
        true
    }

    /// Whether this strategy, asked for the jail action of a player with `cash`, who holds a
    /// get-out-of-jail-free card where `holds_jail_card`, while `unowned_tile_count` ownable
    /// tiles are unowned, may answer `action` and become `after`. Unless an implementation says
    /// more, any answer may come.
    open spec fn chooses_jail_action(
        self,
        cash: int,
        holds_jail_card: bool,
        unowned_tile_count: nat,
        rules: Ruleset,
        action: JailAction,
        after: Self,
    ) -> bool {
        true
    }

    /// Whether this strategy, asked whether a player with `cash` buys a tile of `price`, may
    /// answer `buy` and become `after`. Unless an implementation says more, any answer may
    /// come.
    open spec fn chooses_purchase(self, cash: int, price: int, buy: bool, after: Self) -> bool {
        true
    }

    /// Whether this strategy, asked for its highest bid for a tile of `price` by a player with
    /// `cash`, may answer `bid` and become `after`. Unless an implementation says more, any
    /// bid may come.
    open spec fn chooses_bid(self, cash: int, price: int, bid: Cash, after: Self) -> bool {
        true
    }

    fn observe_public_event(&mut self, event: GameEvent)
        ensures
            final(self).policy_of() == old(self).policy_of(),
            old(self).observes(event, *final(self)),
    ;

    fn record_event(&mut self, event: GameEvent)
        ensures
            final(self).policy_of() == old(self).policy_of(),
            old(self).records(event, *final(self)),
    ;

    fn choose_liquidation_action<const N: usize>(
        &mut self,
        state: &GameState<N>,
        rules: &Ruleset,
        player: PlayerId,
        required_amount: Cash,
    ) -> (action: Option<LiquidationAction>)
        requires
            N <= 256,
        ensures
            final(self).policy_of() == old(self).policy_of(),
            liquidation_choice_by(old(self).policy_of(), *state, *rules, player, action),
        default_ensures
            default_liquidation_spec(*state, *rules, player as int, action),
    {
        default_liquidation_action(state, rules, player)
    }

    fn choose_management_action<const N: usize>(
        &mut self,
        state: &GameState<N>,
        rules: &Ruleset,
        player: PlayerId,
        legal: &LegalManagementActions<N>,
    ) -> (chosen: Option<ManagementAction>)
        requires
            N <= 256,
        ensures
            final(self).policy_of() == old(self).policy_of(),
            legal.state_spec() == *state && legal.rules_spec() == *rules && legal.player_spec() == player
                ==> management_choice_by(old(self).policy_of(), *state, *rules, player, legal.phase_spec(), chosen),
        default_ensures
            chosen matches Some(action) ==> management_action_legal(
                legal.state_spec(),
                legal.rules_spec(),
                legal.player_spec() as int,
                legal.phase_spec(),
                action,
            ),
    {
        let ghost policy = self.policy_of();
        match legal.phase() {
            ManagementPhase::Building => {
                let choice = self.choose_property_to_improve(state, rules, player);
                assert(improvement_choice_by(policy, *state, *rules, player, choice));
                match choice {
                    Some(property) => if legal.contains(ManagementAction::Build(property)) {
                        Some(ManagementAction::Build(property))
                    } else {
                        None
                    },
                    None => None,
                }
            },
            ManagementPhase::Unmortgaging => {
                let choice = self.choose_tile_to_unmortgage(state, rules, player);
                assert(unmortgage_choice_by(policy, *state, *rules, player, choice));
                match choice {
                    Some(tile) => if legal.contains(ManagementAction::Unmortgage(tile)) {
                        Some(ManagementAction::Unmortgage(tile))
                    } else {
                        None
                    },
                    None => None,
                }
            },
        }
    }

    fn should_purchase_property<const N: usize>(
        &mut self,
        state: &GameState<N>,
        rules: &Ruleset,
        player: PlayerId,
        tile: TileId,
    ) -> (buy: bool)
        ensures
            final(self).policy_of() == old(self).policy_of(),
            old(self).chooses_purchase(
                cash_of(*state, player as int),
                price_of(PURCHASE_PRICE_BY_TILE_ID@, tile as int),
                buy,
                *final(self),
            ),
    ;

    fn choose_max_auction_bid<const N: usize>(
        &mut self,
        state: &GameState<N>,
        rules: &Ruleset,
        player: PlayerId,
        tile: TileId,
    ) -> (bid: Cash)
        ensures
            final(self).policy_of() == old(self).policy_of(),
            old(self).chooses_bid(
                cash_of(*state, player as int),
                price_of(PURCHASE_PRICE_BY_TILE_ID@, tile as int),
                bid,
                *final(self),
            ),
    ;

    fn choose_jail_action<const N: usize>(
        &mut self,
        state: &GameState<N>,
        rules: &Ruleset,
        player: PlayerId,
    ) -> (action: JailAction)
        ensures
            final(self).policy_of() == old(self).policy_of(),
            old(self).chooses_jail_action(
                cash_of(*state, player as int),
                holds_any_jail_card(*state, player as int),
                unowned_tile_count(*state),
                *rules,
                action,
                *final(self),
            ),
    ;

    fn choose_property_to_improve<const N: usize>(
        &mut self,
        state: &GameState<N>,
        rules: &Ruleset,
        player: PlayerId,
    ) -> (chosen: Option<PropertyId>)
        requires
            N <= 256,
        ensures
            final(self).policy_of() == old(self).policy_of(),
            improvement_choice_by(old(self).policy_of(), *state, *rules, player, chosen),
    ;

    fn choose_tile_to_unmortgage<const N: usize>(
        &mut self,
        state: &GameState<N>,
        rules: &Ruleset,
        player: PlayerId,
    ) -> (chosen: Option<TileId>)
        ensures
            final(self).policy_of() == old(self).policy_of(),
            unmortgage_choice_by(old(self).policy_of(), *state, *rules, player, chosen),
    ;

    fn propose_trade<const N: usize>(
        &mut self,
        state: &GameState<N>,
        rules: &Ruleset,
        player: PlayerId,
    ) -> (offer: Option<TradeOffer>)
        requires
            N <= 256,
        ensures
            final(self).policy_of() == old(self).policy_of(),
            trade_proposal_by(old(self).policy_of(), *state, *rules, player, offer),
    ;

    fn should_accept_trade<const N: usize>(
        &mut self,
        state: &GameState<N>,
        rules: &Ruleset,
        player: PlayerId,
        offer: &TradeOffer,
    ) -> (accept: bool)
        ensures
            final(self).policy_of() == old(self).policy_of(),
            trade_acceptance_by(old(self).policy_of(), *state, player, *offer, accept),
    ;

    fn counter_trade_offer<const N: usize>(
        &mut self,
        state: &GameState<N>,
        rules: &Ruleset,
        player: PlayerId,
        rejected_offer: &TradeOffer,
    ) -> (counteroffer: Option<TradeOffer>)
        requires
            N <= 256,
        ensures
            final(self).policy_of() == old(self).policy_of(),
            counteroffer_by(old(self).policy_of(), *rejected_offer, counteroffer),
        default_ensures
            counteroffer is None,
    {
        None
    }

    fn should_accept_counteroffer<const N: usize>(
        &mut self,
        state: &GameState<N>,
        rules: &Ruleset,
        player: PlayerId,
        original_offer: &TradeOffer,
        counteroffer: &TradeOffer,
    ) -> (accept: bool)
        ensures
            final(self).policy_of() == old(self).policy_of(),
            counter_acceptance_by(old(self).policy_of(), *state, player, *counteroffer, accept),
    {
        self.should_accept_trade(state, rules, player, counteroffer)
    }
}

} // verus!
