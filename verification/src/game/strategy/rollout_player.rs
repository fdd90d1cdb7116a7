use vstd::prelude::*;

use super::configurable::{
    ConfigurableStrategy,
    PERCENT_DIVISOR,
    accepts_trade,
    configurable_improvement_choice,
    configurable_trade_offer,
    configurable_bid,
    configurable_jail_answer,
    configurable_jail_choice,
    configurable_liquidation_choice,
    configurable_unmortgage_choice,
    required_cash,
};
use super::greedy::{
    cash_of,
    price_of,
};
use super::model::{
    JailAction,
    PlayerStrategy,
    DecidingPolicy,
    improvement_choice_by,
    legal_or_none,
    unmortgage_choice_by,
};
use super::observation::PublicObservation;
use super::rollout::{
    ActionEvaluation,
    RolloutAction,
    RolloutConfig,
    RolloutDecision,
    evaluate,
};
use crate::game::board::model::PlayerId;
use crate::game::engine::action::{
    LegalManagementActions,
    ManagementAction,
    ManagementPhase,
    legal_jail_actions,
    management_action_legal,
};
use crate::game::engine::event::GameEvent;
use crate::game::engine::liquidation::LiquidationAction;
use crate::game::ruleset::model::Ruleset;
use crate::game::state::model::GameState;
use crate::game::tile::lut::PURCHASE_PRICE_BY_TILE_ID;
use crate::game::tile::model::{
    Cash,
    PropertyId,
    TileId,
};
use crate::game::trade::model::TradeOffer;

verus! {

/// What rollouts cost and changed: decisions taken, decisions that differ from the baseline,
/// games simulated, games left unfinished, and failed rollouts.
#[derive(Debug, Clone, Copy, Default, PartialEq, Eq, Structural)]
pub struct RolloutStats {
    pub decisions: u64,
    pub changed_decisions: u64,
    pub simulated_games: u64,
    pub unfinished_games: u64,
    pub failures: u64,
}

impl RolloutStats {
    /// The counts of `self` and `other` added together, each saturating at `u64::MAX`.
    pub fn saturating_combine(self, other: Self) -> (combined: Self)
        ensures
            combined == added_counts(self, other),
    {
        RolloutStats {
            decisions: self.decisions.saturating_add(other.decisions),
            changed_decisions: self.changed_decisions.saturating_add(other.changed_decisions),
            simulated_games: self.simulated_games.saturating_add(other.simulated_games),
            unfinished_games: self.unfinished_games.saturating_add(other.unfinished_games),
            failures: self.failures.saturating_add(other.failures),
        }
    }

    /// The counts of `self` and `other` added together.
    pub fn combine(self, other: Self) -> (combined: Self)
        requires
            self.decisions + other.decisions <= u64::MAX,
            self.changed_decisions + other.changed_decisions <= u64::MAX,
            self.simulated_games + other.simulated_games <= u64::MAX,
            self.unfinished_games + other.unfinished_games <= u64::MAX,
            self.failures + other.failures <= u64::MAX,
        ensures
            combined.decisions == self.decisions + other.decisions,
            combined.changed_decisions == self.changed_decisions + other.changed_decisions,
            combined.simulated_games == self.simulated_games + other.simulated_games,
            combined.unfinished_games == self.unfinished_games + other.unfinished_games,
            combined.failures == self.failures + other.failures,
    {
        RolloutStats {
            decisions: self.decisions + other.decisions,
            changed_decisions: self.changed_decisions + other.changed_decisions,
            simulated_games: self.simulated_games + other.simulated_games,
            unfinished_games: self.unfinished_games + other.unfinished_games,
            failures: self.failures + other.failures,
        }
    }
}

/// The counts of `first` and `second` added together, each saturating at `u64::MAX`.
pub open spec fn added_counts(first: RolloutStats, second: RolloutStats) -> RolloutStats {
    RolloutStats {
        decisions: first.decisions.saturating_add(second.decisions),
        changed_decisions: first.changed_decisions.saturating_add(second.changed_decisions),
        simulated_games: first.simulated_games.saturating_add(second.simulated_games),
        unfinished_games: first.unfinished_games.saturating_add(second.unfinished_games),
        failures: first.failures.saturating_add(second.failures),
    }
}

/// No decisions, no games: the counts of a player that has not rolled anything out.
pub open spec fn no_rollouts() -> RolloutStats {
    RolloutStats { decisions: 0, changed_decisions: 0, simulated_games: 0, unfinished_games: 0, failures: 0 }
}

/// The number of outcomes of `alternative`, among the first `count`, that `player` won.
pub open spec fn wins_among(alternative: ActionEvaluation, player: PlayerId, count: nat) -> nat
    decreases count,
{
    if count == 0 {
        0
    } else {
        wins_among(alternative, player, (count - 1) as nat) + if alternative.outcomes@[count - 1].winner == Some(
            player,
        ) {
            1nat
        } else {
            0nat
        }
    }
}

/// The wins of `alternative` for `player`.
pub open spec fn wins_of(alternative: ActionEvaluation, player: PlayerId) -> nat {
    wins_among(alternative, player, alternative.outcomes@.len())
}

/// The wins of the first of `alternatives` whose action is `action`; none when no
/// alternative has it.
pub open spec fn wins_of_first(alternatives: Seq<ActionEvaluation>, action: RolloutAction, player: PlayerId) -> nat
    decreases alternatives.len(),
{
    if alternatives.len() == 0 {
        0
    } else if alternatives[0].action == action {
        wins_of(alternatives[0], player)
    } else {
        wins_of_first(alternatives.drop_first(), action, player)
    }
}

/// The action chosen among the first `count` alternatives, and its wins: starting from
/// `baseline` with its wins, each alternative that won strictly more often replaces it.
pub open spec fn best_choice(
    alternatives: Seq<ActionEvaluation>,
    baseline: RolloutAction,
    player: PlayerId,
    count: nat,
) -> (RolloutAction, nat)
    decreases count,
{
    if count == 0 || count > alternatives.len() {
        (baseline, wins_of_first(alternatives, baseline, player))
    } else {
        let best = best_choice(alternatives, baseline, player, (count - 1) as nat);
        let alternative = alternatives[count - 1];
        if wins_of(alternative, player) > best.1 {
            (alternative.action, wins_of(alternative, player))
        } else {
            best
        }
    }
}

/// A rollout keeps the baseline's choice unless an alternative won strictly more often: the
/// chosen action won at least as often as every alternative and as the baseline, and more
/// often than the baseline when it differs from it.
pub proof fn lemma_choice_keeps_ties(
    alternatives: Seq<ActionEvaluation>,
    baseline: RolloutAction,
    player: PlayerId,
    count: nat,
)
    requires
        count <= alternatives.len(),
    ensures
        best_choice(alternatives, baseline, player, count).1 >= wins_of_first(alternatives, baseline, player),
        best_choice(alternatives, baseline, player, count).0 != baseline ==> best_choice(
            alternatives,
            baseline,
            player,
            count,
        ).1 > wins_of_first(alternatives, baseline, player),
        forall|index: int|
            0 <= index < count ==> wins_of(#[trigger] alternatives[index], player) <= best_choice(
                alternatives,
                baseline,
                player,
                count,
            ).1,
    decreases count,
{
    if count > 0 {
        lemma_choice_keeps_ties(alternatives, baseline, player, (count - 1) as nat);
    }
}

/// The action that the rollouts `alternatives` choose for `player`: the first alternative that
/// won most often, if it won more often than the first alternative with the action
/// `baseline`; otherwise `baseline`.
pub fn choose_alternative(alternatives: &[ActionEvaluation], baseline: RolloutAction, player: PlayerId) -> (choice:
    RolloutAction)
    ensures
        choice == best_choice(alternatives@, baseline, player, alternatives@.len()).0,
{
    let mut best: usize = 0;
    let mut index: usize = 0;
    assert(alternatives@.subrange(0, alternatives@.len() as int) =~= alternatives@);
    while index < alternatives.len()
        invariant_except_break
            best == 0,
        invariant
            index <= alternatives@.len(),
            wins_of_first(alternatives@, baseline, player) == wins_of_first(
                alternatives@.subrange(index as int, alternatives@.len() as int),
                baseline,
                player,
            ),
        ensures
            best == wins_of_first(alternatives@, baseline, player),
        decreases alternatives@.len() - index,
    {
        let ghost rest = alternatives@.subrange(index as int, alternatives@.len() as int);
        if alternatives[index].action == baseline {
            best = RolloutStrategy::wins(&alternatives[index], player);
            break;
        }
        assert(rest.drop_first() =~= alternatives@.subrange(index as int + 1, alternatives@.len() as int));
        index = index + 1;
    }
    let mut choice = baseline;
    let mut index: usize = 0;
    while index < alternatives.len()
        invariant
            index <= alternatives@.len(),
            (choice, best as nat) == best_choice(alternatives@, baseline, player, index as nat),
        decreases alternatives@.len() - index,
    {
        let score = RolloutStrategy::wins(&alternatives[index], player);
        if score > best {
            best = score;
            choice = alternatives[index].action;
        }
        index = index + 1;
    }
    choice
}

/// A player that decides as `baseline`, except at building, unmortgaging and jail decisions
/// with more than one choice, where it rolls out every alternative on worlds sampled from
/// what it has seen and takes the one that won most often, keeping the baseline's choice
/// on a tie. Counts saturate at `u64::MAX`.
pub struct RolloutStrategy {
    baseline: ConfigurableStrategy,
    config: Option<RolloutConfig>,
    history: Vec<GameEvent>,
    pub stats: RolloutStats,
}

impl RolloutStrategy {
    /// The strategy whose choices are kept unless a rollout finds a better one.
    pub closed spec fn baseline_policy(&self) -> ConfigurableStrategy {
        self.baseline
    }

    /// How decisions are rolled out; with none, the player is its baseline.
    pub closed spec fn rollout_config(&self) -> Option<RolloutConfig> {
        self.config
    }

    /// What the rollouts have cost and changed so far.
    pub closed spec fn counts(&self) -> RolloutStats {
        self.stats
    }

    /// The public events kept for sampling worlds.
    pub closed spec fn observed(&self) -> Seq<GameEvent> {
        self.history@
    }

    pub fn new(baseline: ConfigurableStrategy, config: Option<RolloutConfig>) -> (strategy: Self)
        ensures
            strategy.baseline_policy() == baseline,
            strategy.rollout_config() == config,
            strategy.observed() == Seq::<GameEvent>::empty(),
            strategy.counts() == no_rollouts(),
    {
        RolloutStrategy { baseline, config, history: Vec::new(), stats: RolloutStats {
            decisions: 0,
            changed_decisions: 0,
            simulated_games: 0,
            unfinished_games: 0,
            failures: 0,
        } }
    }

    /// What the rollouts have cost and changed so far.
    pub fn stats(&self) -> (stats: RolloutStats)
        ensures
            stats == self.counts(),
    {
        self.stats
    }

    /// The number of outcomes of `alternative` that `player` won.
    fn wins(alternative: &ActionEvaluation, player: PlayerId) -> (count: usize)
        ensures
            count == wins_among(*alternative, player, alternative.outcomes@.len()),
    {
        let mut count: usize = 0;
        let mut index: usize = 0;
        while index < alternative.outcomes.len()
            invariant
                index <= alternative.outcomes@.len(),
                count == wins_among(*alternative, player, index as nat),
                count <= index,
            decreases alternative.outcomes@.len() - index,
        {
            if alternative.outcomes[index].winner == Some(player) {
                count = count + 1;
            }
            index = index + 1;
        }
        count
    }

    /// Rolls out `decision` and returns the alternative that won most often, or `baseline`
    /// when none won more often than it, or when the rollout fails.
    fn decide_by_rollout<const N: usize>(
        &mut self,
        state: &GameState<N>,
        rules: &Ruleset,
        player: PlayerId,
        decision: RolloutDecision,
        baseline: RolloutAction,
    ) -> (choice: RolloutAction)
        ensures
            final(self).baseline == old(self).baseline,
            final(self).config == old(self).config,
            final(self).history@ == old(self).history@,
            old(self).config is None ==> choice == baseline && final(self).stats == old(self).stats,
            old(self).config is Some ==> final(self).stats.decisions == old(self).stats.decisions.saturating_add(1),
            final(self).stats.changed_decisions == if choice != baseline {
                old(self).stats.changed_decisions.saturating_add(1)
            } else {
                old(self).stats.changed_decisions
            },
    {
        let mut config = match self.config {
            Some(config) => config,
            None => return baseline,
        };
        config.seed = config.seed.wrapping_add(self.stats.decisions.wrapping_mul(config.sample_count as u64));
        self.stats.decisions = self.stats.decisions.saturating_add(1);
        let policies: [ConfigurableStrategy; N] = vstd::array::array_fill_for_copy_types(self.baseline);
        let observation = PublicObservation::new(state, rules, player, self.history.as_slice());
        let report = match evaluate(observation, decision, &policies, config) {
            Ok(report) => report,
            Err(_) => {
                self.stats.failures = self.stats.failures.saturating_add(1);
                return baseline;
            },
        };
        let choice = choose_alternative(report.alternatives.as_slice(), baseline, player);
        let ghost before = *self;
        let mut index: usize = 0;
        while index < report.alternatives.len()
            invariant
                index <= report.alternatives@.len(),
                self.baseline == before.baseline,
                self.config == before.config,
                self.history@ == before.history@,
                self.stats.decisions == before.stats.decisions,
                self.stats.changed_decisions == before.stats.changed_decisions,
            decreases report.alternatives@.len() - index,
        {
            let alternative = &report.alternatives[index];
            let mut unfinished: u64 = 0;
            let mut outcome: usize = 0;
            while outcome < alternative.outcomes.len()
                invariant
                    outcome <= alternative.outcomes@.len(),
                    unfinished <= outcome,
                decreases alternative.outcomes@.len() - outcome,
            {
                if alternative.outcomes[outcome].winner.is_none() {
                    unfinished = unfinished.saturating_add(1);
                }
                outcome = outcome + 1;
            }
            self.stats.simulated_games = self.stats.simulated_games.saturating_add(alternative.outcomes.len() as u64);
            self.stats.unfinished_games = self.stats.unfinished_games.saturating_add(unfinished);
            index = index + 1;
        }
        if choice != baseline {
            self.stats.changed_decisions = self.stats.changed_decisions.saturating_add(1);
        }
        choice
    }
}

impl PlayerStrategy for RolloutStrategy {
    open spec fn policy_of(self) -> DecidingPolicy {
        DecidingPolicy::Rollout(self.baseline_policy(), self.rollout_config())
    }

    open spec fn observes(self, event: GameEvent, after: Self) -> bool {
        &&& after.baseline_policy() == self.baseline_policy()
        &&& after.rollout_config() == self.rollout_config()
        &&& after.counts() == self.counts()
        &&& after.observed() == if self.rollout_config() is Some {
            self.observed().push(event)
        } else {
            self.observed()
        }
    }

    open spec fn chooses_purchase(self, cash: int, price: int, buy: bool, after: Self) -> bool {
        after == self && buy == (cash >= required_cash(
            price,
            self.baseline_policy().purchase_cash_percent as int,
            self.baseline_policy().cash_reserve as int,
        ))
    }

    open spec fn chooses_bid(self, cash: int, price: int, bid: Cash, after: Self) -> bool {
        after == self && bid == configurable_bid(self.baseline_policy(), cash, price)
    }

    open spec fn chooses_jail_action(
        self,
        cash: int,
        holds_jail_card: bool,
        unowned_tile_count: nat,
        rules: Ruleset,
        action: JailAction,
        after: Self,
    ) -> bool {
        &&& after.baseline_policy() == self.baseline_policy()
        &&& after.rollout_config() == self.rollout_config()
        &&& after.observed() == self.observed()
        &&& self.rollout_config() is None ==> after == self && action == configurable_jail_answer(
            self.baseline_policy(),
            cash,
            holds_jail_card,
            unowned_tile_count,
            rules,
        )
    }

    open spec fn records(self, event: GameEvent, after: Self) -> bool {
        after == self
    }


    fn record_event(&mut self, event: GameEvent) {
    }

    fn observe_public_event(&mut self, event: GameEvent)
        ensures
            final(self).baseline_policy() == old(self).baseline_policy(),
            final(self).rollout_config() == old(self).rollout_config(),
            final(self).counts() == old(self).counts(),
            final(self).observed() == if old(self).rollout_config() is Some {
                old(self).observed().push(event)
            } else {
                old(self).observed()
            },
    {
        if self.config.is_some() {
            self.history.push(event);
        }
    }

    fn choose_management_action<const N: usize>(
        &mut self,
        state: &GameState<N>,
        rules: &Ruleset,
        player: PlayerId,
        legal: &LegalManagementActions<N>,
    ) -> (action: Option<ManagementAction>)
        ensures
            final(self).baseline_policy() == old(self).baseline_policy(),
            final(self).rollout_config() == old(self).rollout_config(),
            final(self).observed() == old(self).observed(),
            old(self).rollout_config() is None ==> *final(self) == *old(self),
            old(self).rollout_config() is None ==> (action matches Some(chosen) ==> management_action_legal(
                legal.state_spec(),
                legal.rules_spec(),
                legal.player_spec() as int,
                legal.phase_spec(),
                chosen,
            )),
    {
        let mut baseline_strategy = self.baseline;
        let baseline = baseline_strategy.choose_management_action(state, rules, player, legal);
        proof {
            let policy = DecidingPolicy::Configurable(self.baseline);
            if legal.state_spec() == *state && legal.rules_spec() == *rules && legal.player_spec() == player {
                match legal.phase_spec() {
                    ManagementPhase::Building => {
                        let choice = choose|choice: Option<PropertyId>|
                            #[trigger] improvement_choice_by(policy, *state, *rules, player, choice) && baseline
                                == legal_or_none(
                                *state,
                                *rules,
                                player,
                                legal.phase_spec(),
                                match choice {
                                    Some(property) => Some(ManagementAction::Build(property)),
                                    None => None,
                                },
                            );
                        assert(improvement_choice_by(self.policy_of(), *state, *rules, player, choice));
                    },
                    ManagementPhase::Unmortgaging => {
                        let choice = choose|choice: Option<TileId>|
                            #[trigger] unmortgage_choice_by(policy, *state, *rules, player, choice) && baseline
                                == legal_or_none(
                                *state,
                                *rules,
                                player,
                                legal.phase_spec(),
                                match choice {
                                    Some(tile) => Some(ManagementAction::Unmortgage(tile)),
                                    None => None,
                                },
                            );
                        assert(unmortgage_choice_by(self.policy_of(), *state, *rules, player, choice));
                    },
                }
            }
        }
        if self.config.is_none() || legal.iter().len() == 0 {
            return baseline;
        }
        let decision = match legal.phase() {
            ManagementPhase::Building => RolloutDecision::Building,
            ManagementPhase::Unmortgaging => RolloutDecision::Unmortgaging,
        };
        match self.decide_by_rollout(state, rules, player, decision, RolloutAction::Management(baseline)) {
            RolloutAction::Management(action) => action,
            _ => baseline,
        }
    }

    fn choose_jail_action<const N: usize>(&mut self, state: &GameState<N>, rules: &Ruleset, player: PlayerId) -> (action:
        JailAction)
        ensures
            final(self).baseline_policy() == old(self).baseline_policy(),
            final(self).rollout_config() == old(self).rollout_config(),
            final(self).observed() == old(self).observed(),
            old(self).rollout_config() is None ==> *final(self) == *old(self) && action == configurable_jail_choice(
                old(self).baseline_policy(),
                *state,
                *rules,
                player as int,
            ),
    {
        let mut baseline_strategy = self.baseline;
        let baseline = baseline_strategy.choose_jail_action(state, rules, player);
        if self.config.is_none() || legal_jail_actions(state, rules, player).len() < 2 {
            return baseline;
        }
        match self.decide_by_rollout(state, rules, player, RolloutDecision::Jail, RolloutAction::Jail(baseline)) {
            RolloutAction::Jail(action) => action,
            _ => baseline,
        }
    }

    fn should_purchase_property<const N: usize>(
        &mut self,
        state: &GameState<N>,
        rules: &Ruleset,
        player: PlayerId,
        tile: TileId,
    ) -> (buy: bool)
        ensures
            *final(self) == *old(self),
            buy == (cash_of(*state, player as int) >= required_cash(
                price_of(PURCHASE_PRICE_BY_TILE_ID@, tile as int),
                old(self).baseline_policy().purchase_cash_percent as int,
                old(self).baseline_policy().cash_reserve as int,
            )),
    {
        let mut baseline = self.baseline;
        baseline.should_purchase_property(state, rules, player, tile)
    }

    fn choose_max_auction_bid<const N: usize>(
        &mut self,
        state: &GameState<N>,
        rules: &Ruleset,
        player: PlayerId,
        tile: TileId,
    ) -> (bid: Cash)
        ensures
            *final(self) == *old(self),
            bid == configurable_bid(
                old(self).baseline_policy(),
                cash_of(*state, player as int),
                price_of(PURCHASE_PRICE_BY_TILE_ID@, tile as int),
            ),
    {
        let mut baseline = self.baseline;
        baseline.choose_max_auction_bid(state, rules, player, tile)
    }

    fn choose_property_to_improve<const N: usize>(
        &mut self,
        state: &GameState<N>,
        rules: &Ruleset,
        player: PlayerId,
    ) -> (choice: Option<PropertyId>)
        ensures
            *final(self) == *old(self),
            configurable_improvement_choice(old(self).baseline_policy(), *state, *rules, player, choice),
    {
        let mut baseline = self.baseline;
        baseline.choose_property_to_improve(state, rules, player)
    }

    fn choose_tile_to_unmortgage<const N: usize>(
        &mut self,
        state: &GameState<N>,
        rules: &Ruleset,
        player: PlayerId,
    ) -> (choice: Option<TileId>)
        ensures
            *final(self) == *old(self),
            configurable_unmortgage_choice(old(self).baseline_policy(), *state, player, choice),
    {
        let mut baseline = self.baseline;
        baseline.choose_tile_to_unmortgage(state, rules, player)
    }

    fn propose_trade<const N: usize>(&mut self, state: &GameState<N>, rules: &Ruleset, player: PlayerId) -> (offer: Option<
        TradeOffer,
    >)
        ensures
            *final(self) == *old(self),
            offer == configurable_trade_offer(old(self).baseline_policy(), *state, *rules, player),
    {
        let mut baseline = self.baseline;
        baseline.propose_trade(state, rules, player)
    }

    fn should_accept_trade<const N: usize>(
        &mut self,
        state: &GameState<N>,
        rules: &Ruleset,
        player: PlayerId,
        offer: &TradeOffer,
    ) -> (accept: bool)
        ensures
            *final(self) == *old(self),
            accept == accepts_trade(old(self).baseline_policy(), *state, player as int, *offer),
    {
        let mut baseline = self.baseline;
        baseline.should_accept_trade(state, rules, player, offer)
    }

    fn choose_liquidation_action<const N: usize>(
        &mut self,
        state: &GameState<N>,
        rules: &Ruleset,
        player: PlayerId,
        required_amount: Cash,
    ) -> (action: Option<LiquidationAction>)
        ensures
            *final(self) == *old(self),
            configurable_liquidation_choice(old(self).baseline_policy(), *state, *rules, player, action),
    {
        let mut baseline = self.baseline;
        baseline.choose_liquidation_action(state, rules, player, required_amount)
    }
}

} // verus!
