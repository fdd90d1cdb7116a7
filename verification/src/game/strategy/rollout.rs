use vstd::prelude::*;

use super::belief::{
    RolloutBelief,
    dimensions_supported,
    history_consistent,
};
use super::configurable::ConfigurableStrategy;
use super::model::{
    JailAction,
    policies_kept,
};
use super::observation::PublicObservation;
use crate::game::board::data::{
    MAX_PLAYER_COUNT,
    MIN_PLAYER_COUNT,
};
use crate::game::board::model::PlayerId;
use crate::game::card::belief::possible_world;
use crate::game::card::model::DeckKind;
use crate::game::engine::action::{
    ManagementAction,
    ManagementPhase,
    jail_action_check,
    managed,
    legal_jail_actions,
    legal_jail_list,
    legal_management_list,
    management_id_count,
    legal_management_actions,
};
use crate::game::engine::turn::{
    TurnPhase,
    advance_turn,
    apply_jail_decision,
    apply_management_decision,
    find_sole_active_player,
    jail_decided,
    lemma_phases_extended,
    management_decision_accepted,
    phase_budget,
    phase_followed,
    phase_rank,
    phases_played,
    sole_active_player,
    turns_finished,
};
use crate::game::rng::WyRand;
use crate::game::ruleset::model::Ruleset;
use crate::game::state::model::{
    GameState,
    PlayerSetMask,
    contains_player,
    player_in,
};

verus! {

#[derive(Debug, Clone, Copy, PartialEq, Eq, Structural)]
pub enum RolloutDecision {
    Building,
    Unmortgaging,
    Jail,
}

impl RolloutDecision {
    /// The phase of the turn in which the decision is taken.
    pub open spec fn phase_spec(self) -> TurnPhase {
        match self {
            RolloutDecision::Building => TurnPhase::Building,
            RolloutDecision::Unmortgaging => TurnPhase::Unmortgaging,
            RolloutDecision::Jail => TurnPhase::Jail,
        }
    }

    fn phase(self) -> (phase: TurnPhase)
        ensures
            phase == self.phase_spec(),
    {
        match self {
            RolloutDecision::Building => TurnPhase::Building,
            RolloutDecision::Unmortgaging => TurnPhase::Unmortgaging,
            RolloutDecision::Jail => TurnPhase::Jail,
        }
    }
}

#[derive(Debug, Clone, Copy, PartialEq, Eq, Structural)]
pub enum RolloutAction {
    Management(Option<ManagementAction>),
    Jail(JailAction),
}

/// The decisions at which a player rolls out its alternatives.
#[derive(Debug, Clone, Copy, PartialEq, Eq, Structural)]
pub struct RolloutDecisions {
    pub building: bool,
    pub unmortgaging: bool,
    pub jail: bool,
}

impl Default for RolloutDecisions {
    fn default() -> (decisions: Self)
        ensures
            decisions == (RolloutDecisions { building: true, unmortgaging: true, jail: true }),
    {
        RolloutDecisions { building: true, unmortgaging: true, jail: true }
    }
}

impl RolloutDecisions {
    pub fn enabled(self, decision: RolloutDecision) -> (enabled: bool)
        ensures
            enabled == match decision {
                RolloutDecision::Building => self.building,
                RolloutDecision::Unmortgaging => self.unmortgaging,
                RolloutDecision::Jail => self.jail,
            },
    {
        match decision {
            RolloutDecision::Building => self.building,
            RolloutDecision::Unmortgaging => self.unmortgaging,
            RolloutDecision::Jail => self.jail,
        }
    }
}

#[derive(Debug, Clone, Copy, PartialEq, Eq, Structural)]
pub struct RolloutConfig {
    pub decisions: RolloutDecisions,
    pub seed: u64,
    pub sample_count: u32,
    pub max_turn_count: u32,
}

/// How a rollout ended: its winner, if one player was left, the bankrupt players, and the
/// turns it finished.
#[derive(Debug, Clone, Copy, PartialEq, Eq, Structural)]
pub struct RolloutOutcome {
    pub winner: Option<PlayerId>,
    pub bankrupt_players: PlayerSetMask,
    pub completed_turn_count: u32,
}

/// One alternative at a decision, with the outcome of its rollout from each sampled world.
#[derive(Debug, Clone, PartialEq, Eq)]
pub struct ActionEvaluation {
    pub action: RolloutAction,
    pub outcomes: Vec<RolloutOutcome>,
}

#[derive(Debug, Clone, PartialEq, Eq)]
pub struct RolloutReport {
    pub player_id: PlayerId,
    pub decision: RolloutDecision,
    pub config: RolloutConfig,
    pub continuation_policies: Vec<ConfigurableStrategy>,
    pub alternatives: Vec<ActionEvaluation>,
}

/// Whether `outcome` is a rollout of at most `limit` turns of `N` players: a winner is a player
/// of the game, and a rollout without one finished every turn of the limit.
pub open spec fn outcome_within<const N: usize>(outcome: RolloutOutcome, limit: int) -> bool {
    &&& outcome.completed_turn_count <= limit
    &&& match outcome.winner {
        Some(winner) => winner < N,
        None => outcome.completed_turn_count == limit,
    }
}

/// The number of players below `count` who are not bankrupt.
pub open spec fn active_count(bankrupt_players: PlayerSetMask, count: nat) -> nat
    decreases count,
{
    if count == 0 {
        0
    } else {
        active_count(bankrupt_players, (count - 1) as nat) + if player_in(bankrupt_players, count - 1) {
            0nat
        } else {
            1nat
        }
    }
}

fn count_active(bankrupt_players: PlayerSetMask, count: usize) -> (active: usize)
    requires
        count <= MAX_PLAYER_COUNT,
    ensures
        active == active_count(bankrupt_players, count as nat),
{
    let mut active: usize = 0;
    let mut player: usize = 0;
    while player < count
        invariant
            player <= count <= MAX_PLAYER_COUNT,
            active == active_count(bankrupt_players, player as nat),
            active <= player,
        decreases count - player,
    {
        if !contains_player(bankrupt_players, player as u8) {
            active = active + 1;
        }
        player = player + 1;
    }
    active
}

/// Whether a rollout can start from `state` with `action` at `decision`: the state is one that a
/// game can be in and the engine takes the action there.
pub open spec fn rollout_accepted<const N: usize>(
    state: GameState<N>,
    rules: Ruleset,
    decision: RolloutDecision,
    action: RolloutAction,
) -> bool {
    &&& state.wf()
    &&& match action {
        RolloutAction::Management(action) => management_decision_accepted(state, rules, decision.phase_spec(), action),
        RolloutAction::Jail(action) => decision == RolloutDecision::Jail && jail_action_check(
            state,
            rules,
            state.current_player_id as int,
            action,
        ) is Ok,
    }
}

/// The management phase of a management `decision`.
pub open spec fn decision_management_phase(decision: RolloutDecision) -> ManagementPhase {
    if decision == RolloutDecision::Building {
        ManagementPhase::Building
    } else {
        ManagementPhase::Unmortgaging
    }
}

/// The alternatives of `player` at `decision` in `state`: the legal jail actions, or no action
/// followed by the legal management actions, in the engine's order.
pub open spec fn alternatives_spec<const N: usize>(
    state: GameState<N>,
    rules: Ruleset,
    player: PlayerId,
    decision: RolloutDecision,
) -> Seq<RolloutAction> {
    if decision == RolloutDecision::Jail {
        legal_jail_list(state, rules, player as int).map_values(|action: JailAction| RolloutAction::Jail(action))
    } else {
        let phase = decision_management_phase(decision);
        seq![RolloutAction::Management(None)] + legal_management_list(
            state,
            rules,
            player as int,
            phase,
            management_id_count(phase),
        ).map_values(|action: ManagementAction| RolloutAction::Management(Some(action)))
    }
}

/// Whether `state` is a world that `observation` allows: it agrees with every public fact of the
/// observation, and each deck holds an order that the public history allows.
pub open spec fn allowed_world<const N: usize>(observation: PublicObservation, state: GameState<N>) -> bool {
    &&& observation.observes(state, *observation.rules, observation.player_id, observation.history@)
    &&& state.deck_state_by_deck_kind@[0].wf()
    &&& state.deck_state_by_deck_kind@[1].wf()
    &&& possible_world(DeckKind::Chance, observation.history@, state.deck_state_by_deck_kind@[0])
    &&& possible_world(DeckKind::CommunityChest, observation.history@, state.deck_state_by_deck_kind@[1])
}

/// Whether some world that `observation` allows leaves the player no alternative at
/// `decision`, or some alternative in one allowed world cannot be rolled out from another.
pub open spec fn some_rollout_refused<const N: usize>(observation: PublicObservation, decision: RolloutDecision) -> bool {
    let rules = *observation.rules;
    let player = observation.player_id;
    ||| exists|first: GameState<N>|
        #[trigger] allowed_world(observation, first) && alternatives_spec(first, rules, player, decision).len() == 0
    ||| exists|first: GameState<N>, world: GameState<N>, index: int|
        #![trigger allowed_world(observation, first), allowed_world(observation, world), alternatives_spec(first, rules, player, decision)[index]]
        allowed_world(observation, first) && allowed_world(observation, world) && 0 <= index < alternatives_spec(
            first,
            rules,
            player,
            decision,
        ).len() && !rollout_accepted(world, rules, decision, alternatives_spec(first, rules, player, decision)[index])
}

/// Whether `after` follows from `state` once `action` is taken at `decision`: a management
/// action is the one the engine executes, no action leaves the state as it was, and a jail
/// action is one the jail rules allow, taken as they say.
pub open spec fn rollout_action_taken<const N: usize>(
    state: GameState<N>,
    rules: Ruleset,
    action: RolloutAction,
    after: GameState<N>,
) -> bool {
    match action {
        RolloutAction::Management(None) => after == state,
        RolloutAction::Management(Some(action)) => after == managed(state, state.current_player_id as int, action).0,
        RolloutAction::Jail(action) => exists|next: TurnPhase| #[trigger] jail_decided(state, rules, action, after, next),
    }
}

/// Whether `outcome` is how a game went on from `state` once `action` was taken, with the
/// players `policies`: from the state right after the action it was played phase by phase by
/// players of those policies, finishing the outcome's turns, and its last state has the
/// outcome's bankrupt players and winner.
pub open spec fn rolled_on<const N: usize>(
    state: GameState<N>,
    rules: Ruleset,
    action: RolloutAction,
    outcome: RolloutOutcome,
    policies: Seq<ConfigurableStrategy>,
) -> bool {
    exists|states: Seq<GameState<N>>, seats: Seq<Seq<ConfigurableStrategy>>, phases: Seq<TurnPhase>|
        #[trigger] phases_played(states, seats, phases, rules) && policies_kept(policies, seats[0])
            && rollout_action_taken(state, rules, action, states[0])
            && turns_finished(phases) == outcome.completed_turn_count && states.last().bankrupt_players
            == outcome.bankrupt_players && match outcome.winner {
            Some(winner) => sole_active_player(states.last(), winner as int),
            None => outcome.completed_turn_count > 0 ==> forall|player: int| !sole_active_player(states.last(), player),
        }
}

/// Plays on from `state` once `action` is taken at `decision`, until one player is left or
/// `limit` turns are finished. Fails when the state is not one that a game can be in, or the
/// engine refuses the action.
pub fn run<const N: usize>(
    state: GameState<N>,
    strategies: [ConfigurableStrategy; N],
    rules: &Ruleset,
    decision: RolloutDecision,
    action: RolloutAction,
    limit: u32,
) -> (result: Result<RolloutOutcome, &'static str>)
    ensures
        !state.wf() ==> result is Err,
        (action is Jail && decision != RolloutDecision::Jail) ==> result is Err,
        result is Ok <==> rollout_accepted(state, *rules, decision, action),
        result matches Ok(outcome) ==> outcome_within::<N>(outcome, limit as int),
        result matches Ok(outcome) ==> rolled_on(state, *rules, action, outcome, strategies@),
{
    if !state.is_valid() {
        return Err("rollout state is not a state of a game in progress");
    }
    let mut state = state;
    let started = state;
    let given = strategies;
    let mut strategies = strategies;
    let applied = match action {
        RolloutAction::Management(action) => apply_management_decision(
            &mut state,
            rules,
            &mut strategies,
            decision.phase(),
            action,
        ),
        RolloutAction::Jail(action) => {
            if decision != RolloutDecision::Jail {
                return Err("rollout action does not match decision");
            }
            apply_jail_decision(&mut state, rules, &mut strategies, action)
        },
    };
    let mut phase = match applied {
        Ok(next) => next,
        Err(_) => return Err("engine rejected rollout action"),
    };
    let ghost acted = state;
    assert(rollout_action_taken(started, *rules, action, acted)) by {
        if let RolloutAction::Jail(jail_action) = action {
            assert(jail_decided(started, *rules, jail_action, acted, phase));
        }
    }
    let mut completed_turn_count: u32 = 0;
    let mut winner: Option<PlayerId> = None;
    let ghost mut states = seq![state];
    let ghost mut seats = seq![strategies@];
    let ghost mut phases = seq![phase];
    assert(policies_kept(given@, seats[0]));
    while completed_turn_count < limit && winner.is_none()
        invariant
            state.wf(),
            completed_turn_count <= limit,
            phase_budget(state, phase) >= 0,
            winner matches Some(player) ==> sole_active_player(state, player as int),
            phases_played(states, seats, phases, *rules),
            policies_kept(given@, seats[0]),
            seats.last() == strategies@,
            states[0] == acted,
            states.last() == state,
            phases.last() == phase,
            turns_finished(phases) == completed_turn_count,
            winner is None && phase == TurnPhase::Start && completed_turn_count > 0 ==> forall|player: int|
                !sole_active_player(state, player),
            completed_turn_count == limit && limit > 0 ==> phase == TurnPhase::Start,
        decreases limit - completed_turn_count, phase_rank(phase), phase_budget(state, phase),
    {
        let ghost before = state;
        let ghost before_phase = phase;
        let ghost before_seats = strategies@;
        let next = advance_turn(&mut state, rules, &mut strategies, phase);
        if next == TurnPhase::Finished {
            completed_turn_count = completed_turn_count + 1;
            winner = find_sole_active_player(&state);
            phase = TurnPhase::Start;
        } else {
            phase = next;
        }
        proof {
            assert(phase_followed(before, before_seats, before_phase, state, strategies@, phase, *rules));
            lemma_phases_extended(states, seats, phases, *rules, state, strategies@, phase);
            states = states.push(state);
            seats = seats.push(strategies@);
            phases = phases.push(phase);
        }
    }
    let outcome = RolloutOutcome { winner, bankrupt_players: state.bankrupt_players, completed_turn_count };
    assert(phases_played(states, seats, phases, *rules) && policies_kept(given@, seats[0]) && rollout_action_taken(
        started,
        *rules,
        action,
        states[0],
    ));
    Ok(outcome)
}

/// The alternatives at `decision` in `state`: the legal jail actions, or no action followed by
/// each legal management action.
fn alternatives_at<const N: usize>(state: &GameState<N>, rules: &Ruleset, player: PlayerId, decision: RolloutDecision) -> (actions:
    Vec<RolloutAction>)
    requires
        N <= MAX_PLAYER_COUNT,
    ensures
        decision != RolloutDecision::Jail ==> actions@.len() >= 1 && actions@[0] == RolloutAction::Management(None)
            && forall|index: int| 0 <= index < actions@.len() ==> #[trigger] actions@[index] is Management,
        decision == RolloutDecision::Jail ==> forall|index: int|
            0 <= index < actions@.len() ==> #[trigger] actions@[index] is Jail,
        actions@ == alternatives_spec(*state, *rules, player, decision),
{
    let mut actions: Vec<RolloutAction> = Vec::new();
    match decision {
        RolloutDecision::Jail => {
            let legal = legal_jail_actions(state, rules, player);
            let mut index: usize = 0;
            while index < legal.len()
                invariant
                    index <= legal@.len(),
                    actions@.len() == index,
                    forall|earlier: int| 0 <= earlier < index ==> #[trigger] actions@[earlier] is Jail,
                    actions@ == legal@.take(index as int).map_values(|action: JailAction| RolloutAction::Jail(action)),
                decreases legal@.len() - index,
            {
                actions.push(RolloutAction::Jail(legal[index]));
                index = index + 1;
                assert(actions@ =~= legal@.take(index as int).map_values(|action: JailAction| RolloutAction::Jail(action)));
            }
            assert(legal@.take(index as int) =~= legal@);
        },
        RolloutDecision::Building | RolloutDecision::Unmortgaging => {
            let phase = if decision == RolloutDecision::Building {
                ManagementPhase::Building
            } else {
                ManagementPhase::Unmortgaging
            };
            let legal = legal_management_actions(state, rules, player, phase).iter();
            actions.push(RolloutAction::Management(None));
            let mut index: usize = 0;
            while index < legal.len()
                invariant
                    index <= legal@.len(),
                    actions@.len() == index + 1,
                    actions@[0] == RolloutAction::Management(None),
                    forall|earlier: int| 0 <= earlier < actions@.len() ==> #[trigger] actions@[earlier] is Management,
                    actions@ == seq![RolloutAction::Management(None)] + legal@.take(index as int).map_values(
                        |action: ManagementAction| RolloutAction::Management(Some(action)),
                    ),
                decreases legal@.len() - index,
            {
                actions.push(RolloutAction::Management(Some(legal[index])));
                index = index + 1;
                assert(actions@ =~= seq![RolloutAction::Management(None)] + legal@.take(index as int).map_values(
                    |action: ManagementAction| RolloutAction::Management(Some(action)),
                ));
            }
            assert(legal@.take(index as int) =~= legal@);
        },
    }
    actions
}

/// Whether `report` evaluates each of its alternatives on `sample_count` sampled worlds, with
/// rollouts of at most `limit` turns of `N` players.
pub open spec fn evaluates_alternatives<const N: usize>(report: RolloutReport, sample_count: int, limit: int) -> bool {
    &&& report.alternatives@.len() >= 1
    &&& forall|index: int|
        0 <= index < report.alternatives@.len() ==> {
            let alternative = #[trigger] report.alternatives@[index];
            &&& alternative.outcomes@.len() == sample_count
            &&& forall|sample: int|
                0 <= sample < sample_count ==> outcome_within::<N>(#[trigger] alternative.outcomes@[sample], limit)
        }
}

/// Whether the outcome at `sample` of each of `alternatives` is how the game went on from
/// `world` once that alternative was taken, with players of `policies`.
pub open spec fn rolled_out_on<const N: usize>(
    world: GameState<N>,
    rules: Ruleset,
    alternatives: Seq<ActionEvaluation>,
    sample: int,
    policies: Seq<ConfigurableStrategy>,
) -> bool {
    forall|index: int|
        0 <= index < alternatives.len() ==> rolled_on(
            world,
            rules,
            alternatives[index].action,
            #[trigger] alternatives[index].outcomes@[sample],
            policies,
        )
}

/// Whether the outcomes at `sample` of `alternatives` were all rolled out on one world that
/// `observation` allows, with players of `policies`.
pub open spec fn sample_rolled_out<const N: usize>(
    observation: PublicObservation,
    alternatives: Seq<ActionEvaluation>,
    sample: int,
    policies: Seq<ConfigurableStrategy>,
) -> bool {
    exists|world: GameState<N>|
        allowed_world(observation, world) && #[trigger] rolled_out_on(
            world,
            *observation.rules,
            alternatives,
            sample,
            policies,
        )
}

/// Rolls out each alternative that the current player has at `decision` on `sample_count`
/// worlds sampled from the player's observation, each world `index` from the seed
/// `config.seed + index` (wrapping), with `policies` playing on.
pub fn evaluate<const N: usize>(
    observation: PublicObservation<'_>,
    decision: RolloutDecision,
    policies: &[ConfigurableStrategy; N],
    config: RolloutConfig,
) -> (result: Result<RolloutReport, &'static str>)
    ensures
        (config.sample_count == 0 || config.max_turn_count == 0) ==> result is Err,
        !(MIN_PLAYER_COUNT <= N <= MAX_PLAYER_COUNT) || observation.current_player_id >= N || observation.player_id
            != observation.current_player_id ==> result is Err,
        MIN_PLAYER_COUNT <= N <= MAX_PLAYER_COUNT && (active_count(observation.bankrupt_players, N as nat) < 2
            || player_in(observation.bankrupt_players, observation.player_id as int)) ==> result is Err,
        result is Ok ==> dimensions_supported(observation) && history_consistent(observation)
            && observation.cash_by_player_id@.len() == N,
        result is Err ==> config.sample_count == 0 || config.max_turn_count == 0 || !(MIN_PLAYER_COUNT <= N
            <= MAX_PLAYER_COUNT) || observation.current_player_id >= N || observation.player_id
            != observation.current_player_id || active_count(observation.bankrupt_players, N as nat) < 2 || player_in(
            observation.bankrupt_players,
            observation.player_id as int,
        ) || !dimensions_supported(observation) || !history_consistent(observation)
            || observation.cash_by_player_id@.len() != N || some_rollout_refused::<N>(observation, decision),
        result matches Ok(report) ==> {
            &&& report.player_id == observation.player_id
            &&& report.decision == decision
            &&& report.config == config
            &&& report.continuation_policies@ == policies@
            &&& evaluates_alternatives::<N>(report, config.sample_count as int, config.max_turn_count as int)
            &&& decision != RolloutDecision::Jail ==> report.alternatives@[0].action == RolloutAction::Management(None)
        },
        result matches Ok(report) ==> exists|first: GameState<N>|
            #![trigger alternatives_spec(first, *observation.rules, observation.player_id, decision)]
            {
                let alternatives = alternatives_spec(first, *observation.rules, observation.player_id, decision);
                &&& allowed_world(observation, first)
                &&& report.alternatives@.len() == alternatives.len()
                &&& forall|index: int|
                    0 <= index < alternatives.len() ==> #[trigger] report.alternatives@[index].action == alternatives[index]
            },
        result matches Ok(report) ==> forall|sample: int|
            0 <= sample < config.sample_count ==> #[trigger] sample_rolled_out::<N>(observation, report.alternatives@, sample, policies@),
{
    if config.sample_count == 0 || config.max_turn_count == 0 {
        return Err("rollouts require positive sample and turn counts");
    }
    if !(MIN_PLAYER_COUNT <= N && N <= MAX_PLAYER_COUNT) || observation.current_player_id as usize >= N
        || observation.player_id != observation.current_player_id {
        return Err("rollouts require the current player and 2 to 8 players");
    }
    if count_active(observation.bankrupt_players, N) < 2 || contains_player(
        observation.bankrupt_players,
        observation.player_id,
    ) {
        return Err("rollouts require an active player in an unfinished game");
    }
    let belief = match RolloutBelief::new(observation) {
        Ok(belief) => belief,
        Err(error) => return Err(error),
    };
    let mut first_rng = WyRand::new(config.seed);
    let first = match belief.sample::<N>(&mut first_rng) {
        Ok(state) => state,
        Err(error) => return Err(error),
    };
    let actions = alternatives_at(&first, observation.rules, observation.player_id, decision);
    if actions.len() == 0 {
        proof {
            assert(allowed_world(observation, first));
        }
        return Err("no legal actions at the requested decision");
    }
    let mut alternatives: Vec<ActionEvaluation> = Vec::new();
    let mut index: usize = 0;
    while index < actions.len()
        invariant
            index <= actions@.len(),
            alternatives@.len() == index,
            forall|earlier: int|
                0 <= earlier < index ==> #[trigger] alternatives@[earlier].action == actions@[earlier]
                    && alternatives@[earlier].outcomes@.len() == 0,
        decreases actions@.len() - index,
    {
        alternatives.push(ActionEvaluation { action: actions[index], outcomes: Vec::new() });
        index = index + 1;
    }
    let mut sample_index: u32 = 0;
    let ghost mut worlds: Seq<GameState<N>> = seq![];
    while sample_index < config.sample_count
        invariant
            worlds.len() == sample_index,
            forall|sample: int|
                0 <= sample < sample_index ==> allowed_world(observation, #[trigger] worlds[sample]) && rolled_out_on(
                    worlds[sample],
                    *observation.rules,
                    alternatives@,
                    sample,
                    policies@,
                ),
            belief.wf(),
            belief.observation_spec() == observation,
            observation.cash_by_player_id@.len() == N,
            allowed_world(observation, first),
            actions@ == alternatives_spec(first, *observation.rules, observation.player_id, decision),
            sample_index <= config.sample_count,
            actions@.len() >= 1,
            decision != RolloutDecision::Jail ==> actions@[0] == RolloutAction::Management(None),
            alternatives@.len() == actions@.len(),
            forall|earlier: int|
                0 <= earlier < alternatives@.len() ==> {
                    let alternative = #[trigger] alternatives@[earlier];
                    &&& alternative.action == actions@[earlier]
                    &&& alternative.outcomes@.len() == sample_index
                    &&& forall|sample: int|
                        0 <= sample < sample_index ==> outcome_within::<N>(
                            #[trigger] alternative.outcomes@[sample],
                            config.max_turn_count as int,
                        )
                },
        decreases config.sample_count - sample_index,
    {
        let mut rng = WyRand::new(config.seed.wrapping_add(sample_index as u64));
        let state = match belief.sample::<N>(&mut rng) {
            Ok(state) => state,
            Err(error) => return Err(error),
        };
        let mut outcomes: Vec<RolloutOutcome> = Vec::new();
        let mut action_index: usize = 0;
        while action_index < actions.len()
            invariant
                action_index <= actions@.len(),
                outcomes@.len() == action_index,
                allowed_world(observation, first),
                allowed_world(observation, state),
                actions@ == alternatives_spec(first, *observation.rules, observation.player_id, decision),
                forall|earlier: int|
                    0 <= earlier < action_index ==> outcome_within::<N>(
                        #[trigger] outcomes@[earlier],
                        config.max_turn_count as int,
                    ),
                forall|earlier: int|
                    0 <= earlier < action_index ==> rolled_on(
                        state,
                        *observation.rules,
                        actions@[earlier],
                        #[trigger] outcomes@[earlier],
                        policies@,
                    ),
            decreases actions@.len() - action_index,
        {
            let outcome = match run(state, *policies, observation.rules, decision, actions[action_index], config.max_turn_count) {
                Ok(outcome) => outcome,
                Err(error) => {
                    proof {
                        assert(!rollout_accepted(
                            state,
                            *observation.rules,
                            decision,
                            alternatives_spec(first, *observation.rules, observation.player_id, decision)[action_index as int],
                        ));
                    }
                    return Err(error);
                },
            };
            outcomes.push(outcome);
            action_index = action_index + 1;
        }
        let ghost before = alternatives@;
        let mut alternative_index: usize = 0;
        while alternative_index < alternatives.len()
            invariant
                alternative_index <= alternatives@.len(),
                alternatives@.len() == before.len(),
                outcomes@.len() == before.len(),
                forall|earlier: int|
                    0 <= earlier < before.len() ==> #[trigger] alternatives@[earlier].action == before[earlier].action,
                forall|earlier: int|
                    0 <= earlier < alternative_index ==> #[trigger] alternatives@[earlier].outcomes@ == before[
                        earlier].outcomes@.push(outcomes@[earlier]),
                forall|later: int|
                    alternative_index <= later < before.len() ==> #[trigger] alternatives@[later].outcomes@
                        == before[later].outcomes@,
            decreases before.len() - alternative_index,
        {
            let mut alternative = alternatives.remove(alternative_index);
            alternative.outcomes.push(outcomes[alternative_index]);
            alternatives.insert(alternative_index, alternative);
            alternative_index = alternative_index + 1;
        }
        proof {
            let rules = *observation.rules;
            assert forall|sample: int| 0 <= sample < sample_index implies rolled_out_on(
                worlds[sample],
                rules,
                alternatives@,
                sample,
                policies@,
            ) by {
                assert(rolled_out_on(worlds[sample], rules, before, sample, policies@));
                assert forall|index: int| 0 <= index < alternatives@.len() implies rolled_on(
                    worlds[sample],
                    rules,
                    alternatives@[index].action,
                    #[trigger] alternatives@[index].outcomes@[sample],
                    policies@,
                ) by {
                    assert(alternatives@[index].outcomes@ == before[index].outcomes@.push(outcomes@[index]));
                    assert(rolled_on(worlds[sample], rules, before[index].action, before[index].outcomes@[sample], policies@));
                }
            }
            assert forall|index: int| 0 <= index < alternatives@.len() implies rolled_on(
                state,
                rules,
                alternatives@[index].action,
                #[trigger] alternatives@[index].outcomes@[sample_index as int],
                policies@,
            ) by {
                assert(alternatives@[index].outcomes@ == before[index].outcomes@.push(outcomes@[index]));
                assert(rolled_on(state, rules, actions@[index], outcomes@[index], policies@));
            }
            assert(rolled_out_on(state, rules, alternatives@, sample_index as int, policies@));
            worlds = worlds.push(state);
            assert forall|earlier: int| 0 <= earlier < alternatives@.len() implies {
                let alternative = #[trigger] alternatives@[earlier];
                &&& alternative.action == actions@[earlier]
                &&& alternative.outcomes@.len() == sample_index + 1
                &&& forall|sample: int|
                    0 <= sample < sample_index + 1 ==> outcome_within::<N>(
                        #[trigger] alternative.outcomes@[sample],
                        config.max_turn_count as int,
                    )
            } by {
                assert(alternatives@[earlier].outcomes@ == before[earlier].outcomes@.push(outcomes@[earlier]));
                assert forall|sample: int| 0 <= sample < sample_index + 1 implies outcome_within::<N>(
                    #[trigger] alternatives@[earlier].outcomes@[sample],
                    config.max_turn_count as int,
                ) by {
                    if sample < sample_index {
                        assert(alternatives@[earlier].outcomes@[sample] == before[earlier].outcomes@[sample]);
                    }
                }
            }
        }
        sample_index = sample_index + 1;
    }
    let mut continuation_policies: Vec<ConfigurableStrategy> = Vec::new();
    let mut seat: usize = 0;
    while seat < N
        invariant
            seat <= N,
            continuation_policies@ == policies@.take(seat as int),
        decreases N - seat,
    {
        continuation_policies.push(policies[seat]);
        seat = seat + 1;
        assert(continuation_policies@ =~= policies@.take(seat as int));
    }
    assert(continuation_policies@ =~= policies@);
    assert(alternatives@.len() == alternatives_spec(first, *observation.rules, observation.player_id, decision).len());
    assert forall|sample: int| 0 <= sample < config.sample_count implies #[trigger] sample_rolled_out::<N>(
        observation,
        alternatives@,
        sample,
        policies@,
    ) by {
        assert(allowed_world(observation, worlds[sample]) && rolled_out_on(
            worlds[sample],
            *observation.rules,
            alternatives@,
            sample,
            policies@,
        ));
    }
    Ok(RolloutReport { player_id: observation.player_id, decision, config, continuation_policies, alternatives })
}

} // verus!
