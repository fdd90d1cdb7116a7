use vstd::prelude::*;

use crate::game::board::data::{
    MAX_PLAYER_COUNT,
    MIN_PLAYER_COUNT,
};
use crate::game::board::model::PlayerId;
use crate::game::engine::action::{
    ActionError,
    ManagementAction,
    ManagementPhase,
    jail_action_check,
    legal_jail_actions,
    legal_jail_list,
    legal_management_actions,
    legal_management_list,
    management_id_count,
    managed,
};
use crate::game::engine::turn::{
    TurnPhase,
    lemma_phases_extended,
    phase_followed,
    phases_played,
    turns_finished,
    advance_turn,
    apply_jail_decision,
    apply_management_decision,
    find_sole_active_player,
    has_sole_active_player,
    management_decision_accepted,
    phase_budget,
    phase_rank,
    sole_active_player,
};
use crate::game::ruleset::model::Ruleset;
use crate::game::state::model::{
    GameState,
    contains_player,
};
use crate::game::strategy::configurable::ConfigurableStrategy;
use crate::game::strategy::model::{
    JailAction,
    PlayerStrategy,
    policies_kept,
};

verus! {

#[derive(Debug, Clone, Copy, PartialEq, Eq, Structural)]
pub enum BranchAction {
    Management(Option<ManagementAction>),
    Jail(JailAction),
}

#[derive(Debug, Clone, Copy, PartialEq, Eq, Structural)]
pub enum BranchKind {
    Management,
    Jail,
}

#[derive(Debug, Clone, Copy, PartialEq, Eq, Structural)]
pub enum BranchError {
    /// The games need at least one turn.
    NonPositiveTurnLimit,
    /// There must be one policy for each of two to eight players.
    UnsupportedPlayerCount(usize),
    /// The engine refused a branch action.
    IllegalAction(ActionError),
    /// The game ended or reached its turn limit before the decision, after the given number of
    /// eligible decisions.
    NotReached { kind: BranchKind, target: u64, found: u64 },
}

/// One branch: the action taken at the fork, the state right after it, and how the game went on
/// from there.
#[derive(Debug, Clone, Copy, PartialEq, Eq)]
pub struct BranchOutcome<const N: usize> {
    pub action: BranchAction,
    pub state_after_action: GameState<N>,
    pub final_state: GameState<N>,
    pub winner: Option<PlayerId>,
    pub completed_turn_count: u32,
}

/// The decision at which a game was forked, what the player's policy chose there, and one
/// branch for each legal alternative.
#[derive(Debug, Clone, PartialEq, Eq)]
pub struct BranchReport<const N: usize> {
    pub decision_index: u64,
    pub completed_turns_before_fork: u32,
    pub phase: &'static str,
    pub player_id: PlayerId,
    pub fork_state: GameState<N>,
    pub baseline_action: BranchAction,
    pub branches: Vec<BranchOutcome<N>>,
}

/// Whether `outcome` went on from `start`, after `completed_turn_count` finished turns, until a
/// single player was left or `limit` turns were finished.
pub open spec fn played_out<const N: usize>(outcome: BranchOutcome<N>, completed_turn_count: int, limit: int) -> bool {
    &&& outcome.state_after_action.wf()
    &&& outcome.final_state.wf()
    &&& completed_turn_count <= outcome.completed_turn_count <= limit
    &&& match outcome.winner {
        Some(winner) => sole_active_player(outcome.final_state, winner as int),
        None => outcome.completed_turn_count == limit && forall|player: int|
            !sole_active_player(outcome.final_state, player),
    }
}

/// Whether the game of `outcome` went on, phase by phase, from the state right after its
/// action to its final state, with players of `policies`, finishing the turns from
/// `completed_turn_count` on to its count.
pub open spec fn went_on<const N: usize>(
    outcome: BranchOutcome<N>,
    completed_turn_count: int,
    rules: Ruleset,
    policies: Seq<ConfigurableStrategy>,
) -> bool {
    exists|states: Seq<GameState<N>>, seats: Seq<Seq<ConfigurableStrategy>>, phases: Seq<TurnPhase>|
        #[trigger] phases_played(states, seats, phases, rules) && policies_kept(policies, seats[0]) && states[0]
            == outcome.state_after_action && states.last() == outcome.final_state && turns_finished(phases)
            + completed_turn_count == outcome.completed_turn_count
}

/// Whether the branch of `outcome` took its action in `state`: a management action is the one
/// the engine executes, and no action leaves the state as it was.
pub open spec fn branched_from<const N: usize>(state: GameState<N>, outcome: BranchOutcome<N>) -> bool {
    took_action(state, outcome.action, outcome.state_after_action)
}

/// Whether `after` follows from `state` by `action`: a management action is the one the engine
/// executes, no action leaves the state as it was, and a jail action keeps the player.
pub open spec fn took_action<const N: usize>(state: GameState<N>, action: BranchAction, after: GameState<N>) -> bool {
    match action {
        BranchAction::Management(None) => after == state,
        BranchAction::Management(Some(action)) => after == managed(state, state.current_player_id as int, action).0,
        BranchAction::Jail(_) => after.current_player_id == state.current_player_id,
    }
}

/// Whether the engine takes `action` at `phase` in `state`: the current player's management
/// decision in a management phase, or a jail action that the jail rules allow in the jail phase.
pub open spec fn branch_accepted<const N: usize>(
    state: GameState<N>,
    rules: Ruleset,
    phase: TurnPhase,
    action: BranchAction,
) -> bool {
    match action {
        BranchAction::Management(action) => management_decision_accepted(state, rules, phase, action),
        BranchAction::Jail(action) => phase == TurnPhase::Jail && jail_action_check(
            state,
            rules,
            state.current_player_id as int,
            action,
        ) is Ok,
    }
}

/// Plays on from `state` at `phase`, once `action` is taken, until a single player is left or
/// `limit` turns are finished.
pub fn rollout<const N: usize>(
    state: GameState<N>,
    strategies: [ConfigurableStrategy; N],
    rules: &Ruleset,
    phase: TurnPhase,
    action: BranchAction,
    completed_turn_count: u32,
    limit: u32,
) -> (result: Result<BranchOutcome<N>, BranchError>)
    requires
        state.wf(),
        completed_turn_count < limit,
    ensures
        result matches Ok(outcome) ==> outcome.action == action && played_out(
            outcome,
            completed_turn_count as int,
            limit as int,
        ) && branched_from(state, outcome) && went_on(outcome, completed_turn_count as int, *rules, strategies@),
        result is Ok <==> branch_accepted(state, *rules, phase, action),
        result matches Err(error) ==> error is IllegalAction,
{
    let mut state = state;
    let given = strategies;
    let mut strategies = strategies;
    let started = state;
    let applied = match action {
        BranchAction::Management(action) => apply_management_decision(&mut state, rules, &mut strategies, phase, action),
        BranchAction::Jail(action) => if phase == TurnPhase::Jail {
            apply_jail_decision(&mut state, rules, &mut strategies, action)
        } else {
            Err(ActionError::WrongPhase)
        },
    };
    let mut phase = match applied {
        Ok(next) => next,
        Err(error) => return Err(BranchError::IllegalAction(error)),
    };
    let state_after_action = state;
    let start = completed_turn_count;
    let mut completed_turn_count = completed_turn_count;
    let mut winner: Option<PlayerId> = None;
    let ghost mut states = seq![state];
    let ghost mut seats = seq![strategies@];
    let ghost mut phases = seq![phase];
    while completed_turn_count < limit && winner.is_none()
        invariant
            seats.last() == strategies@,
            policies_kept(given@, seats[0]),
            state.wf(),
            state_after_action.wf(),
            took_action(started, action, state_after_action),
            start <= completed_turn_count <= limit,
            phase_budget(state, phase) >= 0,
            winner matches Some(player) ==> sole_active_player(state, player as int),
            phases_played(states, seats, phases, *rules),
            states[0] == state_after_action,
            states.last() == state,
            phases.last() == phase,
            turns_finished(phases) + start == completed_turn_count,
        decreases limit - completed_turn_count, phase_rank(phase), phase_budget(state, phase),
    {
        let ghost before = state;
        let ghost before_phase = phase;
        let ghost before_seats = strategies@;
        let next = advance_turn(&mut state, rules, &mut strategies, phase);
        if next == TurnPhase::Finished {
            completed_turn_count = completed_turn_count + 1;
            winner = find_sole_active_player(&state);
            phase = TurnPhase::Start;
        } else {
            phase = next;
        }
        proof {
            assert(phase_followed(before, before_seats, before_phase, state, strategies@, phase, *rules));
            lemma_phases_extended(states, seats, phases, *rules, state, strategies@, phase);
            states = states.push(state);
            seats = seats.push(strategies@);
            phases = phases.push(phase);
        }
    }
    let winner = find_sole_active_player(&state);
    let outcome = BranchOutcome { action, state_after_action, final_state: state, winner, completed_turn_count };
    assert(phases_played(states, seats, phases, *rules) && policies_kept(given@, seats[0]) && states[0]
        == outcome.state_after_action && states.last() == outcome.final_state && turns_finished(phases) + start
        == outcome.completed_turn_count);
    Ok(outcome)
}

/// Plays every branch of `actions` from `state` at `phase`.
fn play_branches<const N: usize>(
    state: GameState<N>,
    strategies: [ConfigurableStrategy; N],
    rules: &Ruleset,
    phase: TurnPhase,
    actions: &Vec<BranchAction>,
    completed_turn_count: u32,
    limit: u32,
) -> (result: Result<Vec<BranchOutcome<N>>, BranchError>)
    requires
        state.wf(),
        completed_turn_count < limit,
    ensures
        result matches Ok(branches) ==> branches@.len() == actions@.len() && forall|index: int|
            0 <= index < branches@.len() ==> {
                let outcome = #[trigger] branches@[index];
                &&& outcome.action == actions@[index]
                &&& played_out(outcome, completed_turn_count as int, limit as int)
                &&& branched_from(state, outcome)
                &&& went_on(outcome, completed_turn_count as int, *rules, strategies@)
            },
        result is Ok <==> forall|index: int|
            0 <= index < actions@.len() ==> branch_accepted(state, *rules, phase, #[trigger] actions@[index]),
        result matches Err(error) ==> error is IllegalAction,
{
    let mut branches: Vec<BranchOutcome<N>> = Vec::new();
    let mut index: usize = 0;
    while index < actions.len()
        invariant
            state.wf(),
            completed_turn_count < limit,
            index <= actions@.len(),
            branches@.len() == index,
            forall|earlier: int|
                0 <= earlier < index ==> {
                    let outcome = #[trigger] branches@[earlier];
                    &&& outcome.action == actions@[earlier]
                    &&& played_out(outcome, completed_turn_count as int, limit as int)
                    &&& branched_from(state, outcome)
                    &&& went_on(outcome, completed_turn_count as int, *rules, strategies@)
                },
            forall|earlier: int|
                0 <= earlier < index ==> branch_accepted(state, *rules, phase, #[trigger] actions@[earlier]),
        decreases actions@.len() - index,
    {
        let outcome = match rollout(state, strategies, rules, phase, actions[index], completed_turn_count, limit) {
            Ok(outcome) => outcome,
            Err(error) => return Err(error),
        };
        branches.push(outcome);
        index = index + 1;
    }
    Ok(branches)
}

/// The management alternatives at a fork: no action, then each legal action.
fn management_alternatives(actions: &Vec<ManagementAction>) -> (alternatives: Vec<BranchAction>)
    ensures
        alternatives@.len() == actions@.len() + 1,
        alternatives@[0] == BranchAction::Management(None),
        forall|index: int|
            0 <= index < actions@.len() ==> #[trigger] alternatives@[index + 1] == BranchAction::Management(
                Some(actions@[index]),
            ),
{
    let mut alternatives: Vec<BranchAction> = Vec::new();
    alternatives.push(BranchAction::Management(None));
    let mut index: usize = 0;
    while index < actions.len()
        invariant
            index <= actions@.len(),
            alternatives@.len() == index + 1,
            alternatives@[0] == BranchAction::Management(None),
            forall|earlier: int|
                0 <= earlier < index ==> #[trigger] alternatives@[earlier + 1] == BranchAction::Management(
                    Some(actions@[earlier]),
                ),
        decreases actions@.len() - index,
    {
        alternatives.push(BranchAction::Management(Some(actions[index])));
        index = index + 1;
    }
    alternatives
}

/// The jail alternatives at a fork: each legal jail action.
fn jail_alternatives(actions: &Vec<JailAction>) -> (alternatives: Vec<BranchAction>)
    ensures
        alternatives@.len() == actions@.len(),
        forall|index: int|
            0 <= index < actions@.len() ==> #[trigger] alternatives@[index] == BranchAction::Jail(actions@[index]),
{
    let mut alternatives: Vec<BranchAction> = Vec::new();
    let mut index: usize = 0;
    while index < actions.len()
        invariant
            index <= actions@.len(),
            alternatives@.len() == index,
            forall|earlier: int|
                0 <= earlier < index ==> #[trigger] alternatives@[earlier] == BranchAction::Jail(actions@[earlier]),
        decreases actions@.len() - index,
    {
        alternatives.push(BranchAction::Jail(actions[index]));
        index = index + 1;
    }
    alternatives
}

/// Forks the `decision_index`-th management decision with at least one legal action.
pub fn branch_management<const N: usize>(
    rules: &Ruleset,
    policies: &[ConfigurableStrategy],
    seed: u64,
    max_turn_count: u32,
    decision_index: u64,
) -> (result: Result<BranchReport<N>, BranchError>)
    ensures
        max_turn_count == 0 ==> result == Err::<BranchReport<N>, BranchError>(BranchError::NonPositiveTurnLimit),
        max_turn_count > 0 && !(MIN_PLAYER_COUNT <= N <= MAX_PLAYER_COUNT && policies@.len() == N) ==> result == Err::<
            BranchReport<N>,
            BranchError,
        >(BranchError::UnsupportedPlayerCount(policies@.len() as usize)),
        result matches Ok(report) ==> branches_fork(report, *rules, max_turn_count as int, policies@),
        result matches Ok(report) ==> forks_every_alternative(report, *rules, BranchKind::Management),
        result matches Ok(report) ==> report.decision_index == decision_index && exists|
            states: Seq<GameState<N>>,
            seats: Seq<Seq<ConfigurableStrategy>>,
            phases: Seq<TurnPhase>,
        |
            #[trigger] played_from_seed(seed, *rules, policies@, states, seats, phases) && states.last() == report.fork_state
                && decision_eligible(states.last(), phases.last(), *rules, BranchKind::Management) && decisions_met(
                states,
                phases,
                *rules,
                BranchKind::Management,
            ) == decision_index && turns_finished(phases) == report.completed_turns_before_fork,
        result matches Err(BranchError::NotReached { kind, target, found }) ==> kind == BranchKind::Management
            && target == decision_index && found <= decision_index && exists|
            states: Seq<GameState<N>>,
            seats: Seq<Seq<ConfigurableStrategy>>,
            phases: Seq<TurnPhase>,
        |
            #[trigger] played_from_seed(seed, *rules, policies@, states, seats, phases) && decisions_met(
                states,
                phases,
                *rules,
                BranchKind::Management,
            ) == found && (turns_finished(phases) == max_turn_count || (phases.last() == TurnPhase::Start
                && has_sole_active_player(states.last()))),
        result matches Err(BranchError::IllegalAction(_)) ==> exists|
            states: Seq<GameState<N>>,
            seats: Seq<Seq<ConfigurableStrategy>>,
            phases: Seq<TurnPhase>,
        |
            #[trigger] played_from_seed(seed, *rules, policies@, states, seats, phases) && decision_eligible(
                states.last(),
                phases.last(),
                *rules,
                BranchKind::Management,
            ) && decisions_met(states, phases, *rules, BranchKind::Management) == decision_index
                && alternative_refused(states.last(), *rules, phases.last()),
{
    branch_decision::<N>(rules, policies, seed, max_turn_count, decision_index, BranchKind::Management)
}

/// Whether `report` holds one played-out branch per alternative at its fork.
pub open spec fn branches_fork<const N: usize>(
    report: BranchReport<N>,
    rules: Ruleset,
    limit: int,
    policies: Seq<ConfigurableStrategy>,
) -> bool {
    &&& report.fork_state.wf()
    &&& report.player_id == report.fork_state.current_player_id
    &&& report.completed_turns_before_fork < limit
    &&& forall|index: int|
        0 <= index < report.branches@.len() ==> {
            let outcome = #[trigger] report.branches@[index];
            &&& played_out(outcome, report.completed_turns_before_fork as int, limit)
            &&& branched_from(report.fork_state, outcome)
            &&& went_on(outcome, report.completed_turns_before_fork as int, rules, policies)
        }
}

/// The alternatives at a fork in `state` at `phase`: each legal jail action in the jail phase,
/// and otherwise no action followed by each legal management action of the phase, in the
/// engine's order.
pub open spec fn fork_alternatives<const N: usize>(state: GameState<N>, rules: Ruleset, phase: TurnPhase) -> Seq<
    BranchAction,
> {
    let player = state.current_player_id as int;
    if phase == TurnPhase::Jail {
        legal_jail_list(state, rules, player).map_values(|action: JailAction| BranchAction::Jail(action))
    } else {
        let management_phase = if phase == TurnPhase::Building {
            ManagementPhase::Building
        } else {
            ManagementPhase::Unmortgaging
        };
        seq![BranchAction::Management(None)] + legal_management_list(
            state,
            rules,
            player,
            management_phase,
            management_id_count(management_phase),
        ).map_values(|action: ManagementAction| BranchAction::Management(Some(action)))
    }
}

/// Whether the branches of `report` are exactly the alternatives at its fork, one per
/// alternative and in their order, at a phase of the decision's `kind`.
pub open spec fn forks_every_alternative<const N: usize>(report: BranchReport<N>, rules: Ruleset, kind: BranchKind) -> bool {
    exists|phase: TurnPhase|
        #![trigger fork_alternatives(report.fork_state, rules, phase)]
        {
            &&& if kind == BranchKind::Jail {
                phase == TurnPhase::Jail
            } else {
                phase == TurnPhase::Building || phase == TurnPhase::Unmortgaging
            }
            &&& report.branches@.len() == fork_alternatives(report.fork_state, rules, phase).len()
            &&& forall|index: int|
                0 <= index < report.branches@.len() ==> #[trigger] report.branches@[index].action == fork_alternatives(
                    report.fork_state,
                    rules,
                    phase,
                )[index]
        }
}

/// Whether the engine refuses one of the alternatives at a fork in `state` at `phase`.
pub open spec fn alternative_refused<const N: usize>(state: GameState<N>, rules: Ruleset, phase: TurnPhase) -> bool {
    exists|index: int|
        0 <= index < fork_alternatives(state, rules, phase).len() && !branch_accepted(
            state,
            rules,
            phase,
            #[trigger] fork_alternatives(state, rules, phase)[index],
        )
}

/// Whether the current player of `state` faces a decision of `kind` at `phase`: a management
/// phase with at least one legal action, or the jail phase of a jailed player.
pub open spec fn decision_eligible<const N: usize>(
    state: GameState<N>,
    phase: TurnPhase,
    rules: Ruleset,
    kind: BranchKind,
) -> bool {
    let player = state.current_player_id as int;
    let management_phase = if phase == TurnPhase::Building {
        ManagementPhase::Building
    } else {
        ManagementPhase::Unmortgaging
    };
    match kind {
        BranchKind::Management => (phase == TurnPhase::Building || phase == TurnPhase::Unmortgaging)
            && legal_management_list(state, rules, player, management_phase, management_id_count(management_phase)).len()
            > 0,
        BranchKind::Jail => phase == TurnPhase::Jail && state.is_jailed(player),
    }
}

/// The number of decisions of `kind` met along a game played phase by phase, before its last
/// state.
pub open spec fn decisions_met<const N: usize>(
    states: Seq<GameState<N>>,
    phases: Seq<TurnPhase>,
    rules: Ruleset,
    kind: BranchKind,
) -> nat
    decreases states.len(),
{
    if states.len() <= 1 {
        0
    } else {
        decisions_met(states.drop_last(), phases.drop_last(), rules, kind) + if decision_eligible(
            states[states.len() - 2],
            phases[states.len() - 2],
            rules,
            kind,
        ) {
            1nat
        } else {
            0nat
        }
    }
}

/// Whether `states`, with the players `seats` and at `phases`, are a game played phase by
/// phase from the start of the game dealt from `seed`, by players of `policies` in their seats.
pub open spec fn played_from_seed<const N: usize>(
    seed: u64,
    rules: Ruleset,
    policies: Seq<ConfigurableStrategy>,
    states: Seq<GameState<N>>,
    seats: Seq<Seq<ConfigurableStrategy>>,
    phases: Seq<TurnPhase>,
) -> bool {
    &&& phases_played(states, seats, phases, rules)
    &&& policies_kept(policies, seats[0])
    &&& GameState::<N>::is_starting_state(states[0], rules, seed)
    &&& phases[0] == TurnPhase::Start
}

proof fn lemma_decisions_extended<const N: usize>(
    states: Seq<GameState<N>>,
    phases: Seq<TurnPhase>,
    rules: Ruleset,
    kind: BranchKind,
    after: GameState<N>,
    then: TurnPhase,
)
    requires
        states.len() >= 1,
        phases.len() == states.len(),
    ensures
        decisions_met(states.push(after), phases.push(then), rules, kind) == decisions_met(states, phases, rules, kind)
            + if decision_eligible(states.last(), phases.last(), rules, kind) {
            1nat
        } else {
            0nat
        },
{
    assert(states.push(after).drop_last() =~= states);
    assert(phases.push(then).drop_last() =~= phases);
}

/// Plays a game with `policies` from `seed` up to the `decision_index`-th eligible decision of
/// `kind` (a management decision with a legal action, or a jail decision), then plays each
/// alternative there to the end of the game or the turn limit.
pub fn branch_decision<const N: usize>(
    rules: &Ruleset,
    policies: &[ConfigurableStrategy],
    seed: u64,
    max_turn_count: u32,
    decision_index: u64,
    kind: BranchKind,
) -> (result: Result<BranchReport<N>, BranchError>)
    ensures
        max_turn_count == 0 ==> result == Err::<BranchReport<N>, BranchError>(BranchError::NonPositiveTurnLimit),
        max_turn_count > 0 && !(MIN_PLAYER_COUNT <= N <= MAX_PLAYER_COUNT && policies@.len() == N) ==> result == Err::<
            BranchReport<N>,
            BranchError,
        >(BranchError::UnsupportedPlayerCount(policies@.len() as usize)),
        result matches Ok(report) ==> report.decision_index == decision_index && branches_fork(
            report,
            *rules,
            max_turn_count as int,
            policies@,
        ),
        result matches Ok(report) ==> forks_every_alternative(report, *rules, kind),
        result matches Err(BranchError::NotReached { kind: reached_kind, target, found }) ==> reached_kind == kind
            && target == decision_index && found <= decision_index,
        result matches Ok(report) ==> exists|states: Seq<GameState<N>>, seats: Seq<Seq<ConfigurableStrategy>>, phases: Seq<TurnPhase>|
            #[trigger] played_from_seed(seed, *rules, policies@, states, seats, phases) && states.last() == report.fork_state
                && decision_eligible(states.last(), phases.last(), *rules, kind) && decisions_met(
                states,
                phases,
                *rules,
                kind,
            ) == decision_index && turns_finished(phases) == report.completed_turns_before_fork,
        result matches Err(BranchError::NotReached { found, .. }) ==> exists|
            states: Seq<GameState<N>>,
            seats: Seq<Seq<ConfigurableStrategy>>,
            phases: Seq<TurnPhase>,
        |
            #[trigger] played_from_seed(seed, *rules, policies@, states, seats, phases) && decisions_met(states, phases, *rules, kind)
                == found && (turns_finished(phases) == max_turn_count || (phases.last() == TurnPhase::Start
                && has_sole_active_player(states.last()))),
        result matches Err(BranchError::IllegalAction(_)) ==> exists|
            states: Seq<GameState<N>>,
            seats: Seq<Seq<ConfigurableStrategy>>,
            phases: Seq<TurnPhase>,
        |
            #[trigger] played_from_seed(seed, *rules, policies@, states, seats, phases) && decision_eligible(
                states.last(),
                phases.last(),
                *rules,
                kind,
            ) && decisions_met(states, phases, *rules, kind) == decision_index && alternative_refused(
                states.last(),
                *rules,
                phases.last(),
            ),
{
    if max_turn_count == 0 {
        return Err(BranchError::NonPositiveTurnLimit);
    }
    if !(MIN_PLAYER_COUNT <= N && N <= MAX_PLAYER_COUNT && policies.len() == N) {
        return Err(BranchError::UnsupportedPlayerCount(policies.len()));
    }
    let mut strategies: [ConfigurableStrategy; N] = vstd::array::array_fill_for_copy_types(policies[0]);
    let mut seat: usize = 0;
    while seat < N
        invariant
            seat <= N,
            policies@.len() == N,
            forall|earlier: int| 0 <= earlier < seat ==> #[trigger] strategies@[earlier] == policies@[earlier],
        decreases N - seat,
    {
        strategies[seat] = policies[seat];
        seat = seat + 1;
    }
    assert(strategies@ =~= policies@);
    let mut state = GameState::<N>::create_starting_state(rules, seed);
    let mut phase = TurnPhase::Start;
    let mut completed_turns: u32 = 0;
    let mut index: u64 = 0;
    let mut game_over = false;
    let ghost mut states = seq![state];
    let ghost mut seats = seq![strategies@];
    let ghost mut phases = seq![phase];
    while completed_turns < max_turn_count && !game_over
        invariant
            MIN_PLAYER_COUNT <= N <= MAX_PLAYER_COUNT,
            seats.last() == strategies@,
            policies_kept(policies@, strategies@),
            state.wf(),
            completed_turns <= max_turn_count,
            phase_budget(state, phase) >= 0,
            index <= decision_index,
            policies@.len() == N,
            played_from_seed(seed, *rules, policies@, states, seats, phases),
            states.last() == state,
            phases.last() == phase,
            turns_finished(phases) == completed_turns,
            decisions_met(states, phases, *rules, kind) == index,
            game_over ==> phase == TurnPhase::Start && has_sole_active_player(state),
        decreases max_turn_count - completed_turns, phase_rank(phase), phase_budget(state, phase),
    {
        let player = state.current_player_id;
        let ghost met = index;
        if kind == BranchKind::Management && (phase == TurnPhase::Building || phase == TurnPhase::Unmortgaging) {
            let management_phase = if phase == TurnPhase::Building {
                ManagementPhase::Building
            } else {
                ManagementPhase::Unmortgaging
            };
            let legal = legal_management_actions(&state, rules, player, management_phase);
            let actions = legal.iter();
            assert(actions@ == legal_management_list(
                state,
                *rules,
                player as int,
                management_phase,
                management_id_count(management_phase),
            ));
            if actions.len() > 0 {
                if index == decision_index {
                    let baseline_action = strategies[player as usize].choose_management_action(&state, rules, player, &legal);
                    let alternatives = management_alternatives(&actions);
                    proof {
                        let expected = fork_alternatives(state, *rules, phase);
                        assert(actions@ == legal_management_list(
                            state,
                            *rules,
                            player as int,
                            management_phase,
                            management_id_count(management_phase),
                        ));
                        assert forall|at: int| 0 <= at < alternatives@.len() implies alternatives@[at] == expected[at] by {
                            if at > 0 {
                                assert(alternatives@[(at - 1) + 1] == BranchAction::Management(Some(actions@[at - 1])));
                            }
                        }
                        assert(alternatives@ =~= expected);
                    }
                    let branches = match play_branches(state, strategies, rules, phase, &alternatives, completed_turns, max_turn_count) {
                        Ok(branches) => branches,
                        Err(error) => {
                            proof {
                                let refused = choose|index: int|
                                    0 <= index < alternatives@.len() && !branch_accepted(
                                        state,
                                        *rules,
                                        phase,
                                        #[trigger] alternatives@[index],
                                    );
                                assert(!branch_accepted(
                                    state,
                                    *rules,
                                    phase,
                                    fork_alternatives(state, *rules, phase)[refused],
                                ));
                                assert(played_from_seed(seed, *rules, policies@, states, seats, phases) && decision_eligible(
                                    states.last(),
                                    phases.last(),
                                    *rules,
                                    kind,
                                ));
                            }
                            return Err(error);
                        },
                    };
                    proof {
                        let expected = fork_alternatives(state, *rules, phase);
                        assert forall|at: int| 0 <= at < branches@.len() implies #[trigger] branches@[at].action
                            == expected[at] by {}
                    }
                    let report = BranchReport {
                        decision_index,
                        completed_turns_before_fork: completed_turns,
                        phase: if phase == TurnPhase::Building {
                            "Building"
                        } else {
                            "Unmortgaging"
                        },
                        player_id: player,
                        fork_state: state,
                        baseline_action: BranchAction::Management(baseline_action),
                        branches,
                    };
                    assert(report.branches@.len() == fork_alternatives(report.fork_state, *rules, phase).len());
                    assert(played_from_seed(seed, *rules, policies@, states, seats, phases) && states.last() == report.fork_state
                        && decision_eligible(states.last(), phases.last(), *rules, kind));
                    return Ok(report);
                }
                index = index + 1;
            }
        }
        if kind == BranchKind::Jail && phase == TurnPhase::Jail && contains_player(state.jailed_players, player) {
            if index == decision_index {
                let baseline_action = strategies[player as usize].choose_jail_action(&state, rules, player);
                let actions = legal_jail_actions(&state, rules, player);
                let alternatives = jail_alternatives(&actions);
                proof {
                    assert(alternatives@ =~= fork_alternatives(state, *rules, phase));
                }
                let branches = match play_branches(state, strategies, rules, phase, &alternatives, completed_turns, max_turn_count) {
                    Ok(branches) => branches,
                    Err(error) => {
                        proof {
                            let refused = choose|index: int|
                                0 <= index < alternatives@.len() && !branch_accepted(
                                    state,
                                    *rules,
                                    phase,
                                    #[trigger] alternatives@[index],
                                );
                            assert(!branch_accepted(state, *rules, phase, fork_alternatives(state, *rules, phase)[refused]));
                            assert(played_from_seed(seed, *rules, policies@, states, seats, phases) && decision_eligible(
                                states.last(),
                                phases.last(),
                                *rules,
                                kind,
                            ));
                        }
                        return Err(error);
                    },
                };
                proof {
                    let expected = fork_alternatives(state, *rules, phase);
                    assert forall|at: int| 0 <= at < branches@.len() implies #[trigger] branches@[at].action
                        == expected[at] by {}
                }
                let report = BranchReport {
                    decision_index,
                    completed_turns_before_fork: completed_turns,
                    phase: "Jail",
                    player_id: player,
                    fork_state: state,
                    baseline_action: BranchAction::Jail(baseline_action),
                    branches,
                };
                assert(report.branches@.len() == fork_alternatives(report.fork_state, *rules, phase).len());
                assert(played_from_seed(seed, *rules, policies@, states, seats, phases) && states.last() == report.fork_state
                    && decision_eligible(states.last(), phases.last(), *rules, kind));
                return Ok(report);
            }
            index = index + 1;
        }
        assert(index == met + if decision_eligible(state, phase, *rules, kind) {
            1int
        } else {
            0int
        });
        let ghost before = state;
        let ghost before_phase = phase;
        let ghost before_seats = strategies@;
        let next = advance_turn(&mut state, rules, &mut strategies, phase);
        if next == TurnPhase::Finished {
            completed_turns = completed_turns + 1;
            let winner = find_sole_active_player(&state);
            game_over = winner.is_some();
            phase = TurnPhase::Start;
        } else {
            phase = next;
        }
        proof {
            assert(phase_followed(before, before_seats, before_phase, state, strategies@, phase, *rules));
            lemma_phases_extended(states, seats, phases, *rules, state, strategies@, phase);
            lemma_decisions_extended(states, phases, *rules, kind, state, phase);
            states = states.push(state);
            seats = seats.push(strategies@);
            phases = phases.push(phase);
        }
    }
    assert(played_from_seed(seed, *rules, policies@, states, seats, phases));
    Err(BranchError::NotReached { kind, target: decision_index, found: index })
}

} // verus!
