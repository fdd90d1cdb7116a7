use vstd::prelude::*;

use crate::game::strategy::model::{
    management_choice_by,
    policies_kept,
};

use super::action::{
    ActionError,
    JailResolution,
    ManagementAction,
    ManagementPhase,
    execute_jail_action,
    jail_action_check,
    jail_action_outcome,
    execute_management_action,
    legal_management_actions,
    managed,
    management_action_legal,
};
use super::event::{
    GameEvent,
    lemma_published_one,
    lemma_published_then,
    publish_event,
    published_all,
};
use super::improvement::{
    improvement_fits,
    lemma_unbuilt_levels_bound,
    unbuilt_levels,
};
use super::landing::{
    RentModifier,
    landing_settled,
    resolve_landing,
};
use super::movement::{
    advanced_state,
    lemma_advanced_state,
    move_player_forward,
    sent_to_jail,
    release_player_from_jail,
    released,
    send_player_to_jail,
};
use super::payment::{
    charge_player,
    fee_creditor,
    paid,
    select_fee_creditor,
};
use super::trade::run_trade_phase;
use crate::game::board::model::PlayerId;
use crate::game::rng::{
    DiceRoll,
    dice_drawn,
    wyrand_step,
};
use crate::game::ruleset::model::{
    BARTER_AT_START_OF_TURN,
    Ruleset,
};
use crate::game::state::model::{
    GameState,
    contains_player,
    group_player_mask,
    lemma_state_frame,
    only_holdings_changed,
    player_in,
};
use crate::game::strategy::configurable::unowned_tile_count;
use crate::game::strategy::greedy::{
    cash_of,
    holds_any_jail_card,
};
use crate::game::strategy::model::{
    JailAction,
    PlayerStrategy,
};
use crate::game::tile::data::{
    PROPERTY_COUNT,
    TILE_COUNT,
};
use crate::game::tile::model::{
    Cash,
    TileId,
    tile_count,
};

verus! {

broadcast use group_player_mask;

/// The number of doubles in a row that sends a player to jail.
pub const MAX_CONSECUTIVE_DOUBLE_COUNT: u8 = 3;

#[derive(Debug, Clone, Copy, PartialEq, Eq, Hash, Structural)]
pub enum GameOutcome {
    Winner(PlayerId),
    TurnLimitReached,
}

#[derive(Debug, Clone, Copy, PartialEq, Eq, Hash, Structural)]
pub struct GameSummary {
    pub outcome: GameOutcome,
    pub turn_count: u32,
}

#[derive(Debug, Clone, Copy, PartialEq, Eq, Hash, Structural)]
pub enum TurnPhase {
    Start,
    Unmortgaging,
    Building,
    Jail,
    Rolling,
    End,
    Finished,
}

#[derive(Debug, Clone, Copy, PartialEq, Eq, Hash, Structural)]
enum JailTurnResult {
    StayInJail,
    RollNormally,
    MoveWithoutRollingAgain(DiceRoll),
}

/// The order of the phases of a turn, counted down to its end.
pub open spec fn phase_rank(phase: TurnPhase) -> int {
    match phase {
        TurnPhase::Start => 6,
        TurnPhase::Unmortgaging => 5,
        TurnPhase::Building => 4,
        TurnPhase::Jail => 3,
        TurnPhase::Rolling => 2,
        TurnPhase::End => 1,
        TurnPhase::Finished => 0,
    }
}

/// What a phase that repeats itself uses up: mortgages to lift, buildings to buy, doubles to
/// roll before jail.
pub open spec fn phase_budget<const N: usize>(state: GameState<N>, phase: TurnPhase) -> int {
    match phase {
        TurnPhase::Unmortgaging => tile_count(state.board.mortgaged_tiles) as int,
        TurnPhase::Building => unbuilt_levels(state.board.improvement_level_by_property_id@, PROPERTY_COUNT as nat) as int,
        TurnPhase::Rolling => 3 - state.consecutive_double_count,
        _ => 0,
    }
}

/// Whether going from `phase` in `before` to `next` in `after` moves the turn forward: to a
/// later phase, or to the same phase with less of its budget left.
pub open spec fn turn_progressed<const N: usize>(
    before: GameState<N>,
    phase: TurnPhase,
    after: GameState<N>,
    next: TurnPhase,
) -> bool {
    phase_rank(next) < phase_rank(phase) || (phase_rank(next) == phase_rank(phase) && 0 <= phase_budget(after, next)
        < phase_budget(before, phase))
}

/// Takes one management decision of the current player in the management `phase`: no action
/// ends the phase, a legal action is executed and the phase goes on.
pub fn apply_management_decision<const N: usize, S: PlayerStrategy>(
    state: &mut GameState<N>,
    rules: &Ruleset,
    strategies: &mut [S; N],
    phase: TurnPhase,
    action: Option<ManagementAction>,
) -> (result: Result<TurnPhase, ActionError>)
    requires
        N <= 256,
        old(state).levels_bounded(),
        match action {
            Some(ManagementAction::Build(property)) => improvement_fits(
                *old(state),
                *rules,
                old(state).current_player_id as int,
                property as int,
            ),
            _ => true,
        },
    ensures
        policies_kept(old(strategies)@, final(strategies)@),
        old(state).wf() ==> final(state).wf(),
        final(state).levels_bounded(),
        old(state).buildings_wf() ==> final(state).buildings_wf(),
        result is Err ==> *final(state) == *old(state),
        result is Ok && action is None ==> *final(state) == *old(state),
        result is Ok && action is Some ==> *final(state) == managed(
            *old(state),
            old(state).current_player_id as int,
            action.unwrap(),
        ).0,
        !(phase == TurnPhase::Unmortgaging || phase == TurnPhase::Building) ==> result == Err::<TurnPhase, ActionError>(
            ActionError::WrongPhase,
        ),
        (phase == TurnPhase::Unmortgaging || phase == TurnPhase::Building) && (old(state).current_player_id >= N
            || old(state).is_bankrupt(old(state).current_player_id as int)) ==> result == Err::<TurnPhase, ActionError>(
            ActionError::InvalidPlayer,
        ),
        (phase == TurnPhase::Unmortgaging || phase == TurnPhase::Building) && action is None && old(state).current_player_id
            < N && !old(state).is_bankrupt(old(state).current_player_id as int) ==> result == Ok::<TurnPhase, ActionError>(
            if phase == TurnPhase::Unmortgaging {
                TurnPhase::Building
            } else {
                TurnPhase::Jail
            },
        ) && *final(state) == *old(state),
        result matches Ok(next) ==> next == phase || next == (if phase == TurnPhase::Unmortgaging {
            TurnPhase::Building
        } else {
            TurnPhase::Jail
        }),
        result is Ok && action is Some ==> result == Ok::<TurnPhase, ActionError>(phase),
        result == Ok::<TurnPhase, ActionError>(phase) ==> action is Some && turn_progressed(
            *old(state),
            phase,
            *final(state),
            phase,
        ),
        final(state).current_player_id == old(state).current_player_id,
        final(state).consecutive_double_count == old(state).consecutive_double_count,
        final(state).bankrupt_players == old(state).bankrupt_players,
        final(state).jailed_players == old(state).jailed_players,
        result is Ok <==> management_decision_accepted(*old(state), *rules, phase, action),
        result is Err || action is None ==> *final(strategies) == *old(strategies),
        result is Ok && action is Some ==> published_all(
            old(strategies)@,
            old(state).current_player_id as int,
            seq![managed(*old(state), old(state).current_player_id as int, action.unwrap()).1],
            final(strategies)@,
        ),
{
    let (management_phase, next_phase) = match phase {
        TurnPhase::Unmortgaging => (ManagementPhase::Unmortgaging, TurnPhase::Building),
        TurnPhase::Building => (ManagementPhase::Building, TurnPhase::Jail),
        _ => return Err(ActionError::WrongPhase),
    };
    let player = state.current_player_id;
    if player as usize >= N || contains_player(state.bankrupt_players, player) {
        return Err(ActionError::InvalidPlayer);
    }
    let action = match action {
        Some(action) => action,
        None => return Ok(next_phase),
    };
    proof {
        lemma_unbuilt_levels_bound(state.board.improvement_level_by_property_id@, PROPERTY_COUNT as nat);
    }
    let event = match execute_management_action(state, rules, player, management_phase, action) {
        Ok(event) => event,
        Err(error) => return Err(error),
    };
    proof {
        lemma_unbuilt_levels_bound(state.board.improvement_level_by_property_id@, PROPERTY_COUNT as nat);
    }
    let ghost strategies_before = strategies@;
    publish_event(strategies, player as usize, event);
    proof {
        lemma_published_one(strategies_before, player as int, event, strategies@);
    }
    Ok(phase)
}

/// Whether the current player may take `action`, or no action, in the management `phase`.
pub open spec fn management_decision_accepted<const N: usize>(
    state: GameState<N>,
    rules: Ruleset,
    phase: TurnPhase,
    action: Option<ManagementAction>,
) -> bool {
    let player = state.current_player_id as int;
    &&& phase == TurnPhase::Unmortgaging || phase == TurnPhase::Building
    &&& player < N && !state.is_bankrupt(player)
    &&& action matches Some(action) ==> management_action_legal(
        state,
        rules,
        player,
        if phase == TurnPhase::Unmortgaging {
            ManagementPhase::Unmortgaging
        } else {
            ManagementPhase::Building
        },
        action,
    )
}

/// Plays turns until one player is left or `max_turn_count` turns are played.
pub fn play_game<const N: usize, Strategy: PlayerStrategy>(
    state: &mut GameState<N>,
    rules: &Ruleset,
    strategies: &mut [Strategy; N],
    max_turn_count: u32,
) -> (summary: GameSummary)
    requires
        old(state).wf(),
    ensures
        policies_kept(old(strategies)@, final(strategies)@),
        final(state).wf(),
        summary.turn_count <= max_turn_count,
        match summary.outcome {
            GameOutcome::Winner(winner) => sole_active_player(*final(state), winner as int) && summary.turn_count >= 1,
            GameOutcome::TurnLimitReached => summary.turn_count == max_turn_count,
        },
        exists|states: Seq<GameState<N>>|
            #![trigger game_played(*old(state), states, *rules)]
            {
                &&& game_played(*old(state), states, *rules)
                &&& states.len() == summary.turn_count + 1
                &&& states.last() == *final(state)
                &&& summary.outcome is TurnLimitReached ==> forall|index: int|
                    0 < index < states.len() ==> !has_sole_active_player(#[trigger] states[index])
                &&& exists|seats: Seq<Seq<Strategy>>|
                    #[trigger] game_seated(states, seats, *rules) && seats[0] == old(strategies)@
                        && seats.last() == final(strategies)@
            },
{
    let mut turn: u32 = 0;
    let ghost mut states: Seq<GameState<N>> = seq![*state];
    let ghost mut seats: Seq<Seq<Strategy>> = seq![strategies@];
    while turn < max_turn_count
        invariant
            policies_kept(old(strategies)@, strategies@),
            state.wf(),
            turn <= max_turn_count,
            game_played(*old(state), states, *rules),
            states.len() == turn + 1,
            states.last() == *state,
            forall|index: int| 0 < index < states.len() ==> !has_sole_active_player(#[trigger] states[index]),
            game_seated(states, seats, *rules),
            seats[0] == old(strategies)@,
            seats.last() == strategies@,
        decreases max_turn_count - turn,
    {
        let ghost before = *state;
        let ghost before_seats = strategies@;
        play_turn(state, rules, strategies);
        let found = find_sole_active_player(state);
        proof {
            let previous = states;
            let previous_seats = seats;
            states = states.push(*state);
            seats = seats.push(strategies@);
            assert forall|index: int| 0 <= index < states.len() - 1 implies #[trigger] turn_taken(
                states[index],
                seats[index],
                states[index + 1],
                seats[index + 1],
                *rules,
            ) by {
                if index < states.len() - 2 {
                    assert(states[index] == previous[index] && states[index + 1] == previous[index + 1]);
                    assert(seats[index] == previous_seats[index] && seats[index + 1] == previous_seats[index + 1]);
                }
            }
            assert(states[states.len() - 2] == before);
            assert forall|index: int| 0 <= index < states.len() - 1 implies #[trigger] turn_played(
                states[index],
                states[index + 1],
                *rules,
            ) by {
                if index < states.len() - 2 {
                    assert(states[index] == previous[index] && states[index + 1] == previous[index + 1]);
                }
            }
            assert forall|index: int| 0 < index < states.len() - 1 implies !has_sole_active_player(
                #[trigger] states[index],
            ) by {
                assert(states[index] == previous[index]);
            }
            assert(game_played(*old(state), states, *rules));
        }
        if let Some(winner) = found {
            proof {
                assert(has_sole_active_player(*state));
                assert(game_seated(states, seats, *rules) && seats[0] == old(strategies)@ && seats.last()
                    == strategies@);
            }
            return GameSummary { outcome: GameOutcome::Winner(winner), turn_count: turn + 1 };
        }
        proof {
            assert(!has_sole_active_player(*state));
        }
        turn = turn + 1;
    }
    assert(game_seated(states, seats, *rules) && seats[0] == old(strategies)@ && seats.last() == strategies@);
    GameSummary { outcome: GameOutcome::TurnLimitReached, turn_count: max_turn_count }
}

/// Whether `after` can follow `before` by one turn: the state stays well formed, the doubles
/// count is cleared, and the next player in seat order who is not bankrupt has the turn; a
/// player who starts the turn out of jail trades and manages holdings, then rolls as
/// `rolls_to_end` says.
pub open spec fn turn_played<const N: usize>(before: GameState<N>, after: GameState<N>, rules: Ruleset) -> bool {
    &&& after.wf()
    &&& after.consecutive_double_count == 0
    &&& after.current_player_id == next_solvent_player(
        GameState { current_player_id: before.current_player_id, ..after },
        1,
    )
    &&& !before.is_jailed(before.current_player_id as int) ==> exists|
        managed: GameState<N>,
        rolled_out: GameState<N>,
        count: nat,
    |
        #![trigger rolls_to_end(managed, rolled_out, rules, count)]
        {
            &&& only_holdings_changed(before, managed)
            &&& rolls_to_end(managed, rolled_out, rules, count)
            &&& after == turn_ended(rolled_out)
        }
}

/// Whether the turn that starts in `before` with the players `seats` ends in `after` with the
/// players `seats_after`, played phase by phase from its start until it is finished.
pub open spec fn turn_taken<const N: usize, S: PlayerStrategy>(
    before: GameState<N>,
    seats: Seq<S>,
    after: GameState<N>,
    seats_after: Seq<S>,
    rules: Ruleset,
) -> bool {
    exists|states: Seq<GameState<N>>, trace_seats: Seq<Seq<S>>, phases: Seq<TurnPhase>|
        #[trigger] phases_played(states, trace_seats, phases, rules) && states[0] == before && trace_seats[0] == seats
            && phases[0] == TurnPhase::Start && states.last() == after && trace_seats.last() == seats_after
            && phases.last() == TurnPhase::Start && turns_finished(phases) == 1
}

/// Whether the players `seats`, one array after each turn of the game `states`, played each
/// turn of it.
pub open spec fn game_seated<const N: usize, S: PlayerStrategy>(
    states: Seq<GameState<N>>,
    seats: Seq<Seq<S>>,
    rules: Ruleset,
) -> bool {
    &&& seats.len() == states.len()
    &&& forall|index: int|
        0 <= index < states.len() - 1 ==> #[trigger] turn_taken(
            states[index],
            seats[index],
            states[index + 1],
            seats[index + 1],
            rules,
        )
}

/// Whether some player is the only one not bankrupt.
pub open spec fn has_sole_active_player<const N: usize>(state: GameState<N>) -> bool {
    exists|player: int| #[trigger] sole_active_player(state, player)
}

/// Whether `states` is a game played from `start`, one state after each turn: each follows the
/// one before by a turn, and the game stops at the first turn that leaves a single player.
pub open spec fn game_played<const N: usize>(start: GameState<N>, states: Seq<GameState<N>>, rules: Ruleset) -> bool {
    &&& states.len() >= 1
    &&& states[0] == start
    &&& forall|index: int|
        0 <= index < states.len() - 1 ==> #[trigger] turn_played(states[index], states[index + 1], rules)
    &&& forall|index: int| 0 < index < states.len() - 1 ==> !has_sole_active_player(#[trigger] states[index])
}

/// Whether `player` is the one player of the game not bankrupt.
pub open spec fn sole_active_player<const N: usize>(state: GameState<N>, player: int) -> bool {
    &&& 0 <= player < N
    &&& !state.is_bankrupt(player)
    &&& forall|other: int| 0 <= other < N && other != player ==> #[trigger] state.is_bankrupt(other)
}

/// The one player not bankrupt, if exactly one is.
pub(crate) fn find_sole_active_player<const N: usize>(state: &GameState<N>) -> (winner: Option<PlayerId>)
    requires
        N <= 8,
    ensures
        winner matches Some(player) ==> sole_active_player(*state, player as int),
        winner is None ==> forall|player: int| !sole_active_player(*state, player),
{
    let mut found: Option<PlayerId> = None;
    let mut player: usize = 0;
    while player < N
        invariant
            player <= N <= 8,
            match found {
                Some(active) => {
                    &&& active < player
                    &&& !state.is_bankrupt(active as int)
                    &&& forall|other: int| 0 <= other < player && other != active ==> #[trigger] state.is_bankrupt(other)
                },
                None => forall|other: int| 0 <= other < player ==> #[trigger] state.is_bankrupt(other),
            },
        decreases N - player,
    {
        if !contains_player(state.bankrupt_players, player as PlayerId) {
            if found.is_some() {
                proof {
                    let active = found.unwrap();
                    assert forall|candidate: int| !sole_active_player(*state, candidate) by {
                        if candidate != player as int && 0 <= candidate < N {
                            assert(!state.is_bankrupt(player as int));
                        }
                        if candidate == player as int {
                            assert(!state.is_bankrupt(active as int));
                        }
                    }
                }
                return None;
            }
            found = Some(player as PlayerId);
        }
        player = player + 1;
    }
    proof {
        if found is None {
            assert forall|candidate: int| !sole_active_player(*state, candidate) by {
                if 0 <= candidate < N {
                    assert(state.is_bankrupt(candidate));
                }
            }
        }
    }
    found
}

/// Whether `after` and `next` are what the current player's roll outside jail gives from
/// `state`, where no player decides anything. A bankrupt player does not roll. The roll is the
/// generator's next draw; the third double in a row sends the player to jail and ends the turn.
/// Otherwise a double is counted, the player moves by the roll, collecting the salary, and
/// lands as `landing_settled` says; the player rolls again after a double, unless now bankrupt
/// or jailed.
pub open spec fn rolled<const N: usize>(state: GameState<N>, after: GameState<N>, rules: Ruleset, next: TurnPhase) -> bool {
    let player = state.current_player_id as int;
    let roll = dice_drawn(state.rng.state());
    let drawn = GameState { rng: state.rng.drawn(), ..state };
    let double = roll.first_die == roll.second_die;
    if state.is_bankrupt(player) {
        next == TurnPhase::End && after == state
    } else if double && state.consecutive_double_count + 1 == MAX_CONSECUTIVE_DOUBLE_COUNT {
        next == TurnPhase::End && after == sent_to_jail(drawn, player)
    } else {
        let counted = if double {
            GameState { consecutive_double_count: (state.consecutive_double_count + 1) as u8, ..drawn }
        } else {
            drawn
        };
        let target = ((state.position_by_player_id@[player] + roll.first_die + roll.second_die) % (TILE_COUNT as int)) as TileId;
        let moved = advanced_state(counted, rules, player, target);
        &&& landing_settled(moved, after, rules, player as PlayerId, roll, RentModifier::Standard)
        &&& next == if double && !after.is_bankrupt(player) && !after.is_jailed(player) {
            TurnPhase::Rolling
        } else {
            TurnPhase::End
        }
    }
}

/// Plays the turn of the current player from start to finish.
pub fn play_turn<const N: usize, Strategy: PlayerStrategy>(
    state: &mut GameState<N>,
    rules: &Ruleset,
    strategies: &mut [Strategy; N],
)
    requires
        old(state).wf(),
    ensures
        policies_kept(old(strategies)@, final(strategies)@),
        final(state).wf(),
        final(state).consecutive_double_count == 0,
        final(state).current_player_id == next_solvent_player(
            GameState { current_player_id: old(state).current_player_id, ..*final(state) },
            1,
        ),
        !old(state).is_jailed(old(state).current_player_id as int) ==> exists|managed: GameState<N>, rolled_out: GameState<N>, count: nat|
            #![trigger rolls_to_end(managed, rolled_out, *rules, count)]
            {
                &&& only_holdings_changed(*old(state), managed)
                &&& rolls_to_end(managed, rolled_out, *rules, count)
                &&& *final(state) == turn_ended(rolled_out)
            },
        turn_taken(*old(state), old(strategies)@, *final(state), final(strategies)@, *rules),
{
    let mut phase = TurnPhase::Start;
    let ghost mut states = seq![*state];
    let ghost mut seats = seq![strategies@];
    let ghost mut phases = seq![TurnPhase::Start];
    let ghost mut managed = *state;
    let ghost mut rolled_out = *state;
    let ghost mut done: nat = 0;
    let ghost free = !old(state).is_jailed(old(state).current_player_id as int);
    while phase != TurnPhase::Finished
        invariant
            policies_kept(old(strategies)@, strategies@),
            state.wf(),
            phase_budget(*state, phase) >= 0,
            phase != TurnPhase::Finished ==> state.current_player_id == old(state).current_player_id,
            phase == TurnPhase::Finished ==> state.consecutive_double_count == 0 && state.current_player_id
                == next_solvent_player(GameState { current_player_id: old(state).current_player_id, ..*state }, 1),
            free == !old(state).is_jailed(old(state).current_player_id as int),
            free && (phase == TurnPhase::Start || phase == TurnPhase::Unmortgaging || phase == TurnPhase::Building
                || phase == TurnPhase::Jail) ==> only_holdings_changed(*old(state), *state),
            free && phase == TurnPhase::Rolling ==> only_holdings_changed(*old(state), managed) && forall|
                ended: GameState<N>,
                count: nat,
            |
                #[trigger] rolls_to_end(*state, ended, *rules, count) ==> rolls_to_end(managed, ended, *rules, count + done),
            free && phase == TurnPhase::End ==> only_holdings_changed(*old(state), managed) && rolls_to_end(
                managed,
                *state,
                *rules,
                done,
            ),
            free && phase == TurnPhase::Finished ==> only_holdings_changed(*old(state), managed) && rolls_to_end(
                managed,
                rolled_out,
                *rules,
                done,
            ) && *state == turn_ended(rolled_out),
            phases_played(states, seats, phases, *rules),
            states[0] == *old(state),
            seats[0] == old(strategies)@,
            phases[0] == TurnPhase::Start,
            states.last() == *state,
            seats.last() == strategies@,
            phase != TurnPhase::Finished ==> phases.last() == phase && turns_finished(phases) == 0,
            phase == TurnPhase::Finished ==> phases.last() == TurnPhase::Start && turns_finished(phases) == 1,
        decreases phase_rank(phase), phase_budget(*state, phase),
    {
        let ghost before = *state;
        let ghost before_phase = phase;
        let ghost before_seats = strategies@;
        phase = advance_turn(state, rules, strategies, phase);
        proof {
            let then = if phase == TurnPhase::Finished {
                TurnPhase::Start
            } else {
                phase
            };
            assert(phase_followed(before, before_seats, before_phase, *state, strategies@, then, *rules));
            lemma_phases_extended(states, seats, phases, *rules, *state, strategies@, then);
            states = states.push(*state);
            seats = seats.push(strategies@);
            phases = phases.push(then);
            if phase == TurnPhase::Finished {
                lemma_next_solvent_frame(before, GameState { current_player_id: old(state).current_player_id, ..*state }, 1);
            }
            if free {
                if before_phase == TurnPhase::Jail {
                    managed = *state;
                    done = 0;
                }
                if before_phase == TurnPhase::Rolling {
                    assert(rolled(before, *state, *rules, phase));
                    if phase == TurnPhase::End {
                        assert(rolls_to_end(before, *state, *rules, 0));
                        done = done;
                    } else {
                        assert forall|ended: GameState<N>, count: nat| #[trigger] rolls_to_end(*state, ended, *rules, count)
                            implies rolls_to_end(managed, ended, *rules, count + done + 1) by {
                            assert(rolls_to_end(before, ended, *rules, count + 1));
                        }
                        done = done + 1;
                    }
                }
                if before_phase == TurnPhase::End {
                    rolled_out = before;
                }
            }
        }
    }
}

/// Whether `after` can follow from `state` by the current player's rolls outside jail, with at
/// most `count` rolls after the first: each roll as `rolled` says, the player rolling again
/// after each roll that asks for it, until one ends the rolling.
pub open spec fn rolls_to_end<const N: usize>(state: GameState<N>, after: GameState<N>, rules: Ruleset, count: nat) -> bool
    decreases count,
{
    exists|mid: GameState<N>, next: TurnPhase|
        #![trigger rolled(state, mid, rules, next)]
        rolled(state, mid, rules, next) && if next == TurnPhase::Rolling {
            if count == 0 {
                false
            } else {
                rolls_to_end(mid, after, rules, (count - 1) as nat)
            }
        } else {
            after == mid
        }
}

/// `state` once the turn ends: the next player in seat order who is not bankrupt has the turn
/// and the doubles count is cleared.
pub open spec fn turn_ended<const N: usize>(state: GameState<N>) -> GameState<N> {
    GameState {
        current_player_id: next_solvent_player(state, 1) as PlayerId,
        consecutive_double_count: 0,
        ..state
    }
}

/// Who plays next depends only on whose turn it is and who is bankrupt.
proof fn lemma_next_solvent_frame<const N: usize>(first: GameState<N>, second: GameState<N>, offset: int)
    requires
        first.current_player_id == second.current_player_id,
        first.bankrupt_players == second.bankrupt_players,
    ensures
        next_solvent_player(first, offset) == next_solvent_player(second, offset),
        first.current_player_id < N ==> 0 <= next_solvent_player(first, offset) < N,
    decreases N + 1 - offset,
{
    if 1 <= offset <= N {
        lemma_next_solvent_frame(first, second, offset + 1);
    }
}

/// Whether playing `phase` of the current player's turn in `before` may lead to `after` and
/// the phase `next`: the ended turn passes to the next solvent player; a roll follows the dice;
/// a jailed player takes a jail action that the rules allow (rolling for doubles when the
/// chosen one is refused); the start and management phases only change holdings; and every
/// phase brings the turn closer to its end.
pub open spec fn phase_advanced<const N: usize>(
    before: GameState<N>,
    rules: Ruleset,
    phase: TurnPhase,
    after: GameState<N>,
    next: TurnPhase,
) -> bool {
    let player = before.current_player_id as int;
    &&& after.wf()
    &&& phase_budget(after, next) >= 0
    &&& phase == TurnPhase::Finished ==> next == TurnPhase::Finished && after == before
    &&& phase == TurnPhase::End ==> next == TurnPhase::Finished && after == (GameState {
        current_player_id: next_solvent_player(before, 1) as PlayerId,
        consecutive_double_count: 0,
        ..before
    })
    &&& phase != TurnPhase::End ==> after.current_player_id == before.current_player_id
    &&& next == TurnPhase::Finished ==> phase == TurnPhase::End || phase == TurnPhase::Finished
    &&& phase == TurnPhase::Rolling ==> rolled(before, after, rules, next)
    &&& phase == TurnPhase::Jail && !before.is_jailed(player) ==> next == TurnPhase::Rolling && after == before
    &&& phase == TurnPhase::Jail && before.is_jailed(player) ==> (exists|action: JailAction|
        #[trigger] jail_decided(before, rules, action, after, next)) || (next == TurnPhase::End && after == before
        && jail_action_check(before, rules, player, JailAction::RollForDoubles) is Err)
    &&& phase == TurnPhase::Start || phase == TurnPhase::Unmortgaging || phase == TurnPhase::Building ==> only_holdings_changed(
        before,
        after,
    ) && (next == TurnPhase::Unmortgaging || next == TurnPhase::Building || next == TurnPhase::Jail)
    &&& phase != TurnPhase::Finished ==> turn_progressed(before, phase, after, next)
}

/// Whether the jailed current player of `before`, seated as in `seats`, took a jail action
/// that its strategy answered, leading to `after` and the phase `next`; the roll for doubles
/// stands in for an answer that the rules refuse.
pub open spec fn jail_answered<const N: usize, S: PlayerStrategy>(
    before: GameState<N>,
    seats: Seq<S>,
    rules: Ruleset,
    after: GameState<N>,
    next: TurnPhase,
) -> bool {
    let player = before.current_player_id as int;
    exists|action: JailAction, answered: S|
        #[trigger] seats[player].chooses_jail_action(
            cash_of(before, player),
            holds_any_jail_card(before, player),
            unowned_tile_count(before),
            rules,
            action,
            answered,
        ) && (jail_decided(before, rules, action, after, next) || (jail_action_check(before, rules, player, action) is Err
            && (jail_decided(before, rules, JailAction::RollForDoubles, after, next) || (next == TurnPhase::End && after
            == before))))
}

/// Whether the management `phase` of the current player of `before`, seated as in `seats`,
/// leads to `after` and the phase `next`: its strategy chose an action as its policy decides;
/// an action that the rules allow is taken and the phase goes on, and otherwise the phase ends
/// with nothing changed.
pub open spec fn management_answered<const N: usize, S: PlayerStrategy>(
    before: GameState<N>,
    seats: Seq<S>,
    rules: Ruleset,
    phase: TurnPhase,
    after: GameState<N>,
    next: TurnPhase,
) -> bool {
    let player = before.current_player_id;
    exists|action: Option<ManagementAction>|
        #[trigger] management_choice_by(
            seats[player as int].policy_of(),
            before,
            rules,
            player,
            management_phase_of(phase),
            action,
        ) && if action is Some && management_decision_accepted(before, rules, phase, action) {
            after == managed(before, player as int, action.unwrap()).0 && next == phase
        } else {
            after == before && next == if phase == TurnPhase::Unmortgaging {
                TurnPhase::Building
            } else {
                TurnPhase::Jail
            }
        }
}

/// The management phase that the turn `phase` plays: unmortgaging or building.
pub open spec fn management_phase_of(phase: TurnPhase) -> ManagementPhase {
    if phase == TurnPhase::Unmortgaging {
        ManagementPhase::Unmortgaging
    } else {
        ManagementPhase::Building
    }
}

/// Whether playing `phase` in `before`, with the players `seats`, may lead to `after`, the
/// players `seats_after` and the phase `next`: as `phase_advanced` says, with every player
/// keeping its policy, a jailed player's jail action answered by its strategy and a management
/// phase played by the action that the current player's strategy chose.
pub open spec fn seats_advanced<const N: usize, S: PlayerStrategy>(
    before: GameState<N>,
    seats: Seq<S>,
    rules: Ruleset,
    phase: TurnPhase,
    after: GameState<N>,
    seats_after: Seq<S>,
    next: TurnPhase,
) -> bool {
    &&& phase_advanced(before, rules, phase, after, next)
    &&& policies_kept(seats, seats_after)
    &&& phase == TurnPhase::Jail && before.is_jailed(before.current_player_id as int) ==> jail_answered(
        before,
        seats,
        rules,
        after,
        next,
    )
    &&& phase == TurnPhase::Unmortgaging || phase == TurnPhase::Building ==> management_answered(
        before,
        seats,
        rules,
        phase,
        after,
        next,
    )
}

/// Whether `after` with `seats_after` at `then` follows `before` with `seats` at `phase` by
/// one phase of play: a finished turn is followed by the start of the next one.
pub open spec fn phase_followed<const N: usize, S: PlayerStrategy>(
    before: GameState<N>,
    seats: Seq<S>,
    phase: TurnPhase,
    after: GameState<N>,
    seats_after: Seq<S>,
    then: TurnPhase,
    rules: Ruleset,
) -> bool {
    if then == TurnPhase::Start {
        seats_advanced(before, seats, rules, phase, after, seats_after, TurnPhase::Finished)
    } else {
        seats_advanced(before, seats, rules, phase, after, seats_after, then)
    }
}

/// Whether `states`, each with the players of the same place in `seats` and at the phase of
/// the same place in `phases`, are a game played phase by phase.
pub open spec fn phases_played<const N: usize, S: PlayerStrategy>(
    states: Seq<GameState<N>>,
    seats: Seq<Seq<S>>,
    phases: Seq<TurnPhase>,
    rules: Ruleset,
) -> bool {
    &&& states.len() >= 1
    &&& phases.len() == states.len()
    &&& seats.len() == states.len()
    &&& forall|index: int|
        0 <= index < states.len() - 1 ==> #[trigger] phase_followed(
            states[index],
            seats[index],
            phases[index],
            states[index + 1],
            seats[index + 1],
            phases[index + 1],
            rules,
        )
}

/// The number of turns finished along `phases`: each start but the first begins a new turn.
pub open spec fn turns_finished(phases: Seq<TurnPhase>) -> nat
    decreases phases.len(),
{
    if phases.len() <= 1 {
        0
    } else {
        turns_finished(phases.drop_last()) + if phases.last() == TurnPhase::Start {
            1nat
        } else {
            0nat
        }
    }
}

/// Playing one more phase extends a game played phase by phase.
pub proof fn lemma_phases_extended<const N: usize, S: PlayerStrategy>(
    states: Seq<GameState<N>>,
    seats: Seq<Seq<S>>,
    phases: Seq<TurnPhase>,
    rules: Ruleset,
    after: GameState<N>,
    seats_after: Seq<S>,
    then: TurnPhase,
)
    requires
        phases_played(states, seats, phases, rules),
        phase_followed(states.last(), seats.last(), phases.last(), after, seats_after, then, rules),
    ensures
        phases_played(states.push(after), seats.push(seats_after), phases.push(then), rules),
        turns_finished(phases.push(then)) == turns_finished(phases) + if then == TurnPhase::Start {
            1nat
        } else {
            0nat
        },
{
    let longer = phases.push(then);
    assert(longer.drop_last() =~= phases);
    let more = states.push(after);
    let more_seats = seats.push(seats_after);
    assert forall|index: int| 0 <= index < more.len() - 1 implies #[trigger] phase_followed(
        more[index],
        more_seats[index],
        longer[index],
        more[index + 1],
        more_seats[index + 1],
        longer[index + 1],
        rules,
    ) by {
        if index < states.len() - 1 {
            assert(phase_followed(
                states[index],
                seats[index],
                phases[index],
                states[index + 1],
                seats[index + 1],
                phases[index + 1],
                rules,
            ));
        }
    }
}

/// Plays one phase of the turn of the current player and gives the phase that follows.
pub fn advance_turn<const N: usize, Strategy: PlayerStrategy>(
    state: &mut GameState<N>,
    rules: &Ruleset,
    strategies: &mut [Strategy; N],
    phase: TurnPhase,
) -> (next: TurnPhase)
    requires
        old(state).wf(),
    ensures
        seats_advanced(*old(state), old(strategies)@, *rules, phase, *final(state), final(strategies)@, next),
        phase == TurnPhase::Finished || phase == TurnPhase::End || (phase == TurnPhase::Jail && !old(state).is_jailed(
            old(state).current_player_id as int,
        )) ==> *final(strategies) == *old(strategies),
        ({
            let player = old(state).current_player_id;
            let roll = dice_drawn(old(state).rng.state());
            phase == TurnPhase::Rolling && !old(state).is_bankrupt(player as int) && roll.first_die == roll.second_die
                && old(state).consecutive_double_count + 1 == MAX_CONSECUTIVE_DOUBLE_COUNT ==> published_all(
                old(strategies)@,
                player as int,
                seq![
                    GameEvent::DiceRolled { player_id: player, first: roll.first_die, second: roll.second_die },
                    GameEvent::SentToJail { player_id: player },
                ],
                final(strategies)@,
            )
        }),
{
    let player = state.current_player_id;
    proof {
        lemma_unbuilt_levels_bound(state.board.improvement_level_by_property_id@, PROPERTY_COUNT as nat);
    }
    match phase {
        TurnPhase::Start => {
            publish_event(strategies, player as usize, GameEvent::TurnStarted { player_id: player });
            run_trade_phase(state, rules, strategies, player, BARTER_AT_START_OF_TURN);
            proof {
                lemma_unbuilt_levels_bound(state.board.improvement_level_by_property_id@, PROPERTY_COUNT as nat);
                assert(phase_rank(TurnPhase::Unmortgaging) < phase_rank(phase));
            }
            TurnPhase::Unmortgaging
        },
        TurnPhase::Unmortgaging | TurnPhase::Building => {
            let (management_phase, next_phase) = match phase {
                TurnPhase::Unmortgaging => (ManagementPhase::Unmortgaging, TurnPhase::Building),
                _ => (ManagementPhase::Building, TurnPhase::Jail),
            };
            let legal = legal_management_actions(state, rules, player, management_phase);
            let ghost before = *state;
            let ghost seats = strategies@;
            let action = strategies[player as usize].choose_management_action(state, rules, player, &legal);
            assert(management_phase == management_phase_of(phase));
            assert(management_choice_by(
                seats[player as int].policy_of(),
                before,
                *rules,
                player,
                management_phase_of(phase),
                action,
            ));
            let next = match apply_management_decision(state, rules, strategies, phase, action) {
                Ok(next) => next,
                Err(_) => next_phase,
            };
            assert(management_answered(before, seats, *rules, phase, *state, next)) by {
                if action is Some && management_decision_accepted(before, *rules, phase, action) {
                    assert(*state == managed(before, player as int, action.unwrap()).0 && next == phase);
                } else {
                    assert(*state == before && next == next_phase);
                }
            }
            proof {
                lemma_unbuilt_levels_bound(state.board.improvement_level_by_property_id@, PROPERTY_COUNT as nat);
            }
            next
        },
        TurnPhase::Jail => {
            if !contains_player(state.jailed_players, player) {
                return TurnPhase::Rolling;
            }
            let ghost asked = strategies@[player as int];
            let action = strategies[player as usize].choose_jail_action(state, rules, player);
            let ghost answered = strategies@[player as int];
            assert(asked.chooses_jail_action(
                cash_of(*state, player as int),
                holds_any_jail_card(*state, player as int),
                unowned_tile_count(*state),
                *rules,
                action,
                answered,
            ));
            let ghost chosen = *state;
            let next = match apply_jail_decision(state, rules, strategies, action) {
                Ok(next) => {
                    assert(jail_decided(chosen, *rules, action, *state, next));
                    next
                },
                Err(_) => match apply_jail_decision(state, rules, strategies, JailAction::RollForDoubles) {
                    Ok(next) => {
                        assert(jail_decided(chosen, *rules, JailAction::RollForDoubles, *state, next));
                        next
                    },
                    Err(_) => TurnPhase::End,
                },
            };
            next
        },
        TurnPhase::Rolling => {
            if contains_player(state.bankrupt_players, player) {
                return TurnPhase::End;
            }
            let ghost before_roll = *state;
            let dice_roll = state.rng.roll_dice();
            proof {
                lemma_state_frame(before_roll, *state);
            }
            let ghost strategies_before = strategies@;
            let rolled_event = GameEvent::DiceRolled {
                player_id: player,
                first: dice_roll.first_die,
                second: dice_roll.second_die,
            };
            publish_event(strategies, player as usize, rolled_event);
            let ghost strategies_rolled = strategies@;
            let double = dice_roll.is_double();
            if double {
                if state.consecutive_double_count + 1 == MAX_CONSECUTIVE_DOUBLE_COUNT {
                    let event = send_player_to_jail(state, player);
                    publish_event(strategies, player as usize, event);
                    proof {
                        lemma_published_one(strategies_before, player as int, rolled_event, strategies_rolled);
                        lemma_published_then(
                            strategies_before,
                            player as int,
                            seq![rolled_event],
                            strategies_rolled,
                            event,
                            strategies@,
                        );
                        assert(seq![rolled_event].push(event) =~= seq![rolled_event, event]);
                    }
                    return TurnPhase::End;
                }
                let ghost before_count = *state;
                state.consecutive_double_count = state.consecutive_double_count + 1;
                proof {
                    lemma_state_frame(before_count, *state);
                }
            }
            let ghost moving = *state;
            let total = dice_roll.total();
            let salary = move_player_forward(state, rules, player, total);
            proof {
                let target = ((moving.position_by_player_id@[player as int] + total) % (TILE_COUNT as int)) as TileId;
                lemma_advanced_state(moving, *state, *rules, player as int, target, salary);
            }
            if let Some(event) = salary {
                publish_event(strategies, player as usize, event);
            }
            resolve_landing(state, rules, strategies, player, dice_roll, RentModifier::Standard);
            if !double || contains_player(state.bankrupt_players, player) || contains_player(state.jailed_players, player) {
                TurnPhase::End
            } else {
                TurnPhase::Rolling
            }
        },
        TurnPhase::End => {
            end_turn(state);
            TurnPhase::Finished
        },
        TurnPhase::Finished => TurnPhase::Finished,
    }
}

/// Whether the current player of `state`, in jail, may take `action`, and taking it leads to
/// `after` with the turn going on in the phase `next`: released, the player goes on to roll;
/// rolling for doubles, the turn ends, and a roll that is no double on a jail turn before the
/// last only counts that turn.
pub open spec fn jail_decided<const N: usize>(
    state: GameState<N>,
    rules: Ruleset,
    action: JailAction,
    after: GameState<N>,
    next: TurnPhase,
) -> bool {
    let player = state.current_player_id as int;
    let roll = dice_drawn(state.rng.state());
    let turns = state.jail_turn_count_by_player_id@[player] + 1;
    let (outcome, resolution) = jail_action_outcome(state, rules, player, action);
    &&& jail_action_check(state, rules, player, action) is Ok
    &&& if resolution == JailResolution::Released {
        next == TurnPhase::Rolling && after == outcome
    } else {
        next == TurnPhase::End
    }
    &&& action is RollForDoubles && roll.first_die != roll.second_die && turns < rules.max_jail_turn_count ==> after
        == (GameState {
        jail_turn_count_by_player_id: vstd::array::spec_array_update(
            state.jail_turn_count_by_player_id,
            player,
            turns as u8,
        ),
        rng: after.rng,
        ..state
    })
}

/// Whether `after` follows from `released`, where the current player just left jail, by
/// moving the player forward by `roll` and settling the landing.
pub open spec fn moved_out_of_jail<const N: usize>(
    released: GameState<N>,
    after: GameState<N>,
    rules: Ruleset,
    roll: DiceRoll,
) -> bool {
    let player = released.current_player_id as int;
    let target = ((released.position_by_player_id@[player] + roll.first_die + roll.second_die) % (
    TILE_COUNT as int)) as TileId;
    landing_settled(
        advanced_state(released, rules, player, target),
        after,
        rules,
        player as PlayerId,
        roll,
        RentModifier::Standard,
    )
}

/// Resolves the jail `action` of the current player: a release lets the player roll as usual;
/// a roll for doubles moves the player out on a double or on the last jail turn, after bail.
pub fn apply_jail_decision<const N: usize, S: PlayerStrategy>(
    state: &mut GameState<N>,
    rules: &Ruleset,
    strategies: &mut [S; N],
    action: JailAction,
) -> (result: Result<TurnPhase, ActionError>)
    requires
        old(state).wf(),
    ensures
        policies_kept(old(strategies)@, final(strategies)@),
        final(state).wf(),
        result is Err ==> *final(state) == *old(state),
        result matches Ok(next) ==> next == TurnPhase::End || next == TurnPhase::Rolling,
        result == Ok::<TurnPhase, ActionError>(TurnPhase::Rolling) ==> final(state).consecutive_double_count
            == old(state).consecutive_double_count && !final(state).is_bankrupt(final(state).current_player_id as int),
        final(state).current_player_id == old(state).current_player_id,
        match jail_action_check(*old(state), *rules, old(state).current_player_id as int, action) {
            Err(error) => result == Err::<TurnPhase, ActionError>(error),
            Ok(_) => {
                let (after, resolution) = jail_action_outcome(
                    *old(state),
                    *rules,
                    old(state).current_player_id as int,
                    action,
                );
                if resolution == JailResolution::Released {
                    result == Ok::<TurnPhase, ActionError>(TurnPhase::Rolling) && *final(state) == after
                } else {
                    result == Ok::<TurnPhase, ActionError>(TurnPhase::End)
                }
            },
        },
        ({
            let player = old(state).current_player_id as int;
            let roll = dice_drawn(old(state).rng.state());
            let turns = old(state).jail_turn_count_by_player_id@[player] + 1;
            jail_action_check(*old(state), *rules, player, action) is Ok && action is RollForDoubles
                && roll.first_die != roll.second_die && turns < rules.max_jail_turn_count ==> *final(state)
                == (GameState {
                jail_turn_count_by_player_id: vstd::array::spec_array_update(
                    old(state).jail_turn_count_by_player_id,
                    player,
                    turns as u8,
                ),
                rng: final(state).rng,
                ..*old(state)
            })
        }),
        ({
            let player = old(state).current_player_id as int;
            let roll = dice_drawn(old(state).rng.state());
            let drawn = GameState { rng: old(state).rng.drawn(), ..*old(state) };
            let turns = old(state).jail_turn_count_by_player_id@[player] + 1;
            let bail = rules.jail_bail_amount as Cash;
            &&& jail_action_check(*old(state), *rules, player, action) is Ok && action is RollForDoubles
                && roll.first_die == roll.second_die ==> result == Ok::<TurnPhase, ActionError>(TurnPhase::End)
                && moved_out_of_jail(released(drawn, player), *final(state), *rules, roll)
            &&& jail_action_check(*old(state), *rules, player, action) is Ok && action is RollForDoubles
                && roll.first_die != roll.second_die && turns >= rules.max_jail_turn_count && old(state).cash(player)
                >= bail ==> result == Ok::<TurnPhase, ActionError>(TurnPhase::End) && moved_out_of_jail(
                released(paid(drawn, player, bail, fee_creditor(*rules)), player),
                *final(state),
                *rules,
                roll,
            )
        }),
{
    let player = state.current_player_id;
    let resolution = match execute_jail_action(state, rules, strategies, player, action) {
        Ok(resolution) => resolution,
        Err(error) => return Err(error),
    };
    let outcome = if resolution == JailResolution::Released {
        JailTurnResult::RollNormally
    } else {
        roll_in_jail(state, rules, strategies, player)
    };
    match outcome {
        JailTurnResult::StayInJail => Ok(TurnPhase::End),
        JailTurnResult::RollNormally => Ok(TurnPhase::Rolling),
        JailTurnResult::MoveWithoutRollingAgain(dice_roll) => {
            let ghost moving = *state;
            let total = dice_roll.total();
            let salary = move_player_forward(state, rules, player, total);
            proof {
                let target = ((moving.position_by_player_id@[player as int] + total) % (TILE_COUNT as int)) as TileId;
                lemma_advanced_state(moving, *state, *rules, player as int, target, salary);
            }
            if let Some(event) = salary {
                publish_event(strategies, player as usize, event);
            }
            resolve_landing(state, rules, strategies, player, dice_roll, RentModifier::Standard);
            assert(moved_out_of_jail(moving, *state, *rules, dice_roll));
            Ok(TurnPhase::End)
        },
    }
}

/// The jailed `player` rolls for doubles: a double releases the player, who moves by it; else
/// the player stays, unless this was the last jail turn, when the player pays bail and moves.
fn roll_in_jail<const N: usize, Strategy: PlayerStrategy>(
    state: &mut GameState<N>,
    rules: &Ruleset,
    strategies: &mut [Strategy; N],
    player: PlayerId,
) -> (result: JailTurnResult)
    requires
        old(state).wf(),
        (player as usize) < N,
        old(state).is_jailed(player as int),
        !old(state).is_bankrupt(player as int),
        old(state).current_player_id == player,
    ensures
        policies_kept(old(strategies)@, final(strategies)@),
        final(state).wf(),
        final(state).current_player_id == old(state).current_player_id,
        !(result is RollNormally),
        final(state).rng == old(state).rng.drawn(),
        result matches JailTurnResult::MoveWithoutRollingAgain(dice_roll) ==> dice_roll == dice_drawn(
            old(state).rng.state(),
        ),
        result matches JailTurnResult::MoveWithoutRollingAgain(dice_roll) ==> dice_roll.valid()
            && !final(state).is_bankrupt(player as int),
        ({
            let roll = dice_drawn(old(state).rng.state());
            let rolled = GameState { rng: old(state).rng.drawn(), ..*old(state) };
            let turns = old(state).jail_turn_count_by_player_id@[player as int] + 1;
            &&& roll.first_die == roll.second_die ==> result == JailTurnResult::MoveWithoutRollingAgain(roll)
                && final(state).rng.state() == wyrand_step(old(state).rng.state())
                && *final(state) == released(rolled, player as int)
            &&& roll.first_die != roll.second_die && turns < rules.max_jail_turn_count ==> result
                == JailTurnResult::StayInJail && final(state).rng.state() == wyrand_step(old(state).rng.state())
                && *final(state) == (GameState {
                jail_turn_count_by_player_id: vstd::array::spec_array_update(
                    old(state).jail_turn_count_by_player_id,
                    player as int,
                    turns as u8,
                ),
                ..rolled
            })
            &&& roll.first_die != roll.second_die && turns >= rules.max_jail_turn_count ==> result == (if final(state).is_bankrupt(player as int) {
                JailTurnResult::StayInJail
            } else {
                JailTurnResult::MoveWithoutRollingAgain(roll)
            }) && (old(state).cash(player as int) >= rules.jail_bail_amount ==> *final(state) == released(
                paid(rolled, player as int, rules.jail_bail_amount as Cash, fee_creditor(*rules)),
                player as int,
            ))
        }),
{
    let index = player as usize;
    let ghost before_roll = *state;
    let dice_roll = state.rng.roll_dice();
    proof {
        lemma_state_frame(before_roll, *state);
    }
    publish_event(
        strategies,
        index,
        GameEvent::DiceRolled { player_id: player, first: dice_roll.first_die, second: dice_roll.second_die },
    );
    if dice_roll.is_double() {
        let event = release_player_from_jail(state, player);
        publish_event(strategies, index, event);
        return JailTurnResult::MoveWithoutRollingAgain(dice_roll);
    }
    let count = state.jail_turn_count_by_player_id[index] + 1;
    if count < rules.max_jail_turn_count {
        let ghost before_count = *state;
        state.jail_turn_count_by_player_id[index] = count;
        proof {
            assert(state.jail_turn_count_by_player_id =~= vstd::array::spec_array_update(
                before_count.jail_turn_count_by_player_id,
                player as int,
                count,
            ));
            assert forall|other: int| 0 <= other < N && #[trigger] player_in(state.jailed_players, other)
                implies state.jail_turn_count_by_player_id@[other] < 255 by {
                if other != player as int {
                    assert(player_in(before_count.jailed_players, other));
                }
            }
            lemma_state_frame(before_count, *state);
        }
        return JailTurnResult::StayInJail;
    }
    charge_player(state, rules, strategies, player, rules.jail_bail_amount as Cash, select_fee_creditor(rules));
    if contains_player(state.bankrupt_players, player) {
        let ghost before_count = *state;
        state.jail_turn_count_by_player_id[index] = count;
        proof {
            assert forall|other: int| 0 <= other < N && #[trigger] player_in(state.jailed_players, other)
                implies state.jail_turn_count_by_player_id@[other] < 255 by {
                if other != player as int {
                    assert(player_in(before_count.jailed_players, other));
                } else {
                    assert(!before_count.is_jailed(other));
                }
            }
            lemma_state_frame(before_count, *state);
        }
        return JailTurnResult::StayInJail;
    }
    let event = release_player_from_jail(state, player);
    publish_event(strategies, index, event);
    JailTurnResult::MoveWithoutRollingAgain(dice_roll)
}

/// The seat `offset` places after the current player's, round the table.
pub open spec fn seat_after<const N: usize>(state: GameState<N>, offset: int) -> int {
    (state.current_player_id + offset) % (N as int)
}

/// The first player from `offset` places after the current one on, in seat order, who is not
/// bankrupt; the current player when there is none.
pub open spec fn next_solvent_player<const N: usize>(state: GameState<N>, offset: int) -> int
    decreases N + 1 - offset,
{
    if offset < 1 || offset > N {
        state.current_player_id as int
    } else if !state.is_bankrupt(seat_after(state, offset)) {
        seat_after(state, offset)
    } else {
        next_solvent_player(state, offset + 1)
    }
}

/// Hands the turn to the next player in seat order who is not bankrupt, and clears the count
/// of doubles.
fn end_turn<const N: usize>(state: &mut GameState<N>)
    requires
        old(state).wf(),
    ensures
        final(state).wf(),
        *final(state) == (GameState {
            current_player_id: next_solvent_player(*old(state), 1) as PlayerId,
            consecutive_double_count: 0,
            ..*old(state)
        }),
{
    let ghost before = *state;
    state.consecutive_double_count = 0;
    let current = state.current_player_id as usize;
    let mut offset: usize = 1;
    while offset <= N
        invariant
            1 <= offset <= N + 1,
            2 <= N <= 8,
            before.wf(),
            before == *old(state),
            current == before.current_player_id,
            current < N,
            *state == (GameState { consecutive_double_count: 0, ..before }),
            next_solvent_player(before, 1) == next_solvent_player(before, offset as int),
        decreases N + 1 - offset,
    {
        let next = ((current + offset) % N) as PlayerId;
        if !contains_player(state.bankrupt_players, next) {
            state.current_player_id = next;
            proof {
                lemma_state_frame(before, *state);
            }
            return;
        }
        offset = offset + 1;
    }
    proof {
        lemma_state_frame(before, *state);
    }
}

} // verus!
