use vstd::prelude::*;

use super::paired::{
    PairedResult,
    pair_games,
    pairing,
    pairs_games,
};
use super::tournament::{
    TournamentConfig,
    TournamentResult,
    counts_games,
    game_counted,
    seated_by,
    tournament_seating,
    play_tournament_game,
    tournament_seed,
};
use crate::game::board::data::{
    MAX_PLAYER_COUNT,
    MIN_PLAYER_COUNT,
};
use crate::game::engine::turn::{
    GameOutcome,
    game_played,
    game_seated,
    has_sole_active_player,
    play_game,
    sole_active_player,
};
use crate::game::ruleset::model::Ruleset;
use crate::game::state::model::GameState;
use crate::game::strategy::configurable::ConfigurableStrategy;
use crate::game::strategy::model::{
    DecidingPolicy,
    PlayerStrategy,
};
use crate::game::strategy::rollout::RolloutConfig;
use crate::game::strategy::rollout_player::{
    RolloutStats,
    RolloutStrategy,
    added_counts,
    no_rollouts,
};

verus! {

#[derive(Debug, Clone, Copy, PartialEq, Eq, Structural)]
pub enum BenchmarkError {
    /// The candidate has no opponents to play.
    EmptyOpponentPool,
    /// A game, sample or turn count is zero.
    NonPositiveCount,
    /// The player count lies outside the supported range of two to eight.
    UnsupportedPlayerCount(usize),
}

/// A rollout player compared with its baseline on the same games, and what its rollouts cost.
#[derive(Debug, Clone, Copy, PartialEq, Eq, Structural)]
pub struct RolloutBenchmark {
    pub paired: PairedResult,
    pub stats: RolloutStats,
}

/// The costs of `costs` added up in order, each count saturating at `u64::MAX`.
pub open spec fn total_cost(costs: Seq<RolloutStats>) -> RolloutStats
    decreases costs.len(),
{
    if costs.len() == 0 {
        no_rollouts()
    } else {
        added_counts(total_cost(costs.drop_last()), costs.last())
    }
}

/// `core::array::from_fn`: the array whose element at each index `i` is what `f(i)` returns.
#[verifier::external_body]
fn array_from_fn<T, F: Fn(usize) -> T, const N: usize>(f: F) -> (array: [T; N])
    requires
        forall|index: usize| index < N ==> #[trigger] f.requires((index,)),
    ensures
        forall|index: int| 0 <= index < N ==> f.ensures((index as usize,), #[trigger] array@[index]),
{
    core::array::from_fn(f)
}

/// The player in `seat` of trial `index`: the rollout player in seat `index % N`, and in every
/// other seat the opponent `(index / N + seat) % len` of the pool, deciding without rollouts.
fn seat_player<const N: usize>(
    baseline: ConfigurableStrategy,
    opponents: &[ConfigurableStrategy],
    rollout: RolloutConfig,
    index: u32,
    seat: usize,
) -> (player: RolloutStrategy)
    requires
        MIN_PLAYER_COUNT <= N <= MAX_PLAYER_COUNT,
        opponents@.len() > 0,
        seat < N,
    ensures
        player.observed() == Seq::<crate::game::engine::event::GameEvent>::empty(),
        player.counts() == no_rollouts(),
        seat == index as int % N as int ==> player.baseline_policy() == baseline && player.rollout_config() == Some(
            rollout,
        ),
        seat != index as int % N as int ==> player.baseline_policy() == opponents@[(index as int / N as int + seat)
            % opponents@.len() as int] && player.rollout_config() is None,
{
    if seat == index as usize % N {
        RolloutStrategy::new(baseline, Some(rollout))
    } else {
        let round = index as usize / N;
        assert(round * 2 <= index) by (nonlinear_arith)
            requires
                round == index as int / N as int,
                N >= 2,
        ;
        RolloutStrategy::new(opponents[(round + seat) % opponents.len()], None)
    }
}

/// The policies in the seats of trial `index` of a rollout benchmark between `player_count`
/// players: the rollout player on `baseline` with `rollout` in seat `index % player_count`, and
/// in every other seat the opponent `(index / player_count + seat) % len` of the pool, without
/// rollouts.
pub open spec fn rollout_seating(
    baseline: ConfigurableStrategy,
    opponents: Seq<ConfigurableStrategy>,
    rollout: RolloutConfig,
    player_count: int,
    index: int,
) -> Seq<DecidingPolicy> {
    Seq::new(
        player_count as nat,
        |seat: int|
            if seat == index % player_count {
                DecidingPolicy::Rollout(baseline, Some(rollout))
            } else {
                DecidingPolicy::Rollout(opponents[(index / player_count + seat) % (opponents.len() as int)], None)
            },
    )
}

/// Trial `index` of a rollout benchmark: the rollout player in seat `index % N` against the
/// pool's opponents from the seed `config.seed + index` (wrapping); its result, and what the
/// rollouts cost.
pub fn play_rollout_trial<const N: usize>(
    rules: &Ruleset,
    baseline: ConfigurableStrategy,
    opponents: &[ConfigurableStrategy],
    config: &TournamentConfig,
    rollout: RolloutConfig,
    index: u32,
) -> (trial: (TournamentResult, RolloutStats))
    requires
        MIN_PLAYER_COUNT <= N <= MAX_PLAYER_COUNT,
        opponents@.len() > 0,
    ensures
        counts_games(trial.0, 1, config.max_turn_count as int),
        game_counted::<N, RolloutStrategy>(
            trial.0,
            *rules,
            tournament_seed(*config, index as int),
            config.max_turn_count as int,
            index as int % (N as int),
            rollout_seating(baseline, opponents@, rollout, N as int, index as int),
        ),
{
    let candidate_seat = index as usize % N;
    let make_player = |seat: usize| -> (player: RolloutStrategy)
        requires
            seat < N,
        ensures
            player.policy_of() == rollout_seating(baseline, opponents@, rollout, N as int, index as int)[seat as int],
        { seat_player::<N>(baseline, opponents, rollout, index, seat) };
    let mut players: [RolloutStrategy; N] = array_from_fn(make_player);
    let ghost seated = players@;
    let mut state = GameState::<N>::create_starting_state(rules, config.seed.wrapping_add(index as u64));
    let ghost start = state;
    let summary = play_game(&mut state, rules, &mut players, config.max_turn_count);
    proof {
        assert(config.seed.wrapping_add(index as u64) == tournament_seed(*config, index as int));
        let states = choose|states: Seq<GameState<N>>|
            #![trigger game_played(start, states, *rules)]
            {
                &&& game_played(start, states, *rules)
                &&& states.len() == summary.turn_count + 1
                &&& states.last() == state
                &&& summary.outcome is TurnLimitReached ==> forall|index: int|
                    0 < index < states.len() ==> !has_sole_active_player(#[trigger] states[index])
                &&& exists|seats: Seq<Seq<RolloutStrategy>>|
                    #[trigger] game_seated(states, seats, *rules) && seats[0] == seated && seats.last() == players@
            };
        assert(game_played(states[0], states, *rules));
        let seats = choose|seats: Seq<Seq<RolloutStrategy>>|
            #[trigger] game_seated(states, seats, *rules) && seats[0] == seated && seats.last() == players@;
        let seating = rollout_seating(baseline, opponents@, rollout, N as int, index as int);
        assert forall|seat: int| 0 <= seat < seats[0].len() implies #[trigger] seats[0][seat].policy_of()
            == seating[seat] by {
            assert(call_ensures(make_player, (seat as usize,), seated[seat]));
        }
        assert(seated_by(seats[0], seating));
        if let GameOutcome::Winner(winner) = summary.outcome {
            assert(has_sole_active_player(states.last()));
            assert forall|seat: int| sole_active_player(states.last(), seat) implies seat == winner by {
                if seat != winner {
                    assert(states.last().is_bankrupt(seat));
                }
            }
        } else {
            assert(states.len() > 1 ==> !has_sole_active_player(states[states.len() - 1]));
        }
    }
    let (candidate_win_count, decisive_game_count) = match summary.outcome {
        GameOutcome::Winner(player) => (
            if player as usize == candidate_seat {
                1
            } else {
                0
            },
            1,
        ),
        GameOutcome::TurnLimitReached => (0, 0),
    };
    (
        TournamentResult {
            game_count: 1,
            candidate_win_count,
            decisive_game_count,
            total_turn_count: summary.turn_count as u64,
        },
        players[candidate_seat].stats(),
    )
}

/// Pairs each rollout trial with the baseline's trial of the same index, and adds up the
/// rollouts' costs.
pub fn pair_trials(
    candidates: &[(TournamentResult, RolloutStats)],
    baselines: &[TournamentResult],
    max_turn_count: u32,
) -> (benchmark: RolloutBenchmark)
    requires
        candidates@.len() == baselines@.len(),
        candidates@.len() <= u32::MAX,
        forall|index: int| 0 <= index < candidates@.len() ==> counts_games(#[trigger] candidates@[index].0, 1, max_turn_count as int),
        forall|index: int| 0 <= index < baselines@.len() ==> counts_games(#[trigger] baselines@[index], 1, max_turn_count as int),
    ensures
        pairs_games(benchmark.paired, candidates@.len() as int, max_turn_count as int),
        benchmark.stats == total_cost(candidates@.map_values(|trial: (TournamentResult, RolloutStats)| trial.1)),
        benchmark.paired == pairing(trial_results(candidates@), baselines@),
{
    let mut paired = PairedResult::empty();
    let mut stats = RolloutStats { decisions: 0, changed_decisions: 0, simulated_games: 0, unfinished_games: 0, failures: 0 };
    let ghost costs = candidates@.map_values(|trial: (TournamentResult, RolloutStats)| trial.1);
    let ghost results = trial_results(candidates@);
    let mut index: usize = 0;
    while index < candidates.len()
        invariant
            candidates@.len() == baselines@.len(),
            candidates@.len() <= u32::MAX,
            forall|later: int| 0 <= later < candidates@.len() ==> counts_games(#[trigger] candidates@[later].0, 1, max_turn_count as int),
            forall|later: int| 0 <= later < baselines@.len() ==> counts_games(#[trigger] baselines@[later], 1, max_turn_count as int),
            costs == candidates@.map_values(|trial: (TournamentResult, RolloutStats)| trial.1),
            index <= candidates@.len(),
            pairs_games(paired, index as int, max_turn_count as int),
            stats == total_cost(costs.take(index as int)),
            results == trial_results(candidates@),
            paired == pairing(results.take(index as int), baselines@.take(index as int)),
        decreases candidates@.len() - index,
    {
        let pair = pair_games(candidates[index].0, baselines[index], max_turn_count);
        assert((index + 1) as int * max_turn_count as int == index as int * max_turn_count as int
            + max_turn_count as int) by (nonlinear_arith);
        assert(index as int * max_turn_count as int + max_turn_count as int <= u32::MAX as int
            * u32::MAX as int) by (nonlinear_arith)
            requires
                index < u32::MAX,
                max_turn_count <= u32::MAX,
        ;
        paired = paired.combine(pair);
        stats = stats.saturating_combine(candidates[index].1);
        assert(costs.take(index as int + 1).drop_last() =~= costs.take(index as int));
        assert(results.take(index as int + 1).drop_last() =~= results.take(index as int));
        assert(baselines@.take(index as int + 1).take(index as int) =~= baselines@.take(index as int));
        index = index + 1;
    }
    assert(costs.take(candidates@.len() as int) =~= costs);
    assert(results.take(candidates@.len() as int) =~= results);
    assert(baselines@.take(candidates@.len() as int) =~= baselines@);
    RolloutBenchmark { paired, stats }
}

/// Plays `config.game_count` trials with the rollout player in the candidate's seat, and the
/// same trials with `baseline` in that seat, and pairs them.
#[verifier::spinoff_prover]
pub fn benchmark(
    rules: &Ruleset,
    baseline: ConfigurableStrategy,
    opponents: &[ConfigurableStrategy],
    config: &TournamentConfig,
    rollout: RolloutConfig,
) -> (result: Result<RolloutBenchmark, BenchmarkError>)
    ensures
        opponents@.len() == 0 ==> result == Err::<RolloutBenchmark, BenchmarkError>(BenchmarkError::EmptyOpponentPool),
        opponents@.len() > 0 && (config.game_count == 0 || config.max_turn_count == 0 || rollout.sample_count == 0
            || rollout.max_turn_count == 0) ==> result == Err::<RolloutBenchmark, BenchmarkError>(
            BenchmarkError::NonPositiveCount,
        ),
        opponents@.len() > 0 && config.game_count > 0 && config.max_turn_count > 0 && rollout.sample_count > 0
            && rollout.max_turn_count > 0 && !(MIN_PLAYER_COUNT <= config.player_count <= MAX_PLAYER_COUNT)
            ==> result == Err::<RolloutBenchmark, BenchmarkError>(BenchmarkError::UnsupportedPlayerCount(config.player_count)),
        opponents@.len() > 0 && config.game_count > 0 && config.max_turn_count > 0 && rollout.sample_count > 0
            && rollout.max_turn_count > 0 && MIN_PLAYER_COUNT <= config.player_count <= MAX_PLAYER_COUNT ==> (result matches Ok(
            benchmark,
        ) && pairs_games(benchmark.paired, config.game_count as int, config.max_turn_count as int)),
        result matches Ok(measured) ==> benchmark_counted(measured, *rules, *config, baseline, opponents@, rollout),
{
    if opponents.len() == 0 {
        return Err(BenchmarkError::EmptyOpponentPool);
    }
    if config.game_count == 0 || config.max_turn_count == 0 || rollout.sample_count == 0 || rollout.max_turn_count == 0 {
        return Err(BenchmarkError::NonPositiveCount);
    }
    match config.player_count {
        2 => {
            let measured = run::<2>(rules, baseline, opponents, config, rollout);
            assert(exists|trials: Seq<(TournamentResult, RolloutStats)>, baselines: Seq<TournamentResult>| #[trigger] trials_counted::<2>(measured, trials, baselines, *rules, *config, baseline, opponents@, rollout));
            assert(benchmark_counted(measured, *rules, *config, baseline, opponents@, rollout));
            Ok(measured)
        },
        3 => {
            let measured = run::<3>(rules, baseline, opponents, config, rollout);
            assert(exists|trials: Seq<(TournamentResult, RolloutStats)>, baselines: Seq<TournamentResult>| #[trigger] trials_counted::<3>(measured, trials, baselines, *rules, *config, baseline, opponents@, rollout));
            assert(benchmark_counted(measured, *rules, *config, baseline, opponents@, rollout));
            Ok(measured)
        },
        4 => {
            let measured = run::<4>(rules, baseline, opponents, config, rollout);
            assert(exists|trials: Seq<(TournamentResult, RolloutStats)>, baselines: Seq<TournamentResult>| #[trigger] trials_counted::<4>(measured, trials, baselines, *rules, *config, baseline, opponents@, rollout));
            assert(benchmark_counted(measured, *rules, *config, baseline, opponents@, rollout));
            Ok(measured)
        },
        5 => {
            let measured = run::<5>(rules, baseline, opponents, config, rollout);
            assert(exists|trials: Seq<(TournamentResult, RolloutStats)>, baselines: Seq<TournamentResult>| #[trigger] trials_counted::<5>(measured, trials, baselines, *rules, *config, baseline, opponents@, rollout));
            assert(benchmark_counted(measured, *rules, *config, baseline, opponents@, rollout));
            Ok(measured)
        },
        6 => {
            let measured = run::<6>(rules, baseline, opponents, config, rollout);
            assert(exists|trials: Seq<(TournamentResult, RolloutStats)>, baselines: Seq<TournamentResult>| #[trigger] trials_counted::<6>(measured, trials, baselines, *rules, *config, baseline, opponents@, rollout));
            assert(benchmark_counted(measured, *rules, *config, baseline, opponents@, rollout));
            Ok(measured)
        },
        7 => {
            let measured = run::<7>(rules, baseline, opponents, config, rollout);
            assert(exists|trials: Seq<(TournamentResult, RolloutStats)>, baselines: Seq<TournamentResult>| #[trigger] trials_counted::<7>(measured, trials, baselines, *rules, *config, baseline, opponents@, rollout));
            assert(benchmark_counted(measured, *rules, *config, baseline, opponents@, rollout));
            Ok(measured)
        },
        8 => {
            let measured = run::<8>(rules, baseline, opponents, config, rollout);
            assert(exists|trials: Seq<(TournamentResult, RolloutStats)>, baselines: Seq<TournamentResult>| #[trigger] trials_counted::<8>(measured, trials, baselines, *rules, *config, baseline, opponents@, rollout));
            assert(benchmark_counted(measured, *rules, *config, baseline, opponents@, rollout));
            Ok(measured)
        },
        _ => Err(BenchmarkError::UnsupportedPlayerCount(config.player_count)),
    }
}

fn run<const N: usize>(
    rules: &Ruleset,
    baseline: ConfigurableStrategy,
    opponents: &[ConfigurableStrategy],
    config: &TournamentConfig,
    rollout: RolloutConfig,
) -> (benchmark: RolloutBenchmark)
    requires
        MIN_PLAYER_COUNT <= N <= MAX_PLAYER_COUNT,
        opponents@.len() > 0,
    ensures
        pairs_games(benchmark.paired, config.game_count as int, config.max_turn_count as int),
        exists|trials: Seq<(TournamentResult, RolloutStats)>, baselines: Seq<TournamentResult>| #[trigger] trials_counted::<N>(benchmark, trials, baselines, *rules, *config, baseline, opponents@, rollout),
{
    let mut candidates: Vec<(TournamentResult, RolloutStats)> = Vec::new();
    let mut baselines: Vec<TournamentResult> = Vec::new();
    let mut index: u32 = 0;
    while index < config.game_count
        invariant
            MIN_PLAYER_COUNT <= N <= MAX_PLAYER_COUNT,
            opponents@.len() > 0,
            index <= config.game_count,
            candidates@.len() == index,
            baselines@.len() == index,
            forall|earlier: int| 0 <= earlier < candidates@.len() ==> counts_games(#[trigger] candidates@[earlier].0, 1, config.max_turn_count as int),
            forall|earlier: int| 0 <= earlier < baselines@.len() ==> counts_games(#[trigger] baselines@[earlier], 1, config.max_turn_count as int),
            forall|earlier: int|
                0 <= earlier < candidates@.len() ==> game_counted::<N, RolloutStrategy>(
                    #[trigger] candidates@[earlier].0,
                    *rules,
                    tournament_seed(*config, earlier),
                    config.max_turn_count as int,
                    earlier % (N as int),
                    rollout_seating(baseline, opponents@, rollout, N as int, earlier),
                ),
            forall|earlier: int|
                0 <= earlier < baselines@.len() ==> game_counted::<N, ConfigurableStrategy>(
                    #[trigger] baselines@[earlier],
                    *rules,
                    tournament_seed(*config, earlier),
                    config.max_turn_count as int,
                    earlier % (N as int),
                    tournament_seating(baseline, opponents@, N as int, earlier),
                ),
        decreases config.game_count - index,
    {
        candidates.push(play_rollout_trial::<N>(rules, baseline, opponents, config, rollout, index));
        baselines.push(play_tournament_game::<N>(rules, baseline, opponents, config, index));
        index = index + 1;
    }
    let benchmark = pair_trials(candidates.as_slice(), baselines.as_slice(), config.max_turn_count);
    assert(benchmark.stats == total_cost(trial_costs(candidates@)));
    assert(trials_counted::<N>(benchmark, candidates@, baselines@, *rules, *config, baseline, opponents@, rollout));
    benchmark
}

/// Whether `benchmark` comes from rollout trials of `config`, between its number of players,
/// as `trials_counted` says.
pub open spec fn benchmark_counted(
    benchmark: RolloutBenchmark,
    rules: Ruleset,
    config: TournamentConfig,
    baseline: ConfigurableStrategy,
    opponents: Seq<ConfigurableStrategy>,
    rollout: RolloutConfig,
) -> bool {
    match config.player_count {
        2 => exists|trials: Seq<(TournamentResult, RolloutStats)>, baselines: Seq<TournamentResult>| #[trigger] trials_counted::<2>(benchmark, trials, baselines, rules, config, baseline, opponents, rollout),
        3 => exists|trials: Seq<(TournamentResult, RolloutStats)>, baselines: Seq<TournamentResult>| #[trigger] trials_counted::<3>(benchmark, trials, baselines, rules, config, baseline, opponents, rollout),
        4 => exists|trials: Seq<(TournamentResult, RolloutStats)>, baselines: Seq<TournamentResult>| #[trigger] trials_counted::<4>(benchmark, trials, baselines, rules, config, baseline, opponents, rollout),
        5 => exists|trials: Seq<(TournamentResult, RolloutStats)>, baselines: Seq<TournamentResult>| #[trigger] trials_counted::<5>(benchmark, trials, baselines, rules, config, baseline, opponents, rollout),
        6 => exists|trials: Seq<(TournamentResult, RolloutStats)>, baselines: Seq<TournamentResult>| #[trigger] trials_counted::<6>(benchmark, trials, baselines, rules, config, baseline, opponents, rollout),
        7 => exists|trials: Seq<(TournamentResult, RolloutStats)>, baselines: Seq<TournamentResult>| #[trigger] trials_counted::<7>(benchmark, trials, baselines, rules, config, baseline, opponents, rollout),
        _ => exists|trials: Seq<(TournamentResult, RolloutStats)>, baselines: Seq<TournamentResult>| #[trigger] trials_counted::<8>(benchmark, trials, baselines, rules, config, baseline, opponents, rollout),
    }
}

/// Whether `benchmark` comes from the rollout trials `trials` of `config` between `N` players,
/// and the same games `baselines` with the baseline in the rollout player's seat: game `i` of
/// each is played from the seed of game `i` with that player in seat `i % N`, the paired result
/// pairs the two games of each index, in order, and the rollouts' costs are those of all trials
/// added up.
pub open spec fn trials_counted<const N: usize>(
    benchmark: RolloutBenchmark,
    trials: Seq<(TournamentResult, RolloutStats)>,
    baselines: Seq<TournamentResult>,
    rules: Ruleset,
    config: TournamentConfig,
    baseline: ConfigurableStrategy,
    opponents: Seq<ConfigurableStrategy>,
    rollout: RolloutConfig,
) -> bool {
    &&& trials.len() == config.game_count
    &&& baselines.len() == config.game_count
    &&& forall|index: int|
        0 <= index < baselines.len() ==> game_counted::<N, ConfigurableStrategy>(
            #[trigger] baselines[index],
            rules,
            tournament_seed(config, index),
            config.max_turn_count as int,
            index % (N as int),
            tournament_seating(baseline, opponents, N as int, index),
        )
    &&& benchmark.paired == pairing(trial_results(trials), baselines)
    &&& forall|index: int|
        0 <= index < trials.len() ==> game_counted::<N, RolloutStrategy>(
            #[trigger] trials[index].0,
            rules,
            tournament_seed(config, index),
            config.max_turn_count as int,
            index % (N as int),
            rollout_seating(baseline, opponents, rollout, N as int, index),
        )
    &&& benchmark.stats == total_cost(trial_costs(trials))
}

/// The game results of each trial of `trials`.
pub open spec fn trial_results(trials: Seq<(TournamentResult, RolloutStats)>) -> Seq<TournamentResult> {
    trials.map_values(|trial: (TournamentResult, RolloutStats)| trial.0)
}

/// What the rollouts of each trial of `trials` cost.
pub open spec fn trial_costs(trials: Seq<(TournamentResult, RolloutStats)>) -> Seq<RolloutStats> {
    trials.map_values(|trial: (TournamentResult, RolloutStats)| trial.1)
}

} // verus!
