use vstd::prelude::*;

use super::tournament::{
    TournamentConfig,
    TournamentError,
    TournamentResult,
    counts_games,
    play_tournament_game,
};
use crate::game::board::data::{
    MAX_PLAYER_COUNT,
    MIN_PLAYER_COUNT,
};
use crate::game::ruleset::model::Ruleset;
use crate::game::strategy::configurable::ConfigurableStrategy;

verus! {

/// Two policies played on the same seeds, seats and opponents: each one's tournament, and in
/// how many games both, neither or only one of them won.
#[derive(Debug, Clone, Copy, PartialEq, Eq, Structural)]
pub struct PairedResult {
    pub candidate: TournamentResult,
    pub baseline: TournamentResult,
    pub both_win_count: u32,
    pub neither_win_count: u32,
    pub candidate_only_win_count: u32,
    pub baseline_only_win_count: u32,
}

/// Whether `result` pairs `game_count` games of at most `max_turn_count` turns: each policy's
/// wins are the games both won plus the games it alone won, and every game falls in exactly
/// one of the four outcomes.
pub open spec fn pairs_games(result: PairedResult, game_count: int, max_turn_count: int) -> bool {
    &&& counts_games(result.candidate, game_count, max_turn_count)
    &&& counts_games(result.baseline, game_count, max_turn_count)
    &&& result.both_win_count + result.candidate_only_win_count == result.candidate.candidate_win_count
    &&& result.both_win_count + result.baseline_only_win_count == result.baseline.candidate_win_count
    &&& result.both_win_count + result.neither_win_count + result.candidate_only_win_count
        + result.baseline_only_win_count == game_count
}

/// The tournaments `first` and `second` counted together.
pub open spec fn tournament_sum(first: TournamentResult, second: TournamentResult) -> TournamentResult {
    TournamentResult {
        game_count: (first.game_count + second.game_count) as u32,
        candidate_win_count: (first.candidate_win_count + second.candidate_win_count) as u32,
        decisive_game_count: (first.decisive_game_count + second.decisive_game_count) as u32,
        total_turn_count: (first.total_turn_count + second.total_turn_count) as u64,
    }
}

/// The paired games of `first` and `second` counted together.
pub open spec fn paired_sum(first: PairedResult, second: PairedResult) -> PairedResult {
    PairedResult {
        candidate: tournament_sum(first.candidate, second.candidate),
        baseline: tournament_sum(first.baseline, second.baseline),
        both_win_count: (first.both_win_count + second.both_win_count) as u32,
        neither_win_count: (first.neither_win_count + second.neither_win_count) as u32,
        candidate_only_win_count: (first.candidate_only_win_count + second.candidate_only_win_count) as u32,
        baseline_only_win_count: (first.baseline_only_win_count + second.baseline_only_win_count) as u32,
    }
}

/// One game of the candidate and the same game of the baseline, paired by who won it.
pub open spec fn paired_game(candidate: TournamentResult, baseline: TournamentResult) -> PairedResult {
    let candidate_won = candidate.candidate_win_count == 1;
    let baseline_won = baseline.candidate_win_count == 1;
    PairedResult {
        candidate,
        baseline,
        both_win_count: if candidate_won && baseline_won { 1 } else { 0 },
        neither_win_count: if !candidate_won && !baseline_won { 1 } else { 0 },
        candidate_only_win_count: if candidate_won && !baseline_won { 1 } else { 0 },
        baseline_only_win_count: if !candidate_won && baseline_won { 1 } else { 0 },
    }
}

/// No games paired.
pub open spec fn no_pairs() -> PairedResult {
    PairedResult {
        candidate: TournamentResult { game_count: 0, candidate_win_count: 0, decisive_game_count: 0, total_turn_count: 0 },
        baseline: TournamentResult { game_count: 0, candidate_win_count: 0, decisive_game_count: 0, total_turn_count: 0 },
        both_win_count: 0,
        neither_win_count: 0,
        candidate_only_win_count: 0,
        baseline_only_win_count: 0,
    }
}

/// Game `i` of `candidates` paired with game `i` of `baselines`, for every `i`, counted
/// together in order.
pub open spec fn pairing(candidates: Seq<TournamentResult>, baselines: Seq<TournamentResult>) -> PairedResult
    decreases candidates.len(),
{
    if candidates.len() == 0 {
        no_pairs()
    } else {
        paired_sum(
            pairing(candidates.drop_last(), baselines.take(candidates.len() - 1)),
            paired_game(candidates.last(), baselines[candidates.len() - 1]),
        )
    }
}

/// Whether the two policies of `result` had the same tournament, and neither won a game that
/// the other lost.
pub open spec fn concordant(result: PairedResult) -> bool {
    &&& result.candidate == result.baseline
    &&& result.candidate_only_win_count == 0
    &&& result.baseline_only_win_count == 0
}

impl PairedResult {
    pub fn empty() -> (result: Self)
        ensures
            pairs_games(result, 0, 0),
            result == (PairedResult {
                candidate: TournamentResult { game_count: 0, candidate_win_count: 0, decisive_game_count: 0, total_turn_count: 0 },
                baseline: TournamentResult { game_count: 0, candidate_win_count: 0, decisive_game_count: 0, total_turn_count: 0 },
                both_win_count: 0,
                neither_win_count: 0,
                candidate_only_win_count: 0,
                baseline_only_win_count: 0,
            }),
    {
        PairedResult {
            candidate: TournamentResult::empty(),
            baseline: TournamentResult::empty(),
            both_win_count: 0,
            neither_win_count: 0,
            candidate_only_win_count: 0,
            baseline_only_win_count: 0,
        }
    }

    /// The games of `self` and `other` counted together.
    pub fn combine(self, other: Self) -> (combined: Self)
        requires
            self.candidate.game_count + other.candidate.game_count <= u32::MAX,
            self.candidate.candidate_win_count + other.candidate.candidate_win_count <= u32::MAX,
            self.candidate.decisive_game_count + other.candidate.decisive_game_count <= u32::MAX,
            self.candidate.total_turn_count + other.candidate.total_turn_count <= u64::MAX,
            self.baseline.game_count + other.baseline.game_count <= u32::MAX,
            self.baseline.candidate_win_count + other.baseline.candidate_win_count <= u32::MAX,
            self.baseline.decisive_game_count + other.baseline.decisive_game_count <= u32::MAX,
            self.baseline.total_turn_count + other.baseline.total_turn_count <= u64::MAX,
            self.both_win_count + other.both_win_count <= u32::MAX,
            self.neither_win_count + other.neither_win_count <= u32::MAX,
            self.candidate_only_win_count + other.candidate_only_win_count <= u32::MAX,
            self.baseline_only_win_count + other.baseline_only_win_count <= u32::MAX,
        ensures
            combined.candidate.game_count == self.candidate.game_count + other.candidate.game_count,
            combined.candidate.candidate_win_count == self.candidate.candidate_win_count
                + other.candidate.candidate_win_count,
            combined.candidate.decisive_game_count == self.candidate.decisive_game_count
                + other.candidate.decisive_game_count,
            combined.candidate.total_turn_count == self.candidate.total_turn_count + other.candidate.total_turn_count,
            combined.baseline.game_count == self.baseline.game_count + other.baseline.game_count,
            combined.baseline.candidate_win_count == self.baseline.candidate_win_count
                + other.baseline.candidate_win_count,
            combined.baseline.decisive_game_count == self.baseline.decisive_game_count
                + other.baseline.decisive_game_count,
            combined.baseline.total_turn_count == self.baseline.total_turn_count + other.baseline.total_turn_count,
            combined.both_win_count == self.both_win_count + other.both_win_count,
            combined.neither_win_count == self.neither_win_count + other.neither_win_count,
            combined.candidate_only_win_count == self.candidate_only_win_count + other.candidate_only_win_count,
            combined.baseline_only_win_count == self.baseline_only_win_count + other.baseline_only_win_count,
            combined == paired_sum(self, other),
    {
        PairedResult {
            candidate: self.candidate.combine(other.candidate),
            baseline: self.baseline.combine(other.baseline),
            both_win_count: self.both_win_count + other.both_win_count,
            neither_win_count: self.neither_win_count + other.neither_win_count,
            candidate_only_win_count: self.candidate_only_win_count + other.candidate_only_win_count,
            baseline_only_win_count: self.baseline_only_win_count + other.baseline_only_win_count,
        }
    }
}

/// Plays each game of a tournament twice, once with the candidate and once with the baseline in
/// the candidate's seat, against the same opponents on the same seed.
pub fn compare_policies(
    rules: &Ruleset,
    candidate: ConfigurableStrategy,
    baseline: ConfigurableStrategy,
    opponents: &[ConfigurableStrategy],
    config: &TournamentConfig,
) -> (result: Result<PairedResult, TournamentError>)
    ensures
        opponents@.len() == 0 ==> result == Err::<PairedResult, TournamentError>(TournamentError::EmptyOpponentPool),
        opponents@.len() > 0 && !(MIN_PLAYER_COUNT <= config.player_count <= MAX_PLAYER_COUNT) ==> result == Err::<
            PairedResult,
            TournamentError,
        >(TournamentError::UnsupportedPlayerCount(config.player_count)),
        opponents@.len() > 0 && MIN_PLAYER_COUNT <= config.player_count <= MAX_PLAYER_COUNT ==> (result matches Ok(
            result,
        ) && pairs_games(result, config.game_count as int, config.max_turn_count as int)),
        candidate == baseline ==> (result matches Ok(result) ==> concordant(result)),
{
    if opponents.len() == 0 {
        return Err(TournamentError::EmptyOpponentPool);
    }
    match config.player_count {
        2 => Ok(play_pairs::<2>(rules, candidate, baseline, opponents, config)),
        3 => Ok(play_pairs::<3>(rules, candidate, baseline, opponents, config)),
        4 => Ok(play_pairs::<4>(rules, candidate, baseline, opponents, config)),
        5 => Ok(play_pairs::<5>(rules, candidate, baseline, opponents, config)),
        6 => Ok(play_pairs::<6>(rules, candidate, baseline, opponents, config)),
        7 => Ok(play_pairs::<7>(rules, candidate, baseline, opponents, config)),
        8 => Ok(play_pairs::<8>(rules, candidate, baseline, opponents, config)),
        _ => Err(TournamentError::UnsupportedPlayerCount(config.player_count)),
    }
}

/// Game `index` of a paired comparison.
pub fn play_pair<const N: usize>(
    rules: &Ruleset,
    candidate: ConfigurableStrategy,
    baseline: ConfigurableStrategy,
    opponents: &[ConfigurableStrategy],
    config: &TournamentConfig,
    index: u32,
) -> (result: PairedResult)
    requires
        MIN_PLAYER_COUNT <= N <= MAX_PLAYER_COUNT,
        opponents@.len() > 0,
    ensures
        pairs_games(result, 1, config.max_turn_count as int),
        candidate == baseline ==> concordant(result),
{
    let candidate_result = play_tournament_game::<N>(rules, candidate, opponents, config, index);
    let baseline_result = if baseline == candidate {
        candidate_result
    } else {
        play_tournament_game::<N>(rules, baseline, opponents, config, index)
    };
    pair_games(candidate_result, baseline_result, config.max_turn_count)
}

/// One game played by the candidate and the same game played by the baseline, paired.
pub(crate) fn pair_games(candidate: TournamentResult, baseline: TournamentResult, max_turn_count: u32) -> (result:
    PairedResult)
    requires
        counts_games(candidate, 1, max_turn_count as int),
        counts_games(baseline, 1, max_turn_count as int),
    ensures
        pairs_games(result, 1, max_turn_count as int),
        result.candidate == candidate,
        result.baseline == baseline,
        result == paired_game(candidate, baseline),
{
    let candidate_won = candidate.candidate_win_count == 1;
    let baseline_won = baseline.candidate_win_count == 1;
    PairedResult {
        candidate,
        baseline,
        both_win_count: if candidate_won && baseline_won {
            1
        } else {
            0
        },
        neither_win_count: if !candidate_won && !baseline_won {
            1
        } else {
            0
        },
        candidate_only_win_count: if candidate_won && !baseline_won {
            1
        } else {
            0
        },
        baseline_only_win_count: if !candidate_won && baseline_won {
            1
        } else {
            0
        },
    }
}

fn play_pairs<const N: usize>(
    rules: &Ruleset,
    candidate: ConfigurableStrategy,
    baseline: ConfigurableStrategy,
    opponents: &[ConfigurableStrategy],
    config: &TournamentConfig,
) -> (result: PairedResult)
    requires
        MIN_PLAYER_COUNT <= N <= MAX_PLAYER_COUNT,
        opponents@.len() > 0,
    ensures
        pairs_games(result, config.game_count as int, config.max_turn_count as int),
        candidate == baseline ==> concordant(result),
{
    let mut result = PairedResult::empty();
    let mut index: u32 = 0;
    while index < config.game_count
        invariant
            MIN_PLAYER_COUNT <= N <= MAX_PLAYER_COUNT,
            opponents@.len() > 0,
            index <= config.game_count,
            pairs_games(result, index as int, config.max_turn_count as int),
            candidate == baseline ==> concordant(result),
        decreases config.game_count - index,
    {
        let pair = play_pair::<N>(rules, candidate, baseline, opponents, config, index);
        assert((index + 1) as int * config.max_turn_count as int == index as int * config.max_turn_count as int
            + config.max_turn_count as int) by (nonlinear_arith);
        assert(index as int * config.max_turn_count as int + config.max_turn_count as int <= u32::MAX as int
            * u32::MAX as int) by (nonlinear_arith)
            requires
                index < u32::MAX,
                config.max_turn_count <= u32::MAX,
        ;
        result = result.combine(pair);
        index = index + 1;
    }
    result
}

} // verus!
