use vstd::prelude::*;

use crate::game::board::data::{
    MAX_PLAYER_COUNT,
    MIN_PLAYER_COUNT,
};
use crate::game::engine::turn::{
    GameOutcome,
    game_played,
    game_seated,
    has_sole_active_player,
    play_game,
    sole_active_player,
};
use crate::game::ruleset::model::Ruleset;
use crate::game::state::model::GameState;
use crate::game::strategy::configurable::ConfigurableStrategy;
use crate::game::strategy::model::{
    DecidingPolicy,
    PlayerStrategy,
};

verus! {

#[derive(Debug, Clone, Copy, PartialEq, Eq, Hash, Structural)]
pub struct TournamentConfig {
    pub game_count: u32,
    pub max_turn_count: u32,
    pub seed: u64,
    pub player_count: usize,
}

/// The games a candidate strategy played, how many it won, how many ended with a winner, and
/// how many turns they took together.
#[derive(Debug, Clone, Copy, PartialEq, Eq, Hash, Structural)]
pub struct TournamentResult {
    pub game_count: u32,
    pub candidate_win_count: u32,
    pub decisive_game_count: u32,
    pub total_turn_count: u64,
}

#[derive(Debug, Clone, Copy, PartialEq, Eq, Hash, Structural)]
pub enum TournamentError {
    /// The candidate has no opponents to play.
    EmptyOpponentPool,
    /// The player count lies outside the supported range of two to eight.
    UnsupportedPlayerCount(usize),
}

/// Whether `result` counts `game_count` games of at most `max_turn_count` turns: the candidate
/// won only decisive games, and no game ended twice.
pub open spec fn counts_games(result: TournamentResult, game_count: int, max_turn_count: int) -> bool {
    &&& result.game_count == game_count
    &&& result.candidate_win_count <= result.decisive_game_count <= result.game_count
    &&& result.total_turn_count <= game_count * max_turn_count
}

/// The seed of game `index` of `config`.
pub open spec fn tournament_seed(config: TournamentConfig, index: int) -> u64 {
    ((config.seed + index) % 0x1_0000_0000_0000_0000) as u64
}

/// Whether `result` counts one game played with `rules` from the starting state of `seed` for
/// at most `limit` turns, with the candidate in `seat` and players of the policies `seating` in
/// their seats: its turns are those of a game played from there by those players, which ends at
/// the limit or when one player is left; it is decisive when one player is left, and the
/// candidate won when that player is the candidate.
pub open spec fn game_counted<const N: usize, S: PlayerStrategy>(
    result: TournamentResult,
    rules: Ruleset,
    seed: u64,
    limit: int,
    seat: int,
    seating: Seq<DecidingPolicy>,
) -> bool {
    &&& result.game_count == 1
    &&& exists|states: Seq<GameState<N>>|
        #![trigger game_played(states[0], states, rules)]
        {
            let decisive = states.len() > 1 && has_sole_active_player(states.last());
            &&& GameState::<N>::is_starting_state(states[0], rules, seed)
            &&& game_played(states[0], states, rules)
            &&& exists|seats: Seq<Seq<S>>| #[trigger] game_seated(states, seats, rules) && seated_by(seats[0], seating)
            &&& states.len() == result.total_turn_count + 1
            &&& states.len() - 1 == limit || decisive
            &&& result.decisive_game_count == if decisive {
                1u32
            } else {
                0u32
            }
            &&& result.candidate_win_count == if decisive && sole_active_player(states.last(), seat) {
                1u32
            } else {
                0u32
            }
        }
}

/// Whether the players `seats` decide by the policies `seating`, seat by seat.
pub open spec fn seated_by<S: PlayerStrategy>(seats: Seq<S>, seating: Seq<DecidingPolicy>) -> bool {
    &&& seats.len() == seating.len()
    &&& forall|seat: int| 0 <= seat < seats.len() ==> #[trigger] seats[seat].policy_of() == seating[seat]
}

/// The policies in the seats of game `game_index` of a tournament of `candidate` against
/// `opponent_pool` between `player_count` players.
pub open spec fn tournament_seating(
    candidate: ConfigurableStrategy,
    opponent_pool: Seq<ConfigurableStrategy>,
    player_count: int,
    game_index: int,
) -> Seq<DecidingPolicy> {
    Seq::new(
        player_count as nat,
        |seat: int|
            DecidingPolicy::Configurable(seat_strategy(candidate, opponent_pool, player_count, game_index, seat)),
    )
}

/// The candidate's wins in `games`.
pub open spec fn wins_total(games: Seq<TournamentResult>) -> int
    decreases games.len(),
{
    if games.len() == 0 {
        0
    } else {
        wins_total(games.drop_last()) + games.last().candidate_win_count
    }
}

/// The decisive games in `games`.
pub open spec fn decisive_total(games: Seq<TournamentResult>) -> int
    decreases games.len(),
{
    if games.len() == 0 {
        0
    } else {
        decisive_total(games.drop_last()) + games.last().decisive_game_count
    }
}

/// The turns of `games`.
pub open spec fn turns_total(games: Seq<TournamentResult>) -> int
    decreases games.len(),
{
    if games.len() == 0 {
        0
    } else {
        turns_total(games.drop_last()) + games.last().total_turn_count
    }
}

/// Whether `result` adds up the games `games` of a tournament of `config` between `N` players
/// of `candidate` against `opponent_pool`: game `i` was played from the seed of game `i` with
/// the candidate in seat `i % N` and the opponents seated as `tournament_seating` says.
pub open spec fn tournament_counted<const N: usize>(
    result: TournamentResult,
    games: Seq<TournamentResult>,
    rules: Ruleset,
    config: TournamentConfig,
    candidate: ConfigurableStrategy,
    opponent_pool: Seq<ConfigurableStrategy>,
) -> bool {
    &&& games.len() == config.game_count
    &&& forall|index: int|
        0 <= index < games.len() ==> game_counted::<N, ConfigurableStrategy>(
            #[trigger] games[index],
            rules,
            tournament_seed(config, index),
            config.max_turn_count as int,
            index % (N as int),
            tournament_seating(candidate, opponent_pool, N as int, index),
        )
    &&& result.candidate_win_count == wins_total(games)
    &&& result.decisive_game_count == decisive_total(games)
    &&& result.total_turn_count == turns_total(games)
}

impl TournamentResult {
    pub fn empty() -> (result: Self)
        ensures
            result.game_count == 0,
            result.candidate_win_count == 0,
            result.decisive_game_count == 0,
            result.total_turn_count == 0,
    {
        TournamentResult { game_count: 0, candidate_win_count: 0, decisive_game_count: 0, total_turn_count: 0 }
    }

    /// The games of `self` and `other` counted together.
    pub fn combine(self, other: Self) -> (combined: Self)
        requires
            self.game_count + other.game_count <= u32::MAX,
            self.candidate_win_count + other.candidate_win_count <= u32::MAX,
            self.decisive_game_count + other.decisive_game_count <= u32::MAX,
            self.total_turn_count + other.total_turn_count <= u64::MAX,
        ensures
            combined.game_count == self.game_count + other.game_count,
            combined.candidate_win_count == self.candidate_win_count + other.candidate_win_count,
            combined.decisive_game_count == self.decisive_game_count + other.decisive_game_count,
            combined.total_turn_count == self.total_turn_count + other.total_turn_count,
    {
        TournamentResult {
            game_count: self.game_count + other.game_count,
            candidate_win_count: self.candidate_win_count + other.candidate_win_count,
            decisive_game_count: self.decisive_game_count + other.decisive_game_count,
            total_turn_count: self.total_turn_count + other.total_turn_count,
        }
    }
}

/// The strategy in `seat` in game `game_index`: the candidate takes seat `game_index` modulo
/// the player count, and the opponents come round the pool from seat and round number.
pub open spec fn seat_strategy(
    candidate: ConfigurableStrategy,
    opponent_pool: Seq<ConfigurableStrategy>,
    player_count: int,
    game_index: int,
    seat: int,
) -> ConfigurableStrategy {
    if seat == game_index % player_count {
        candidate
    } else {
        opponent_pool[(game_index / player_count + seat) % (opponent_pool.len() as int)]
    }
}

pub fn run_tournament(
    ruleset: &Ruleset,
    candidate: ConfigurableStrategy,
    baseline: ConfigurableStrategy,
    config: &TournamentConfig,
) -> (result: Result<TournamentResult, TournamentError>)
    ensures
        !(MIN_PLAYER_COUNT <= config.player_count <= MAX_PLAYER_COUNT) ==> result == Err::<
            TournamentResult,
            TournamentError,
        >(TournamentError::UnsupportedPlayerCount(config.player_count)),
        MIN_PLAYER_COUNT <= config.player_count <= MAX_PLAYER_COUNT ==> (result matches Ok(result) && counts_games(
            result,
            config.game_count as int,
            config.max_turn_count as int,
        )),
        result matches Ok(result) ==> match config.player_count {
            2 => exists|games: Seq<TournamentResult>| #[trigger] tournament_counted::<2>(result, games, *ruleset, *config, candidate, seq![baseline]),
            3 => exists|games: Seq<TournamentResult>| #[trigger] tournament_counted::<3>(result, games, *ruleset, *config, candidate, seq![baseline]),
            4 => exists|games: Seq<TournamentResult>| #[trigger] tournament_counted::<4>(result, games, *ruleset, *config, candidate, seq![baseline]),
            5 => exists|games: Seq<TournamentResult>| #[trigger] tournament_counted::<5>(result, games, *ruleset, *config, candidate, seq![baseline]),
            6 => exists|games: Seq<TournamentResult>| #[trigger] tournament_counted::<6>(result, games, *ruleset, *config, candidate, seq![baseline]),
            7 => exists|games: Seq<TournamentResult>| #[trigger] tournament_counted::<7>(result, games, *ruleset, *config, candidate, seq![baseline]),
            _ => exists|games: Seq<TournamentResult>| #[trigger] tournament_counted::<8>(result, games, *ruleset, *config, candidate, seq![baseline]),
        },
{
    let pool = [baseline];
    assert(pool@ =~= seq![baseline]);
    run_pool_tournament(ruleset, candidate, pool.as_slice(), config)
}

/// Plays `config.game_count` games in which the candidate plays against strategies of the pool.
pub fn run_pool_tournament(
    ruleset: &Ruleset,
    candidate: ConfigurableStrategy,
    opponent_pool: &[ConfigurableStrategy],
    config: &TournamentConfig,
) -> (result: Result<TournamentResult, TournamentError>)
    ensures
        opponent_pool@.len() == 0 ==> result == Err::<TournamentResult, TournamentError>(
            TournamentError::EmptyOpponentPool,
        ),
        opponent_pool@.len() > 0 && !(MIN_PLAYER_COUNT <= config.player_count <= MAX_PLAYER_COUNT) ==> result == Err::<
            TournamentResult,
            TournamentError,
        >(TournamentError::UnsupportedPlayerCount(config.player_count)),
        opponent_pool@.len() > 0 && MIN_PLAYER_COUNT <= config.player_count <= MAX_PLAYER_COUNT ==> (result matches Ok(
            result,
        ) && counts_games(result, config.game_count as int, config.max_turn_count as int)),
        result matches Ok(result) ==> match config.player_count {
            2 => exists|games: Seq<TournamentResult>| #[trigger] tournament_counted::<2>(result, games, *ruleset, *config, candidate, opponent_pool@),
            3 => exists|games: Seq<TournamentResult>| #[trigger] tournament_counted::<3>(result, games, *ruleset, *config, candidate, opponent_pool@),
            4 => exists|games: Seq<TournamentResult>| #[trigger] tournament_counted::<4>(result, games, *ruleset, *config, candidate, opponent_pool@),
            5 => exists|games: Seq<TournamentResult>| #[trigger] tournament_counted::<5>(result, games, *ruleset, *config, candidate, opponent_pool@),
            6 => exists|games: Seq<TournamentResult>| #[trigger] tournament_counted::<6>(result, games, *ruleset, *config, candidate, opponent_pool@),
            7 => exists|games: Seq<TournamentResult>| #[trigger] tournament_counted::<7>(result, games, *ruleset, *config, candidate, opponent_pool@),
            _ => exists|games: Seq<TournamentResult>| #[trigger] tournament_counted::<8>(result, games, *ruleset, *config, candidate, opponent_pool@),
        },
{
    if opponent_pool.len() == 0 {
        return Err(TournamentError::EmptyOpponentPool);
    }
    match config.player_count {
        2 => Ok(play_tournament::<2>(ruleset, candidate, opponent_pool, config)),
        3 => Ok(play_tournament::<3>(ruleset, candidate, opponent_pool, config)),
        4 => Ok(play_tournament::<4>(ruleset, candidate, opponent_pool, config)),
        5 => Ok(play_tournament::<5>(ruleset, candidate, opponent_pool, config)),
        6 => Ok(play_tournament::<6>(ruleset, candidate, opponent_pool, config)),
        7 => Ok(play_tournament::<7>(ruleset, candidate, opponent_pool, config)),
        8 => Ok(play_tournament::<8>(ruleset, candidate, opponent_pool, config)),
        _ => Err(TournamentError::UnsupportedPlayerCount(config.player_count)),
    }
}

/// The strategies of game `game_index`, seat by seat.
fn seat_strategies<const N: usize>(
    candidate: ConfigurableStrategy,
    opponent_pool: &[ConfigurableStrategy],
    game_index: u32,
) -> (strategies: [ConfigurableStrategy; N])
    requires
        MIN_PLAYER_COUNT <= N <= MAX_PLAYER_COUNT,
        opponent_pool@.len() > 0,
    ensures
        forall|seat: int|
            0 <= seat < N ==> #[trigger] strategies@[seat] == seat_strategy(
                candidate,
                opponent_pool@,
                N as int,
                game_index as int,
                seat,
            ),
{
    let mut strategies: [ConfigurableStrategy; N] = vstd::array::array_fill_for_copy_types(candidate);
    let candidate_seat = game_index as usize % N;
    let round = game_index as usize / N;
    assert(round * 2 <= game_index) by (nonlinear_arith)
        requires
            round == game_index as int / N as int,
            N >= 2,
    ;
    let mut seat: usize = 0;
    while seat < N
        invariant
            MIN_PLAYER_COUNT <= N <= MAX_PLAYER_COUNT,
            opponent_pool@.len() > 0,
            seat <= N,
            candidate_seat == game_index as int % N as int,
            round == game_index as int / N as int,
            round * 2 <= game_index,
            forall|earlier: int|
                0 <= earlier < seat ==> #[trigger] strategies@[earlier] == seat_strategy(
                    candidate,
                    opponent_pool@,
                    N as int,
                    game_index as int,
                    earlier,
                ),
        decreases N - seat,
    {
        if seat != candidate_seat {
            strategies[seat] = opponent_pool[(round + seat) % opponent_pool.len()];
        } else {
            strategies[seat] = candidate;
        }
        seat = seat + 1;
    }
    strategies
}

/// Plays game `game_index` of a tournament: from the seed `config.seed + game_index`
/// (wrapping), with the seats of `seat_strategy`.
pub fn play_tournament_game<const N: usize>(
    ruleset: &Ruleset,
    candidate: ConfigurableStrategy,
    opponent_pool: &[ConfigurableStrategy],
    config: &TournamentConfig,
    game_index: u32,
) -> (result: TournamentResult)
    requires
        MIN_PLAYER_COUNT <= N <= MAX_PLAYER_COUNT,
        opponent_pool@.len() > 0,
    ensures
        counts_games(result, 1, config.max_turn_count as int),
        game_counted::<N, ConfigurableStrategy>(
            result,
            *ruleset,
            tournament_seed(*config, game_index as int),
            config.max_turn_count as int,
            game_index as int % (N as int),
            tournament_seating(candidate, opponent_pool@, N as int, game_index as int),
        ),
{
    let candidate_seat = game_index as usize % N;
    let mut strategies = seat_strategies::<N>(candidate, opponent_pool, game_index);
    let ghost seated = strategies@;
    let mut state = GameState::<N>::create_starting_state(ruleset, config.seed.wrapping_add(game_index as u64));
    let ghost start = state;
    let summary = play_game(&mut state, ruleset, &mut strategies, config.max_turn_count);
    proof {
        assert(config.seed.wrapping_add(game_index as u64) == tournament_seed(*config, game_index as int));
        let states = choose|states: Seq<GameState<N>>|
            #![trigger game_played(start, states, *ruleset)]
            {
                &&& game_played(start, states, *ruleset)
                &&& states.len() == summary.turn_count + 1
                &&& states.last() == state
                &&& summary.outcome is TurnLimitReached ==> forall|index: int|
                    0 < index < states.len() ==> !has_sole_active_player(#[trigger] states[index])
                &&& exists|seats: Seq<Seq<ConfigurableStrategy>>|
                    #[trigger] game_seated(states, seats, *ruleset) && seats[0] == seated && seats.last() == strategies@
            };
        assert(game_played(states[0], states, *ruleset));
        let seats = choose|seats: Seq<Seq<ConfigurableStrategy>>|
            #[trigger] game_seated(states, seats, *ruleset) && seats[0] == seated && seats.last() == strategies@;
        let seating = tournament_seating(candidate, opponent_pool@, N as int, game_index as int);
        assert forall|seat: int| 0 <= seat < seats[0].len() implies #[trigger] seats[0][seat].policy_of()
            == seating[seat] by {
            assert(seated[seat] == seat_strategy(candidate, opponent_pool@, N as int, game_index as int, seat));
        }
        assert(seated_by(seats[0], seating));
        if let GameOutcome::Winner(winner) = summary.outcome {
            assert(has_sole_active_player(states.last()));
            assert forall|seat: int| sole_active_player(states.last(), seat) implies seat == winner by {
                if seat != winner {
                    assert(states.last().is_bankrupt(seat));
                }
            }
        } else {
            assert(states.len() > 1 ==> !has_sole_active_player(states[states.len() - 1]));
        }
    }
    let (candidate_win_count, decisive_game_count) = match summary.outcome {
        GameOutcome::Winner(player) => (
            if player as usize == candidate_seat {
                1
            } else {
                0
            },
            1,
        ),
        GameOutcome::TurnLimitReached => (0, 0),
    };
    TournamentResult {
        game_count: 1,
        candidate_win_count,
        decisive_game_count,
        total_turn_count: summary.turn_count as u64,
    }
}

fn play_tournament<const N: usize>(
    ruleset: &Ruleset,
    candidate: ConfigurableStrategy,
    opponent_pool: &[ConfigurableStrategy],
    config: &TournamentConfig,
) -> (result: TournamentResult)
    requires
        MIN_PLAYER_COUNT <= N <= MAX_PLAYER_COUNT,
        opponent_pool@.len() > 0,
    ensures
        counts_games(result, config.game_count as int, config.max_turn_count as int),
        exists|games: Seq<TournamentResult>| #[trigger] tournament_counted::<N>(result, games, *ruleset, *config, candidate, opponent_pool@),
{
    let mut result = TournamentResult::empty();
    let mut game_index: u32 = 0;
    let ghost mut games: Seq<TournamentResult> = Seq::empty();
    while game_index < config.game_count
        invariant
            MIN_PLAYER_COUNT <= N <= MAX_PLAYER_COUNT,
            opponent_pool@.len() > 0,
            game_index <= config.game_count,
            counts_games(result, game_index as int, config.max_turn_count as int),
            games.len() == game_index,
            forall|index: int|
                0 <= index < games.len() ==> game_counted::<N, ConfigurableStrategy>(
                    #[trigger] games[index],
                    *ruleset,
                    tournament_seed(*config, index),
                    config.max_turn_count as int,
                    index % (N as int),
                    tournament_seating(candidate, opponent_pool@, N as int, index),
                ),
            result.candidate_win_count == wins_total(games),
            result.decisive_game_count == decisive_total(games),
            result.total_turn_count == turns_total(games),
        decreases config.game_count - game_index,
    {
        let game = play_tournament_game::<N>(ruleset, candidate, opponent_pool, config, game_index);
        proof {
            let previous = games;
            games = games.push(game);
            assert(games.drop_last() == previous);
        }
        assert((game_index + 1) as int * config.max_turn_count as int == game_index as int * config.max_turn_count as int
            + config.max_turn_count as int) by (nonlinear_arith);
        assert(game_index as int * config.max_turn_count as int + config.max_turn_count as int <= u32::MAX as int
            * u32::MAX as int) by (nonlinear_arith)
            requires
                game_index < u32::MAX,
                config.max_turn_count <= u32::MAX,
        ;
        result = result.combine(game);
        game_index = game_index + 1;
    }
    assert(tournament_counted::<N>(result, games, *ruleset, *config, candidate, opponent_pool@));
    result
}

} // verus!
