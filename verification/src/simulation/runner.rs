use vstd::prelude::*;

use super::model::{
    SimulationConfig,
    SimulationSummary,
    count_sum,
    lemma_count_sum_increment,
    lemma_count_sum_nonnegative,
};
use crate::game::board::data::{
    MAX_PLAYER_COUNT,
    MIN_PLAYER_COUNT,
};
use crate::game::board::model::PlayerId;
use crate::game::engine::turn::{
    GameOutcome,
    GameSummary,
    game_played,
    game_seated,
    play_game,
    sole_active_player,
};
use crate::game::ruleset::model::Ruleset;
use crate::game::state::model::GameState;
use crate::game::strategy::any::AnyStrategy;
use crate::game::strategy::greedy::GreedyStrategy;

verus! {

#[derive(Debug, Clone, Copy, PartialEq, Eq, Hash, Structural)]
pub enum SimulationError {
    /// The configuration names no strategy to play.
    MissingStrategies,
    /// The player count lies outside the supported range of two to eight.
    UnsupportedPlayerCount(usize),
}

/// Whether `game` sums up a game played with `rules` from the starting state of `seed`, for at
/// most `limit` turns, by the players `seating`: its turn count is that of a game played from
/// there by those players, which a sole player left won or which reached the limit.
pub open spec fn game_summarized<const N: usize>(
    game: GameSummary,
    rules: Ruleset,
    seed: u64,
    limit: int,
    seating: Seq<AnyStrategy>,
) -> bool {
    exists|states: Seq<GameState<N>>|
        #![trigger game_played(states[0], states, rules)]
        {
            &&& GameState::<N>::is_starting_state(states[0], rules, seed)
            &&& game_played(states[0], states, rules)
            &&& exists|seats: Seq<Seq<AnyStrategy>>| #[trigger] game_seated(states, seats, rules) && seats[0] == seating
            &&& states.len() == game.turn_count + 1
            &&& match game.outcome {
                GameOutcome::Winner(winner) => sole_active_player(states.last(), winner as int),
                GameOutcome::TurnLimitReached => game.turn_count == limit,
            }
        }
}

/// The players of every game of a simulation of `config` between `player_count` players: player
/// `p` plays the kind at `p` modulo the length of the list.
pub open spec fn simulation_seating(config: SimulationConfig, player_count: int) -> Seq<AnyStrategy> {
    Seq::new(
        player_count as nat,
        |player: int|
            config.strategy_kinds@[player % config.strategy_kinds@.len() as int].strategy_spec(config.cash_reserve),
    )
}

/// The turns of `games` added up.
pub open spec fn turn_total(games: Seq<GameSummary>) -> int
    decreases games.len(),
{
    if games.len() == 0 {
        0
    } else {
        turn_total(games.drop_last()) + games.last().turn_count
    }
}

/// The games of `games` that `player` won.
pub open spec fn win_total(games: Seq<GameSummary>, player: int) -> int
    decreases games.len(),
{
    if games.len() == 0 {
        0
    } else {
        win_total(games.drop_last(), player) + if games.last().outcome == GameOutcome::Winner(player as PlayerId) {
            1int
        } else {
            0int
        }
    }
}

/// The games of `games` that reached the turn limit.
pub open spec fn limit_total(games: Seq<GameSummary>) -> int
    decreases games.len(),
{
    if games.len() == 0 {
        0
    } else {
        limit_total(games.drop_last()) + if games.last().outcome == GameOutcome::TurnLimitReached {
            1int
        } else {
            0int
        }
    }
}

/// The seed of game `index` of `config`.
pub open spec fn game_seed(config: SimulationConfig, index: int) -> u64 {
    ((config.seed + index) % 0x1_0000_0000_0000_0000) as u64
}

/// Whether `summary` adds up the games `games` of `config` between `N` players: game `i` was
/// played from the seed of game `i` by the players `simulation_seating` gives, and the summary counts each player's wins, the games that
/// reached the limit and the turns of all games.
pub open spec fn summarizes_games<const N: usize>(
    summary: SimulationSummary,
    games: Seq<GameSummary>,
    rules: Ruleset,
    config: SimulationConfig,
) -> bool {
    &&& games.len() == config.game_count
    &&& forall|index: int|
        0 <= index < games.len() ==> game_summarized::<N>(
            #[trigger] games[index],
            rules,
            game_seed(config, index),
            config.max_turn_count as int,
            simulation_seating(config, N as int),
        )
    &&& summary.total_turn_count == turn_total(games)
    &&& summary.turn_limit_reached_count == limit_total(games)
    &&& forall|player: int| 0 <= player < N ==> #[trigger] summary.win_count_by_player_id@[player] == win_total(games, player)
}

/// Whether `summary` accounts for every game of `config` played by `player_count` players:
/// one win count per player, and each game counted once, as a win or as reaching the turn
/// limit, with its turns added to the total.
pub open spec fn summarizes_every_game(summary: SimulationSummary, config: SimulationConfig, player_count: int) -> bool {
    &&& summary.game_count == config.game_count
    &&& summary.win_count_by_player_id@.len() == player_count
    &&& count_sum(summary.win_count_by_player_id@) + summary.turn_limit_reached_count == config.game_count
    &&& summary.total_turn_count <= config.game_count as int * config.max_turn_count as int
}

/// Plays `config.game_count` games between `player_count` players. Game `i` starts from the
/// seed `config.seed + i` (wrapping), and player `p` plays the strategy at `p` modulo the
/// length of the list.
pub fn run_simulation(ruleset: &Ruleset, config: &SimulationConfig, player_count: usize) -> (result: Result<
    SimulationSummary,
    SimulationError,
>)
    ensures
        config.strategy_kinds@.len() == 0 ==> result == Err::<SimulationSummary, SimulationError>(
            SimulationError::MissingStrategies,
        ),
        config.strategy_kinds@.len() > 0 && !(MIN_PLAYER_COUNT <= player_count <= MAX_PLAYER_COUNT) ==> result == Err::<
            SimulationSummary,
            SimulationError,
        >(SimulationError::UnsupportedPlayerCount(player_count)),
        config.strategy_kinds@.len() > 0 && MIN_PLAYER_COUNT <= player_count <= MAX_PLAYER_COUNT ==> (result matches Ok(
            summary,
        ) && summarizes_every_game(summary, *config, player_count as int)),
        result matches Ok(summary) ==> match player_count {
            2 => exists|games: Seq<GameSummary>| #[trigger] summarizes_games::<2>(summary, games, *ruleset, *config),
            3 => exists|games: Seq<GameSummary>| #[trigger] summarizes_games::<3>(summary, games, *ruleset, *config),
            4 => exists|games: Seq<GameSummary>| #[trigger] summarizes_games::<4>(summary, games, *ruleset, *config),
            5 => exists|games: Seq<GameSummary>| #[trigger] summarizes_games::<5>(summary, games, *ruleset, *config),
            6 => exists|games: Seq<GameSummary>| #[trigger] summarizes_games::<6>(summary, games, *ruleset, *config),
            7 => exists|games: Seq<GameSummary>| #[trigger] summarizes_games::<7>(summary, games, *ruleset, *config),
            _ => exists|games: Seq<GameSummary>| #[trigger] summarizes_games::<8>(summary, games, *ruleset, *config),
        },
{
    if config.strategy_kinds.len() == 0 {
        return Err(SimulationError::MissingStrategies);
    }
    match player_count {
        2 => Ok(simulate_games::<2>(ruleset, config)),
        3 => Ok(simulate_games::<3>(ruleset, config)),
        4 => Ok(simulate_games::<4>(ruleset, config)),
        5 => Ok(simulate_games::<5>(ruleset, config)),
        6 => Ok(simulate_games::<6>(ruleset, config)),
        7 => Ok(simulate_games::<7>(ruleset, config)),
        8 => Ok(simulate_games::<8>(ruleset, config)),
        _ => Err(SimulationError::UnsupportedPlayerCount(player_count)),
    }
}

/// The strategies of one game: player `p` plays the kind at `p` modulo the length of the list.
fn create_strategies<const N: usize>(config: &SimulationConfig) -> (strategies: [AnyStrategy; N])
    requires
        config.strategy_kinds@.len() > 0,
    ensures
        forall|player: int|
            0 <= player < N ==> #[trigger] strategies@[player] == config.strategy_kinds@[player
                % config.strategy_kinds@.len() as int].strategy_spec(config.cash_reserve),
{
    let mut strategies: [AnyStrategy; N] = vstd::array::array_fill_for_copy_types(
        AnyStrategy::Greedy(GreedyStrategy { cash_reserve: config.cash_reserve }),
    );
    let mut player: usize = 0;
    while player < N
        invariant
            player <= N,
            config.strategy_kinds@.len() > 0,
            forall|earlier: int|
                0 <= earlier < player ==> #[trigger] strategies@[earlier] == config.strategy_kinds@[earlier
                    % config.strategy_kinds@.len() as int].strategy_spec(config.cash_reserve),
        decreases N - player,
    {
        let kind = config.strategy_kinds[player % config.strategy_kinds.len()];
        strategies[player] = kind.create_strategy(config.cash_reserve);
        player = player + 1;
    }
    strategies
}

fn simulate_games<const N: usize>(ruleset: &Ruleset, config: &SimulationConfig) -> (summary: SimulationSummary)
    requires
        MIN_PLAYER_COUNT <= N <= MAX_PLAYER_COUNT,
        config.strategy_kinds@.len() > 0,
    ensures
        summarizes_every_game(summary, *config, N as int),
        exists|games: Seq<GameSummary>| #[trigger] summarizes_games::<N>(summary, games, *ruleset, *config),
{
    let mut summary = SimulationSummary::new(N);
    let mut game_index: u32 = 0;
    let ghost mut games: Seq<GameSummary> = Seq::empty();
    while game_index < config.game_count
        invariant
            MIN_PLAYER_COUNT <= N <= MAX_PLAYER_COUNT,
            config.strategy_kinds@.len() > 0,
            game_index <= config.game_count,
            summary.game_count == game_index,
            summary.win_count_by_player_id@.len() == N,
            count_sum(summary.win_count_by_player_id@) + summary.turn_limit_reached_count == game_index,
            forall|player: int|
                0 <= player < N ==> #[trigger] summary.win_count_by_player_id@[player] <= game_index,
            summary.total_turn_count <= game_index as int * config.max_turn_count as int,
            games.len() == game_index,
            forall|index: int|
                0 <= index < games.len() ==> game_summarized::<N>(
                    #[trigger] games[index],
                    *ruleset,
                    game_seed(*config, index),
                    config.max_turn_count as int,
                    simulation_seating(*config, N as int),
                ),
            summary.total_turn_count == turn_total(games),
            summary.turn_limit_reached_count == limit_total(games),
            forall|player: int| 0 <= player < N ==> #[trigger] summary.win_count_by_player_id@[player] == win_total(games, player),
        decreases config.game_count - game_index,
    {
        proof {
            lemma_count_sum_nonnegative(summary.win_count_by_player_id@);
        }
        let mut game_state = GameState::<N>::create_starting_state(ruleset, config.seed.wrapping_add(game_index as u64));
        let mut strategies = create_strategies::<N>(config);
        assert(strategies@ =~= simulation_seating(*config, N as int));
        let ghost seated = strategies@;
        let ghost start = game_state;
        let game_summary = play_game(&mut game_state, ruleset, &mut strategies, config.max_turn_count);
        proof {
            assert(config.seed.wrapping_add(game_index as u64) == game_seed(*config, game_index as int));
            let witness = choose|states: Seq<GameState<N>>|
                #![trigger game_played(start, states, *ruleset)]
                {
                    &&& game_played(start, states, *ruleset)
                    &&& states.len() == game_summary.turn_count + 1
                    &&& states.last() == game_state
                    &&& exists|seats: Seq<Seq<AnyStrategy>>|
                        #[trigger] game_seated(states, seats, *ruleset) && seats[0] == seated && seats.last()
                            == strategies@
                };
            assert(game_played(witness[0], witness, *ruleset));
            assert(game_summarized::<N>(
                game_summary,
                *ruleset,
                game_seed(*config, game_index as int),
                config.max_turn_count as int,
                simulation_seating(*config, N as int),
            ));
            let previous = games;
            games = games.push(game_summary);
            assert(games.drop_last() == previous);
        }

        assert((game_index + 1) as int * config.max_turn_count as int == game_index as int * config.max_turn_count as int
            + config.max_turn_count as int) by (nonlinear_arith);
        assert(game_index as int * config.max_turn_count as int + config.max_turn_count as int <= u32::MAX as int
            * u32::MAX as int) by (nonlinear_arith)
            requires
                game_index < u32::MAX,
                config.max_turn_count <= u32::MAX,
        ;
        summary.game_count = summary.game_count + 1;
        summary.total_turn_count = summary.total_turn_count + game_summary.turn_count as u64;
        match game_summary.outcome {
            GameOutcome::Winner(player_id) => {
                let player = player_id as usize;
                let ghost before = summary.win_count_by_player_id@;
                proof {
                    lemma_count_sum_increment(before, player as int);
                }
                summary.win_count_by_player_id.set(player, summary.win_count_by_player_id[player] + 1);
                assert(summary.win_count_by_player_id@ == before.update(player as int, (before[player as int] + 1) as u32));
            },
            GameOutcome::TurnLimitReached => {
                summary.turn_limit_reached_count = summary.turn_limit_reached_count + 1;
            },
        }
        game_index = game_index + 1;
    }
    assert(summarizes_games::<N>(summary, games, *ruleset, *config));
    summary
}

} // verus!
