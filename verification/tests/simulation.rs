use monopolez::game::engine::turn::{GameOutcome, play_game};
use monopolez::game::ruleset::model::Ruleset;
use monopolez::game::state::model::GameState;
use monopolez::game::strategy::any::AnyStrategy;
use monopolez::game::strategy::cautious::CautiousStrategy;
use monopolez::game::strategy::configurable::ConfigurableStrategy;
use monopolez::game::strategy::greedy::GreedyStrategy;
use monopolez::game::strategy::rollout_player::RolloutStats;
use monopolez::simulation::model::{RulesetKind, SimulationConfig, SimulationSummary, StrategyKind};
use monopolez::simulation::runner::{SimulationError, run_simulation};
use monopolez::simulation::tuner::{StrategyParameter, TUNED_STRATEGY_PARAMETERS};

fn create_config(game_count: u32) -> SimulationConfig {
    SimulationConfig {
        game_count,
        max_turn_count: 2_000,
        seed: 7,
        cash_reserve: 100,
        strategy_kinds: vec![StrategyKind::Greedy],
    }
}

fn average_turn_count(summary: &SimulationSummary) -> f64 {
    if summary.game_count == 0 {
        return 0.0;
    }
    summary.total_turn_count as f64 / summary.game_count as f64
}

fn decisive_game_ratio(summary: &SimulationSummary) -> f64 {
    if summary.game_count == 0 {
        return 0.0;
    }
    (summary.game_count - summary.turn_limit_reached_count) as f64 / summary.game_count as f64
}

#[test]
fn summarizes_every_simulated_game() {
    let summary = run_simulation(&Ruleset::default(), &create_config(25), 4).expect("4 players should be supported");
    let total_win_count: u32 = summary.win_count_by_player_id.iter().sum();

    assert_eq!(summary.game_count, 25);
    assert_eq!(total_win_count + summary.turn_limit_reached_count, 25);
    assert!(average_turn_count(&summary) > 0.0);
}

#[test]
fn counts_decisive_games_and_turns() {
    let summary = run_simulation(&Ruleset::default(), &create_config(10), 2).expect("2 players should be supported");
    let ratio = decisive_game_ratio(&summary);
    assert!((0.0..=1.0).contains(&ratio));
    assert!(summary.total_turn_count <= 10 * 2_000);
    assert_eq!(summary.win_count_by_player_id.len(), 2);
}

#[test]
fn assigns_strategies_in_order_across_players() {
    let mut config = create_config(20);
    config.strategy_kinds = vec![StrategyKind::Greedy, StrategyKind::Cautious];

    let summary = run_simulation(&Ruleset::default(), &config, 4).expect("4 players should be supported");

    assert_eq!(summary.game_count, 20);
}

#[test]
fn rejects_empty_strategy_lists() {
    let mut config = create_config(1);
    config.strategy_kinds.clear();

    assert!(run_simulation(&Ruleset::default(), &config, 4).is_err());
    assert_eq!(run_simulation(&Ruleset::default(), &config, 4), Err(SimulationError::MissingStrategies));
}

#[test]
fn rejects_unsupported_player_counts() {
    assert!(run_simulation(&Ruleset::default(), &create_config(1), 9).is_err());
    assert_eq!(
        run_simulation(&Ruleset::default(), &create_config(1), 1),
        Err(SimulationError::UnsupportedPlayerCount(1))
    );
}

#[test]
fn summary_starts_empty_with_at_most_eight_win_counts() {
    let summary = SimulationSummary::new(3);
    assert_eq!(summary.win_count_by_player_id, vec![0, 0, 0]);
    assert_eq!(SimulationSummary::new(12).win_count_by_player_id.len(), 8);
    assert_eq!(summary.game_count, 0);
}

#[test]
fn kinds_name_rulesets_and_strategies() {
    assert_eq!(RulesetKind::Official.to_ruleset(), Ruleset::default());
    assert_eq!(RulesetKind::Dex.to_ruleset().starting_player_money, 1800);
    assert_eq!(StrategyKind::Greedy.create_strategy(40), AnyStrategy::Greedy(GreedyStrategy { cash_reserve: 40 }));
    assert_eq!(StrategyKind::Cautious.create_strategy(40), AnyStrategy::Cautious(CautiousStrategy { cash_reserve: 40 }));
}

#[test]
fn tuning_parameters_set_one_field() {
    let strategy = ConfigurableStrategy::new();
    assert_eq!(StrategyParameter::CashReserve.apply(strategy, 300).cash_reserve, 300);
    assert_eq!(StrategyParameter::CashReserve.apply(strategy, 300).trade_offer_percent, strategy.trade_offer_percent);
    assert!(StrategyParameter::PaysBailWhenAffordable.apply(strategy, 1).pays_bail_when_affordable);
    assert_eq!(StrategyParameter::TradeOfferPercent.name(), "trade_offer_percent");
    assert_eq!(StrategyParameter::PaysBailWhenAffordable.candidate_values(), vec![0, 1]);
    assert_eq!(TUNED_STRATEGY_PARAMETERS.len(), 8);
}

#[test]
fn rollout_stats_add_up() {
    let first = RolloutStats { decisions: 3, changed_decisions: 1, simulated_games: 10, unfinished_games: 2, failures: 0 };
    let second = RolloutStats { decisions: 4, changed_decisions: 2, simulated_games: 5, unfinished_games: 1, failures: 1 };
    assert_eq!(
        first.combine(second),
        RolloutStats { decisions: 7, changed_decisions: 3, simulated_games: 15, unfinished_games: 3, failures: 1 }
    );
    assert_eq!(RolloutStats::default().combine(first), first);
}

#[test]
fn simulation_totals_are_the_games_played_one_by_one() {
    let rules = Ruleset::default();
    let config = create_config(6);
    let summary = run_simulation(&rules, &config, 3).expect("3 players should be supported");
    let mut total_turn_count: u64 = 0;
    let mut win_count_by_player_id = vec![0u32; 3];
    let mut turn_limit_reached_count = 0u32;
    for game_index in 0..config.game_count {
        let mut state = GameState::<3>::create_starting_state(&rules, config.seed.wrapping_add(game_index as u64));
        let mut strategies = [AnyStrategy::Greedy(GreedyStrategy { cash_reserve: config.cash_reserve }); 3];
        let game = play_game(&mut state, &rules, &mut strategies, config.max_turn_count);
        total_turn_count += game.turn_count as u64;
        match game.outcome {
            GameOutcome::Winner(player) => win_count_by_player_id[player as usize] += 1,
            GameOutcome::TurnLimitReached => turn_limit_reached_count += 1,
        }
    }
    assert_eq!(summary.total_turn_count, total_turn_count);
    assert_eq!(summary.win_count_by_player_id, win_count_by_player_id);
    assert_eq!(summary.turn_limit_reached_count, turn_limit_reached_count);
}
