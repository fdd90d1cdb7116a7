use monopolez::game::ruleset::data::dex_ruleset;
use monopolez::game::ruleset::model::Ruleset;
use monopolez::game::strategy::configurable::ConfigurableStrategy;
use monopolez::game::strategy::data::dex_optimal_strategy;
use monopolez::simulation::analysis::{AnalysisError, MonopolyReport, analyze_monopolies};
use monopolez::simulation::tournament::{
    TournamentConfig,
    TournamentError,
    TournamentResult,
    run_pool_tournament,
    run_tournament,
};

fn create_config(game_count: u32) -> TournamentConfig {
    TournamentConfig { game_count, max_turn_count: 2_000, seed: 11, player_count: 4 }
}

fn candidate_win_rate(result: &TournamentResult) -> f64 {
    if result.game_count == 0 {
        return 0.0;
    }
    result.candidate_win_count as f64 / result.game_count as f64
}

#[test]
fn counts_every_game_once() {
    let strategy = ConfigurableStrategy::new();
    let result = run_tournament(&dex_ruleset(), strategy, strategy, &create_config(64)).expect("4 players should be supported");

    assert_eq!(result.game_count, 64);
    assert!(result.candidate_win_count <= result.decisive_game_count);
}

#[test]
fn gives_identical_strategies_a_fair_share_of_wins() {
    let strategy = ConfigurableStrategy::new();
    let result = run_tournament(&dex_ruleset(), strategy, strategy, &create_config(400)).expect("4 players should be supported");
    let win_rate = candidate_win_rate(&result);

    assert!(win_rate > 0.15 && win_rate < 0.35, "mirror matches should land near 25%, got {win_rate}");
}

#[test]
fn tournaments_reject_empty_pools_and_unsupported_player_counts() {
    let strategy = ConfigurableStrategy::new();
    assert_eq!(
        run_pool_tournament(&dex_ruleset(), strategy, &[], &create_config(1)),
        Err(TournamentError::EmptyOpponentPool)
    );
    let config = TournamentConfig { player_count: 9, ..create_config(1) };
    assert_eq!(run_tournament(&dex_ruleset(), strategy, strategy, &config), Err(TournamentError::UnsupportedPlayerCount(9)));
}

#[test]
fn tournament_results_add_up() {
    let first = TournamentResult { game_count: 10, candidate_win_count: 2, decisive_game_count: 4, total_turn_count: 100 };
    let combined = first.combine(first);
    assert_eq!(combined, TournamentResult { game_count: 20, candidate_win_count: 4, decisive_game_count: 8, total_turn_count: 200 });
    assert_eq!(TournamentResult::empty().combine(first), first);
}

#[test]
fn counts_each_game_and_player_once() {
    let config = TournamentConfig { game_count: 500, max_turn_count: 3_000, seed: 3, player_count: 4 };

    let report = analyze_monopolies(&dex_ruleset(), dex_optimal_strategy(), &config).expect("4 players should be supported");
    let bucketed_player_count: u32 = report.monopoly_count_entries.iter().map(|entry| entry.player_count).sum();

    assert_eq!(report.game_count, 500);
    assert_eq!(bucketed_player_count, report.snapshot_game_count * 4);
    assert!(report.group_entries.iter().all(|entry| entry.first_completion_count <= report.game_count));
}

#[test]
fn short_runs_do_not_fabricate_snapshots() {
    let config = TournamentConfig { game_count: 20, max_turn_count: 99, seed: 3, player_count: 4 };
    let report = analyze_monopolies(&dex_ruleset(), dex_optimal_strategy(), &config).unwrap();
    assert_eq!(report.snapshot_game_count, 0);
    assert!(report.monopoly_count_entries.iter().all(|entry| entry.player_count == 0));
    assert!(report.sole_monopoly_entries.iter().all(|entry| entry.player_count == 0));
    assert!(report.sole_monopoly_development_entries.iter().all(|entry| entry.player_count == 0));
}

#[test]
fn games_ending_before_snapshot_are_excluded() {
    let ruleset = Ruleset::builder().with_starting_player_money(0).with_go_passing_salary(0).with_go_landing_salary(0).build();
    let config = TournamentConfig { game_count: 50, max_turn_count: 100, seed: 0, player_count: 2 };
    let report = analyze_monopolies(&ruleset, ConfigurableStrategy::new(), &config).unwrap();
    assert!(report.decisive_game_count > 0);
    assert!(report.snapshot_game_count < report.game_count);
    assert_eq!(report.monopoly_count_entries.iter().map(|entry| entry.player_count).sum::<u32>(), report.snapshot_game_count * 2);
}

#[test]
fn analysis_rejects_empty_runs_and_unsupported_player_counts() {
    let strategy = ConfigurableStrategy::new();
    let empty = TournamentConfig { game_count: 0, max_turn_count: 10, seed: 0, player_count: 2 };
    assert_eq!(analyze_monopolies(&dex_ruleset(), strategy, &empty), Err(AnalysisError::EmptyRun));
    let wide = TournamentConfig { game_count: 1, max_turn_count: 10, seed: 0, player_count: 1 };
    assert_eq!(analyze_monopolies(&dex_ruleset(), strategy, &wide), Err(AnalysisError::UnsupportedPlayerCount(1)));
    let report = MonopolyReport::empty();
    assert_eq!(report.combine(report), report);
}
