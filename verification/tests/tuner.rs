use monopolez::game::ruleset::data::dex_ruleset;
use monopolez::game::strategy::configurable::ConfigurableStrategy;
use monopolez::game::strategy::data::{baseline_strategy, dex_optimal_strategy, never_trading_strategy};
use monopolez::simulation::tournament::{TournamentConfig, TournamentError, TournamentResult, run_pool_tournament};
use monopolez::simulation::tuner::{
    StrategyParameter, TUNED_STRATEGY_PARAMETERS, TuningError, improves_on, run_league, sweep_parameters,
    tune_strategy, tune_strategy_over_generations,
};

#[test]
fn validation_uses_disjoint_seeds_and_the_same_pool_for_both_strategies() {
    let rules = dex_ruleset();
    let config = TournamentConfig {
        game_count: 8,
        max_turn_count: 100,
        seed: u64::MAX - 3,
        player_count: 4,
    };
    let session = tune_strategy_over_generations(&rules, &config, 1, 1, &[baseline_strategy()]).unwrap();
    let validation = &session.validation;
    let training_seeds: Vec<_> = (0..config.game_count).map(|i| config.seed.wrapping_add(i as u64)).collect();
    assert!((0..validation.config.game_count).all(|i| !training_seeds.contains(&validation.config.seed.wrapping_add(i as u64))));
    assert_eq!(validation.opponent_pool, vec![baseline_strategy()]);
    assert_eq!(validation.champion_strategy, session.champion());
    assert_eq!(
        validation.champion,
        run_pool_tournament(&rules, session.champion(), &validation.opponent_pool, &validation.config).unwrap()
    );
    assert_eq!(
        validation.baseline,
        run_pool_tournament(&rules, baseline_strategy(), &validation.opponent_pool, &validation.config).unwrap()
    );
}

#[test]
fn rejects_empty_tuning_sessions() {
    let rules = dex_ruleset();
    let config = TournamentConfig {
        game_count: 8,
        max_turn_count: 100,
        seed: 0,
        player_count: 4,
    };
    assert!(tune_strategy_over_generations(&rules, &config, 1, 1, &[]).is_err());
    assert!(tune_strategy_over_generations(&rules, &config, 1, 0, &[baseline_strategy()]).is_err());
}

#[test]
fn tuned_strategy_tops_a_mixed_field_and_refusing_to_trade_loses() {
    let rules = dex_ruleset();
    let config = TournamentConfig {
        game_count: 6_000,
        max_turn_count: 3_000,
        seed: 5,
        player_count: 4,
    };
    let league = [baseline_strategy(), dex_optimal_strategy(), never_trading_strategy()];
    let entries = run_league(&rules, &league, &config).expect("4 players should be supported");
    assert_eq!(entries[0].strategy, dex_optimal_strategy(), "the tuned strategy should top a mixed field");
    assert_eq!(entries[2].strategy, never_trading_strategy(), "refusing to trade should finish last");
}

fn result(game_count: u32, candidate_win_count: u32) -> TournamentResult {
    TournamentResult { game_count, candidate_win_count, decisive_game_count: candidate_win_count, total_turn_count: 0 }
}

#[test]
fn an_improvement_beats_the_best_share_by_more_than_one_game_in_five_hundred() {
    assert!(!improves_on(result(1000, 252), result(1000, 250)));
    assert!(improves_on(result(1000, 253), result(1000, 250)));
    assert!(improves_on(result(10, 1), result(0, 0)));
    assert!(!improves_on(result(0, 0), result(10, 0)));
    assert!(!improves_on(result(500, 1), result(0, 0)));
    assert!(improves_on(result(499, 1), result(0, 0)));
}

#[test]
fn sweeps_every_candidate_value_in_order_without_improvements() {
    let rules = dex_ruleset();
    let config = TournamentConfig { game_count: 1, max_turn_count: 5, seed: 3, player_count: 2 };
    let strategy = ConfigurableStrategy::new();
    let steps = sweep_parameters(&rules, strategy, &[strategy], &config).unwrap();
    let expected: Vec<(StrategyParameter, u32)> = TUNED_STRATEGY_PARAMETERS
        .iter()
        .flat_map(|parameter| parameter.candidate_values().into_iter().map(move |value| (*parameter, value)))
        .collect();
    assert_eq!(steps.len(), 58);
    assert_eq!(steps.iter().map(|step| (step.parameter, step.value)).collect::<Vec<_>>(), expected);
    assert!(steps.iter().all(|step| !step.is_improvement && step.result.game_count == 1));
    assert_eq!(
        sweep_parameters(&rules, strategy, &[], &config),
        Err(TournamentError::EmptyOpponentPool)
    );
}

#[test]
fn tuning_counts_its_games_and_keeps_only_improvements() {
    let rules = dex_ruleset();
    let config = TournamentConfig { game_count: 4, max_turn_count: 60, seed: 9, player_count: 2 };
    let pool = [baseline_strategy()];
    let report = tune_strategy(&rules, &config, 1, &pool).unwrap();
    assert_eq!(report.baseline_strategy, baseline_strategy());
    assert_eq!(report.evaluated_game_count, 4 * (report.steps.len() as u64 + 1));
    let mut best = (report.baseline_strategy, report.baseline);
    for step in &report.steps {
        assert_eq!(step.is_improvement, improves_on(step.result, best.1));
        if step.is_improvement {
            best = (step.parameter.apply(best.0, step.value), step.result);
        }
    }
    assert_eq!((report.best_strategy, report.best), best);
    assert_eq!(tune_strategy(&rules, &config, 1, &[]), Err(TuningError::EmptyOpponentPool));
    assert_eq!(
        tune_strategy(&rules, &TournamentConfig { player_count: 1, ..config }, 1, &pool),
        Err(TuningError::Tournament(TournamentError::UnsupportedPlayerCount(1)))
    );
}

#[test]
fn league_ranks_by_wins_and_keeps_ties_in_order() {
    let rules = dex_ruleset();
    let config = TournamentConfig { game_count: 6, max_turn_count: 80, seed: 2, player_count: 3 };
    let league = [baseline_strategy(), baseline_strategy(), never_trading_strategy()];
    let entries = run_league(&rules, &league, &config).unwrap();
    assert_eq!(entries.len(), 3);
    assert!(entries.windows(2).all(|pair| pair[0].result.candidate_win_count >= pair[1].result.candidate_win_count));
    for entry in &entries {
        assert_eq!(entry.result, run_pool_tournament(&rules, entry.strategy, &league, &config).unwrap());
    }
    assert_eq!(run_league(&rules, &[], &config), Ok(vec![]));
    assert_eq!(
        run_league(&rules, &league, &TournamentConfig { player_count: 9, ..config }),
        Err(TournamentError::UnsupportedPlayerCount(9))
    );
}

#[test]
fn the_champion_of_a_session_without_reports_is_the_baseline() {
    let rules = dex_ruleset();
    let config = TournamentConfig { game_count: 2, max_turn_count: 20, seed: 1, player_count: 2 };
    let mut session = tune_strategy_over_generations(&rules, &config, 1, 2, &[baseline_strategy()]).unwrap();
    assert_eq!(session.reports.len(), 2);
    assert_eq!(session.opponent_pool.len(), 3);
    assert_eq!(session.opponent_pool[1], session.reports[0].best_strategy);
    assert_eq!(session.reports[1].baseline_strategy, session.reports[0].best_strategy);
    assert_eq!(session.validation.config.seed, 3);
    session.reports.clear();
    assert_eq!(session.champion(), ConfigurableStrategy::new());
    assert_eq!(
        tune_strategy_over_generations(&rules, &config, 0, 1, &[baseline_strategy()]),
        Err(TuningError::InvalidSession)
    );
}
