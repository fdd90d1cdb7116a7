use monopolez::game::ruleset::data::dex_ruleset;
use monopolez::game::strategy::data::{baseline_strategy, dex_optimal_strategy};
use monopolez::simulation::paired::{PairedResult, compare_policies};
use monopolez::simulation::tournament::{TournamentConfig, run_pool_tournament};

fn win_rate_difference(result: &PairedResult) -> Option<f64> {
    (result.candidate.game_count > 0).then(|| {
        (result.candidate_only_win_count as f64 - result.baseline_only_win_count as f64) / result.candidate.game_count as f64
    })
}

#[test]
fn paired_marginals_match_standalone_tournaments_for_all_player_counts() {
    let rules = dex_ruleset();
    let pool = [baseline_strategy(), dex_optimal_strategy()];
    for player_count in 2..=8 {
        let config = TournamentConfig { game_count: 24, max_turn_count: 500, seed: u64::MAX - 10, player_count };
        let result = compare_policies(&rules, dex_optimal_strategy(), baseline_strategy(), &pool, &config).unwrap();
        assert_eq!(result.candidate, run_pool_tournament(&rules, dex_optimal_strategy(), &pool, &config).unwrap());
        assert_eq!(result.baseline, run_pool_tournament(&rules, baseline_strategy(), &pool, &config).unwrap());
        assert_eq!(result.both_win_count + result.candidate_only_win_count, result.candidate.candidate_win_count);
        assert_eq!(result.both_win_count + result.baseline_only_win_count, result.baseline.candidate_win_count);
        assert_eq!(
            result.both_win_count + result.neither_win_count + result.candidate_only_win_count + result.baseline_only_win_count,
            config.game_count
        );
    }
}

#[test]
fn swapping_policies_reverses_discordant_counts() {
    let rules = dex_ruleset();
    let config = TournamentConfig { game_count: 100, max_turn_count: 1000, seed: 3, player_count: 4 };
    let pool = [baseline_strategy(), dex_optimal_strategy()];
    let result = compare_policies(&rules, dex_optimal_strategy(), baseline_strategy(), &pool, &config).unwrap();
    let reversed = compare_policies(&rules, baseline_strategy(), dex_optimal_strategy(), &pool, &config).unwrap();
    assert_eq!(result.candidate_only_win_count, reversed.baseline_only_win_count);
    assert_eq!(result.baseline_only_win_count, reversed.candidate_only_win_count);
    assert_eq!(result.both_win_count, reversed.both_win_count);
    assert_eq!(result.neither_win_count, reversed.neither_win_count);
    assert_eq!(win_rate_difference(&result).unwrap(), -win_rate_difference(&reversed).unwrap());
    assert!(result.candidate_only_win_count + result.baseline_only_win_count > 0);
}

#[test]
fn identical_policies_never_have_discordant_wins() {
    let rules = dex_ruleset();
    let config = TournamentConfig { game_count: 100, max_turn_count: 1000, seed: 7, player_count: 4 };
    let result = compare_policies(&rules, baseline_strategy(), baseline_strategy(), &[dex_optimal_strategy()], &config).unwrap();
    assert_eq!(result.candidate, result.baseline);
    assert_eq!(result.candidate_only_win_count, 0);
    assert_eq!(result.baseline_only_win_count, 0);
    assert_eq!(win_rate_difference(&result), Some(0.0));
    let empty = compare_policies(
        &rules,
        baseline_strategy(),
        baseline_strategy(),
        &[dex_optimal_strategy()],
        &TournamentConfig { game_count: 0, ..config },
    )
    .unwrap();
    assert_eq!(win_rate_difference(&empty), None);
    assert_eq!(empty, PairedResult::empty());
}
