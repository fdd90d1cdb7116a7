use monopolez::game::engine::action::{ManagementAction, ManagementPhase, legal_management_actions};
use monopolez::game::engine::movement::send_player_to_jail;
use monopolez::game::rng::WyRand;
use monopolez::game::ruleset::data::dex_ruleset;
use monopolez::game::state::model::GameState;
use monopolez::game::strategy::belief::RolloutBelief;
use monopolez::game::strategy::configurable::ConfigurableStrategy;
use monopolez::game::strategy::model::PlayerStrategy;
use monopolez::game::strategy::observation::PublicObservation;
use monopolez::game::strategy::model::JailAction;
use monopolez::game::strategy::rollout::{
    ActionEvaluation, RolloutAction, RolloutConfig, RolloutDecision, RolloutDecisions, RolloutOutcome, evaluate, run,
};
use monopolez::game::strategy::rollout_player::{RolloutStats, RolloutStrategy, choose_alternative};
use monopolez::simulation::rollout::{BenchmarkError, benchmark};
use monopolez::simulation::tournament::{TournamentConfig, run_pool_tournament};

#[test]
fn alternatives_are_paired_reproducible_and_engine_validated() {
    let rules = dex_ruleset();
    let mut state = GameState::<2>::create_starting_state(&rules, 3);
    state.board.owned_tiles_by_player_id[0] = (1 << 1) | (1 << 3);
    let observation = PublicObservation::new(&state, &rules, 0, &[]);
    let config = RolloutConfig {
        decisions: RolloutDecisions::default(),
        seed: u64::MAX - 2,
        sample_count: 4,
        max_turn_count: 20,
    };
    let policies = [ConfigurableStrategy::new(); 2];
    let first = evaluate(observation, RolloutDecision::Building, &policies, config).unwrap();
    let second = evaluate(observation, RolloutDecision::Building, &policies, config).unwrap();
    assert_eq!(first, second);
    assert_eq!(first.alternatives.len(), 3);
    let belief = RolloutBelief::new(observation).unwrap();
    for index in 0..config.sample_count {
        let sample = belief.sample::<2>(&mut WyRand::new(config.seed.wrapping_add(index as u64))).unwrap();
        for alternative in &first.alternatives {
            assert_eq!(
                alternative.outcomes[index as usize],
                run(sample, policies, &rules, RolloutDecision::Building, alternative.action, config.max_turn_count).unwrap()
            );
            assert!(alternative.outcomes[index as usize].completed_turn_count <= config.max_turn_count);
        }
    }
    assert!(
        run(
            state,
            policies,
            &rules,
            RolloutDecision::Building,
            RolloutAction::Management(Some(ManagementAction::Build(255))),
            1
        )
        .is_err()
    );
    assert!(evaluate(observation, RolloutDecision::Jail, &policies, config).is_err());
    assert!(evaluate(observation, RolloutDecision::Building, &policies, RolloutConfig { sample_count: 0, ..config }).is_err());
}

#[test]
fn management_and_jail_preserve_unfinished_outcomes_at_one_turn_horizon() {
    let rules = dex_ruleset();
    let mut state = GameState::<2>::create_starting_state(&rules, 7);
    state.board.owned_tiles_by_player_id[0] = 1 << 5;
    state.board.mortgaged_tiles = 1 << 5;
    let config = RolloutConfig {
        decisions: RolloutDecisions::default(),
        seed: 4,
        sample_count: 3,
        max_turn_count: 1,
    };
    for decision in [RolloutDecision::Unmortgaging, RolloutDecision::Jail] {
        if decision == RolloutDecision::Jail {
            send_player_to_jail(&mut state, 0);
        }
        let report = evaluate(
            PublicObservation::new(&state, &rules, 0, &[]),
            decision,
            &[ConfigurableStrategy::new(); 2],
            config,
        )
        .unwrap();
        assert_eq!(report.alternatives.len(), 2);
        for alternative in report.alternatives {
            assert!(alternative.outcomes.iter().all(|outcome| outcome.winner.is_none() && outcome.completed_turn_count == 1));
        }
    }
}

#[test]
fn tied_unfinished_rollouts_retain_baseline_and_track_cost() {
    let rules = dex_ruleset();
    let mut state = GameState::<2>::create_starting_state(&rules, 3);
    state.board.owned_tiles_by_player_id[0] = (1 << 1) | (1 << 3);
    let baseline = ConfigurableStrategy::new();
    let legal = legal_management_actions(&state, &rules, 0, ManagementPhase::Building);
    let expected = baseline.clone().choose_management_action(&state, &rules, 0, &legal);
    let mut player = RolloutStrategy::new(
        baseline,
        Some(RolloutConfig {
            decisions: RolloutDecisions::default(),
            seed: 17,
            sample_count: 2,
            max_turn_count: 1,
        }),
    );
    assert_eq!(player.choose_management_action(&state, &rules, 0, &legal), expected);
    assert_eq!(
        player.stats,
        RolloutStats {
            decisions: 1,
            simulated_games: 6,
            unfinished_games: 6,
            ..RolloutStats::default()
        }
    );
    let mut disabled = RolloutStrategy::new(baseline, None);
    assert_eq!(disabled.choose_management_action(&state, &rules, 0, &legal), expected);
    assert_eq!(disabled.stats, RolloutStats::default());
}

#[test]
fn benchmark_is_deterministic_and_baseline_uses_the_same_trials() {
    let rules = dex_ruleset();
    let baseline = ConfigurableStrategy::new();
    let config = TournamentConfig {
        game_count: 4,
        max_turn_count: 100,
        seed: 7,
        player_count: 2,
    };
    let rollout = RolloutConfig {
        decisions: RolloutDecisions::default(),
        seed: 19,
        sample_count: 2,
        max_turn_count: 1,
    };
    let first = benchmark(&rules, baseline, &[baseline], &config, rollout).unwrap();
    let second = benchmark(&rules, baseline, &[baseline], &config, rollout).unwrap();
    assert_eq!(first.paired, second.paired);
    assert_eq!(first.stats, second.stats);
    assert_eq!(first.paired.baseline, run_pool_tournament(&rules, baseline, &[baseline], &config).unwrap());
    assert!(first.stats.decisions > 0);
    assert_eq!(first.stats.failures, 0);
    assert_eq!(benchmark(&rules, baseline, &[], &config, rollout), Err(BenchmarkError::EmptyOpponentPool));
}

#[test]
fn benchmark_rejects_zero_counts_and_unsupported_player_counts() {
    let rules = dex_ruleset();
    let baseline = ConfigurableStrategy::new();
    let config = TournamentConfig { game_count: 2, max_turn_count: 10, seed: 1, player_count: 2 };
    let rollout = RolloutConfig { decisions: RolloutDecisions::default(), seed: 1, sample_count: 1, max_turn_count: 1 };
    assert_eq!(
        benchmark(&rules, baseline, &[baseline], &TournamentConfig { game_count: 0, ..config }, rollout),
        Err(BenchmarkError::NonPositiveCount)
    );
    assert_eq!(
        benchmark(&rules, baseline, &[baseline], &config, RolloutConfig { sample_count: 0, ..rollout }),
        Err(BenchmarkError::NonPositiveCount)
    );
    assert_eq!(
        benchmark(&rules, baseline, &[baseline], &TournamentConfig { player_count: 9, ..config }, rollout),
        Err(BenchmarkError::UnsupportedPlayerCount(9))
    );
}

#[test]
fn a_player_without_rollouts_observes_nothing_and_jails_as_its_baseline() {
    let rules = dex_ruleset();
    let mut state = GameState::<2>::create_starting_state(&rules, 5);
    send_player_to_jail(&mut state, 0);
    let baseline = ConfigurableStrategy::new();
    let mut player = RolloutStrategy::new(baseline, None);
    player.observe_public_event(monopolez::game::engine::event::GameEvent::TurnStarted { player_id: 0 });
    assert_eq!(player.choose_jail_action(&state, &rules, 0), baseline.clone().choose_jail_action(&state, &rules, 0));
    assert_eq!(player.stats, RolloutStats::default());
}

fn evaluation(action: RolloutAction, winners: &[Option<u8>]) -> ActionEvaluation {
    ActionEvaluation {
        action,
        outcomes: winners
            .iter()
            .map(|winner| RolloutOutcome { winner: *winner, bankrupt_players: 0, completed_turn_count: 1 })
            .collect(),
    }
}

#[test]
fn rollouts_keep_the_baseline_on_ties_and_take_the_first_strict_winner() {
    let roll = RolloutAction::Jail(JailAction::RollForDoubles);
    let bail = RolloutAction::Jail(JailAction::PayBail);
    let card = RolloutAction::Jail(JailAction::UseGetOutOfJailFreeCard);
    let tied = [evaluation(roll, &[Some(0), None]), evaluation(bail, &[Some(0), Some(1)])];
    assert_eq!(choose_alternative(&tied, roll, 0), roll);
    let better = [
        evaluation(roll, &[Some(0), None, None]),
        evaluation(bail, &[Some(0), Some(0), None]),
        evaluation(card, &[Some(0), Some(0), None]),
    ];
    assert_eq!(choose_alternative(&better, roll, 0), bail);
    assert_eq!(choose_alternative(&better, card, 0), card);
    assert_eq!(choose_alternative(&better, roll, 1), roll);
    assert_eq!(choose_alternative(&[], bail, 0), bail);
}
