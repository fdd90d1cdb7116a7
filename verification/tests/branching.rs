use monopolez::game::engine::action::ManagementAction;
use monopolez::game::engine::movement::send_player_to_jail;
use monopolez::game::engine::turn::{TurnPhase, apply_management_decision, play_game};
use monopolez::game::ruleset::data::dex_ruleset;
use monopolez::game::ruleset::model::Ruleset;
use monopolez::game::state::model::GameState;
use monopolez::game::strategy::configurable::ConfigurableStrategy;
use monopolez::game::strategy::data::dex_optimal_strategy;
use monopolez::game::strategy::model::JailAction;
use monopolez::game::tile::model::Cash;
use monopolez::simulation::branching::{
    BranchAction,
    BranchError,
    BranchKind,
    branch_decision,
    branch_management,
    rollout,
};

#[test]
fn baseline_branch_matches_unbranched_game_and_parallelism_is_deterministic() {
    let rules = dex_ruleset();
    let policies = [dex_optimal_strategy(); 4];
    let first = branch_management::<4>(&rules, &policies, 3, 1000, 0).unwrap();
    let second = branch_management::<4>(&rules, &policies, 3, 1000, 0).unwrap();
    assert_eq!(first, second);
    assert!(first.branches.len() >= 2);
    assert_eq!(first.branches[0].action, BranchAction::Management(None));
    let baseline = first.branches.iter().find(|branch| branch.action == first.baseline_action).unwrap();
    let mut state = GameState::<4>::create_starting_state(&rules, 3);
    let summary = play_game(&mut state, &rules, &mut policies.clone(), 1000);
    assert_eq!(baseline.final_state, state);
    assert_eq!(baseline.completed_turn_count, summary.turn_count);
}

#[test]
fn alternatives_change_only_the_selected_action_before_resuming() {
    let rules = Ruleset::default();
    let mut state = GameState::<2>::create_starting_state(&rules, 0);
    state.board.owned_tiles_by_player_id[0] = (1 << 1) | (1 << 3);
    let policies = [ConfigurableStrategy::new(); 2];
    let original = state;
    let stopped = rollout(state, policies, &rules, TurnPhase::Building, BranchAction::Management(None), 10, 11).unwrap();
    assert_eq!(stopped.state_after_action, original);
    for property in [0, 1] {
        let action = Some(ManagementAction::Build(property));
        let branch = rollout(state, policies, &rules, TurnPhase::Building, BranchAction::Management(action), 10, 11).unwrap();
        let mut expected = state;
        apply_management_decision(&mut expected, &rules, &mut policies.clone(), TurnPhase::Building, action).unwrap();
        assert_eq!(branch.state_after_action, expected);
        assert_eq!(branch.completed_turn_count, 11);
    }
    assert_eq!(state, original);
}

#[test]
fn unmortgage_branches_apply_one_asset_action_and_reject_illegal_choices() {
    let rules = Ruleset::default();
    let mut state = GameState::<2>::create_starting_state(&rules, 0);
    state.board.owned_tiles_by_player_id[0] = (1 << 1) | (1 << 3);
    state.board.mortgaged_tiles = state.board.owned_tiles_by_player_id[0];
    let policies = [ConfigurableStrategy::new(); 2];
    for tile in [1, 3] {
        let action = Some(ManagementAction::Unmortgage(tile));
        let branch = rollout(state, policies, &rules, TurnPhase::Unmortgaging, BranchAction::Management(action), 0, 1).unwrap();
        let mut expected = state;
        apply_management_decision(&mut expected, &rules, &mut policies.clone(), TurnPhase::Unmortgaging, action).unwrap();
        assert_eq!(branch.state_after_action, expected);
    }
    assert!(rollout(
        state,
        policies,
        &rules,
        TurnPhase::Unmortgaging,
        BranchAction::Management(Some(ManagementAction::Build(0))),
        0,
        1
    )
    .is_err());
}

#[test]
fn jail_baseline_branch_matches_normal_play() {
    let policies = [dex_optimal_strategy(); 4];
    for rules in [Ruleset::default(), dex_ruleset()] {
        let report = branch_decision::<4>(&rules, &policies, 3, 1000, 0, BranchKind::Jail).unwrap();
        assert_eq!(report.phase, "Jail");
        assert!(report.branches.iter().any(|branch| branch.action == BranchAction::Jail(JailAction::RollForDoubles)));
        let branch = report.branches.iter().find(|branch| branch.action == report.baseline_action).unwrap();
        let mut state = GameState::<4>::create_starting_state(&rules, 3);
        let summary = play_game(&mut state, &rules, &mut policies.clone(), 1000);
        assert_eq!(branch.final_state, state);
        assert_eq!(branch.completed_turn_count, summary.turn_count);
    }
}

#[test]
fn jail_branches_charge_bail_or_consume_a_card_once() {
    let rules = Ruleset::default();
    let mut state = GameState::<2>::create_starting_state(&rules, 0);
    send_player_to_jail(&mut state, 0);
    let policies = [ConfigurableStrategy::new(); 2];
    assert!(rollout(state, policies, &rules, TurnPhase::Jail, BranchAction::Jail(JailAction::UseGetOutOfJailFreeCard), 0, 1)
        .is_err());
    state.get_out_of_jail_free_card_holder_by_deck_kind[0] = Some(0);
    for action in [JailAction::PayBail, JailAction::UseGetOutOfJailFreeCard] {
        let branch = rollout(state, policies, &rules, TurnPhase::Jail, BranchAction::Jail(action), 0, 1).unwrap();
        let mut expected = state;
        expected.jailed_players = 0;
        if action == JailAction::PayBail {
            expected.cash_by_player_id[0] -= rules.jail_bail_amount as Cash;
        } else {
            expected.get_out_of_jail_free_card_holder_by_deck_kind[0] = None;
        }
        assert_eq!(branch.state_after_action, expected);
        assert_eq!(branch.completed_turn_count, 1);
    }
    state.cash_by_player_id[0] = 0;
    assert!(rollout(state, policies, &rules, TurnPhase::Jail, BranchAction::Jail(JailAction::PayBail), 0, 1).is_err());
}

#[test]
fn rejects_invalid_or_unreachable_branch_requests() {
    let policies = [ConfigurableStrategy::new(); 2];
    assert!(branch_management::<2>(&Ruleset::default(), &[], 0, 10, 0).is_err());
    assert!(branch_management::<2>(&Ruleset::default(), &policies, 0, 0, 0).is_err());
    assert!(branch_management::<2>(&Ruleset::default(), &policies, 0, 1, 0).is_err());
    assert_eq!(
        branch_management::<2>(&Ruleset::default(), &policies, 0, 1, 0),
        Err(BranchError::NotReached { kind: BranchKind::Management, target: 0, found: 0 })
    );
}
