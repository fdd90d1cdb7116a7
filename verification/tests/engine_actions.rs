use monopolez::game::engine::action::{
    ActionError,
    JailResolution,
    ManagementAction,
    ManagementPhase,
    execute_jail_action,
    execute_management_action,
    execute_purchase,
    legal_jail_actions,
    legal_management_actions,
    validate_purchase,
};
use monopolez::game::engine::auction::{auction_sale_price, run_auction};
use monopolez::game::engine::event::GameEvent;
use monopolez::game::engine::liquidation::{
    LiquidationAction,
    execute_liquidation_action,
    legal_liquidation_actions,
};
use monopolez::game::engine::movement::send_player_to_jail;
use monopolez::game::ruleset::data::dex_ruleset;
use monopolez::game::ruleset::model::{AuctionEligibility, Ruleset};
use monopolez::game::state::model::GameState;
use monopolez::game::strategy::configurable::ConfigurableStrategy;
use monopolez::game::strategy::model::JailAction;
use monopolez::game::tile::model::Cash;

#[test]
fn jail_choices_are_legal_and_rechecked_on_execution() {
    let rules = Ruleset::default();
    let mut state = GameState::<2>::create_starting_state(&rules, 0);
    let mut strategies = [ConfigurableStrategy::new(); 2];
    assert_eq!(legal_jail_actions(&state, &rules, 0).len(), 0);
    send_player_to_jail(&mut state, 0);
    assert_eq!(legal_jail_actions(&state, &rules, 0), vec![JailAction::RollForDoubles, JailAction::PayBail]);
    state.cash_by_player_id[0] = 0;
    let original = state;
    for action in [JailAction::PayBail, JailAction::UseGetOutOfJailFreeCard] {
        assert_eq!(execute_jail_action(&mut state, &rules, &mut strategies, 0, action), Err(ActionError::IllegalAction));
        assert_eq!(state, original);
    }
    assert_eq!(
        execute_jail_action(&mut state, &rules, &mut strategies, 255, JailAction::RollForDoubles),
        Err(ActionError::InvalidPlayer)
    );
    assert_eq!(state, original);
    state.get_out_of_jail_free_card_holder_by_deck_kind = [Some(0), Some(0)];
    assert_eq!(
        execute_jail_action(&mut state, &rules, &mut strategies, 0, JailAction::UseGetOutOfJailFreeCard),
        Ok(JailResolution::Released)
    );
    assert_eq!(state.get_out_of_jail_free_card_holder_by_deck_kind, [None, Some(0)]);
    assert_eq!(state.jailed_players, 0);
}

#[test]
fn bail_is_charged_once_before_release() {
    let rules = dex_ruleset();
    let mut state = GameState::<2>::create_starting_state(&rules, 0);
    let mut strategies = [ConfigurableStrategy::new(); 2];
    send_player_to_jail(&mut state, 0);
    state.cash_by_player_id[0] = rules.jail_bail_amount as Cash;
    assert_eq!(execute_jail_action(&mut state, &rules, &mut strategies, 0, JailAction::PayBail), Ok(JailResolution::Released));
    assert_eq!(state.cash_by_player_id[0], 0);
    assert_eq!(state.free_parking_jackpot, rules.jail_bail_amount as Cash);
    let original = state;
    assert_eq!(execute_jail_action(&mut state, &rules, &mut strategies, 0, JailAction::PayBail), Err(ActionError::WrongPhase));
    assert_eq!(state, original);
}

#[test]
fn purchases_require_current_location_ownership_and_cash() {
    let mut state = GameState::<2>::create_starting_state(&Ruleset::default(), 0);
    state.position_by_player_id[0] = 1;
    let original = state;
    for (player, tile) in [(255, 1), (1, 1), (0, 255), (0, 0), (0, 3)] {
        assert!(execute_purchase(&mut state, player, tile).is_err());
        assert_eq!(state, original);
    }
    state.cash_by_player_id[0] = 59;
    let poor_state = state;
    assert!(execute_purchase(&mut state, 0, 1).is_err());
    assert_eq!(state, poor_state);
    state.cash_by_player_id[0] = 60;
    assert_eq!(
        execute_purchase(&mut state, 0, 1),
        Ok(GameEvent::PropertyPurchased { player_id: 0, tile_id: 1, price: 60, auction: false })
    );
    assert_eq!(state.cash_by_player_id[0], 0);
    state.cash_by_player_id[0] = 60;
    let bought_state = state;
    assert!(execute_purchase(&mut state, 0, 1).is_err());
    assert_eq!(state, bought_state);
}

#[test]
fn stale_purchase_cannot_take_another_players_property() {
    let mut state = GameState::<2>::create_starting_state(&Ruleset::default(), 0);
    state.position_by_player_id[0] = 1;
    assert!(validate_purchase(&state, 0, 1).is_ok());
    state.board.owned_tiles_by_player_id[1] |= 1 << 1;
    let original = state;
    assert!(execute_purchase(&mut state, 0, 1).is_err());
    assert_eq!(state, original);
}

#[test]
fn stale_actions_are_revalidated_before_execution() {
    let rules = Ruleset::default();
    let mut state = GameState::<2>::create_starting_state(&rules, 0);
    state.board.owned_tiles_by_player_id[0] = (1 << 1) | (1 << 3);
    let legal = legal_management_actions(&state, &rules, 0, ManagementPhase::Building).iter();
    assert_eq!(legal, vec![ManagementAction::Build(0), ManagementAction::Build(1)]);
    let selected = legal[0];
    state.cash_by_player_id[0] = 0;
    let original = state;
    assert_eq!(
        execute_management_action(&mut state, &rules, 0, ManagementPhase::Building, selected),
        Err(ActionError::IllegalAction)
    );
    assert_eq!(state, original);
}

#[test]
fn phase_and_actor_cannot_be_bypassed() {
    let rules = Ruleset::default();
    let mut state = GameState::<2>::create_starting_state(&rules, 0);
    state.board.owned_tiles_by_player_id[0] = 1 << 1;
    state.board.mortgaged_tiles = 1 << 1;
    let original = state;
    assert_eq!(
        execute_management_action(&mut state, &rules, 0, ManagementPhase::Building, ManagementAction::Unmortgage(1)),
        Err(ActionError::WrongPhase)
    );
    assert_eq!(
        execute_management_action(&mut state, &rules, 1, ManagementPhase::Unmortgaging, ManagementAction::Unmortgage(1)),
        Err(ActionError::InvalidPlayer)
    );
    assert_eq!(state, original);
    assert!(execute_management_action(&mut state, &rules, 0, ManagementPhase::Unmortgaging, ManagementAction::Unmortgage(1))
        .is_ok());
    assert_eq!(state.board.mortgaged_tiles, 0);
}

#[test]
fn legal_management_list_agrees_with_execution() {
    let rules = Ruleset::default();
    let mut state = GameState::<2>::create_starting_state(&rules, 0);
    state.board.owned_tiles_by_player_id[0] = (1 << 1) | (1 << 3);
    let legal = legal_management_actions(&state, &rules, 0, ManagementPhase::Building);
    assert!(legal.contains(ManagementAction::Build(1)));
    assert!(!legal.contains(ManagementAction::Build(2)));
    assert!(!legal.contains(ManagementAction::Unmortgage(1)));
    let cash = state.cash_by_player_id[0];
    assert_eq!(
        execute_management_action(&mut state, &rules, 0, ManagementPhase::Building, ManagementAction::Build(1)),
        Ok(GameEvent::BuildingPurchased { player_id: 0, property_id: 1, level: 1 })
    );
    assert_eq!(state.cash_by_player_id[0], cash - 50);
}

#[test]
fn invalid_auction_targets_leave_state_unchanged() {
    let rules = Ruleset::default();
    let mut state = GameState::<2>::create_starting_state(&rules, 0);
    state.board.owned_tiles_by_player_id[1] = 1 << 1;
    let original = state;
    let mut strategies = [ConfigurableStrategy::new(); 2];
    for (decliner, tile) in [(255, 3), (0, 255), (0, 0), (0, 1)] {
        run_auction(&mut state, &rules, &mut strategies, decliner, tile);
        assert_eq!(state, original);
    }
}

#[test]
fn excluded_and_bankrupt_players_cannot_win() {
    let rules = Ruleset::builder().with_auction_eligibility(AuctionEligibility::ExcludingDecliningPlayer).build();
    let mut state = GameState::<3>::create_starting_state(&rules, 0);
    state.bankrupt_players = 1 << 1;
    let mut strategies = [ConfigurableStrategy::new(); 3];
    run_auction(&mut state, &rules, &mut strategies, 0, 1);
    assert_eq!(state.board.get_tile_owner(1), Some(2));
    assert_eq!(state.cash_by_player_id, [1500, 1500, 1499]);
}

#[test]
fn auction_preserves_tie_order_and_charges_runner_up_price() {
    let rules = Ruleset::default();
    let mut state = GameState::<2>::create_starting_state(&rules, 0);
    let mut strategies = [ConfigurableStrategy::new(); 2];
    run_auction(&mut state, &rules, &mut strategies, 1, 1);
    assert_eq!(state.board.get_tile_owner(1), Some(1));
    assert_eq!(state.cash_by_player_id, [1500, 1440]);
    assert_eq!(auction_sale_price(100, 60), 61);
    assert_eq!(auction_sale_price(Cash::MAX, Cash::MAX), Cash::MAX);
}

#[test]
fn dex_hotel_can_be_liquidated_without_replacement_houses() {
    let dex = dex_ruleset();
    let mut state = GameState::<2>::create_starting_state(&dex, 0);
    state.board.owned_tiles_by_player_id[0] = (1 << 1) | (1 << 3);
    state.board.improvement_level_by_property_id[0] = 5;
    state.board.improvement_level_by_property_id[1] = 5;
    state.board.bank_hotel_count -= 2;
    state.board.bank_house_count = 0;
    assert!(legal_liquidation_actions(&state, &dex, 0).iter().any(|action| *action == LiquidationAction::SellBuilding(0)));
    let cash = state.cash_by_player_id[0];
    assert_eq!(
        execute_liquidation_action(&mut state, &dex, 0, LiquidationAction::SellBuilding(0)),
        Ok(GameEvent::BuildingSold { player_id: 0, property_id: 0, previous_level: 5, level: 0, proceeds: 125 })
    );
    assert_eq!(state.cash_by_player_id[0], cash + 125);
    assert_eq!(state.board.improvement_level_by_property_id[1], 5);
}

#[test]
fn invalid_liquidation_leaves_state_unchanged() {
    let dex = dex_ruleset();
    let mut state = GameState::<2>::create_starting_state(&dex, 0);
    let original = state;
    for action in [
        LiquidationAction::SellBuilding(255),
        LiquidationAction::SellBuilding(0),
        LiquidationAction::Mortgage(255),
        LiquidationAction::Mortgage(1),
    ] {
        assert!(execute_liquidation_action(&mut state, &dex, 0, action).is_err());
        assert_eq!(state, original);
    }
}
