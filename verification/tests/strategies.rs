use monopolez::game::board::data::HOTEL_IMPROVEMENT_LEVEL;
use monopolez::game::engine::action::{
    ManagementAction,
    ManagementPhase,
    execute_management_action,
    validate_jail_action,
};
use monopolez::game::engine::movement::send_player_to_jail;
use monopolez::game::engine::trade::execute_trade;
use monopolez::game::ruleset::data::dex_ruleset;
use monopolez::game::ruleset::model::{BARTER_MONEY, Ruleset};
use monopolez::game::state::model::GameState;
use monopolez::game::strategy::configurable::{BuildingAllocation, ConfigurableStrategy, DevelopmentCeiling};
use monopolez::game::strategy::model::{JailAction, PlayerStrategy};
use monopolez::game::strategy::trading::propose_monopoly_swap;
use monopolez::game::tile::lut::OWNABLE_TILE_SET_MASK;
use monopolez::game::tile::model::Cash;
use monopolez::game::trade::model::TradeOffer;

fn building_state(rules: &Ruleset) -> GameState<2> {
    let mut state = GameState::<2>::create_starting_state(rules, 0);
    state.board.owned_tiles_by_player_id[0] = (1 << 1) | (1 << 3) | (1 << 6) | (1 << 8) | (1 << 9);
    state.cash_by_player_id[0] = 10_000;
    state
}

#[test]
fn building_allocation_changes_group_priority() {
    for rules in [Ruleset::default(), dex_ruleset()] {
        let mut state = building_state(&rules);
        state.board.improvement_level_by_property_id[2..5].fill(2);
        state.board.bank_house_count -= 6;
        let mut strategy = ConfigurableStrategy::new();
        assert_eq!(strategy.choose_property_to_improve(&state, &rules, 0), Some(0));
        strategy.building_allocation = BuildingAllocation::Concentrate;
        assert_eq!(strategy.choose_property_to_improve(&state, &rules, 0), Some(2));
        state.board.mortgaged_tiles = 1 << 6;
        assert_eq!(strategy.choose_property_to_improve(&state, &rules, 0), Some(0));
    }
}

#[test]
fn all_building_policies_obey_engine_rules_and_their_ceiling() {
    for rules in [Ruleset::default(), dex_ruleset()] {
        for building_allocation in [BuildingAllocation::Spread, BuildingAllocation::Concentrate] {
            for development_ceiling in [DevelopmentCeiling::ThreeHouses, DevelopmentCeiling::FourHouses, DevelopmentCeiling::Hotel] {
                let mut strategy = ConfigurableStrategy { building_allocation, development_ceiling, ..ConfigurableStrategy::new() };
                let mut state = building_state(&rules);
                let ceiling = development_ceiling.improvement_level();
                for _ in 0..5 * ceiling {
                    let property = strategy.choose_property_to_improve(&state, &rules, 0).unwrap();
                    assert!(state.board.improvement_level_by_property_id[property as usize] < ceiling);
                    execute_management_action(&mut state, &rules, 0, ManagementPhase::Building, ManagementAction::Build(property))
                        .unwrap();
                }
                assert_eq!(strategy.choose_property_to_improve(&state, &rules, 0), None);
                assert_eq!(&state.board.improvement_level_by_property_id[..5], &[ceiling; 5]);
                assert_eq!(state.cash_by_player_id[0], 10_000 - 250 * ceiling as Cash);
                assert_eq!(state.board.bank_house_count, if ceiling == HOTEL_IMPROVEMENT_LEVEL { 32 } else { 32 - 5 * ceiling });
                assert_eq!(state.board.bank_hotel_count, if ceiling == HOTEL_IMPROVEMENT_LEVEL { 7 } else { 12 });
            }
        }
    }
}

#[test]
fn concentration_moves_on_when_preferred_group_reaches_ceiling() {
    let rules = Ruleset::default();
    let mut state = building_state(&rules);
    state.board.improvement_level_by_property_id[2..5].fill(3);
    state.board.bank_house_count -= 9;
    let mut strategy = ConfigurableStrategy {
        building_allocation: BuildingAllocation::Concentrate,
        development_ceiling: DevelopmentCeiling::ThreeHouses,
        ..ConfigurableStrategy::new()
    };
    assert_eq!(strategy.choose_property_to_improve(&state, &rules, 0), Some(0));
    strategy.development_ceiling = DevelopmentCeiling::FourHouses;
    assert_eq!(strategy.choose_property_to_improve(&state, &rules, 0), Some(2));
}

#[test]
fn building_policies_respect_cash_and_bank_supply() {
    let rules = Ruleset::default();
    for building_allocation in [BuildingAllocation::Spread, BuildingAllocation::Concentrate] {
        let mut strategy = ConfigurableStrategy { building_allocation, ..ConfigurableStrategy::new() };
        let mut state = building_state(&rules);
        state.cash_by_player_id[0] = strategy.cash_reserve + 49;
        assert_eq!(strategy.choose_property_to_improve(&state, &rules, 0), None);
        state.cash_by_player_id[0] += 1;
        assert_eq!(strategy.choose_property_to_improve(&state, &rules, 0), Some(0));
        state.board.bank_house_count = 0;
        assert_eq!(strategy.choose_property_to_improve(&state, &rules, 0), None);
    }
}

#[test]
fn adaptive_jail_threshold_is_inclusive_and_counts_all_players() {
    for rules in [Ruleset::default(), dex_ruleset()] {
        for threshold in [0, 4, OWNABLE_TILE_SET_MASK.count_ones() as u8, u8::MAX] {
            let mut strategy =
                ConfigurableStrategy { jail_camping_unowned_tile_threshold: Some(threshold), ..ConfigurableStrategy::new() };
            let mut state = GameState::<2>::create_starting_state(&rules, 0);
            send_player_to_jail(&mut state, 0);
            for unowned_tile_count in 0..=OWNABLE_TILE_SET_MASK.count_ones() {
                let mut owned_tiles = OWNABLE_TILE_SET_MASK;
                for _ in 0..unowned_tile_count {
                    owned_tiles &= owned_tiles - 1;
                }
                state.board.owned_tiles_by_player_id = [owned_tiles & 0x5555555555, owned_tiles & 0xaaaaaaaaaa];
                let expected =
                    if unowned_tile_count <= u32::from(threshold) { JailAction::RollForDoubles } else { JailAction::PayBail };
                let action = strategy.choose_jail_action(&state, &rules, 0);
                assert_eq!(action, expected);
                assert_eq!(validate_jail_action(&state, &rules, 0, action), Ok(()));
            }
        }
    }
}

#[test]
fn adaptive_jail_policy_preserves_cards_while_camping() {
    let rules = Ruleset::default();
    let mut strategy = ConfigurableStrategy { jail_camping_unowned_tile_threshold: Some(4), ..ConfigurableStrategy::new() };
    let mut state = GameState::<2>::create_starting_state(&rules, 0);
    send_player_to_jail(&mut state, 0);
    for deck in 0..state.get_out_of_jail_free_card_holder_by_deck_kind.len() {
        state.get_out_of_jail_free_card_holder_by_deck_kind = [None; 2];
        state.get_out_of_jail_free_card_holder_by_deck_kind[deck] = Some(0);
        state.board.owned_tiles_by_player_id = [0; 2];
        assert_eq!(strategy.choose_jail_action(&state, &rules, 0), JailAction::UseGetOutOfJailFreeCard);
        state.board.owned_tiles_by_player_id[1] = OWNABLE_TILE_SET_MASK;
        let original = state;
        let action = strategy.choose_jail_action(&state, &rules, 0);
        assert_eq!(action, JailAction::RollForDoubles);
        assert_eq!(validate_jail_action(&state, &rules, 0, action), Ok(()));
        assert_eq!(state, original);
    }
}

#[test]
fn jail_bail_respects_reserves_without_overflow() {
    for rules in [Ruleset::default(), dex_ruleset()] {
        for threshold in [None, Some(4)] {
            let mut strategy = ConfigurableStrategy {
                pays_bail_when_affordable: true,
                jail_camping_unowned_tile_threshold: threshold,
                ..ConfigurableStrategy::new()
            };
            let mut state = GameState::<2>::create_starting_state(&rules, 0);
            send_player_to_jail(&mut state, 0);
            state.cash_by_player_id[0] = strategy.cash_reserve + rules.jail_bail_amount as Cash;
            assert_eq!(strategy.choose_jail_action(&state, &rules, 0), JailAction::PayBail);
            state.cash_by_player_id[0] -= 1;
            assert_eq!(strategy.choose_jail_action(&state, &rules, 0), JailAction::RollForDoubles);
            strategy.cash_reserve = Cash::MAX;
            state.cash_by_player_id[0] = Cash::MAX;
            assert_eq!(strategy.choose_jail_action(&state, &rules, 0), JailAction::RollForDoubles);
        }
    }
}

#[test]
fn disabled_adaptive_policy_preserves_existing_jail_choices() {
    let rules = Ruleset::default();
    let mut state = GameState::<2>::create_starting_state(&rules, 0);
    send_player_to_jail(&mut state, 0);
    state.board.owned_tiles_by_player_id[1] = OWNABLE_TILE_SET_MASK;
    for pays_bail_when_affordable in [false, true] {
        let mut strategy = ConfigurableStrategy { pays_bail_when_affordable, ..ConfigurableStrategy::new() };
        state.get_out_of_jail_free_card_holder_by_deck_kind = [None; 2];
        let expected = if pays_bail_when_affordable { JailAction::PayBail } else { JailAction::RollForDoubles };
        assert_eq!(strategy.choose_jail_action(&state, &rules, 0), expected);
        state.get_out_of_jail_free_card_holder_by_deck_kind[0] = Some(0);
        assert_eq!(strategy.choose_jail_action(&state, &rules, 0), JailAction::UseGetOutOfJailFreeCard);
    }
}

fn fixture() -> (GameState<2>, ConfigurableStrategy) {
    let mut state = GameState::<2>::create_starting_state(&dex_ruleset(), 7);
    state.board.owned_tiles_by_player_id = [(1 << 3) | (1 << 5) | (1 << 15) | (1 << 25), (1 << 1) | (1 << 35)];
    let strategy = ConfigurableStrategy {
        offers_property_swaps: true,
        trade_offer_percent: 400,
        cash_reserve: 50,
        ..ConfigurableStrategy::new()
    };
    (state, strategy)
}

#[test]
fn swaps_complete_both_groups_without_changing_the_source_state() {
    let dex = dex_ruleset();
    let (mut state, mut strategy) = fixture();
    let before = state;
    let offer = strategy.propose_trade(&state, &dex, 0).unwrap();
    assert_eq!(state, before);
    assert_eq!(offer.offered_tiles, 1 << 3);
    assert_eq!(offer.requested_tiles, 1 << 35);
    assert_eq!(offer.offered_cash, 740);
    assert!(ConfigurableStrategy::new().should_accept_trade(&state, &dex, 1, &offer));
    assert!(execute_trade(&mut state, &dex, &offer));
    assert_eq!(state.board.owned_tiles_by_player_id[0], (1 << 5) | (1 << 15) | (1 << 25) | (1 << 35));
    assert_eq!(state.board.owned_tiles_by_player_id[1], (1 << 1) | (1 << 3));
    strategy.offers_property_swaps = false;
    let cash_offer = strategy.propose_trade(&before, &dex, 0).unwrap();
    assert_eq!(cash_offer.offered_tiles, 0);
    assert_eq!(cash_offer.offered_cash, 240);
}

#[test]
fn swaps_obey_reserves_interest_and_engine_restrictions() {
    let dex = dex_ruleset();
    let (mut state, strategy) = fixture();
    state.cash_by_player_id[0] = 790;
    assert!(propose_monopoly_swap(&strategy, &state, &dex, 0).is_some());
    state.cash_by_player_id[0] = 789;
    assert!(propose_monopoly_swap(&strategy, &state, &dex, 0).is_none());
    state.cash_by_player_id[0] = 790;
    state.board.mortgaged_tiles = 1 << 35;
    assert!(propose_monopoly_swap(&strategy, &state, &dex, 0).is_none());
    state.cash_by_player_id[0] = 800;
    assert!(propose_monopoly_swap(&strategy, &state, &dex, 0).is_some());
    let mut rules = dex;
    rules.permitted_barter_tactics = BARTER_MONEY;
    assert!(propose_monopoly_swap(&strategy, &state, &rules, 0).is_none());
    state.board.improvement_level_by_property_id[1] = 1;
    assert!(propose_monopoly_swap(&strategy, &state, &dex, 0).is_none());
}

#[test]
fn monopoly_premium_values_completion_and_protects_existing_groups() {
    let dex = dex_ruleset();
    let (mut state, mut strategy) = fixture();
    strategy.trade_accept_percent = 100;
    let offer = TradeOffer {
        proposer_player_id: 1,
        recipient_player_id: 0,
        offered_cash: 0,
        offered_tiles: 1 << 1,
        offered_get_out_of_jail_free_cards: 0,
        requested_cash: 100,
        requested_tiles: 0,
        requested_get_out_of_jail_free_cards: 0,
    };
    assert!(!strategy.should_accept_trade(&state, &dex, 0, &offer));
    strategy.monopoly_trade_premium_percent = 100;
    assert!(strategy.should_accept_trade(&state, &dex, 0, &offer));
    state.board.owned_tiles_by_player_id[0] |= 1 << 1;
    let sale = TradeOffer { offered_cash: 100, offered_tiles: 0, requested_cash: 0, requested_tiles: 1 << 3, ..offer };
    assert!(!strategy.should_accept_trade(&state, &dex, 0, &sale));
    strategy.monopoly_trade_premium_percent = 0;
    assert!(strategy.should_accept_trade(&state, &dex, 0, &sale));
    strategy.monopoly_trade_premium_percent = Cash::MAX;
    strategy.trade_accept_percent = Cash::MAX;
    assert!(!strategy.should_accept_trade(&state, &dex, 0, &sale));
}

#[test]
fn swaps_skip_unaffordable_extreme_prices_and_absent_mutual_completions() {
    let dex = dex_ruleset();
    let (mut state, mut strategy) = fixture();
    strategy.trade_offer_percent = Cash::MAX;
    assert!(propose_monopoly_swap(&strategy, &state, &dex, 0).is_none());
    strategy.trade_offer_percent = 400;
    state.board.owned_tiles_by_player_id[1] &= !(1 << 1);
    assert!(propose_monopoly_swap(&strategy, &state, &dex, 0).is_none());
}

#[test]
fn required_cash_adds_the_percentage_to_the_reserve() {
    let strategy = ConfigurableStrategy::new();
    assert_eq!(strategy.calculate_required_cash(200, 150), 400);
    assert_eq!(strategy.calculate_required_cash(Cash::MAX, Cash::MAX), (Cash::MAX as u64) * (Cash::MAX as u64) / 100 + 100);
}
