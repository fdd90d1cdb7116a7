use monopolez::game::board::data::{BANK_STARTING_HOTEL_COUNT, BANK_STARTING_HOUSE_COUNT, HOTEL_IMPROVEMENT_LEVEL};
use monopolez::game::engine::improvement::{can_improve_property, improve_property, sell_one_building};
use monopolez::game::engine::mortgage::{
    calculate_mortgage_transfer_interest,
    can_mortgage_tile,
    mortgage_tile,
    unmortgage_tile,
};
use monopolez::game::engine::trade::{
    calculate_tile_set_purchase_value,
    execute_trade,
    is_trade_permitted,
    run_trade_phase,
};
use monopolez::game::ruleset::model::{BARTER_AT_START_OF_TURN, BARTER_DURING_PAYMENT, BARTER_MONEY, Ruleset};
use monopolez::game::state::model::GameState;
use monopolez::game::strategy::configurable::ConfigurableStrategy;
use monopolez::game::tile::model::{Cash, PropertyId, TileId};
use monopolez::game::trade::model::TradeOffer;

const MEDITERRANEAN_AVENUE_TILE_ID: u8 = 1;
const PARK_PLACE_TILE_ID: TileId = 37;
const BOARDWALK_TILE_ID: TileId = 39;
const PARK_PLACE_PROPERTY_ID: PropertyId = 20;
const BOARDWALK_PROPERTY_ID: PropertyId = 21;

fn create_rich_dark_blue_owner_state(ruleset: &Ruleset) -> GameState<2> {
    let mut game_state = GameState::<2>::create_starting_state(ruleset, 1);
    game_state.board.owned_tiles_by_player_id[0] = 1 << PARK_PLACE_TILE_ID | 1 << BOARDWALK_TILE_ID;
    game_state.cash_by_player_id[0] = 5000;
    game_state
}

fn create_dark_blue_owner_state(ruleset: &Ruleset) -> GameState<2> {
    let mut game_state = GameState::<2>::create_starting_state(ruleset, 1);
    game_state.board.owned_tiles_by_player_id[0] = 1 << PARK_PLACE_TILE_ID | 1 << BOARDWALK_TILE_ID;
    game_state
}

#[test]
fn improves_evenly_within_ownership_group() {
    let ruleset = Ruleset::default();
    let mut game_state = create_rich_dark_blue_owner_state(&ruleset);

    assert!(improve_property(&mut game_state, &ruleset, 0, PARK_PLACE_PROPERTY_ID));
    assert!(!improve_property(&mut game_state, &ruleset, 0, PARK_PLACE_PROPERTY_ID));
    assert!(improve_property(&mut game_state, &ruleset, 0, BOARDWALK_PROPERTY_ID));
    assert!(improve_property(&mut game_state, &ruleset, 0, PARK_PLACE_PROPERTY_ID));
}

#[test]
fn returns_houses_to_bank_when_building_hotel() {
    let ruleset = Ruleset::default();
    let mut game_state = create_rich_dark_blue_owner_state(&ruleset);

    for _ in 0..HOTEL_IMPROVEMENT_LEVEL {
        assert!(improve_property(&mut game_state, &ruleset, 0, PARK_PLACE_PROPERTY_ID));
        assert!(improve_property(&mut game_state, &ruleset, 0, BOARDWALK_PROPERTY_ID));
    }

    assert_eq!(game_state.board.improvement_level_by_property_id[BOARDWALK_PROPERTY_ID as usize], HOTEL_IMPROVEMENT_LEVEL);
    assert_eq!(game_state.board.bank_house_count, BANK_STARTING_HOUSE_COUNT);
    assert_eq!(game_state.board.bank_hotel_count, BANK_STARTING_HOTEL_COUNT - 2);
}

#[test]
fn refuses_to_improve_without_bank_supply() {
    let ruleset = Ruleset::default();
    let mut game_state = create_rich_dark_blue_owner_state(&ruleset);
    game_state.board.bank_house_count = 0;

    assert!(!can_improve_property(&game_state, &ruleset, 0, PARK_PLACE_PROPERTY_ID));
}

#[test]
fn refuses_to_improve_mortgaged_ownership_group() {
    let ruleset = Ruleset::default();
    let mut game_state = create_rich_dark_blue_owner_state(&ruleset);
    game_state.board.mortgaged_tiles = 1 << BOARDWALK_TILE_ID;

    assert!(!can_improve_property(&game_state, &ruleset, 0, PARK_PLACE_PROPERTY_ID));
}

#[test]
fn sells_buildings_from_the_most_improved_property() {
    let ruleset = Ruleset::default();
    let mut game_state = create_rich_dark_blue_owner_state(&ruleset);
    improve_property(&mut game_state, &ruleset, 0, PARK_PLACE_PROPERTY_ID);
    improve_property(&mut game_state, &ruleset, 0, BOARDWALK_PROPERTY_ID);
    improve_property(&mut game_state, &ruleset, 0, PARK_PLACE_PROPERTY_ID);

    let sale_price = sell_one_building(&mut game_state, 0);

    assert_eq!(sale_price.unwrap().proceeds, 100);
    assert_eq!(game_state.board.improvement_level_by_property_id[PARK_PLACE_PROPERTY_ID as usize], 1);
    assert_eq!(game_state.board.bank_house_count, BANK_STARTING_HOUSE_COUNT - 2);
}

#[test]
fn hotel_sale_reports_downgrade_or_complete_liquidation() {
    for (houses_available, expected_level, expected_proceeds) in [(4, 4, 100), (0, 0, 500)] {
        let mut state = create_rich_dark_blue_owner_state(&Ruleset::default());
        state.board.improvement_level_by_property_id[PARK_PLACE_PROPERTY_ID as usize] = HOTEL_IMPROVEMENT_LEVEL;
        state.board.bank_hotel_count -= 1;
        state.board.bank_house_count = houses_available;
        let cash_before = state.cash_by_player_id[0];
        let sale = sell_one_building(&mut state, 0).unwrap();
        assert_eq!(sale.property_id, PARK_PLACE_PROPERTY_ID);
        assert_eq!(sale.previous_level, HOTEL_IMPROVEMENT_LEVEL);
        assert_eq!(sale.level, expected_level);
        assert_eq!(sale.proceeds, expected_proceeds);
        assert_eq!(state.cash_by_player_id[0], cash_before + expected_proceeds);
        assert_eq!(state.board.improvement_level_by_property_id[PARK_PLACE_PROPERTY_ID as usize], expected_level);
        assert_eq!(state.board.bank_hotel_count, BANK_STARTING_HOTEL_COUNT);
        assert_eq!(state.board.bank_house_count, 0);
    }
}

#[test]
fn rejects_invalid_building_actions_without_mutation() {
    let ruleset = Ruleset::default();
    let mut state = create_rich_dark_blue_owner_state(&ruleset);
    let original = state;
    for (player, property) in [(255, 20), (0, 255), (1, 20)] {
        assert!(!improve_property(&mut state, &ruleset, player, property));
        assert_eq!(state, original);
    }
    state.bankrupt_players |= 1;
    let original = state;
    assert!(!improve_property(&mut state, &ruleset, 0, 20));
    assert_eq!(state, original);
}

#[test]
fn invalid_mortgage_actions_leave_state_unchanged() {
    let mut state = create_dark_blue_owner_state(&Ruleset::default());
    let original = state;
    for (player, tile) in [(255, 39), (0, 255), (1, 39), (0, 0)] {
        assert!(!mortgage_tile(&mut state, player, tile));
        assert!(!unmortgage_tile(&mut state, player, tile));
        assert_eq!(state, original);
    }
    state.cash_by_player_id[0] = Cash::MAX;
    let original = state;
    assert!(!mortgage_tile(&mut state, 0, 39));
    assert_eq!(state, original);
}

#[test]
fn mortgages_and_unmortgages_for_the_listed_prices() {
    let ruleset = Ruleset::default();
    let mut game_state = create_dark_blue_owner_state(&ruleset);

    assert!(mortgage_tile(&mut game_state, 0, BOARDWALK_TILE_ID));
    assert_eq!(game_state.cash_by_player_id[0], 1700);
    assert!(game_state.board.is_tile_mortgaged(BOARDWALK_TILE_ID));

    assert!(unmortgage_tile(&mut game_state, 0, BOARDWALK_TILE_ID));
    assert_eq!(game_state.cash_by_player_id[0], 1480);
    assert!(!game_state.board.is_tile_mortgaged(BOARDWALK_TILE_ID));
}

#[test]
fn refuses_to_mortgage_improved_ownership_group() {
    let ruleset = Ruleset::default();
    let mut game_state = create_dark_blue_owner_state(&ruleset);
    game_state.board.improvement_level_by_property_id[20] = 1;

    assert!(!can_mortgage_tile(&game_state, 0, BOARDWALK_TILE_ID));
}

#[test]
fn charges_interest_on_transferred_mortgages() {
    let ruleset = Ruleset::default();
    let mut game_state = create_dark_blue_owner_state(&ruleset);
    mortgage_tile(&mut game_state, 0, BOARDWALK_TILE_ID);

    let transfer_interest = calculate_mortgage_transfer_interest(&game_state, game_state.board.owned_tiles_by_player_id[0]);

    assert_eq!(transfer_interest, 20);
}

fn create_trade_state(ruleset: &Ruleset) -> GameState<2> {
    let mut game_state = GameState::<2>::create_starting_state(ruleset, 1);
    game_state.board.owned_tiles_by_player_id[0] = 1 << PARK_PLACE_TILE_ID;
    game_state.board.owned_tiles_by_player_id[1] = 1 << BOARDWALK_TILE_ID;
    game_state
}

fn create_trade_offer() -> TradeOffer {
    TradeOffer {
        proposer_player_id: 0,
        recipient_player_id: 1,
        offered_cash: 100,
        offered_tiles: 1 << PARK_PLACE_TILE_ID,
        offered_get_out_of_jail_free_cards: 0,
        requested_cash: 0,
        requested_tiles: 1 << BOARDWALK_TILE_ID,
        requested_get_out_of_jail_free_cards: 0,
    }
}

#[test]
fn executes_a_permitted_trade() {
    let ruleset = Ruleset::default();
    let mut game_state = create_trade_state(&ruleset);
    let trade_offer = create_trade_offer();

    assert!(is_trade_permitted(&game_state, &ruleset, &trade_offer));
    assert!(execute_trade(&mut game_state, &ruleset, &trade_offer));

    assert_eq!(game_state.board.owned_tiles_by_player_id[0], 1 << BOARDWALK_TILE_ID);
    assert_eq!(game_state.board.owned_tiles_by_player_id[1], 1 << PARK_PLACE_TILE_ID);
    assert_eq!(game_state.cash_by_player_id[0], 1400);
    assert_eq!(game_state.cash_by_player_id[1], 1600);
}

#[test]
fn refuses_trade_of_tiles_the_players_do_not_own() {
    let ruleset = Ruleset::default();
    let game_state = create_trade_state(&ruleset);
    let mut trade_offer = create_trade_offer();
    trade_offer.offered_tiles = 1 << MEDITERRANEAN_AVENUE_TILE_ID;

    assert!(!is_trade_permitted(&game_state, &ruleset, &trade_offer));
}

#[test]
fn refuses_trade_of_improved_ownership_group() {
    let ruleset = Ruleset::default();
    let mut game_state = create_trade_state(&ruleset);
    game_state.board.improvement_level_by_property_id[20] = 1;

    assert!(!is_trade_permitted(&game_state, &ruleset, &create_trade_offer()));
}

#[test]
fn refuses_tactics_the_ruleset_forbids() {
    let ruleset = Ruleset::builder().with_permitted_barter_tactics(BARTER_MONEY).build();
    let game_state = create_trade_state(&ruleset);

    assert!(!is_trade_permitted(&game_state, &ruleset, &create_trade_offer()));
}

#[test]
fn charges_interest_on_traded_mortgages() {
    let ruleset = Ruleset::default();
    let mut game_state = create_trade_state(&ruleset);
    game_state.board.mortgaged_tiles = 1 << PARK_PLACE_TILE_ID;

    let mut trade_offer = create_trade_offer();
    trade_offer.offered_cash = 0;
    assert!(execute_trade(&mut game_state, &ruleset, &trade_offer));

    assert_eq!(game_state.cash_by_player_id[1], 1500 - 18);
}

#[test]
fn rejects_invalid_trade_execution_without_mutation() {
    let ruleset = Ruleset::default();
    let original = create_trade_state(&ruleset);
    let offer = create_trade_offer();
    let invalid = [
        TradeOffer { proposer_player_id: 255, ..offer },
        TradeOffer { recipient_player_id: 255, ..offer },
        TradeOffer { offered_tiles: 1 << 63, ..offer },
        TradeOffer { offered_get_out_of_jail_free_cards: 128, ..offer },
        TradeOffer { offered_cash: Cash::MAX, ..offer },
    ];
    for offer in invalid {
        let mut state = original;
        assert!(!execute_trade(&mut state, &ruleset, &offer));
        assert_eq!(state, original);
    }
}

#[test]
fn rejects_unaffordable_transfer_interest_and_cash_overflow() {
    let ruleset = Ruleset::default();
    let mut state = create_trade_state(&ruleset);
    state.board.mortgaged_tiles = 1 << PARK_PLACE_TILE_ID;
    state.cash_by_player_id[1] = 0;
    let offer = TradeOffer { offered_cash: 0, ..create_trade_offer() };
    let original = state;
    assert!(!execute_trade(&mut state, &ruleset, &offer));
    assert_eq!(state, original);

    state.board.mortgaged_tiles = 0;
    state.cash_by_player_id[1] = Cash::MAX;
    let original = state;
    assert!(!execute_trade(&mut state, &ruleset, &create_trade_offer()));
    assert_eq!(state, original);
}

#[test]
fn executes_one_counteroffer_when_the_original_proposer_accepts() {
    let rules = Ruleset::default();
    let mut state = create_trade_state(&rules);
    let mut strategies = [
        ConfigurableStrategy {
            trade_offer_percent: 150,
            trade_counteroffer_limit_percent: Some(250),
            ..ConfigurableStrategy::new()
        },
        ConfigurableStrategy { trade_accept_percent: 200, makes_trade_counteroffers: true, ..ConfigurableStrategy::new() },
    ];

    assert!(run_trade_phase(&mut state, &rules, &mut strategies, 0, BARTER_AT_START_OF_TURN));
    assert_eq!(state.board.owned_tiles_by_player_id, [(1 << PARK_PLACE_TILE_ID) | (1 << BOARDWALK_TILE_ID), 0]);
    assert_eq!(state.cash_by_player_id, [699, 2301]);
}

#[test]
fn declining_the_only_counteroffer_ends_the_trade() {
    let rules = Ruleset::default();
    let original = create_trade_state(&rules);
    let mut state = original;
    let mut strategies = [
        ConfigurableStrategy {
            trade_offer_percent: 150,
            trade_counteroffer_limit_percent: Some(200),
            ..ConfigurableStrategy::new()
        },
        ConfigurableStrategy { trade_accept_percent: 200, makes_trade_counteroffers: true, ..ConfigurableStrategy::new() },
    ];

    assert!(!run_trade_phase(&mut state, &rules, &mut strategies, 0, BARTER_AT_START_OF_TURN));
    assert_eq!(state, original);
}

#[test]
fn purchase_value_of_a_tile_set_is_the_sum_of_printed_prices() {
    assert_eq!(calculate_tile_set_purchase_value((1 << PARK_PLACE_TILE_ID) | (1 << BOARDWALK_TILE_ID)), 750);
    assert_eq!(calculate_tile_set_purchase_value(0), 0);
}

#[test]
fn trade_phase_outside_permitted_times_does_nothing() {
    let rules = Ruleset::builder().with_permitted_barter_times(BARTER_AT_START_OF_TURN).build();
    let original = create_trade_state(&rules);
    let mut state = original;
    let mut strategies = [ConfigurableStrategy::new(); 2];
    assert!(!run_trade_phase(&mut state, &rules, &mut strategies, 0, BARTER_DURING_PAYMENT));
    assert_eq!(state, original);
}
