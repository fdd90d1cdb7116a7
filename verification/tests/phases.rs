use monopolez::game::engine::improvement::run_improvement_phase;
use monopolez::game::engine::mortgage::run_mortgage_phase;
use monopolez::game::ruleset::model::{PropertyImprovementDistribution, Ruleset};
use monopolez::game::state::model::GameState;
use monopolez::game::strategy::greedy::GreedyStrategy;
use monopolez::game::tile::model::{PropertyId, TileId};

const PARK_PLACE_TILE_ID: TileId = 37;
const BOARDWALK_TILE_ID: TileId = 39;
const PARK_PLACE_PROPERTY_ID: PropertyId = 20;
const BOARDWALK_PROPERTY_ID: PropertyId = 21;

fn dark_blue_owner_state(ruleset: &Ruleset, cash: u32) -> GameState<2> {
    let mut game_state = GameState::<2>::create_starting_state(ruleset, 1);
    game_state.board.owned_tiles_by_player_id[0] = 1 << PARK_PLACE_TILE_ID | 1 << BOARDWALK_TILE_ID;
    game_state.cash_by_player_id[0] = cash;
    game_state
}

#[test]
fn improvement_phase_builds_each_greedy_choice_until_the_reserve_stops_it() {
    let mut ruleset = Ruleset::default();
    ruleset.property_improvement_distribution = PropertyImprovementDistribution::Even;
    let mut game_state = dark_blue_owner_state(&ruleset, 5000);
    let mut strategies = [GreedyStrategy { cash_reserve: 4400 }; 2];

    run_improvement_phase(&mut game_state, &ruleset, &mut strategies, 0);

    assert_eq!(game_state.board.improvement_level_by_property_id[PARK_PLACE_PROPERTY_ID as usize], 2);
    assert_eq!(game_state.board.improvement_level_by_property_id[BOARDWALK_PROPERTY_ID as usize], 1);
    assert_eq!(game_state.cash_by_player_id[0], 4400);
    assert_eq!(game_state.cash_by_player_id[1] as u64, ruleset.starting_player_money as u64);
}

#[test]
fn improvement_phase_without_a_reserve_builds_both_streets_to_hotels() {
    let mut ruleset = Ruleset::default();
    ruleset.property_improvement_distribution = PropertyImprovementDistribution::Even;
    let mut game_state = dark_blue_owner_state(&ruleset, 5000);
    let mut strategies = [GreedyStrategy { cash_reserve: 0 }; 2];

    run_improvement_phase(&mut game_state, &ruleset, &mut strategies, 0);

    assert_eq!(game_state.board.improvement_level_by_property_id[PARK_PLACE_PROPERTY_ID as usize], 5);
    assert_eq!(game_state.board.improvement_level_by_property_id[BOARDWALK_PROPERTY_ID as usize], 5);
    assert_eq!(game_state.cash_by_player_id[0], 3000);
}

#[test]
fn mortgage_phase_pays_off_greedy_choices_in_tile_order_until_the_reserve_stops_it() {
    let ruleset = Ruleset::default();
    let mut game_state = dark_blue_owner_state(&ruleset, 500);
    game_state.board.mortgaged_tiles = 1 << PARK_PLACE_TILE_ID | 1 << BOARDWALK_TILE_ID;
    let mut strategies = [GreedyStrategy { cash_reserve: 100 }; 2];

    run_mortgage_phase(&mut game_state, &ruleset, &mut strategies, 0);

    assert_eq!(game_state.board.mortgaged_tiles, 1 << BOARDWALK_TILE_ID);
    assert_eq!(game_state.cash_by_player_id[0], 307);
    assert_eq!(game_state.cash_by_player_id[1] as u64, ruleset.starting_player_money as u64);
}

#[test]
fn mortgage_phase_without_a_reserve_pays_off_every_mortgage() {
    let ruleset = Ruleset::default();
    let mut game_state = dark_blue_owner_state(&ruleset, 500);
    game_state.board.mortgaged_tiles = 1 << PARK_PLACE_TILE_ID | 1 << BOARDWALK_TILE_ID;
    let mut strategies = [GreedyStrategy { cash_reserve: 0 }; 2];

    run_mortgage_phase(&mut game_state, &ruleset, &mut strategies, 0);

    assert_eq!(game_state.board.mortgaged_tiles, 0);
    assert_eq!(game_state.cash_by_player_id[0], 87);
}
