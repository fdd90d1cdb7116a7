use monopolez::game::board::data::{BANK_STARTING_HOTEL_COUNT, BANK_STARTING_HOUSE_COUNT, HOTEL_IMPROVEMENT_LEVEL};
use monopolez::game::engine::action::{ActionError, ManagementAction};
use monopolez::game::engine::landing::{RentModifier, resolve_landing};
use monopolez::game::engine::movement::{move_player_forward, send_player_to_jail};
use monopolez::game::engine::turn::{
    GameOutcome,
    TurnPhase,
    advance_turn,
    apply_jail_decision,
    apply_management_decision,
    play_game,
    play_turn,
};
use monopolez::game::rng::DiceRoll;
use monopolez::game::ruleset::data::dex_ruleset;
use monopolez::game::ruleset::model::Ruleset;
use monopolez::game::state::model::GameState;
use monopolez::game::strategy::configurable::ConfigurableStrategy;
use monopolez::game::strategy::greedy::GreedyStrategy;
use monopolez::game::strategy::model::JailAction;
use monopolez::game::tile::lut::OWNABLE_TILE_SET_MASK;

const PLAYER_COUNT: usize = 4;
const MAX_TURN_COUNT: u32 = 10_000;

fn create_strategies() -> [GreedyStrategy; PLAYER_COUNT] {
    [GreedyStrategy { cash_reserve: 100 }; PLAYER_COUNT]
}

#[test]
fn management_advances_one_building_at_a_time() {
    let rules = Ruleset::default();
    let mut state = GameState::<4>::create_starting_state(&rules, 0);
    let mut strategies = create_strategies();
    state.board.owned_tiles_by_player_id[0] = (1 << 1) | (1 << 3);
    let cash = state.cash_by_player_id[0];
    assert_eq!(advance_turn(&mut state, &rules, &mut strategies, TurnPhase::Building), TurnPhase::Building);
    assert_eq!(&state.board.improvement_level_by_property_id[..2], &[1, 0]);
    assert_eq!(state.cash_by_player_id[0], cash - 50);
    assert_eq!(advance_turn(&mut state, &rules, &mut strategies, TurnPhase::Building), TurnPhase::Building);
    assert_eq!(&state.board.improvement_level_by_property_id[..2], &[1, 1]);
    assert_eq!(state.cash_by_player_id[0], cash - 100);
    let before_stop = state;
    assert_eq!(apply_management_decision(&mut state, &rules, &mut strategies, TurnPhase::Building, None), Ok(TurnPhase::Jail));
    assert_eq!(state, before_stop);
}

#[test]
fn management_advances_one_unmortgage_at_a_time() {
    let rules = Ruleset::default();
    let mut state = GameState::<4>::create_starting_state(&rules, 0);
    let mut strategies = create_strategies();
    state.board.owned_tiles_by_player_id[0] = (1 << 1) | (1 << 3);
    state.board.mortgaged_tiles = state.board.owned_tiles_by_player_id[0];
    assert_eq!(advance_turn(&mut state, &rules, &mut strategies, TurnPhase::Unmortgaging), TurnPhase::Unmortgaging);
    assert_eq!(state.board.mortgaged_tiles.count_ones(), 1);
    let before_stop = state;
    assert_eq!(
        apply_management_decision(&mut state, &rules, &mut strategies, TurnPhase::Unmortgaging, None),
        Ok(TurnPhase::Building)
    );
    assert_eq!(state, before_stop);
    assert_eq!(advance_turn(&mut state, &rules, &mut strategies, TurnPhase::Unmortgaging), TurnPhase::Unmortgaging);
    assert_eq!(state.board.mortgaged_tiles, 0);
    assert_eq!(advance_turn(&mut state, &rules, &mut strategies, TurnPhase::Unmortgaging), TurnPhase::Building);
}

#[test]
fn explicit_management_decisions_reject_illegal_actions_without_mutation() {
    let rules = Ruleset::default();
    let mut state = GameState::<4>::create_starting_state(&rules, 0);
    let mut strategies = create_strategies();
    let original = state;
    for (phase, action) in [
        (TurnPhase::Rolling, None),
        (TurnPhase::Building, Some(ManagementAction::Build(0))),
        (TurnPhase::Building, Some(ManagementAction::Build(255))),
        (TurnPhase::Building, Some(ManagementAction::Unmortgage(1))),
    ] {
        assert!(apply_management_decision(&mut state, &rules, &mut strategies, phase, action).is_err());
        assert_eq!(state, original);
    }
    state.current_player_id = 255;
    assert_eq!(
        apply_management_decision(&mut state, &rules, &mut strategies, TurnPhase::Building, None),
        Err(ActionError::InvalidPlayer)
    );
}

#[test]
fn resuming_at_each_phase_preserves_the_complete_turn() {
    for rules in [Ruleset::default(), dex_ruleset()] {
        for seed in 0..32 {
            let mut state = GameState::<4>::create_starting_state(&rules, seed);
            let mut strategies = [ConfigurableStrategy::new(); 4];
            if seed % 2 == 0 {
                send_player_to_jail(&mut state, 0);
            }
            for _ in 0..30 {
                let mut expected = state;
                let mut expected_strategies = strategies;
                play_turn(&mut expected, &rules, &mut expected_strategies);
                let mut phase = TurnPhase::Start;
                while phase != TurnPhase::Finished {
                    let mut fork = state;
                    let mut fork_strategies = strategies;
                    let mut fork_phase = phase;
                    while fork_phase != TurnPhase::Finished {
                        fork_phase = advance_turn(&mut fork, &rules, &mut fork_strategies, fork_phase);
                    }
                    assert_eq!(fork, expected, "seed {seed}, phase {phase:?}");
                    assert_eq!(fork_strategies, expected_strategies);
                    phase = advance_turn(&mut state, &rules, &mut strategies, phase);
                }
                assert_eq!(state, expected);
                let finished = state;
                assert_eq!(advance_turn(&mut state, &rules, &mut strategies, phase), TurnPhase::Finished);
                assert_eq!(state, finished);
                if state.bankrupt_players.count_ones() == 3 {
                    break;
                }
            }
        }
    }
}

#[test]
fn keeps_ownership_consistent_across_many_games() {
    let ruleset = Ruleset::default();

    for seed in 0..200 {
        let mut game_state = GameState::<PLAYER_COUNT>::create_starting_state(&ruleset, seed);
        play_game(&mut game_state, &ruleset, &mut create_strategies(), MAX_TURN_COUNT);

        let mut all_owned_tiles = 0;
        for player_index in 0..PLAYER_COUNT {
            let owned_tiles = game_state.board.owned_tiles_by_player_id[player_index];
            assert_eq!(all_owned_tiles & owned_tiles, 0, "a tile should have at most one owner");
            all_owned_tiles |= owned_tiles;

            if game_state.bankrupt_players & (1 << player_index) != 0 {
                assert_eq!(owned_tiles, 0);
                assert_eq!(game_state.cash_by_player_id[player_index], 0);
            }
        }

        let mut houses_in_play = 0;
        let mut hotels_in_play = 0;
        for improvement_level in game_state.board.improvement_level_by_property_id {
            if improvement_level == HOTEL_IMPROVEMENT_LEVEL {
                hotels_in_play += 1;
            } else {
                houses_in_play += improvement_level as u32;
            }
        }

        assert_eq!(
            houses_in_play + game_state.board.bank_house_count as u32,
            BANK_STARTING_HOUSE_COUNT as u32,
            "houses should be conserved"
        );
        assert_eq!(
            hotels_in_play + game_state.board.bank_hotel_count as u32,
            BANK_STARTING_HOTEL_COUNT as u32,
            "hotels should be conserved"
        );

        assert_eq!(all_owned_tiles & !OWNABLE_TILE_SET_MASK, 0, "only ownable tiles should be owned");
    }
}

#[test]
fn repeats_game_for_same_seed() {
    let ruleset = Ruleset::default();
    let mut first_game_state = GameState::<PLAYER_COUNT>::create_starting_state(&ruleset, 99);
    let mut second_game_state = GameState::<PLAYER_COUNT>::create_starting_state(&ruleset, 99);

    let first_summary = play_game(&mut first_game_state, &ruleset, &mut create_strategies(), MAX_TURN_COUNT);
    let second_summary = play_game(&mut second_game_state, &ruleset, &mut create_strategies(), MAX_TURN_COUNT);

    assert_eq!(first_summary, second_summary);
    assert_eq!(first_game_state, second_game_state);
}

#[test]
fn charges_double_rent_for_unimproved_monopoly() {
    const PARK_PLACE_TILE_ID: u8 = 37;
    const BOARDWALK_TILE_ID: u8 = 39;

    let ruleset = Ruleset::default();
    let mut game_state = GameState::<2>::create_starting_state(&ruleset, 1);
    game_state.board.owned_tiles_by_player_id[0] = 1 << PARK_PLACE_TILE_ID | 1 << BOARDWALK_TILE_ID;
    game_state.position_by_player_id[1] = BOARDWALK_TILE_ID;

    let dice_roll = DiceRoll { first_die: 1, second_die: 2 };
    resolve_landing(&mut game_state, &ruleset, &mut [GreedyStrategy { cash_reserve: 0 }; 2], 1, dice_roll, RentModifier::Standard);

    assert_eq!(game_state.cash_by_player_id[0], 1600);
    assert_eq!(game_state.cash_by_player_id[1], 1400);
}

#[test]
fn pays_landing_salary_instead_of_passing_salary() {
    let ruleset = Ruleset::builder().with_go_landing_salary(400).build();
    let mut game_state = GameState::<2>::create_starting_state(&ruleset, 1);
    game_state.position_by_player_id[0] = 36;

    move_player_forward(&mut game_state, &ruleset, 0, 4);

    assert_eq!(game_state.position_by_player_id[0], 0);
    assert_eq!(game_state.cash_by_player_id[0], 1900);
}

#[test]
fn a_finished_game_names_the_last_solvent_player() {
    let ruleset = Ruleset::default();
    let mut state = GameState::<2>::create_starting_state(&ruleset, 5);
    state.bankrupt_players = 1 << 1;
    state.cash_by_player_id[1] = 0;
    let summary = play_game(&mut state, &ruleset, &mut [GreedyStrategy { cash_reserve: 100 }; 2], 10);
    assert_eq!(summary.outcome, GameOutcome::Winner(0));
    let mut limited = GameState::<2>::create_starting_state(&ruleset, 5);
    let summary = play_game(&mut limited, &ruleset, &mut [GreedyStrategy { cash_reserve: 100 }; 2], 0);
    assert_eq!(summary.outcome, GameOutcome::TurnLimitReached);
    assert_eq!(summary.turn_count, 0);
}

#[test]
fn a_turn_ends_with_the_next_solvent_player_to_move() {
    let rules = Ruleset::default();
    let mut state = GameState::<4>::create_starting_state(&rules, 11);
    let mut strategies = create_strategies();
    state.cash_by_player_id[1] = 0;
    state.bankrupt_players = 1 << 1;
    play_turn(&mut state, &rules, &mut strategies);
    assert_eq!(state.consecutive_double_count, 0);
    assert_eq!(state.current_player_id, 2);
    play_turn(&mut state, &rules, &mut strategies);
    assert_eq!(state.current_player_id, 3);
    play_turn(&mut state, &rules, &mut strategies);
    assert_eq!(state.current_player_id, 0);
}

#[test]
fn paying_bail_releases_the_player_to_roll() {
    let rules = Ruleset::default();
    let mut state = GameState::<4>::create_starting_state(&rules, 3);
    let mut strategies = create_strategies();
    send_player_to_jail(&mut state, 0);
    let cash = state.cash_by_player_id[0];
    assert_eq!(
        apply_jail_decision(&mut state, &rules, &mut strategies, JailAction::PayBail),
        Ok(TurnPhase::Rolling)
    );
    assert_eq!(state.jailed_players, 0);
    assert_eq!(state.cash_by_player_id[0], cash - rules.jail_bail_amount as u32);
    assert_eq!(state.position_by_player_id[0], 10);
}

#[test]
fn a_jail_action_that_the_rules_refuse_changes_nothing() {
    let rules = Ruleset::default();
    let mut state = GameState::<4>::create_starting_state(&rules, 3);
    let mut strategies = create_strategies();
    send_player_to_jail(&mut state, 0);
    let before = state;
    assert_eq!(
        apply_jail_decision(&mut state, &rules, &mut strategies, JailAction::UseGetOutOfJailFreeCard),
        Err(ActionError::IllegalAction)
    );
    assert_eq!(state, before);
}
