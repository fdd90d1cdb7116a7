use monopolez::game::card::model::{CardEffect, DeckKind};
use monopolez::game::engine::action::{ManagementAction, ManagementPhase, legal_management_actions};
use monopolez::game::engine::event::GameEvent;
use monopolez::game::engine::turn::{TurnPhase, advance_turn, play_game};
use monopolez::game::rng::WyRand;
use monopolez::game::ruleset::data::dex_ruleset;
use monopolez::game::state::model::GameState;
use monopolez::game::strategy::belief::RolloutBelief;
use monopolez::game::strategy::configurable::ConfigurableStrategy;
use monopolez::game::strategy::observation::{ObservedPolicy, ObservedStrategy, PublicObservation};

/// The public part of an observation, field by field.
fn same_public_view(first: &PublicObservation<'_>, second: &PublicObservation<'_>) -> bool {
    first.rules == second.rules
        && first.player_id == second.player_id
        && first.owned_tiles_by_player_id == second.owned_tiles_by_player_id
        && first.mortgaged_tiles == second.mortgaged_tiles
        && first.improvement_level_by_property_id == second.improvement_level_by_property_id
        && first.bank_house_count == second.bank_house_count
        && first.bank_hotel_count == second.bank_hotel_count
        && first.cash_by_player_id == second.cash_by_player_id
        && first.position_by_player_id == second.position_by_player_id
        && first.jail_turn_count_by_player_id == second.jail_turn_count_by_player_id
        && first.jailed_players == second.jailed_players
        && first.bankrupt_players == second.bankrupt_players
        && first.get_out_of_jail_free_card_holder_by_deck_kind == second.get_out_of_jail_free_card_holder_by_deck_kind
        && first.free_parking_jackpot == second.free_parking_jackpot
        && first.current_player_id == second.current_player_id
        && first.consecutive_double_count == second.consecutive_double_count
        && first.history == second.history
}

fn verify_public_state<const N: usize>() {
    let rules = dex_ruleset();
    let mut state = GameState::<N>::create_starting_state(&rules, 7);
    state.cash_by_player_id = core::array::from_fn(|player| 700 + player as u32);
    state.position_by_player_id[0] = 17;
    state.position_by_player_id[N - 1] = 10;
    state.jailed_players = 1 << (N - 1);
    state.jail_turn_count_by_player_id[N - 1] = 1;
    state.board.owned_tiles_by_player_id[0] = (1 << 1) | (1 << 3);
    state.board.owned_tiles_by_player_id[1] = 1 << 5;
    state.board.mortgaged_tiles = 1 << 5;
    state.board.improvement_level_by_property_id[0] = 1;
    state.board.improvement_level_by_property_id[1] = 1;
    state.board.bank_house_count -= 2;
    state.get_out_of_jail_free_card_holder_by_deck_kind[0] = Some(0);
    state.free_parking_jackpot = 125;
    state.consecutive_double_count = 1;
    let history =
        [GameEvent::CardDrawn { player_id: 0, deck: DeckKind::Chance, effect: CardEffect::GetOutOfJailFree }];
    let observation = PublicObservation::new(&state, &rules, 0, &history);
    let belief = RolloutBelief::new(observation).unwrap();
    let before = state;
    let mut rng = WyRand::new(99);
    let mut same_rng = rng;
    let mut previous = None;
    for _ in 0..8 {
        let mut sample = belief.sample::<N>(&mut rng).unwrap();
        assert_eq!(sample, belief.sample::<N>(&mut same_rng).unwrap());
        assert!(same_public_view(&observation, &PublicObservation::new(&sample, &rules, 0, &history)));
        assert_ne!(sample.rng, state.rng);
        assert!(previous.is_none_or(|previous| sample != previous));
        previous = Some(sample);
        sample.cash_by_player_id[0] = 0;
        sample.rng.roll_dice();
        assert_eq!(state, before);
    }
    let mut changed_hidden = state;
    changed_hidden.rng = WyRand::new(1000);
    for deck in &mut changed_hidden.deck_state_by_deck_kind {
        deck.card_id_by_draw_position.reverse();
        deck.next_draw_position = 13;
    }
    let other = RolloutBelief::new(PublicObservation::new(&changed_hidden, &rules, 0, &history)).unwrap();
    assert_eq!(belief.sample::<N>(&mut WyRand::new(55)).unwrap(), other.sample::<N>(&mut WyRand::new(55)).unwrap());
}

#[test]
fn samples_preserve_public_state_and_ignore_live_hidden_state() {
    verify_public_state::<2>();
    verify_public_state::<3>();
    verify_public_state::<4>();
    verify_public_state::<5>();
    verify_public_state::<6>();
    verify_public_state::<7>();
    verify_public_state::<8>();
}

#[test]
fn invalid_dimensions_and_inconsistent_holders_are_rejected() {
    let rules = dex_ruleset();
    let state = GameState::<4>::create_starting_state(&rules, 7);
    let observation = PublicObservation::new(&state, &rules, 0, &[]);
    let belief = RolloutBelief::new(observation).unwrap();
    let mut rng = WyRand::new(17);
    let before = rng;
    assert!(belief.sample::<2>(&mut rng).is_err());
    assert_eq!(rng, before);
    let invalid = [
        PublicObservation { cash_by_player_id: &[], ..observation },
        PublicObservation { owned_tiles_by_player_id: &[], ..observation },
        PublicObservation { position_by_player_id: &[], ..observation },
        PublicObservation { jail_turn_count_by_player_id: &[], ..observation },
        PublicObservation { improvement_level_by_property_id: &[], ..observation },
        PublicObservation { get_out_of_jail_free_card_holder_by_deck_kind: &[], ..observation },
    ];
    for observation in invalid {
        assert!(RolloutBelief::new(observation).is_err());
    }
    let holders = [Some(0), None];
    assert!(RolloutBelief::new(PublicObservation { get_out_of_jail_free_card_holder_by_deck_kind: &holders, ..observation })
        .is_err());
    let history =
        [GameEvent::CardDrawn { player_id: 0, deck: DeckKind::Chance, effect: CardEffect::GetOutOfJailFree }];
    assert!(RolloutBelief::new(PublicObservation { history: &history, ..observation }).is_err());
}

#[derive(Default)]
struct Probe {
    sampled: bool,
}

impl ObservedPolicy for Probe {
    fn choose_management_action(
        &mut self,
        observation: PublicObservation<'_>,
        phase: ManagementPhase,
        legal: &[ManagementAction],
    ) -> Option<ManagementAction> {
        if self.sampled {
            return None;
        }
        self.sampled = true;
        let belief = RolloutBelief::new(observation).unwrap();
        let mut rng = WyRand::new(99);
        for _ in 0..3 {
            let mut state = belief.sample::<4>(&mut rng).unwrap();
            assert_eq!(legal_management_actions(&state, observation.rules, observation.player_id, phase).iter(), legal);
            let mut strategies = [ConfigurableStrategy::new(); 4];
            let mut turn_phase = match phase {
                ManagementPhase::Building => TurnPhase::Building,
                ManagementPhase::Unmortgaging => TurnPhase::Unmortgaging,
            };
            while turn_phase != TurnPhase::Finished {
                turn_phase = advance_turn(&mut state, observation.rules, &mut strategies, turn_phase);
            }
            play_game(&mut state, observation.rules, &mut strategies, 20);
        }
        None
    }
}

struct Passive;

impl ObservedPolicy for Passive {}

#[test]
fn observed_policies_can_resume_sampled_worlds_through_the_engine() {
    let rules = dex_ruleset();
    let mut state = GameState::<4>::create_starting_state(&rules, 7);
    let mut strategies: [ObservedStrategy<Probe>; 4] = core::array::from_fn(|_| ObservedStrategy::new(Probe::default()));
    play_game(&mut state, &rules, &mut strategies, 20);
    assert!(strategies.iter().all(|strategy| strategy.policy.sampled));
    let mut expected = GameState::<4>::create_starting_state(&rules, 7);
    let mut passive: [ObservedStrategy<Passive>; 4] = core::array::from_fn(|_| ObservedStrategy::new(Passive));
    play_game(&mut expected, &rules, &mut passive, 20);
    assert_eq!(state, expected);
    assert_eq!(strategies[0].history(), passive[0].history());
}
