use monopolez::game::engine::action::{ManagementAction, ManagementPhase, legal_management_actions};
use monopolez::game::engine::event::GameEvent;
use monopolez::game::engine::turn::{TurnPhase, apply_management_decision, play_game};
use monopolez::game::ruleset::data::dex_ruleset;
use monopolez::game::state::model::GameState;
use monopolez::game::strategy::model::PlayerStrategy;
use monopolez::game::strategy::observation::{ObservedPolicy, ObservedStrategy, PublicObservation};
use monopolez::game::tile::lut::PURCHASE_PRICE_BY_TILE_ID;
use monopolez::game::tile::model::{Cash, TileId};

#[derive(Debug, Clone, Default)]
struct Buyer {
    decisions: usize,
}

impl ObservedPolicy for Buyer {
    fn should_purchase_property(&mut self, observation: PublicObservation<'_>, tile: TileId) -> bool {
        self.decisions += 1;
        assert!(!observation.history.is_empty());
        observation.cash_by_player_id[observation.player_id as usize] >= PURCHASE_PRICE_BY_TILE_ID[tile as usize] as Cash
    }
}

fn verify_game<const N: usize>() {
    let rules = dex_ruleset();
    let mut state = GameState::<N>::create_starting_state(&rules, 7);
    let mut strategies: [ObservedStrategy<Buyer>; N] = core::array::from_fn(|_| ObservedStrategy::new(Buyer::default()));
    play_game(&mut state, &rules, &mut strategies, 1000);
    assert!(strategies.iter().any(|strategy| strategy.policy.decisions > 0));
    assert!(strategies[0].history().iter().any(|event| matches!(event, GameEvent::CardDrawn { .. })));
    for strategy in &strategies {
        assert_eq!(strategy.history(), strategies[0].history());
    }
    let mut replay = GameState::<N>::create_starting_state(&rules, 7);
    let mut replay_strategies: [ObservedStrategy<Buyer>; N] =
        core::array::from_fn(|_| ObservedStrategy::new(Buyer::default()));
    play_game(&mut replay, &rules, &mut replay_strategies, 1000);
    assert_eq!(state, replay);
    assert_eq!(strategies[0].history(), replay_strategies[0].history());
}

#[test]
fn observed_policies_play_reproducible_games_with_shared_public_history() {
    verify_game::<2>();
    verify_game::<4>();
    verify_game::<8>();
}

#[test]
fn cloned_strategies_have_independent_history_and_policy_state() {
    let mut strategy = ObservedStrategy::new(Buyer::default());
    strategy.observe_public_event(GameEvent::TurnStarted { player_id: 0 });
    let mut fork = strategy.clone();
    fork.observe_public_event(GameEvent::TurnStarted { player_id: 1 });
    fork.policy.decisions += 1;
    assert_eq!(strategy.history().len(), 1);
    assert_eq!(fork.history().len(), 2);
    assert_eq!(strategy.policy.decisions, 0);
}

struct InvalidBuilder;

impl ObservedPolicy for InvalidBuilder {
    fn choose_management_action(
        &mut self,
        observation: PublicObservation<'_>,
        phase: ManagementPhase,
        legal: &[ManagementAction],
    ) -> Option<ManagementAction> {
        assert_eq!(observation.player_id, 0);
        assert_eq!(phase, ManagementPhase::Building);
        assert_eq!(legal, &[ManagementAction::Build(0), ManagementAction::Build(1)]);
        Some(ManagementAction::Build(u8::MAX))
    }
}

#[test]
fn engine_rejects_illegal_observed_policy_decisions() {
    let rules = dex_ruleset();
    let mut state = GameState::<2>::create_starting_state(&rules, 7);
    state.board.owned_tiles_by_player_id[0] = (1 << 1) | (1 << 3);
    let mut strategies: [ObservedStrategy<InvalidBuilder>; 2] = core::array::from_fn(|_| ObservedStrategy::new(InvalidBuilder));
    let legal = legal_management_actions(&state, &rules, 0, ManagementPhase::Building);
    let action = strategies[0].choose_management_action(&state, &rules, 0, &legal);
    let before = state;
    assert!(apply_management_decision(&mut state, &rules, &mut strategies, TurnPhase::Building, action).is_err());
    assert_eq!(state, before);
    assert!(strategies.iter().all(|strategy| strategy.history().is_empty()));
}

#[test]
fn observation_shows_the_public_state_and_history() {
    let rules = dex_ruleset();
    let state = GameState::<4>::create_starting_state(&rules, 7);
    let history = [GameEvent::TurnStarted { player_id: 0 }];
    let observation = PublicObservation::new(&state, &rules, 2, &history);
    assert_eq!(observation.player_id, 2);
    assert_eq!(observation.cash_by_player_id, &state.cash_by_player_id[..]);
    assert_eq!(observation.owned_tiles_by_player_id, &state.board.owned_tiles_by_player_id[..]);
    assert_eq!(observation.history, &history[..]);
    assert_eq!(*observation.rules, rules);
}

#[test]
fn observations_exclude_hidden_state_and_preserve_public_history() {
    let rules = dex_ruleset();
    let state = GameState::<4>::create_starting_state(&rules, 7);
    let mut other = state;
    other.rng = monopolez::game::rng::WyRand::new(123);
    for deck in &mut other.deck_state_by_deck_kind {
        deck.card_id_by_draw_position.reverse();
        deck.next_draw_position = 9;
    }
    assert_ne!(state, other);
    let history = [GameEvent::TurnStarted { player_id: 0 }];
    let observation = PublicObservation::new(&state, &rules, 0, &history);
    let hidden_changed = PublicObservation::new(&other, &rules, 0, &history);
    let shown = format!("{observation:?}");
    assert_eq!(shown, format!("{hidden_changed:?}"));
    for field in ["rng", "seed", "deck_state_by_deck_kind", "next_draw_position", "card_id_by_draw_position"] {
        assert!(!shown.contains(field));
    }
    assert_eq!(observation.history, &history[..]);
    other.cash_by_player_id[0] += 1;
    assert_ne!(shown, format!("{:?}", PublicObservation::new(&other, &rules, 0, &history)));
}
