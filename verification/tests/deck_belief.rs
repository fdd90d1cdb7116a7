use monopolez::game::board::model::PlayerId;
use monopolez::game::card::belief::DeckBelief;
use monopolez::game::card::data::{CARD_COUNT_PER_DECK, card_definition};
use monopolez::game::card::model::{CardEffect, CardId, DeckKind};
use monopolez::game::engine::event::GameEvent;
use monopolez::game::engine::payment::Creditor;
use monopolez::game::engine::turn::play_turn;
use monopolez::game::rng::WyRand;
use monopolez::game::ruleset::data::{dex_ruleset, official_ruleset};
use monopolez::game::state::model::{DeckState, GameState};
use monopolez::game::strategy::model::JailAction;
use monopolez::game::strategy::observation::{ObservedPolicy, ObservedStrategy, PublicObservation};
use monopolez::game::trade::model::TradeOffer;

fn draw(deck: DeckKind, effect: CardEffect) -> GameEvent {
    GameEvent::CardDrawn { player_id: 0, deck, effect }
}

fn factorial(count: usize) -> u64 {
    (1..=count as u64).product()
}

fn effect_of(deck: DeckKind, card_id: CardId) -> CardEffect {
    card_definition(deck, card_id).effect
}

fn replay(deck: DeckKind, sample: DeckState, history: &[GameEvent]) -> (u8, Option<PlayerId>) {
    let mut cursor = 0;
    let mut holder = None;
    for event in history {
        match *event {
            GameEvent::CardDrawn { player_id, deck: drawn_deck, effect } if drawn_deck == deck => {
                let actual = loop {
                    let effect = effect_of(deck, sample.card_id_by_draw_position[cursor]);
                    cursor = (cursor + 1) % CARD_COUNT_PER_DECK;
                    if holder.is_none() || effect != CardEffect::GetOutOfJailFree {
                        break effect;
                    }
                };
                assert_eq!(effect, actual);
                if effect == CardEffect::GetOutOfJailFree {
                    holder = Some(player_id);
                }
            },
            GameEvent::JailCardUsed { player_id, deck: used_deck } if used_deck == deck => {
                assert_eq!(holder, Some(player_id));
                holder = None;
            },
            GameEvent::Bankrupt { player_id, creditor, .. } if holder == Some(player_id) => {
                holder = match creditor {
                    Creditor::Player(player) => Some(player),
                    _ => None,
                };
            },
            _ => {},
        }
    }
    (cursor as u8, holder)
}

fn verify_samples(deck: DeckKind, history: &[GameEvent]) -> DeckBelief {
    let belief = DeckBelief::from_start_history(deck, history).unwrap();
    let mut rng = WyRand::new(17);
    for _ in 0..32 {
        let sample = belief.sample(&mut rng);
        let mut sorted = sample.card_id_by_draw_position;
        sorted.sort_unstable();
        assert_eq!(sorted, core::array::from_fn(|id| id as CardId));
        assert_eq!(replay(deck, sample, history), (sample.next_draw_position, belief.holder()));
        assert!(belief.allows(&sample));
    }
    belief
}

fn effects(deck: DeckKind) -> Vec<CardEffect> {
    (0..CARD_COUNT_PER_DECK as CardId).map(|card_id| effect_of(deck, card_id)).collect()
}

#[test]
fn traded_jail_cards_can_be_used_by_the_new_holder() {
    for requested in [false, true] {
        let deck = DeckKind::Chance;
        let offer = TradeOffer {
            proposer_player_id: if requested { 1 } else { 0 },
            recipient_player_id: if requested { 0 } else { 1 },
            offered_cash: 0,
            requested_cash: 0,
            offered_tiles: 0,
            requested_tiles: 0,
            offered_get_out_of_jail_free_cards: u8::from(!requested),
            requested_get_out_of_jail_free_cards: u8::from(requested),
        };
        let mut history = vec![draw(deck, CardEffect::GetOutOfJailFree), GameEvent::TradeExecuted { offer }];
        assert_eq!(DeckBelief::from_start_history(deck, &history).unwrap().holder(), Some(1));
        history.push(GameEvent::JailCardUsed { player_id: 1, deck });
        assert_eq!(DeckBelief::from_start_history(deck, &history).unwrap().holder(), None);
    }
}

#[test]
fn empty_history_preserves_all_orders_and_sampling_is_reproducible() {
    for deck in [DeckKind::Chance, DeckKind::CommunityChest] {
        let belief = verify_samples(deck, &[]);
        assert_eq!(belief.permutation_count(), factorial(16));
        let mut first = WyRand::new(91);
        let mut second = first;
        let samples: Vec<_> = (0..32).map(|_| belief.sample(&mut first)).collect();
        assert_eq!(samples, (0..32).map(|_| belief.sample(&mut second)).collect::<Vec<_>>());
        assert!(samples.windows(2).any(|pair| pair[0] != pair[1]));
    }
}

#[test]
fn repeated_effects_count_distinct_cards_without_inventing_extra_copies() {
    let deck = DeckKind::Chance;
    let event = draw(deck, CardEffect::AdvanceToNearestRailroad);
    assert_eq!(verify_samples(deck, &[event]).permutation_count(), 2 * factorial(15));
    assert_eq!(verify_samples(deck, &[event, event]).permutation_count(), 2 * factorial(14));
    assert!(DeckBelief::from_start_history(deck, &[event, event, event]).is_err());
}

#[test]
fn held_cards_are_skipped_then_return_to_the_original_cycle() {
    for deck in [DeckKind::Chance, DeckKind::CommunityChest] {
        let mut history = vec![draw(deck, CardEffect::GetOutOfJailFree)];
        let other: Vec<_> = effects(deck)
            .into_iter()
            .filter(|effect| *effect != CardEffect::GetOutOfJailFree)
            .map(|effect| draw(deck, effect))
            .collect();
        history.extend_from_slice(&other);
        let first = verify_samples(deck, &history);
        assert_eq!(first.holder(), Some(0));
        history.extend_from_slice(&other);
        assert_eq!(verify_samples(deck, &history).permutation_count(), first.permutation_count());
        history.push(GameEvent::JailCardUsed { player_id: 0, deck });
        assert_eq!(verify_samples(deck, &history).holder(), None);
        history.push(draw(deck, CardEffect::GetOutOfJailFree));
        assert_eq!(verify_samples(deck, &history).holder(), Some(0));
        history.push(draw(deck, CardEffect::GetOutOfJailFree));
        assert!(DeckBelief::from_start_history(deck, &history).is_err());
    }
}

#[test]
fn bankruptcy_transfers_or_returns_cards_and_invalid_use_is_rejected() {
    let deck = DeckKind::Chance;
    let card_draw = draw(deck, CardEffect::GetOutOfJailFree);
    for creditor in [Creditor::Player(1), Creditor::Bank, Creditor::FreeParkingJackpot] {
        let mut history = vec![card_draw, GameEvent::Bankrupt { player_id: 0, creditor, remaining_cash: 0 }];
        let holder = if creditor == Creditor::Player(1) { Some(1) } else { None };
        assert_eq!(verify_samples(deck, &history).holder(), holder);
        if holder.is_some() {
            history.push(GameEvent::JailCardUsed { player_id: 1, deck });
            assert_eq!(verify_samples(deck, &history).holder(), None);
        }
        history.push(GameEvent::JailCardUsed { player_id: 0, deck });
        assert!(DeckBelief::from_start_history(deck, &history).is_err());
    }
    assert!(DeckBelief::from_start_history(deck, &[GameEvent::JailCardUsed { player_id: 0, deck }]).is_err());
    assert!(DeckBelief::from_start_history(deck, &[draw(deck, CardEffect::CollectFromBank { amount: 999 })]).is_err());
}

struct Policy;

impl ObservedPolicy for Policy {
    fn should_purchase_property(&mut self, _observation: PublicObservation<'_>, _tile: u8) -> bool {
        true
    }

    fn choose_jail_action(&mut self, _observation: PublicObservation<'_>, legal: &[JailAction]) -> JailAction {
        if legal.contains(&JailAction::UseGetOutOfJailFreeCard) {
            JailAction::UseGetOutOfJailFreeCard
        } else {
            JailAction::RollForDoubles
        }
    }
}

#[test]
fn real_game_histories_retain_the_actual_deck_as_a_possible_world() {
    for rules in [dex_ruleset(), official_ruleset()] {
        for seed in 0..8 {
            let mut state = GameState::<4>::create_starting_state(&rules, seed);
            let mut strategies: [ObservedStrategy<Policy>; 4] = core::array::from_fn(|_| ObservedStrategy::new(Policy));
            for turn in 0..300 {
                play_turn(&mut state, &rules, &mut strategies);
                if turn % 100 != 99 {
                    continue;
                }
                for deck in [DeckKind::Chance, DeckKind::CommunityChest] {
                    let history = strategies[0].history();
                    let belief = verify_samples(deck, history);
                    let actual = state.deck_state_by_deck_kind[deck.index()];
                    assert_eq!(replay(deck, actual, history), (actual.next_draw_position, belief.holder()));
                    assert_eq!(belief.holder(), state.get_out_of_jail_free_card_holder_by_deck_kind[deck.index()]);
                    assert!(belief.allows(&actual));
                }
            }
        }
    }
}

#[test]
fn a_deck_the_history_contradicts_is_not_allowed() {
    let deck = DeckKind::Chance;
    let belief = DeckBelief::from_start_history(deck, &[draw(deck, CardEffect::GoToJail)]).unwrap();
    let order: [CardId; 16] = core::array::from_fn(|id| id as CardId);
    assert!(!belief.allows(&DeckState { card_id_by_draw_position: order, next_draw_position: 1 }));
    let mut jail_first = order;
    jail_first.swap(0, 10);
    assert!(belief.allows(&DeckState { card_id_by_draw_position: jail_first, next_draw_position: 1 }));
    assert!(!belief.allows(&DeckState { card_id_by_draw_position: jail_first, next_draw_position: 2 }));
}
