use std::cell::RefCell;
use std::rc::Rc;

use monopolez::game::board::model::PlayerId;
use monopolez::game::card::data::card_definition;
use monopolez::game::card::model::{CardEffect, CardId, DeckKind};
use monopolez::game::engine::action::execute_jail_action;
use monopolez::game::engine::card::draw_and_apply_card;
use monopolez::game::engine::event::GameEvent;
use monopolez::game::engine::landing::{RentModifier, resolve_landing};
use monopolez::game::engine::movement::send_player_to_jail;
use monopolez::game::engine::payment::{Creditor, charge_player};
use monopolez::game::engine::turn::{TurnPhase, advance_turn, apply_jail_decision, play_game};
use monopolez::game::rng::{DiceRoll, WyRand};
use monopolez::game::ruleset::data::dex_ruleset;
use monopolez::game::ruleset::model::Ruleset;
use monopolez::game::state::model::GameState;
use monopolez::game::strategy::configurable::ConfigurableStrategy;
use monopolez::game::strategy::model::{JailAction, PlayerStrategy};
use monopolez::game::tile::model::{Cash, PropertyId, TileId};
use monopolez::game::trade::model::TradeOffer;

struct Observer {
    public: Vec<GameEvent>,
    diagnostic: Rc<RefCell<Vec<GameEvent>>>,
}

impl PlayerStrategy for Observer {
    fn observe_public_event(&mut self, event: GameEvent) {
        self.public.push(event);
    }

    fn record_event(&mut self, event: GameEvent) {
        self.diagnostic.borrow_mut().push(event);
    }

    fn should_purchase_property<const N: usize>(
        &mut self,
        state: &GameState<N>,
        rules: &Ruleset,
        player: PlayerId,
        tile: TileId,
    ) -> bool {
        ConfigurableStrategy::new().should_purchase_property(state, rules, player, tile)
    }

    fn choose_max_auction_bid<const N: usize>(
        &mut self,
        state: &GameState<N>,
        rules: &Ruleset,
        player: PlayerId,
        tile: TileId,
    ) -> Cash {
        ConfigurableStrategy::new().choose_max_auction_bid(state, rules, player, tile)
    }

    fn choose_jail_action<const N: usize>(&mut self, state: &GameState<N>, rules: &Ruleset, player: PlayerId) -> JailAction {
        ConfigurableStrategy::new().choose_jail_action(state, rules, player)
    }

    fn choose_property_to_improve<const N: usize>(
        &mut self,
        state: &GameState<N>,
        rules: &Ruleset,
        player: PlayerId,
    ) -> Option<PropertyId> {
        ConfigurableStrategy::new().choose_property_to_improve(state, rules, player)
    }

    fn choose_tile_to_unmortgage<const N: usize>(
        &mut self,
        state: &GameState<N>,
        rules: &Ruleset,
        player: PlayerId,
    ) -> Option<TileId> {
        ConfigurableStrategy::new().choose_tile_to_unmortgage(state, rules, player)
    }

    fn propose_trade<const N: usize>(&mut self, state: &GameState<N>, rules: &Ruleset, player: PlayerId) -> Option<TradeOffer> {
        ConfigurableStrategy::new().propose_trade(state, rules, player)
    }

    fn should_accept_trade<const N: usize>(
        &mut self,
        state: &GameState<N>,
        rules: &Ruleset,
        player: PlayerId,
        offer: &TradeOffer,
    ) -> bool {
        ConfigurableStrategy::new().should_accept_trade(state, rules, player, offer)
    }
}

fn observers() -> [Observer; 2] {
    let diagnostic = Rc::new(RefCell::new(Vec::new()));
    core::array::from_fn(|_| Observer { public: Vec::new(), diagnostic: diagnostic.clone() })
}

fn assert_public_events(strategies: &[Observer; 2], expected: &[GameEvent]) {
    assert_eq!(*strategies[0].diagnostic.borrow(), expected);
    for strategy in strategies {
        assert_eq!(strategy.public, expected);
    }
}

fn rng_for_roll(double: bool) -> WyRand {
    (0..100).map(WyRand::new).find(|rng| rng.clone().roll_dice().is_double() == double).unwrap()
}

fn definitions(deck: DeckKind) -> Vec<CardEffect> {
    (0..16).map(|card_id: CardId| card_definition(deck, card_id).effect).collect()
}

#[test]
fn salary_is_public_before_landing_and_uses_the_resolved_rule_amount() {
    for (target, landing_salary, passing_salary) in [(0, 400, 200), (1, 400, 200), (0, 0, 200), (1, 400, 0)] {
        let mut rules = dex_ruleset();
        rules.go_landing_salary = landing_salary;
        rules.go_passing_salary = passing_salary;
        let mut state = GameState::<2>::create_starting_state(&rules, 7);
        let mut strategies = observers();
        state.rng = rng_for_roll(false);
        let roll = state.rng.clone().roll_dice();
        state.position_by_player_id[0] = 40 - roll.total() + target;
        state.board.owned_tiles_by_player_id[0] = 1 << 1;
        let before = state.cash_by_player_id[0];
        advance_turn(&mut state, &rules, &mut strategies, TurnPhase::Rolling);
        let amount = if target == 0 { landing_salary } else { passing_salary } as Cash;
        assert_eq!(state.cash_by_player_id[0], before + amount);
        let mut expected = vec![GameEvent::DiceRolled { player_id: 0, first: roll.first_die, second: roll.second_die }];
        if amount > 0 {
            expected.push(GameEvent::SalaryPaid { player_id: 0, amount, landed_on_go: target == 0 });
        }
        expected.push(GameEvent::Landed { player_id: 0, tile_id: target });
        assert_public_events(&strategies, &expected);
    }
}

#[test]
fn card_income_matches_public_cash_changes() {
    let mut rules = dex_ruleset();
    rules.go_landing_salary = 400;
    rules.go_passing_salary = 200;
    for deck in [DeckKind::Chance, DeckKind::CommunityChest] {
        for (card_id, effect) in definitions(deck).into_iter().enumerate() {
            let (amount, target) = match effect {
                CardEffect::CollectFromBank { amount } => (amount as Cash, None),
                CardEffect::AdvanceToTile { tile_id } if tile_id < 36 => (if tile_id == 0 { 400 } else { 200 }, Some(tile_id)),
                CardEffect::AdvanceToNearestRailroad => (200, Some(5)),
                CardEffect::AdvanceToNearestUtility => (200, Some(12)),
                _ => continue,
            };
            let mut state = GameState::<2>::create_starting_state(&rules, 7);
            let mut strategies = observers();
            state.position_by_player_id[0] = 36;
            if let Some(tile) = target {
                state.board.owned_tiles_by_player_id[0] = 1 << tile;
            }
            let deck_state = &mut state.deck_state_by_deck_kind[deck.index()];
            deck_state.next_draw_position =
                deck_state.card_id_by_draw_position.iter().position(|id| *id as usize == card_id).unwrap() as u8;
            let before = state.cash_by_player_id[0];
            draw_and_apply_card(&mut state, &rules, &mut strategies, 0, deck, DiceRoll { first_die: 1, second_die: 2 });
            assert_eq!(state.cash_by_player_id[0], before + amount);
            let events = strategies[0].diagnostic.borrow().clone();
            assert_eq!(events[0], GameEvent::CardDrawn { player_id: 0, deck, effect });
            assert_eq!(
                events[1],
                match target {
                    Some(tile) => GameEvent::SalaryPaid { player_id: 0, amount, landed_on_go: tile == 0 },
                    None => GameEvent::BankRewardCollected { player_id: 0, amount, deck },
                }
            );
            if let Some(tile) = target {
                assert_eq!(events.last(), Some(&GameEvent::Landed { player_id: 0, tile_id: tile }));
            } else {
                assert_eq!(events.len(), 2);
            }
            assert_public_events(&strategies, &events);
        }
    }
}

#[test]
fn free_parking_payout_is_public_and_cannot_be_collected_twice() {
    let rules = dex_ruleset();
    let mut state = GameState::<2>::create_starting_state(&rules, 7);
    let mut strategies = observers();
    state.position_by_player_id[0] = 20;
    state.free_parking_jackpot = 350;
    let before = state.cash_by_player_id[0];
    for _ in 0..2 {
        resolve_landing(
            &mut state,
            &rules,
            &mut strategies,
            0,
            DiceRoll { first_die: 1, second_die: 2 },
            RentModifier::Standard,
        );
    }
    assert_eq!(state.cash_by_player_id[0], before + 350);
    assert_eq!(state.free_parking_jackpot, 0);
    assert_public_events(
        &strategies,
        &[
            GameEvent::Landed { player_id: 0, tile_id: 20 },
            GameEvent::FreeParkingCollected { player_id: 0, amount: 350 },
            GameEvent::Landed { player_id: 0, tile_id: 20 },
        ],
    );
}

#[test]
fn jail_entry_is_public_for_tiles_cards_and_three_doubles() {
    let rules = dex_ruleset();
    let roll = DiceRoll { first_die: 1, second_die: 2 };
    for (tile, deck) in [(7, DeckKind::Chance), (2, DeckKind::CommunityChest)] {
        let effects = definitions(deck);
        let mut state = GameState::<2>::create_starting_state(&rules, 7);
        let mut strategies = observers();
        state.position_by_player_id[0] = tile;
        let deck_state = &mut state.deck_state_by_deck_kind[deck.index()];
        deck_state.next_draw_position = deck_state
            .card_id_by_draw_position
            .iter()
            .position(|id| effects[*id as usize] == CardEffect::GoToJail)
            .unwrap() as u8;
        resolve_landing(&mut state, &rules, &mut strategies, 0, roll, RentModifier::Standard);
        assert_eq!(state.jailed_players, 1);
        assert_public_events(
            &strategies,
            &[
                GameEvent::Landed { player_id: 0, tile_id: tile },
                GameEvent::CardDrawn { player_id: 0, deck, effect: CardEffect::GoToJail },
                GameEvent::SentToJail { player_id: 0 },
            ],
        );
    }
    let mut state = GameState::<2>::create_starting_state(&rules, 7);
    let mut strategies = observers();
    state.position_by_player_id[0] = 30;
    resolve_landing(&mut state, &rules, &mut strategies, 0, roll, RentModifier::Standard);
    assert_public_events(&strategies, &[GameEvent::Landed { player_id: 0, tile_id: 30 }, GameEvent::SentToJail { player_id: 0 }]);

    let mut state = GameState::<2>::create_starting_state(&rules, 7);
    let mut strategies = observers();
    state.rng = rng_for_roll(true);
    let roll = state.rng.clone().roll_dice();
    state.consecutive_double_count = 2;
    assert_eq!(advance_turn(&mut state, &rules, &mut strategies, TurnPhase::Rolling), TurnPhase::End);
    assert_eq!(state.jailed_players, 1);
    assert_public_events(
        &strategies,
        &[
            GameEvent::DiceRolled { player_id: 0, first: roll.first_die, second: roll.second_die },
            GameEvent::SentToJail { player_id: 0 },
        ],
    );
}

#[test]
fn jail_card_use_reveals_the_deck_before_release() {
    let rules = dex_ruleset();
    for deck in [DeckKind::Chance, DeckKind::CommunityChest] {
        let mut state = GameState::<2>::create_starting_state(&rules, 7);
        let mut strategies = observers();
        send_player_to_jail(&mut state, 0);
        state.get_out_of_jail_free_card_holder_by_deck_kind[deck.index()] = Some(0);
        execute_jail_action(&mut state, &rules, &mut strategies, 0, JailAction::UseGetOutOfJailFreeCard).unwrap();
        assert_eq!(state.get_out_of_jail_free_card_holder_by_deck_kind, [None; 2]);
        assert_eq!(state.jailed_players, 0);
        assert_public_events(
            &strategies,
            &[GameEvent::JailCardUsed { player_id: 0, deck }, GameEvent::ReleasedFromJail { player_id: 0 }],
        );
    }
    let mut state = GameState::<2>::create_starting_state(&rules, 7);
    let mut strategies = observers();
    send_player_to_jail(&mut state, 0);
    assert!(execute_jail_action(&mut state, &rules, &mut strategies, 0, JailAction::UseGetOutOfJailFreeCard).is_err());
    assert_public_events(&strategies, &[]);
}

#[test]
fn bail_and_doubles_publish_release_but_failed_rolls_do_not() {
    let rules = dex_ruleset();
    for (action, double, last_turn, released) in [
        (JailAction::PayBail, false, false, true),
        (JailAction::RollForDoubles, true, false, true),
        (JailAction::RollForDoubles, false, true, true),
        (JailAction::RollForDoubles, false, false, false),
    ] {
        let mut state = GameState::<2>::create_starting_state(&rules, 7);
        let mut strategies = observers();
        send_player_to_jail(&mut state, 0);
        state.rng = rng_for_roll(double);
        state.jail_turn_count_by_player_id[0] = if last_turn { rules.max_jail_turn_count - 1 } else { 0 };
        apply_jail_decision(&mut state, &rules, &mut strategies, action).unwrap();
        let events = strategies[0].diagnostic.borrow().clone();
        assert_eq!(
            events.iter().filter(|event| matches!(event, GameEvent::ReleasedFromJail { player_id: 0 })).count(),
            usize::from(released)
        );
        assert_public_events(&strategies, &events);
    }
}

fn verify_observers<const N: usize>() {
    let rules = dex_ruleset();
    let diagnostic = Rc::new(RefCell::new(Vec::new()));
    let mut strategies: [Observer; N] =
        core::array::from_fn(|_| Observer { public: Vec::new(), diagnostic: diagnostic.clone() });
    let mut state = GameState::<N>::create_starting_state(&rules, 3);
    play_game(&mut state, &rules, &mut strategies, 1000);
    let events = diagnostic.borrow().clone();
    assert!(!events.is_empty());
    assert!(events.iter().any(|event| matches!(event, GameEvent::CardDrawn { .. })));
    for strategy in strategies {
        assert_eq!(strategy.public, events);
    }
    let mut expected = GameState::<N>::create_starting_state(&rules, 3);
    play_game(&mut expected, &rules, &mut [ConfigurableStrategy::new(); N], 1000);
    assert_eq!(state, expected);
}

#[test]
fn public_events_reach_every_player_without_duplicating_trace_records() {
    verify_observers::<2>();
    verify_observers::<4>();
    verify_observers::<8>();
}

#[test]
fn liquidation_is_observed_by_creditors_and_other_players() {
    let rules = dex_ruleset();
    let diagnostic = Rc::new(RefCell::new(Vec::new()));
    let mut strategies: [Observer; 4] =
        core::array::from_fn(|_| Observer { public: Vec::new(), diagnostic: diagnostic.clone() });
    let mut state = GameState::<4>::create_starting_state(&rules, 3);
    state.cash_by_player_id[0] = 0;
    state.board.owned_tiles_by_player_id[0] = (1 << 1) | (1 << 3);
    state.board.improvement_level_by_property_id[0] = 1;
    state.board.bank_house_count -= 1;
    charge_player(&mut state, &rules, &mut strategies, 0, 50, Creditor::Player(1));
    let events = diagnostic.borrow().clone();
    assert!(events.iter().any(|event| matches!(event, GameEvent::BuildingSold { .. })));
    assert!(events.iter().any(|event| matches!(event, GameEvent::TileMortgaged { .. })));
    for strategy in strategies {
        assert_eq!(strategy.public, events);
    }
}

#[test]
fn jail_and_jail_card_draws_change_only_what_they_name() {
    let rules = dex_ruleset();
    for (card_id, check) in [(10usize, "jail"), (8, "card"), (7, "bank")] {
        let mut state = GameState::<2>::create_starting_state(&rules, 7);
        let mut strategies = observers();
        state.position_by_player_id[0] = 7;
        let deck_state = &mut state.deck_state_by_deck_kind[DeckKind::Chance.index()];
        deck_state.next_draw_position =
            deck_state.card_id_by_draw_position.iter().position(|id| *id as usize == card_id).unwrap() as u8;
        let mut expected = state;
        let deck = &mut expected.deck_state_by_deck_kind[DeckKind::Chance.index()];
        deck.next_draw_position = (deck.next_draw_position + 1) % 16;
        match check {
            "jail" => {
                expected.position_by_player_id[0] = 10;
                expected.jail_turn_count_by_player_id[0] = 0;
                expected.jailed_players |= 1;
                expected.consecutive_double_count = 0;
            },
            "card" => expected.get_out_of_jail_free_card_holder_by_deck_kind[DeckKind::Chance.index()] = Some(0),
            _ => expected.cash_by_player_id[0] += 50,
        }
        draw_and_apply_card(&mut state, &rules, &mut strategies, 0, DeckKind::Chance, DiceRoll { first_die: 3, second_die: 4 });
        assert_eq!(state, expected, "{check}");
    }
}
