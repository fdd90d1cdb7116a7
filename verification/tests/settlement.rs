use monopolez::game::engine::auction::settle_auction;
use monopolez::game::engine::trade::{calculate_tile_set_purchase_value, settle_trade};
use monopolez::game::ruleset::model::Ruleset;
use monopolez::game::state::model::GameState;
use monopolez::game::trade::model::TradeOffer;
use monopolez::game::strategy::rollout_player::RolloutStats;
use monopolez::simulation::rollout::pair_trials;
use monopolez::simulation::tournament::TournamentResult;

fn game(won: bool, turns: u64) -> TournamentResult {
    TournamentResult {
        game_count: 1,
        candidate_win_count: if won { 1 } else { 0 },
        decisive_game_count: 1,
        total_turn_count: turns,
    }
}

fn cost(decisions: u64) -> RolloutStats {
    RolloutStats { decisions, changed_decisions: 0, simulated_games: decisions * 2, unfinished_games: 0, failures: 0 }
}

#[test]
fn tied_top_bids_go_to_the_first_bidder_at_the_top_price() {
    assert_eq!(settle_auction(&vec![(1, 60), (0, 60)]), Some((1, 60)));
    assert_eq!(settle_auction(&vec![(3, 10), (1, 60), (0, 60), (2, 59)]), Some((1, 60)));
}

#[test]
fn the_winner_pays_one_more_than_the_best_other_bid() {
    assert_eq!(settle_auction(&vec![(0, 40), (1, 100), (2, 70)]), Some((1, 71)));
    assert_eq!(settle_auction(&vec![(0, 0), (1, 25)]), Some((1, 1)));
    assert_eq!(settle_auction(&vec![(0, 0), (1, 0)]), None);
    assert_eq!(settle_auction(&vec![]), None);
}

#[test]
fn paired_trials_pair_games_of_the_same_index() {
    let candidates = [(game(true, 40), cost(3)), (game(false, 50), cost(4)), (game(true, 60), cost(5))];
    let baselines = [game(true, 45), game(true, 55), game(false, 65)];
    let benchmark = pair_trials(&candidates, &baselines, 100);
    assert_eq!(benchmark.paired.both_win_count, 1);
    assert_eq!(benchmark.paired.candidate_only_win_count, 1);
    assert_eq!(benchmark.paired.baseline_only_win_count, 1);
    assert_eq!(benchmark.paired.neither_win_count, 0);
    assert_eq!(benchmark.paired.candidate.candidate_win_count, 2);
    assert_eq!(benchmark.paired.baseline.total_turn_count, 165);
    assert_eq!(benchmark.stats.decisions, 12);
}

#[test]
fn purchase_values_of_disjoint_tile_sets_add_up() {
    let browns = (1u64 << 1) | (1u64 << 3);
    let railroads = (1u64 << 5) | (1u64 << 15) | (1u64 << 25) | (1u64 << 35);
    assert_eq!(calculate_tile_set_purchase_value(browns), 120);
    assert_eq!(calculate_tile_set_purchase_value(railroads), 800);
    assert_eq!(calculate_tile_set_purchase_value(browns | railroads), 920);
}

fn offer(proposer: u8, recipient: u8, offered_tiles: u64, requested_tiles: u64, requested_cash: u32) -> TradeOffer {
    TradeOffer {
        proposer_player_id: proposer,
        recipient_player_id: recipient,
        offered_cash: 0,
        offered_tiles,
        offered_get_out_of_jail_free_cards: 0,
        requested_cash,
        requested_tiles,
        requested_get_out_of_jail_free_cards: 0,
    }
}

fn trading_state(rules: &Ruleset) -> GameState<2> {
    let mut state = GameState::<2>::create_starting_state(rules, 1);
    state.board.owned_tiles_by_player_id = [1 << 37, 1 << 39];
    state
}

#[test]
fn settled_trades_follow_the_answers() {
    let rules = Ruleset::default();
    let proposal = offer(0, 1, 0, 1 << 39, 0);
    let counter = offer(1, 0, 1 << 39, 0, 801);

    let mut state = trading_state(&rules);
    assert_eq!(settle_trade(&mut state, &rules, 0, Some(proposal), false, Some(counter), true), Some(counter));
    assert_eq!(state.board.owned_tiles_by_player_id, [(1 << 37) | (1 << 39), 0]);
    assert_eq!(state.cash_by_player_id, [699, 2301]);

    let original = trading_state(&rules);
    let mut state = original;
    assert_eq!(settle_trade(&mut state, &rules, 0, Some(proposal), false, Some(counter), false), None);
    assert_eq!(state, original);
    assert_eq!(settle_trade(&mut state, &rules, 0, Some(counter), true, None, false), None);
    assert_eq!(state, original);
    assert_eq!(settle_trade(&mut state, &rules, 0, None, true, Some(counter), true), None);
    assert_eq!(state, original);

    assert_eq!(settle_trade(&mut state, &rules, 0, Some(offer(0, 1, 1 << 37, 0, 100)), true, None, false), Some(offer(0, 1, 1 << 37, 0, 100)));
    assert_eq!(state.board.owned_tiles_by_player_id, [0, (1 << 37) | (1 << 39)]);
    assert_eq!(state.cash_by_player_id, [1600, 1400]);
}
