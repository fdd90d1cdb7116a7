use vstd::prelude::*;

use crate::game::strategy::model::policies_kept;

use super::action::purchased;
use super::event::{
    GameEvent,
    publish_event,
};
use crate::game::board::model::PlayerId;
use crate::game::ruleset::model::{
    AuctionEligibility,
    Ruleset,
};
use crate::game::state::model::{
    GameState,
    contains_player,
    group_player_mask,
    lemma_buildings_frame,
    lemma_ownership_grant,
    lemma_wf_frame,
    only_holdings_changed,
};
use crate::game::strategy::model::PlayerStrategy;
use crate::game::tile::data::TILE_COUNT;
use crate::game::strategy::greedy::price_of;
use crate::game::tile::lut::{
    OWNABLE_TILE_SET_MASK,
    PURCHASE_PRICE_BY_TILE_ID,
};
use crate::game::tile::model::{
    Cash,
    TileId,
    contains_tile,
    group_tile_mask,
    tile_in,
    with_tile,
};

verus! {

broadcast use {group_player_mask, group_tile_mask};

/// The standing of an auction after the bids `bids`, in bidding order: the leading bidder, the
/// leading bid, and the best bid below it. A bid leads only when it beats the leading bid, so
/// the earlier of two equal bids leads.
pub open spec fn auction_standing(bids: Seq<(PlayerId, Cash)>) -> (Option<PlayerId>, Cash, Cash)
    decreases bids.len(),
{
    if bids.len() == 0 {
        (None, 0, 0)
    } else {
        let (leader, top, second) = auction_standing(bids.drop_last());
        let (bidder, bid) = bids.last();
        if bid > top {
            (Some(bidder), bid, top)
        } else if bid > second {
            (leader, top, bid)
        } else {
            (leader, top, second)
        }
    }
}

/// The price the winner pays: one more than the best losing bid, but never more than the
/// winning bid.
pub open spec fn auction_price(winning_bid: Cash, runner_up_bid: Cash) -> Cash {
    if runner_up_bid == Cash::MAX || runner_up_bid + 1 > winning_bid {
        winning_bid
    } else {
        (runner_up_bid + 1) as Cash
    }
}

pub fn auction_sale_price(winning_bid: Cash, runner_up_bid: Cash) -> (price: Cash)
    ensures
        price == auction_price(winning_bid, runner_up_bid),
{
    let raised = runner_up_bid.saturating_add(1);
    if raised < winning_bid {
        raised
    } else {
        winning_bid
    }
}

/// The winner of an auction with the bids `bids`, in bidding order, and the price, if anybody
/// bid above zero.
pub open spec fn auction_result(bids: Seq<(PlayerId, Cash)>) -> Option<(PlayerId, Cash)> {
    let (leader, top, second) = auction_standing(bids);
    match leader {
        Some(winner) => Some((winner, auction_price(top, second))),
        None => None,
    }
}

proof fn lemma_auction_standing_bounds(bids: Seq<(PlayerId, Cash)>)
    ensures
        ({
            let (leader, top, second) = auction_standing(bids);
            &&& second <= top
            &&& leader is None ==> top == 0
            &&& leader matches Some(winner) ==> top > 0 && exists|index: int|
                0 <= index < bids.len() && #[trigger] bids[index] == (winner, top)
        }),
    decreases bids.len(),
{
    if bids.len() > 0 {
        let earlier = bids.drop_last();
        lemma_auction_standing_bounds(earlier);
        let (leader, top, second) = auction_standing(earlier);
        if !(bids.last().1 > top) {
            if let Some(winner) = leader {
                let index = choose|index: int| 0 <= index < earlier.len() && #[trigger] earlier[index] == (winner, top);
                assert(bids[index] == (winner, top));
            }
        } else {
            assert(bids[bids.len() - 1] == bids.last());
        }
    }
}

/// The highest of `bids`, or zero where there are none.
pub open spec fn highest_bid(bids: Seq<(PlayerId, Cash)>) -> Cash
    decreases bids.len(),
{
    if bids.len() == 0 {
        0
    } else {
        let earlier = highest_bid(bids.drop_last());
        if bids.last().1 > earlier {
            bids.last().1
        } else {
            earlier
        }
    }
}

/// The highest of `bids` but the one at `skipped`, or zero where there are no others.
pub open spec fn highest_other_bid(bids: Seq<(PlayerId, Cash)>, skipped: int) -> Cash
    decreases bids.len(),
{
    if bids.len() == 0 {
        0
    } else {
        let earlier = highest_other_bid(bids.drop_last(), skipped);
        if skipped == bids.len() - 1 || bids.last().1 <= earlier {
            earlier
        } else {
            bids.last().1
        }
    }
}

/// Whether the bid at `index` is the first of the highest bids, and above zero.
pub open spec fn first_highest(bids: Seq<(PlayerId, Cash)>, index: int) -> bool {
    &&& 0 <= index < bids.len()
    &&& bids[index].1 > 0
    &&& bids[index].1 == highest_bid(bids)
    &&& forall|earlier: int| 0 <= earlier < index ==> #[trigger] bids[earlier].1 < bids[index].1
}

proof fn lemma_other_bid_past_end(bids: Seq<(PlayerId, Cash)>, skipped: int)
    requires
        skipped >= bids.len(),
    ensures
        highest_other_bid(bids, skipped) == highest_bid(bids),
    decreases bids.len(),
{
    if bids.len() > 0 {
        lemma_other_bid_past_end(bids.drop_last(), skipped);
    }
}

proof fn lemma_highest_bid_bounds(bids: Seq<(PlayerId, Cash)>)
    ensures
        forall|index: int| 0 <= index < bids.len() ==> #[trigger] bids[index].1 <= highest_bid(bids),
    decreases bids.len(),
{
    if bids.len() > 0 {
        lemma_highest_bid_bounds(bids.drop_last());
        assert forall|index: int| 0 <= index < bids.len() implies #[trigger] bids[index].1 <= highest_bid(bids) by {
            if index < bids.len() - 1 {
                assert(bids.drop_last()[index] == bids[index]);
            }
        }
    }
}

/// The standing of an auction after `bids`: the first of the highest bids leads, and the
/// second figure is the highest of the other bids.
proof fn lemma_auction_standing(bids: Seq<(PlayerId, Cash)>)
    ensures
        ({
            let (leader, top, second) = auction_standing(bids);
            &&& top == highest_bid(bids)
            &&& leader is None ==> top == 0
            &&& leader matches Some(winner) ==> exists|index: int|
                #[trigger] first_highest(bids, index) && bids[index].0 == winner && second == highest_other_bid(
                    bids,
                    index,
                )
        }),
    decreases bids.len(),
{
    if bids.len() > 0 {
        let earlier = bids.drop_last();
        lemma_auction_standing(earlier);
        lemma_highest_bid_bounds(earlier);
        let (leader, top, second) = auction_standing(earlier);
        let last = bids.len() - 1;
        if bids.last().1 > top {
            lemma_other_bid_past_end(earlier, last);
            assert forall|index: int| 0 <= index < last implies #[trigger] bids[index].1 < bids[last].1 by {
                assert(earlier[index] == bids[index]);
            }
            assert(first_highest(bids, last));
        } else if let Some(winner) = leader {
            let index = choose|index: int|
                #[trigger] first_highest(earlier, index) && earlier[index].0 == winner && second == highest_other_bid(
                    earlier,
                    index,
                );
            assert forall|before: int| 0 <= before < index implies #[trigger] bids[before].1 < bids[index].1 by {
                assert(earlier[before] == bids[before] && earlier[index] == bids[index]);
                assert(earlier[before].1 < earlier[index].1);
            }
            assert(first_highest(bids, index));
        }
    }
}

/// An auction goes to the first of the highest bidders in bidding order, where anybody bid
/// above zero, and the winner pays one more than the highest other bid, but never more than
/// its own bid; where nobody bid above zero, nobody wins.
pub proof fn auction_goes_to_first_highest_bidder(bids: Seq<(PlayerId, Cash)>)
    ensures
        match auction_result(bids) {
            Some((winner, price)) => exists|index: int|
                #[trigger] first_highest(bids, index) && bids[index].0 == winner && price == auction_price(
                    bids[index].1,
                    highest_other_bid(bids, index),
                ),
            None => highest_bid(bids) == 0,
        },
{
    lemma_auction_standing(bids);
}

/// Settles an auction from the bids in bidding order.
pub fn settle_auction(bids: &Vec<(PlayerId, Cash)>) -> (result: Option<(PlayerId, Cash)>)
    ensures
        result == auction_result(bids@),
        result matches Some((winner, price)) ==> 0 < price && exists|index: int|
            0 <= index < bids@.len() && #[trigger] bids@[index].0 == winner && price <= bids@[index].1,
{
    let mut leader: Option<PlayerId> = None;
    let mut top: Cash = 0;
    let mut second: Cash = 0;
    let mut index: usize = 0;
    while index < bids.len()
        invariant
            index <= bids.len(),
            (leader, top, second) == auction_standing(bids@.subrange(0, index as int)),
        decreases bids.len() - index,
    {
        assert(bids@.subrange(0, index as int + 1).drop_last() == bids@.subrange(0, index as int));
        let (bidder, bid) = bids[index];
        if bid > top {
            second = top;
            top = bid;
            leader = Some(bidder);
        } else if bid > second {
            second = bid;
        }
        index = index + 1;
    }
    assert(bids@.subrange(0, bids@.len() as int) == bids@);
    proof {
        lemma_auction_standing_bounds(bids@);
    }
    match leader {
        Some(winner) => {
            let price = auction_sale_price(top, second);
            proof {
                let at = choose|at: int| 0 <= at < bids@.len() && #[trigger] bids@[at] == (winner, top);
                assert(bids@[at].0 == winner && price <= bids@[at].1);
            }
            Some((winner, price))
        },
        None => None,
    }
}

/// Whether `bid` is what `strategy`, asked for its highest bid for a tile of `price` by a
/// player with `cash`, answered, capped at that cash.
pub open spec fn bid_answered<S: PlayerStrategy>(strategy: S, cash: int, price: int, bid: Cash) -> bool {
    exists|choice: Cash, answered: S|
        #[trigger] strategy.chooses_bid(cash, price, choice, answered) && bid == if choice < cash {
            choice
        } else {
            cash as Cash
        }
}

/// Seats counted from one seat are distinct.
proof fn lemma_seats_distinct(first: int, earlier: int, later: int, count: int)
    requires
        0 <= first < count,
        0 <= earlier < later < count,
    ensures
        (first + earlier) % count != (first + later) % count,
{
    assert((first + earlier) % count != (first + later) % count) by (nonlinear_arith)
        requires
            0 <= first < count,
            0 <= earlier < later < count,
    ;
}

/// Whether `player` may bid in an auction of a tile that `decliner` declined.
pub open spec fn may_bid<const N: usize>(state: GameState<N>, rules: Ruleset, decliner: int, player: int) -> bool {
    &&& 0 <= player < N
    &&& !state.is_bankrupt(player)
    &&& !(player == decliner && rules.auction_eligibility == AuctionEligibility::ExcludingDecliningPlayer)
}

/// The players who bid, in bidding order, among the seats `0..count` places after `decliner`:
/// each seat whose player may bid.
pub open spec fn bidders_below<const N: usize>(state: GameState<N>, rules: Ruleset, decliner: int, count: nat) -> Seq<PlayerId>
    decreases count,
{
    if count == 0 {
        Seq::empty()
    } else {
        let earlier = bidders_below(state, rules, decliner, (count - 1) as nat);
        let bidder = (decliner + count - 1) % (N as int);
        if may_bid(state, rules, decliner, bidder) {
            earlier.push(bidder as PlayerId)
        } else {
            earlier
        }
    }
}

/// Whether `tile` can be auctioned after `decliner` declined it: both exist, and the tile is
/// ownable and unowned.
pub open spec fn auctionable<const N: usize>(state: GameState<N>, decliner: int, tile: int) -> bool {
    &&& 0 <= decliner < N
    &&& 0 <= tile < TILE_COUNT
    &&& tile_in(OWNABLE_TILE_SET_MASK, tile)
    &&& state.board.owner_of(tile) is None
}

/// Auctions `tile`, which `declining_player_id` declined to buy. The players bid in seat order
/// from the decliner on; each bid is capped at the bidder's cash.
pub fn run_auction<const PLAYER_COUNT: usize, Strategy: PlayerStrategy>(
    game_state: &mut GameState<PLAYER_COUNT>,
    ruleset: &Ruleset,
    strategies: &mut [Strategy; PLAYER_COUNT],
    declining_player_id: PlayerId,
    tile_id: TileId,
)
    requires
        old(game_state).wf(),
    ensures
        policies_kept(old(strategies)@, final(strategies)@),
        final(game_state).wf(),
        only_holdings_changed(*old(game_state), *final(game_state)),
        !auctionable(*old(game_state), declining_player_id as int, tile_id as int) ==> *final(game_state) == *old(
            game_state,
        ) && *final(strategies) == *old(strategies),
        *final(game_state) == *old(game_state) || exists|winner: int, price: Cash|
            #![trigger purchased(*old(game_state), winner, tile_id as int, price)]
            {
                &&& auctionable(*old(game_state), declining_player_id as int, tile_id as int)
                &&& may_bid(*old(game_state), *ruleset, declining_player_id as int, winner)
                &&& 0 < price <= old(game_state).cash(winner)
                &&& *final(game_state) == purchased(*old(game_state), winner, tile_id as int, price)
            },
        forall|player: int, tile: int|
            tile != tile_id ==> #[trigger] final(game_state).board.owns(player, tile) == old(game_state).board.owns(
                player,
                tile,
            ),
        auctionable(*old(game_state), declining_player_id as int, tile_id as int) ==> exists|bids: Seq<(PlayerId, Cash)>|
            #![trigger auction_result(bids)]
            {
                &&& bids.map_values(|bid: (PlayerId, Cash)| bid.0) == bidders_below(
                    *old(game_state),
                    *ruleset,
                    declining_player_id as int,
                    PLAYER_COUNT as nat,
                )
                &&& forall|index: int| 0 <= index < bids.len() ==> #[trigger] bids[index].1 <= old(game_state).cash(
                    bids[index].0 as int,
                )
                &&& forall|index: int|
                    0 <= index < bids.len() ==> bid_answered(
                        old(strategies)@[bids[index].0 as int],
                        old(game_state).cash(bids[index].0 as int) as int,
                        price_of(PURCHASE_PRICE_BY_TILE_ID@, tile_id as int),
                        #[trigger] bids[index].1,
                    )
                &&& match auction_result(bids) {
                    Some((winner, price)) => *final(game_state) == purchased(
                        *old(game_state),
                        winner as int,
                        tile_id as int,
                        price,
                    ),
                    None => *final(game_state) == *old(game_state),
                }
            },
{
    if declining_player_id as usize >= PLAYER_COUNT || tile_id as usize >= TILE_COUNT || !contains_tile(
        OWNABLE_TILE_SET_MASK,
        tile_id,
    ) || game_state.board.get_tile_owner(tile_id).is_some() {
        return;
    }
    let mut bids: Vec<(PlayerId, Cash)> = Vec::new();
    let mut offset: usize = 0;
    while offset < PLAYER_COUNT
        invariant
            policies_kept(old(strategies)@, strategies@),
            offset <= PLAYER_COUNT <= 8,
            (declining_player_id as usize) < PLAYER_COUNT,
            forall|index: int| 0 <= index < bids@.len() ==> {
                let (bidder, bid) = #[trigger] bids@[index];
                &&& may_bid(*game_state, *ruleset, declining_player_id as int, bidder as int)
                &&& bid <= game_state.cash(bidder as int)
            },
            *game_state == *old(game_state),
            forall|index: int|
                0 <= index < bids@.len() ==> bid_answered(
                    old(strategies)@[bids@[index].0 as int],
                    old(game_state).cash(bids@[index].0 as int) as int,
                    price_of(PURCHASE_PRICE_BY_TILE_ID@, tile_id as int),
                    #[trigger] bids@[index].1,
                ),
            forall|later: int|
                offset <= later < PLAYER_COUNT ==> #[trigger] strategies@[(declining_player_id + later) % (
                PLAYER_COUNT as int)] == old(strategies)@[(declining_player_id + later) % (PLAYER_COUNT as int)],
            bids@.map_values(|bid: (PlayerId, Cash)| bid.0) == bidders_below(
                *game_state,
                *ruleset,
                declining_player_id as int,
                offset as nat,
            ),
        decreases PLAYER_COUNT - offset,
    {
        let bidder = ((declining_player_id as usize + offset) % PLAYER_COUNT) as PlayerId;
        let is_bankrupt = contains_player(game_state.bankrupt_players, bidder);
        let is_excluded = bidder == declining_player_id && ruleset.auction_eligibility
            == AuctionEligibility::ExcludingDecliningPlayer;
        if !is_bankrupt && !is_excluded {
            let ghost asked = strategies@;
            assert(asked[bidder as int] == old(strategies)@[bidder as int]) by {
                assert(strategies@[(declining_player_id + offset) % (PLAYER_COUNT as int)] == old(strategies)@[(
                declining_player_id + offset) % (PLAYER_COUNT as int)]);
            }
            let choice = strategies[bidder as usize].choose_max_auction_bid(game_state, ruleset, bidder, tile_id);
            let cash = game_state.cash_by_player_id[bidder as usize];
            let bid = if choice < cash {
                choice
            } else {
                cash
            };
            let ghost before_bids = bids@;
            bids.push((bidder, bid));
            proof {
                assert(old(strategies)@[bidder as int].chooses_bid(
                    old(game_state).cash(bidder as int) as int,
                    price_of(PURCHASE_PRICE_BY_TILE_ID@, tile_id as int),
                    choice,
                    strategies@[bidder as int],
                ));
                assert forall|index: int| 0 <= index < bids@.len() implies bid_answered(
                    old(strategies)@[bids@[index].0 as int],
                    old(game_state).cash(bids@[index].0 as int) as int,
                    price_of(PURCHASE_PRICE_BY_TILE_ID@, tile_id as int),
                    #[trigger] bids@[index].1,
                ) by {
                    if index < before_bids.len() {
                        assert(bids@[index] == before_bids[index]);
                    }
                }
                assert forall|later: int| offset + 1 <= later < PLAYER_COUNT implies #[trigger] strategies@[(
                declining_player_id + later) % (PLAYER_COUNT as int)] == old(strategies)@[(declining_player_id + later)
                    % (PLAYER_COUNT as int)] by {
                    lemma_seats_distinct(declining_player_id as int, offset as int, later, PLAYER_COUNT as int);
                    assert(asked[(declining_player_id + later) % (PLAYER_COUNT as int)] == old(strategies)@[(
                    declining_player_id + later) % (PLAYER_COUNT as int)]);
                }
            }
        }
        proof {
            assert(bids@.map_values(|bid: (PlayerId, Cash)| bid.0) =~= bidders_below(
                *game_state,
                *ruleset,
                declining_player_id as int,
                (offset + 1) as nat,
            ));
        }
        offset = offset + 1;
    }
    let ghost before = *game_state;
    if let Some((winner, price)) = settle_auction(&bids) {
        let index = winner as usize;
        proof {
            let chosen = choose|at: int| 0 <= at < bids@.len() && #[trigger] bids@[at].0 == winner && price <= bids@[at].1;
            assert(may_bid(before, *ruleset, declining_player_id as int, winner as int));
        }
        game_state.cash_by_player_id[index] = game_state.cash_by_player_id[index] - price;
        game_state.board.owned_tiles_by_player_id[index] = with_tile(game_state.board.owned_tiles_by_player_id[index], tile_id);
        proof {
            assert(game_state.board == purchased(before, winner as int, tile_id as int, price).board);
            lemma_ownership_grant(before, *game_state, winner as int, tile_id as int);
            lemma_buildings_frame(before, *game_state);
            lemma_wf_frame(before, *game_state);
        }
        publish_event(
            strategies,
            index,
            GameEvent::PropertyPurchased { player_id: winner, tile_id, price, auction: true },
        );
    }
}

} // verus!
