use vstd::prelude::*;

use crate::game::strategy::model::{
    counter_acceptance_by,
    counteroffer_by,
    policies_kept,
    trade_acceptance_by,
    trade_proposal_by,
};

use super::event::{
    GameEvent,
    publish_event,
};
use super::mortgage::{
    calculate_mortgage_transfer_interest,
    group_improved,
    has_group_improvements,
    transfer_interest_spec,
};
use crate::game::board::model::{
    BoardState,
    PlayerId,
};
use crate::game::card::model::DeckKind;
use crate::game::ruleset::model::{
    BARTER_GET_OUT_OF_JAIL_FREE_CARDS,
    BARTER_MONEY,
    BARTER_MORTGAGED_PROPERTIES,
    BARTER_UNMORTGAGED_PROPERTIES,
    PermittedBarterTimesMask,
    Ruleset,
    mask_contains,
    mask_contains_spec,
};
use crate::game::state::model::{
    GameState,
    contains_player,
    group_player_mask,
    lemma_buildings_frame,
    only_holdings_changed,
};
use crate::game::strategy::model::PlayerStrategy;
use crate::game::tile::data::TILE_COUNT;
use crate::game::tile::lut::{
    OWNABLE_TILE_SET_MASK,
    PURCHASE_PRICE_BY_TILE_ID,
    lemma_ownable_mask_membership,
    lemma_tile_tables,
};
use crate::game::tile::model::{
    Cash,
    TileSetMask,
    contains_tile,
    group_tile_mask,
    tile_in,
};
use crate::game::trade::model::{
    DeckKindSetMask,
    TradeOffer,
    deck_kind_bit,
};

verus! {

broadcast use {group_player_mask, group_tile_mask};

/// The cash of both sides after `offer`: each pays the cash it gives, receives the cash it
/// asks for, and pays the interest on the mortgaged tiles it receives; `None` when a side
/// cannot pay or a balance would overflow.
pub open spec fn trade_balances_spec<const N: usize>(state: GameState<N>, offer: TradeOffer) -> Option<(Cash, Cash)> {
    let proposer = state.cash(offer.proposer_player_id as int) - offer.offered_cash;
    let recipient = state.cash(offer.recipient_player_id as int) - offer.requested_cash;
    let proposer_gross = proposer + offer.requested_cash;
    let recipient_gross = recipient + offer.offered_cash;
    let proposer_net = proposer_gross - transfer_interest_spec(state, offer.requested_tiles);
    let recipient_net = recipient_gross - transfer_interest_spec(state, offer.offered_tiles);
    if proposer < 0 || proposer_gross > Cash::MAX || proposer_net < 0 || recipient < 0 || recipient_gross > Cash::MAX
        || recipient_net < 0 {
        None
    } else {
        Some((proposer_net as Cash, recipient_net as Cash))
    }
}

/// Whether `player` holds the Get Out of Jail Free card of every deck in `cards`.
pub open spec fn holds_cards<const N: usize>(state: GameState<N>, player: int, cards: DeckKindSetMask) -> bool {
    &&& cards & 1u8 != 0 ==> state.get_out_of_jail_free_card_holder_by_deck_kind@[0] == Some(player as PlayerId)
    &&& cards & 2u8 != 0 ==> state.get_out_of_jail_free_card_holder_by_deck_kind@[1] == Some(player as PlayerId)
}

/// Whether the ruleset permits every kind of thing that `offer` trades.
pub open spec fn tactics_permitted<const N: usize>(state: GameState<N>, rules: Ruleset, offer: TradeOffer) -> bool {
    let tactics = rules.permitted_barter_tactics;
    let traded = offer.offered_tiles | offer.requested_tiles;
    &&& (offer.offered_cash > 0 || offer.requested_cash > 0) ==> mask_contains_spec(tactics, BARTER_MONEY)
    &&& traded & !state.board.mortgaged_tiles != 0 ==> mask_contains_spec(tactics, BARTER_UNMORTGAGED_PROPERTIES)
    &&& traded & state.board.mortgaged_tiles != 0 ==> mask_contains_spec(tactics, BARTER_MORTGAGED_PROPERTIES)
    &&& (offer.offered_get_out_of_jail_free_cards | offer.requested_get_out_of_jail_free_cards) != 0 ==> mask_contains_spec(
        tactics,
        BARTER_GET_OUT_OF_JAIL_FREE_CARDS,
    )
}

/// Whether `offer` may be executed: two different players still in the game trade ownable
/// tiles and jail cards that they hold, and cash that they have, no traded tile lies in a
/// group with buildings, both balances work out, and the ruleset permits what is traded.
pub open spec fn trade_permitted_spec<const N: usize>(state: GameState<N>, rules: Ruleset, offer: TradeOffer) -> bool {
    let proposer = offer.proposer_player_id as int;
    let recipient = offer.recipient_player_id as int;
    let traded = offer.offered_tiles | offer.requested_tiles;
    &&& proposer != recipient
    &&& proposer < N
    &&& recipient < N
    &&& forall|tile: int| #[trigger] tile_in(traded, tile) ==> tile_in(OWNABLE_TILE_SET_MASK, tile)
    &&& (offer.offered_get_out_of_jail_free_cards | offer.requested_get_out_of_jail_free_cards) & !3u8 == 0
    &&& !state.is_bankrupt(proposer)
    &&& !state.is_bankrupt(recipient)
    &&& forall|tile: int| tile_in(offer.offered_tiles, tile) ==> state.board.owns(proposer, tile)
    &&& forall|tile: int| tile_in(offer.requested_tiles, tile) ==> state.board.owns(recipient, tile)
    &&& state.cash(proposer) >= offer.offered_cash
    &&& state.cash(recipient) >= offer.requested_cash
    &&& trade_balances_spec(state, offer) is Some
    &&& holds_cards(state, proposer, offer.offered_get_out_of_jail_free_cards)
    &&& holds_cards(state, recipient, offer.requested_get_out_of_jail_free_cards)
    &&& forall|tile: int| #[trigger] tile_in(traded, tile) ==> !group_improved(state, tile)
    &&& tactics_permitted(state, rules, offer)
}

/// The holder of the jail card of deck `deck` after `offer`: the cards each side gives go to
/// the other side.
pub open spec fn holder_after_trade(holder: Option<PlayerId>, deck: int, offer: TradeOffer) -> Option<PlayerId> {
    let bit = if deck == 0 {
        1u8
    } else {
        2u8
    };
    if offer.requested_get_out_of_jail_free_cards & bit != 0 {
        Some(offer.proposer_player_id)
    } else if offer.offered_get_out_of_jail_free_cards & bit != 0 {
        Some(offer.recipient_player_id)
    } else {
        holder
    }
}

/// The state after the permitted `offer` is executed.
pub open spec fn traded_state<const N: usize>(state: GameState<N>, offer: TradeOffer) -> GameState<N> {
    let proposer = offer.proposer_player_id as int;
    let recipient = offer.recipient_player_id as int;
    let owned = state.board.owned_tiles_by_player_id;
    let (proposer_cash, recipient_cash) = trade_balances_spec(state, offer).unwrap();
    let holders = state.get_out_of_jail_free_card_holder_by_deck_kind;
    GameState {
        board: BoardState {
            owned_tiles_by_player_id: vstd::array::spec_array_update(
                vstd::array::spec_array_update(owned, proposer, (owned@[proposer] & !offer.offered_tiles) | offer.requested_tiles),
                recipient,
                (owned@[recipient] & !offer.requested_tiles) | offer.offered_tiles,
            ),
            ..state.board
        },
        cash_by_player_id: vstd::array::spec_array_update(
            vstd::array::spec_array_update(state.cash_by_player_id, proposer, proposer_cash),
            recipient,
            recipient_cash,
        ),
        get_out_of_jail_free_card_holder_by_deck_kind: vstd::array::spec_array_update(
            vstd::array::spec_array_update(holders, 0, holder_after_trade(holders@[0], 0, offer)),
            1,
            holder_after_trade(holders@[1], 1, offer),
        ),
        ..state
    }
}

fn trade_balances<const N: usize>(state: &GameState<N>, offer: &TradeOffer) -> (balances: Option<(Cash, Cash)>)
    requires
        (offer.proposer_player_id as usize) < N,
        (offer.recipient_player_id as usize) < N,
        forall|tile: int| #[trigger] tile_in(offer.offered_tiles | offer.requested_tiles, tile) ==> tile_in(OWNABLE_TILE_SET_MASK, tile),
    ensures
        balances == trade_balances_spec(*state, *offer),
{
    broadcast use lemma_ownable_mask_membership;

    proof {
        assert forall|tile: int| #[trigger] tile_in(offer.requested_tiles, tile) implies tile < TILE_COUNT by {
            assert(tile_in(offer.offered_tiles | offer.requested_tiles, tile));
        }
        assert forall|tile: int| #[trigger] tile_in(offer.offered_tiles, tile) implies tile < TILE_COUNT by {
            assert(tile_in(offer.offered_tiles | offer.requested_tiles, tile));
        }
    }
    let proposer_cash = state.cash_by_player_id[offer.proposer_player_id as usize];
    let recipient_cash = state.cash_by_player_id[offer.recipient_player_id as usize];
    let requested_interest = calculate_mortgage_transfer_interest(state, offer.requested_tiles);
    let offered_interest = calculate_mortgage_transfer_interest(state, offer.offered_tiles);
    let proposer_after = match proposer_cash.checked_sub(offer.offered_cash) {
        Some(cash) => match cash.checked_add(offer.requested_cash) {
            Some(cash) => cash.checked_sub(requested_interest),
            None => None,
        },
        None => None,
    };
    let proposer_after = match proposer_after {
        Some(cash) => cash,
        None => return None,
    };
    let recipient_after = match recipient_cash.checked_sub(offer.requested_cash) {
        Some(cash) => match cash.checked_add(offer.offered_cash) {
            Some(cash) => cash.checked_sub(offered_interest),
            None => None,
        },
        None => None,
    };
    match recipient_after {
        Some(cash) => Some((proposer_after, cash)),
        None => None,
    }
}

fn holds_get_out_of_jail_free_cards<const N: usize>(state: &GameState<N>, player: PlayerId, traded_cards: DeckKindSetMask) -> (holds:
    bool)
    ensures
        holds == holds_cards(*state, player as int, traded_cards),
{
    if traded_cards & deck_kind_bit(DeckKind::Chance) != 0 && state.get_out_of_jail_free_card_holder_by_deck_kind[0]
        != Some(player) {
        return false;
    }
    if traded_cards & deck_kind_bit(DeckKind::CommunityChest) != 0 && state.get_out_of_jail_free_card_holder_by_deck_kind[1]
        != Some(player) {
        return false;
    }
    true
}

fn are_tactics_permitted<const N: usize>(state: &GameState<N>, rules: &Ruleset, offer: &TradeOffer) -> (permitted: bool)
    ensures
        permitted == tactics_permitted(*state, *rules, *offer),
{
    let tactics = rules.permitted_barter_tactics;
    if (offer.offered_cash > 0 || offer.requested_cash > 0) && !mask_contains(tactics, BARTER_MONEY) {
        return false;
    }
    let traded_tiles = offer.traded_tiles();
    if traded_tiles & !state.board.mortgaged_tiles != 0 && !mask_contains(tactics, BARTER_UNMORTGAGED_PROPERTIES) {
        return false;
    }
    if traded_tiles & state.board.mortgaged_tiles != 0 && !mask_contains(tactics, BARTER_MORTGAGED_PROPERTIES) {
        return false;
    }
    offer.traded_get_out_of_jail_free_cards() == 0 || mask_contains(tactics, BARTER_GET_OUT_OF_JAIL_FREE_CARDS)
}

pub fn is_trade_permitted<const N: usize>(state: &GameState<N>, rules: &Ruleset, offer: &TradeOffer) -> (permitted: bool)
    ensures
        permitted == trade_permitted_spec(*state, *rules, *offer),
{
    broadcast use lemma_ownable_mask_membership;

    let proposer = offer.proposer_player_id as usize;
    let recipient = offer.recipient_player_id as usize;
    if proposer == recipient || proposer >= N || recipient >= N {
        return false;
    }
    let traded_tiles = offer.traded_tiles();
    if traded_tiles & !OWNABLE_TILE_SET_MASK != 0 {
        proof {
            crate::game::tile::model::lemma_tiles_empty(traded_tiles & !OWNABLE_TILE_SET_MASK);
        }
        return false;
    }
    proof {
        crate::game::tile::model::lemma_tiles_empty(traded_tiles & !OWNABLE_TILE_SET_MASK);
        assert forall|tile: int| tile_in(traded_tiles, tile) implies tile_in(OWNABLE_TILE_SET_MASK, tile) by {
            assert(!tile_in(traded_tiles & !OWNABLE_TILE_SET_MASK, tile));
        }
    }
    if offer.traded_get_out_of_jail_free_cards() & !3u8 != 0 {
        return false;
    }
    if contains_player(state.bankrupt_players, offer.proposer_player_id) || contains_player(
        state.bankrupt_players,
        offer.recipient_player_id,
    ) {
        return false;
    }
    if !state.board.does_player_own_all_tiles(offer.proposer_player_id, offer.offered_tiles)
        || !state.board.does_player_own_all_tiles(offer.recipient_player_id, offer.requested_tiles) {
        return false;
    }
    if state.cash_by_player_id[proposer] < offer.offered_cash || state.cash_by_player_id[recipient]
        < offer.requested_cash {
        return false;
    }
    if trade_balances(state, offer).is_none() {
        return false;
    }
    if !holds_get_out_of_jail_free_cards(state, offer.proposer_player_id, offer.offered_get_out_of_jail_free_cards)
        || !holds_get_out_of_jail_free_cards(
        state,
        offer.recipient_player_id,
        offer.requested_get_out_of_jail_free_cards,
    ) {
        return false;
    }
    let mut tile: u8 = 0;
    while (tile as usize) < TILE_COUNT
        invariant
            tile <= TILE_COUNT,
            traded_tiles == offer.offered_tiles | offer.requested_tiles,
            forall|earlier: int| 0 <= earlier < tile && #[trigger] tile_in(traded_tiles, earlier) ==> !group_improved(*state, earlier),
        decreases TILE_COUNT - tile,
    {
        if contains_tile(traded_tiles, tile) && has_group_improvements(state, tile) {
            return false;
        }
        tile = tile + 1;
    }
    proof {
        assert forall|t: int| #[trigger] tile_in(traded_tiles, t) implies !group_improved(*state, t) by {
            assert(tile_in(OWNABLE_TILE_SET_MASK, t));
        }
    }
    are_tactics_permitted(state, rules, offer)
}

/// Trading keeps ownership well formed: the tiles change hands between the two sides only.
proof fn lemma_trade_ownership<const N: usize>(state: GameState<N>, rules: Ruleset, offer: TradeOffer)
    requires
        state.wf(),
        trade_permitted_spec(state, rules, offer),
    ensures
        traded_state(state, offer).ownership_wf(),
        forall|player: int| 0 <= player < N && #[trigger] state.is_bankrupt(player)
            ==> traded_state(state, offer).board.owned_tiles_by_player_id@[player] == 0,
{
    let after = traded_state(state, offer);
    let proposer = offer.proposer_player_id as int;
    let recipient = offer.recipient_player_id as int;
    assert forall|player: int, tile: int| #[trigger] after.board.owns(player, tile) == if player == proposer {
        (state.board.owns(player, tile) && !tile_in(offer.offered_tiles, tile)) || tile_in(offer.requested_tiles, tile)
    } else if player == recipient {
        (state.board.owns(player, tile) && !tile_in(offer.requested_tiles, tile)) || tile_in(offer.offered_tiles, tile)
    } else {
        state.board.owns(player, tile)
    } by {}
    assert forall|player: int, tile: int| #[trigger] after.board.owns(player, tile) implies tile_in(
        OWNABLE_TILE_SET_MASK,
        tile,
    ) by {
        if tile_in(offer.requested_tiles, tile) || tile_in(offer.offered_tiles, tile) {
            assert(tile_in(offer.offered_tiles | offer.requested_tiles, tile));
        } else {
            assert(state.board.owns(player, tile));
        }
    }
    assert forall|first: int, second: int, tile: int|
        after.board.owns(first, tile) && after.board.owns(second, tile) implies first == second by {
        if tile_in(offer.requested_tiles, tile) {
            assert(state.board.owns(recipient, tile));
        }
        if tile_in(offer.offered_tiles, tile) {
            assert(state.board.owns(proposer, tile));
        }
        if !tile_in(offer.requested_tiles, tile) && !tile_in(offer.offered_tiles, tile) {
            assert(state.board.owns(first, tile));
            assert(state.board.owns(second, tile));
        } else if first != proposer && first != recipient {
            assert(state.board.owns(first, tile));
        } else if second != proposer && second != recipient {
            assert(state.board.owns(second, tile));
        }
    }
    assert forall|player: int| 0 <= player < N && #[trigger] state.is_bankrupt(player) implies after.board.owned_tiles_by_player_id@[player]
        == 0 by {}
}

pub fn execute_trade<const N: usize>(state: &mut GameState<N>, rules: &Ruleset, offer: &TradeOffer) -> (executed: bool)
    ensures
        executed == trade_permitted_spec(*old(state), *rules, *offer),
        executed ==> *final(state) == traded_state(*old(state), *offer),
        !executed ==> *final(state) == *old(state),
        old(state).wf() ==> final(state).wf(),
{
    if !is_trade_permitted(state, rules, offer) {
        return false;
    }
    let proposer = offer.proposer_player_id as usize;
    let recipient = offer.recipient_player_id as usize;
    let (proposer_cash, recipient_cash) = match trade_balances(state, offer) {
        Some(balances) => balances,
        None => return false,
    };
    let ghost before = *state;
    let owned_by_proposer = (state.board.owned_tiles_by_player_id[proposer] & !offer.offered_tiles) | offer.requested_tiles;
    let owned_by_recipient = (state.board.owned_tiles_by_player_id[recipient] & !offer.requested_tiles) | offer.offered_tiles;
    state.board.owned_tiles_by_player_id[proposer] = owned_by_proposer;
    state.board.owned_tiles_by_player_id[recipient] = owned_by_recipient;
    state.cash_by_player_id[proposer] = proposer_cash;
    state.cash_by_player_id[recipient] = recipient_cash;
    transfer_get_out_of_jail_free_cards(state, offer.offered_get_out_of_jail_free_cards, offer.recipient_player_id);
    transfer_get_out_of_jail_free_cards(state, offer.requested_get_out_of_jail_free_cards, offer.proposer_player_id);
    proof {
        let after = traded_state(before, *offer);
        assert(state.board.owned_tiles_by_player_id@ == after.board.owned_tiles_by_player_id@);
        assert(state.board.owned_tiles_by_player_id =~= after.board.owned_tiles_by_player_id);
        assert(state.cash_by_player_id@ == after.cash_by_player_id@);
        assert(state.cash_by_player_id =~= after.cash_by_player_id);
        assert(state.get_out_of_jail_free_card_holder_by_deck_kind@ == after.get_out_of_jail_free_card_holder_by_deck_kind@);
        assert(state.get_out_of_jail_free_card_holder_by_deck_kind =~= after.get_out_of_jail_free_card_holder_by_deck_kind);
        assert(*state == after);
        if before.wf() {
            lemma_trade_ownership(before, *rules, *offer);
            lemma_buildings_frame(before, after);
            assert forall|deck: int| 0 <= deck < 2 implies match #[trigger] after.get_out_of_jail_free_card_holder_by_deck_kind@[deck] {
                Some(holder) => holder < N,
                None => true,
            } by {
                assert(match before.get_out_of_jail_free_card_holder_by_deck_kind@[deck] {
                    Some(holder) => holder < N,
                    None => true,
                });
            }
            assert forall|player: int| 0 <= player < N && #[trigger] after.is_bankrupt(player) implies after.board.owned_tiles_by_player_id@[player]
                == 0 && after.cash(player) == 0 by {
                assert(before.is_bankrupt(player));
            }
        }
    }
    true
}

/// Gives the jail cards of the decks in `traded_cards` to `new_holder`.
fn transfer_get_out_of_jail_free_cards<const N: usize>(
    state: &mut GameState<N>,
    traded_cards: DeckKindSetMask,
    new_holder: PlayerId,
)
    ensures
        *final(state) == (GameState {
            get_out_of_jail_free_card_holder_by_deck_kind: final(state).get_out_of_jail_free_card_holder_by_deck_kind,
            ..*old(state)
        }),
        final(state).get_out_of_jail_free_card_holder_by_deck_kind@[0] == if traded_cards & 1u8 != 0 {
            Some(new_holder)
        } else {
            old(state).get_out_of_jail_free_card_holder_by_deck_kind@[0]
        },
        final(state).get_out_of_jail_free_card_holder_by_deck_kind@[1] == if traded_cards & 2u8 != 0 {
            Some(new_holder)
        } else {
            old(state).get_out_of_jail_free_card_holder_by_deck_kind@[1]
        },
{
    if traded_cards & deck_kind_bit(DeckKind::Chance) != 0 {
        state.get_out_of_jail_free_card_holder_by_deck_kind[0] = Some(new_holder);
    }
    if traded_cards & deck_kind_bit(DeckKind::CommunityChest) != 0 {
        state.get_out_of_jail_free_card_holder_by_deck_kind[1] = Some(new_holder);
    }
}

/// The total purchase price of the tiles `tiles` among the tiles `0..count`.
pub open spec fn purchase_value_below(tiles: TileSetMask, count: nat) -> nat
    decreases count,
{
    if count == 0 {
        0
    } else {
        purchase_value_below(tiles, (count - 1) as nat) + if tile_in(tiles, count - 1) {
            PURCHASE_PRICE_BY_TILE_ID@[count - 1] as nat
        } else {
            0nat
        }
    }
}

/// The purchase value of two sets of tiles with no tile in common is the value of the first
/// plus the value of the second.
pub proof fn purchase_value_adds_up(first: TileSetMask, second: TileSetMask, count: nat)
    requires
        first & second == 0,
    ensures
        purchase_value_below(first | second, count) == purchase_value_below(first, count) + purchase_value_below(
            second,
            count,
        ),
    decreases count,
{
    broadcast use crate::game::tile::model::group_tile_mask;

    if count > 0 {
        purchase_value_adds_up(first, second, (count - 1) as nat);
        let tile = count - 1;
        assert(!tile_in(first & second, tile));
        assert(tile_in(first | second, tile) == (tile_in(first, tile) || tile_in(second, tile)));
        assert(!(tile_in(first, tile) && tile_in(second, tile)));
    }
}

pub proof fn lemma_purchase_value_bound(tiles: TileSetMask, count: nat)
    requires
        count <= TILE_COUNT,
    ensures
        purchase_value_below(tiles, count) <= 400 * count,
    decreases count,
{
    if count > 0 {
        lemma_purchase_value_bound(tiles, (count - 1) as nat);
        lemma_tile_tables(count - 1);
    }
}

/// The total purchase price of the tiles of the set `tiles` that lie on the board.
pub fn calculate_tile_set_purchase_value(tiles: TileSetMask) -> (value: Cash)
    ensures
        value == purchase_value_below(tiles, TILE_COUNT as nat),
{
    let mut value: Cash = 0;
    let mut tile: u8 = 0;
    while (tile as usize) < TILE_COUNT
        invariant
            tile <= TILE_COUNT,
            value == purchase_value_below(tiles, tile as nat),
        decreases TILE_COUNT - tile,
    {
        proof {
            lemma_purchase_value_bound(tiles, tile as nat);
            lemma_tile_tables(tile as int);
        }
        if contains_tile(tiles, tile) {
            value = value + PURCHASE_PRICE_BY_TILE_ID[tile as usize] as Cash;
        }
        tile = tile + 1;
    }
    value
}

/// Whether the trade phase ended in the trade `offer`, made by or with `player`.
pub open spec fn traded_with<const N: usize>(
    before: GameState<N>,
    after: GameState<N>,
    rules: Ruleset,
    player: int,
    offer: TradeOffer,
) -> bool {
    &&& offer.proposer_player_id == player || offer.recipient_player_id == player
    &&& trade_permitted_spec(before, rules, offer)
    &&& after == traded_state(before, offer)
}

/// The trade that the answers of one trade phase of `player` lead to in `state`: the proposal,
/// when it is the player's own and the rules permit it, where its recipient accepts it;
/// otherwise the recipient's one counteroffer to the player, when the rules permit it and the
/// player accepts it; otherwise none.
pub open spec fn trade_answers_outcome<const N: usize>(
    state: GameState<N>,
    rules: Ruleset,
    player: int,
    proposal: Option<TradeOffer>,
    accepted: bool,
    counteroffer: Option<TradeOffer>,
    counter_accepted: bool,
) -> Option<TradeOffer> {
    match proposal {
        None => None,
        Some(offer) => if offer.proposer_player_id != player || !trade_permitted_spec(state, rules, offer) {
            None
        } else if accepted {
            Some(offer)
        } else {
            match counteroffer {
                None => None,
                Some(counter) => if counteroffer_considered(state, rules, offer, counter) && counter_accepted {
                    Some(counter)
                } else {
                    None
                },
            }
        },
    }
}

/// Whether the answers were given by the players `seats`, each as its policy decides: the
/// proposal of `player`; and, to a proposal that the rules permit, the recipient's acceptance,
/// its counteroffer to a refusal, and the player's answer to a counteroffer that the rules
/// permit.
pub open spec fn trade_answers_by<const N: usize, S: PlayerStrategy>(
    state: GameState<N>,
    rules: Ruleset,
    seats: Seq<S>,
    player: int,
    proposal: Option<TradeOffer>,
    accepted: bool,
    counteroffer: Option<TradeOffer>,
    counter_accepted: bool,
) -> bool {
    &&& trade_proposal_by(seats[player].policy_of(), state, rules, player as PlayerId, proposal)
    &&& match proposal {
        Some(offer) => offer.proposer_player_id == player && trade_permitted_spec(state, rules, offer) ==> {
            &&& trade_acceptance_by(
                seats[offer.recipient_player_id as int].policy_of(),
                state,
                offer.recipient_player_id,
                offer,
                accepted,
            )
            &&& !accepted ==> counteroffer_by(seats[offer.recipient_player_id as int].policy_of(), offer, counteroffer)
            &&& match counteroffer {
                Some(counter) => !accepted && counteroffer_considered(state, rules, offer, counter) ==> counter_acceptance_by(
                    seats[player].policy_of(),
                    state,
                    player as PlayerId,
                    counter,
                    counter_accepted,
                ),
                None => true,
            }
        },
        None => true,
    }
}

/// Whether `counter` answers the refused `offer`: made by its recipient to its proposer, and
/// permitted by the rules.
pub open spec fn counteroffer_considered<const N: usize>(
    state: GameState<N>,
    rules: Ruleset,
    offer: TradeOffer,
    counter: TradeOffer,
) -> bool {
    &&& counter.proposer_player_id == offer.recipient_player_id
    &&& counter.recipient_player_id == offer.proposer_player_id
    &&& trade_permitted_spec(state, rules, counter)
}

/// Executes the trade that the answers of one trade phase of `player` lead to, if any, and
/// gives it.
pub fn settle_trade<const N: usize>(
    state: &mut GameState<N>,
    rules: &Ruleset,
    player: PlayerId,
    proposal: Option<TradeOffer>,
    accepted: bool,
    counteroffer: Option<TradeOffer>,
    counter_accepted: bool,
) -> (executed: Option<TradeOffer>)
    ensures
        executed == trade_answers_outcome(
            *old(state),
            *rules,
            player as int,
            proposal,
            accepted,
            counteroffer,
            counter_accepted,
        ),
        match executed {
            Some(offer) => *final(state) == traded_state(*old(state), offer),
            None => *final(state) == *old(state),
        },
        old(state).wf() ==> final(state).wf(),
{
    let offer = match proposal {
        Some(offer) => offer,
        None => return None,
    };
    if offer.proposer_player_id != player || !is_trade_permitted(state, rules, &offer) {
        return None;
    }
    let chosen = if accepted {
        offer
    } else {
        let counter = match counteroffer {
            Some(counter) => counter,
            None => return None,
        };
        if counter.proposer_player_id != offer.recipient_player_id || counter.recipient_player_id
            != offer.proposer_player_id || !is_trade_permitted(state, rules, &counter) || !counter_accepted {
            return None;
        }
        counter
    };
    let executed = execute_trade(state, rules, &chosen);
    assert(executed);
    Some(chosen)
}

/// Lets `player` propose one trade at `barter_time`. The recipient accepts it, or may answer
/// a refusal with one counteroffer, which the proposer accepts or refuses.
pub fn run_trade_phase<const N: usize, Strategy: PlayerStrategy>(
    state: &mut GameState<N>,
    rules: &Ruleset,
    strategies: &mut [Strategy; N],
    player: PlayerId,
    barter_time: PermittedBarterTimesMask,
) -> (traded: bool)
    requires
        (player as usize) < N <= 256,
    ensures
        policies_kept(old(strategies)@, final(strategies)@),
        !mask_contains_spec(rules.permitted_barter_times, barter_time) ==> !traded && *final(state) == *old(state),
        !traded ==> *final(state) == *old(state),
        traded ==> exists|offer: TradeOffer| traded_with(*old(state), *final(state), *rules, player as int, offer),
        mask_contains_spec(rules.permitted_barter_times, barter_time) ==> exists|
            proposal: Option<TradeOffer>,
            accepted: bool,
            counteroffer: Option<TradeOffer>,
            counter_accepted: bool,
        |
            match #[trigger] trade_answers_outcome(
                *old(state),
                *rules,
                player as int,
                proposal,
                accepted,
                counteroffer,
                counter_accepted,
            ) {
                Some(offer) => traded && *final(state) == traded_state(*old(state), offer),
                None => !traded,
            } && trade_answers_by(
                *old(state),
                *rules,
                old(strategies)@,
                player as int,
                proposal,
                accepted,
                counteroffer,
                counter_accepted,
            ),
        only_holdings_changed(*old(state), *final(state)),
        old(state).wf() ==> final(state).wf(),
{
    if !mask_contains(rules.permitted_barter_times, barter_time) {
        return false;
    }
    let ghost seats = strategies@;
    let proposal = strategies[player as usize].propose_trade(state, rules, player);
    assert(policies_kept(seats, strategies@));
    let offer = match proposal {
        Some(offer) => offer,
        None => {
            assert(trade_answers_outcome(*state, *rules, player as int, proposal, false, None, false) is None);
            assert(trade_answers_by(*state, *rules, seats, player as int, proposal, false, None, false));
            return false;
        },
    };
    if offer.proposer_player_id != player || !is_trade_permitted(state, rules, &offer) {
        assert(trade_answers_outcome(*state, *rules, player as int, proposal, false, None, false) is None);
        assert(trade_answers_by(*state, *rules, seats, player as int, proposal, false, None, false));
        return false;
    }
    publish_event(strategies, player as usize, GameEvent::TradeProposed { offer });
    let recipient = offer.recipient_player_id;
    assert(strategies@[recipient as int].policy_of() == seats[recipient as int].policy_of());
    let accepted = strategies[recipient as usize].should_accept_trade(state, rules, recipient, &offer);
    assert(policies_kept(seats, strategies@));
    let mut counteroffer: Option<TradeOffer> = None;
    let mut counter_accepted = false;
    if !accepted {
        publish_event(strategies, player as usize, GameEvent::TradeRejected { offer });
        assert(strategies@[recipient as int].policy_of() == seats[recipient as int].policy_of());
        counteroffer = strategies[recipient as usize].counter_trade_offer(state, rules, recipient, &offer);
        assert(policies_kept(seats, strategies@));
        let counter = match counteroffer {
            Some(counter) => counter,
            None => {
                assert(trade_answers_outcome(*state, *rules, player as int, proposal, accepted, counteroffer, false)
                    is None);
                assert(trade_answers_by(*state, *rules, seats, player as int, proposal, accepted, counteroffer, false));
                return false;
            },
        };
        if counter.proposer_player_id != recipient || counter.recipient_player_id != player
            || !is_trade_permitted(state, rules, &counter) {
            assert(trade_answers_outcome(*state, *rules, player as int, proposal, accepted, counteroffer, false)
                is None);
            assert(trade_answers_by(*state, *rules, seats, player as int, proposal, accepted, counteroffer, false));
            return false;
        }
        publish_event(strategies, recipient as usize, GameEvent::TradeProposed { offer: counter });
        assert(strategies@[player as int].policy_of() == seats[player as int].policy_of());
        counter_accepted = strategies[player as usize].should_accept_counteroffer(state, rules, player, &offer, &counter);
        assert(policies_kept(seats, strategies@));
        if !counter_accepted {
            publish_event(strategies, recipient as usize, GameEvent::TradeRejected { offer: counter });
            assert(trade_answers_outcome(*state, *rules, player as int, proposal, accepted, counteroffer, false)
                is None);
            assert(trade_answers_by(*state, *rules, seats, player as int, proposal, accepted, counteroffer, false));
            return false;
        }
    }
    assert(trade_answers_by(*state, *rules, seats, player as int, proposal, accepted, counteroffer, counter_accepted));
    let ghost before = *state;
    match settle_trade(state, rules, player, proposal, accepted, counteroffer, counter_accepted) {
        Some(executed) => {
            assert(traded_with(before, *state, *rules, player as int, executed));
            publish_event(strategies, executed.proposer_player_id as usize, GameEvent::TradeExecuted { offer: executed });
            true
        },
        None => false,
    }
}

} // verus!
