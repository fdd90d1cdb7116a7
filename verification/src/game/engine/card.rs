use vstd::prelude::*;

use crate::game::strategy::model::policies_kept;

use super::event::{
    GameEvent,
    lemma_published_join,
    lemma_published_none,
    lemma_published_one,
    publish_event,
    published_all,
};
use super::landing::{
    RentModifier,
    landing_settled_without_cards,
    double_count_kept,
    back_three,
    landing_depth,
    resolve_landing,
};
use super::movement::{
    advance_player_to_tile,
    advanced_state,
    lemma_advanced_state,
    sent_to_jail,
    move_player_backward,
    send_player_to_jail,
};
use super::payment::{
    Creditor,
    charge_player,
    fee_creditor,
    paid,
    select_fee_creditor,
};
use crate::game::board::data::HOTEL_IMPROVEMENT_LEVEL;
use crate::game::board::model::PlayerId;
use crate::game::card::data::{
    CARD_COUNT_PER_DECK,
    card_definition,
    card_effect_spec,
    jail_card_id,
    lemma_one_jail_card_per_deck,
};
use crate::game::card::model::{
    CardEffect,
    CardId,
    DeckKind,
};
use crate::game::rng::{
    DiceRoll,
    dice_drawn,
};
use crate::game::ruleset::model::Ruleset;
use crate::game::state::model::{
    DeckState,
    GameState,
    contains_player,
    bankruptcy_kept,
    group_player_mask,
    lemma_state_frame,
};
use crate::game::strategy::model::PlayerStrategy;
use crate::game::tile::data::{
    JAIL_TILE_ID,
    PROPERTY_COUNT,
    TILE_COUNT,
};
use crate::game::tile::lut::{
    RAILROAD_TILE_SET_MASK,
    TILE_ID_BY_PROPERTY_ID,
    TILE_KIND_BY_TILE_ID,
    UTILITY_TILE_SET_MASK,
    lemma_property_tables,
    lemma_tile_tables,
};
use crate::game::tile::model::{
    Cash,
    TileId,
    TileKind,
    TileSetMask,
    contains_tile,
    credit,
    credited,
    group_tile_mask,
    tile_in,
};

verus! {

broadcast use {group_player_mask, group_tile_mask};

/// How deep the card draws that drawing from `deck` while standing on `tile` can set off
/// reach.
pub open spec fn draw_depth(deck: DeckKind, tile: int) -> int {
    match deck {
        DeckKind::Chance => 1 + landing_depth(back_three(tile)),
        DeckKind::CommunityChest => 1,
    }
}

/// What drawing from a deck in `deck_state` gives when the deck's jail card is `held` or not:
/// the deck after the draw and the card drawn. A jail card that a player holds is skipped.
pub open spec fn draw_spec(deck_state: DeckState, deck: DeckKind, held: bool) -> (DeckState, CardId) {
    let position = deck_state.next_draw_position as int;
    let first = deck_state.card_id_by_draw_position@[position];
    let next = (position + 1) % (CARD_COUNT_PER_DECK as int);
    if held && first as int == jail_card_id(deck) {
        (
            DeckState { next_draw_position: ((next + 1) % (CARD_COUNT_PER_DECK as int)) as u8, ..deck_state },
            deck_state.card_id_by_draw_position@[next],
        )
    } else {
        (DeckState { next_draw_position: next as u8, ..deck_state }, first)
    }
}

/// Draws the next card of `deck`, skipping the deck's jail card while a player holds it.
fn draw_card<const N: usize>(state: &mut GameState<N>, deck: DeckKind) -> (card_id: CardId)
    requires
        old(state).wf(),
    ensures
        final(state).wf(),
        ({
            let held = old(state).get_out_of_jail_free_card_holder_by_deck_kind@[deck.index_spec()] is Some;
            let (after, drawn) = draw_spec(old(state).deck_state_by_deck_kind@[deck.index_spec()], deck, held);
            &&& card_id == drawn
            &&& final(state).deck_state_by_deck_kind@ == old(state).deck_state_by_deck_kind@.update(deck.index_spec(), after)
        }),
        *final(state) == (GameState { deck_state_by_deck_kind: final(state).deck_state_by_deck_kind, ..*old(state) }),
        card_id < CARD_COUNT_PER_DECK,
        old(state).get_out_of_jail_free_card_holder_by_deck_kind@[deck.index_spec()] is Some ==> card_effect_spec(deck, card_id)
            != CardEffect::GetOutOfJailFree,
{
    let index = deck.index();
    let held = state.get_out_of_jail_free_card_holder_by_deck_kind[index].is_some();
    let ghost before = *state;
    let deck_state = state.deck_state_by_deck_kind[index];
    let position = deck_state.next_draw_position as usize;
    let first = deck_state.card_id_by_draw_position[position];
    let next = (position + 1) % CARD_COUNT_PER_DECK;
    proof {
        assert(before.deck_state_by_deck_kind@[index as int].wf());
        lemma_one_jail_card_per_deck(deck, first);
    }
    let first_definition = card_definition(deck, first);
    let (card_id, following) = if held && first_definition.effect == CardEffect::GetOutOfJailFree {
        let second = deck_state.card_id_by_draw_position[next];
        proof {
            lemma_one_jail_card_per_deck(deck, second);
            assert(second != first);
        }
        (second, (next + 1) % CARD_COUNT_PER_DECK)
    } else {
        (first, next)
    };
    state.deck_state_by_deck_kind[index].next_draw_position = following as u8;
    proof {
        assert(state.deck_state_by_deck_kind@ == before.deck_state_by_deck_kind@.update(
            index as int,
            draw_spec(before.deck_state_by_deck_kind@[index as int], deck, held).0,
        ));
        assert forall|other: int| 0 <= other < 2 implies (#[trigger] state.deck_state_by_deck_kind@[other]).wf() by {
            assert(before.deck_state_by_deck_kind@[other].wf());
        }
        lemma_state_frame(before, *state);
    }
    card_id
}

/// The first tile of `tiles` after `current` on the board, going round past Go.
pub open spec fn next_tile_in_set(current: int, tiles: TileSetMask, next: int) -> bool {
    &&& tile_in(tiles, next)
    &&& if exists|t: int| current < t && #[trigger] tile_in(tiles, t) {
        &&& current < next
        &&& forall|t: int| current < t < next ==> !tile_in(tiles, t)
    } else {
        forall|t: int| t < next ==> !tile_in(tiles, t)
    }
}

fn find_next_tile_in_set(current: TileId, tiles: TileSetMask) -> (next: TileId)
    requires
        tiles != 0,
    ensures
        next_tile_in_set(current as int, tiles, next as int),
        next < 64,
{
    proof {
        crate::game::tile::model::lemma_tiles_empty(tiles);
    }
    let mut tile: u8 = if current < 64 {
        current + 1
    } else {
        64
    };
    while tile < 64
        invariant
            tile <= 64,
            tile < 64 ==> current < tile,
            forall|t: int| current < t < tile ==> !tile_in(tiles, t),
        decreases 64 - tile,
    {
        if contains_tile(tiles, tile) {
            return tile;
        }
        tile = tile + 1;
    }
    let mut first: u8 = 0;
    while first < 64
        invariant
            first <= 64,
            tiles != 0,
            forall|t: int| current < t ==> !tile_in(tiles, t),
            forall|t: int| t < first ==> !tile_in(tiles, t),
            exists|t: int| 0 <= t < 64 && tile_in(tiles, t),
        decreases 64 - first,
    {
        if contains_tile(tiles, first) {
            return first;
        }
        first = first + 1;
    }
    first
}

/// The houses and the hotels standing on the properties of `owned` among the properties
/// `0..count`; a hotel counts as no house.
pub open spec fn buildings_owned<const N: usize>(state: GameState<N>, owned: TileSetMask, count: nat) -> (nat, nat)
    decreases count,
{
    if count == 0 {
        (0, 0)
    } else {
        let (houses, hotels) = buildings_owned(state, owned, (count - 1) as nat);
        let property = count - 1;
        let level = state.level(property);
        if !tile_in(owned, TILE_ID_BY_PROPERTY_ID@[property] as int) {
            (houses, hotels)
        } else if level == HOTEL_IMPROVEMENT_LEVEL {
            (houses, hotels + 1)
        } else {
            (houses + level as nat, hotels)
        }
    }
}

proof fn lemma_buildings_owned_bound<const N: usize>(state: GameState<N>, owned: TileSetMask, count: nat)
    requires
        state.buildings_wf(),
        count <= PROPERTY_COUNT,
    ensures
        buildings_owned(state, owned, count).0 <= 5 * count,
        buildings_owned(state, owned, count).1 <= count,
    decreases count,
{
    if count > 0 {
        lemma_buildings_owned_bound(state, owned, (count - 1) as nat);
        assert(state.level(count - 1) <= HOTEL_IMPROVEMENT_LEVEL);
    }
}

fn count_buildings<const N: usize>(state: &GameState<N>, player: PlayerId) -> (counts: (Cash, Cash))
    requires
        (player as usize) < N,
        state.buildings_wf(),
    ensures
        counts.0 == buildings_owned(*state, state.board.owned_tiles_by_player_id@[player as int], PROPERTY_COUNT as nat).0,
        counts.1 == buildings_owned(*state, state.board.owned_tiles_by_player_id@[player as int], PROPERTY_COUNT as nat).1,
        counts.0 <= 110,
        counts.1 <= 22,
{
    let owned = state.board.owned_tiles_by_player_id[player as usize];
    let mut houses: Cash = 0;
    let mut hotels: Cash = 0;
    let mut property: usize = 0;
    while property < PROPERTY_COUNT
        invariant
            property <= PROPERTY_COUNT,
            state.buildings_wf(),
            owned == state.board.owned_tiles_by_player_id@[player as int],
            (houses as nat, hotels as nat) == buildings_owned(*state, owned, property as nat),
        decreases PROPERTY_COUNT - property,
    {
        proof {
            lemma_property_tables(property as int);
            lemma_buildings_owned_bound(*state, owned, (property + 1) as nat);
        }
        if contains_tile(owned, TILE_ID_BY_PROPERTY_ID[property]) {
            let level = state.board.improvement_level_by_property_id[property];
            if level == HOTEL_IMPROVEMENT_LEVEL {
                hotels = hotels + 1;
            } else {
                houses = houses + level as Cash;
            }
        }
        property = property + 1;
    }
    proof {
        lemma_buildings_owned_bound(*state, owned, PROPERTY_COUNT as nat);
    }
    (houses, hotels)
}

/// The state once the next card of `deck` is drawn from `state`, and the card: the deck's jail
/// card is skipped while a player holds it.
pub open spec fn card_drawn<const N: usize>(state: GameState<N>, deck: DeckKind) -> (GameState<N>, CardId) {
    let held = state.get_out_of_jail_free_card_holder_by_deck_kind@[deck.index_spec()] is Some;
    let (after, drawn) = draw_spec(state.deck_state_by_deck_kind@[deck.index_spec()], deck, held);
    (
        GameState {
            deck_state_by_deck_kind: vstd::array::spec_array_update(
                state.deck_state_by_deck_kind,
                deck.index_spec(),
                after,
            ),
            ..state
        },
        drawn,
    )
}

/// The repair bill of `player` in `state` at the given rates per house and per hotel.
pub open spec fn repair_cost<const N: usize>(state: GameState<N>, player: int, per_house: int, per_hotel: int) -> int {
    let (houses, hotels) = buildings_owned(state, state.board.owned_tiles_by_player_id@[player], PROPERTY_COUNT as nat);
    houses * per_house + hotels * per_hotel
}

/// `state` once each player in the seats `0..count` other than `player`, and not bankrupt, paid
/// `amount` to `player`.
pub open spec fn collected_below<const N: usize>(state: GameState<N>, player: int, amount: Cash, count: nat) -> GameState<N>
    decreases count,
{
    if count == 0 {
        state
    } else {
        let earlier = collected_below(state, player, amount, (count - 1) as nat);
        let other = count - 1;
        if other != player && !state.is_bankrupt(other) {
            paid(earlier, other, amount, Creditor::Player(player as PlayerId))
        } else {
            earlier
        }
    }
}

/// `state` once `player` paid `amount` to each player in the seats `0..count` other than
/// itself, and not bankrupt.
pub open spec fn paid_each_below<const N: usize>(state: GameState<N>, player: int, amount: Cash, count: nat) -> GameState<N>
    decreases count,
{
    if count == 0 {
        state
    } else {
        let earlier = paid_each_below(state, player, amount, (count - 1) as nat);
        let other = count - 1;
        if other != player && !state.is_bankrupt(other) {
            paid(earlier, player, amount, Creditor::Player(other as PlayerId))
        } else {
            earlier
        }
    }
}

/// The players in the seats `0..count` other than `player` who are not bankrupt.
pub open spec fn other_solvent_count<const N: usize>(state: GameState<N>, player: int, count: nat) -> nat
    decreases count,
{
    if count == 0 {
        0
    } else {
        other_solvent_count(state, player, (count - 1) as nat) + if count - 1 != player && !state.is_bankrupt(count - 1) {
            1nat
        } else {
            0nat
        }
    }
}

/// Collecting from the first players changes only their cash and that of the collector, and no
/// one's bankruptcy.
proof fn lemma_collected_frame<const N: usize>(state: GameState<N>, player: int, amount: Cash, count: nat)
    requires
        0 <= player < N <= 256,
        count <= N,
    ensures
        ({
            let after = collected_below(state, player, amount, count);
            &&& after == GameState { cash_by_player_id: after.cash_by_player_id, ..state }
            &&& forall|other: int| count <= other < N && other != player ==> #[trigger] after.cash(other) == state.cash(other)
        }),
    decreases count,
{
    if count > 0 {
        lemma_collected_frame(state, player, amount, (count - 1) as nat);
        let earlier = collected_below(state, player, amount, (count - 1) as nat);
        let after = collected_below(state, player, amount, count);
        assert forall|other: int| count <= other < N && other != player implies #[trigger] after.cash(other) == state.cash(
            other,
        ) by {
            assert(earlier.cash(other) == state.cash(other));
        }
    }
}

/// Paying the first players changes only their cash and that of the payer, and no one's
/// bankruptcy; the payer has paid the amount once for each of them.
proof fn lemma_paid_each_frame<const N: usize>(state: GameState<N>, player: int, amount: Cash, count: nat)
    requires
        0 <= player < N <= 256,
        count <= N,
        state.cash(player) >= amount * other_solvent_count(state, player, count),
    ensures
        ({
            let after = paid_each_below(state, player, amount, count);
            &&& after == GameState { cash_by_player_id: after.cash_by_player_id, ..state }
            &&& after.cash(player) == state.cash(player) - amount * other_solvent_count(state, player, count)
        }),
    decreases count,
{
    if count > 0 {
        let earlier_count = other_solvent_count(state, player, (count - 1) as nat);
        assert(amount * earlier_count <= amount * other_solvent_count(state, player, count)) by (nonlinear_arith)
            requires
                earlier_count <= other_solvent_count(state, player, count),
        ;
        lemma_paid_each_frame(state, player, amount, (count - 1) as nat);
        let earlier = paid_each_below(state, player, amount, (count - 1) as nat);
        if count - 1 != player && !state.is_bankrupt(count - 1) {
            assert(amount * (earlier_count + 1) == amount * earlier_count + amount) by (nonlinear_arith);
            assert(other_solvent_count(state, player, count) == earlier_count + 1);
            assert(earlier.cash(player) >= amount);
            let debited = GameState {
                cash_by_player_id: vstd::array::spec_array_update(
                    earlier.cash_by_player_id,
                    player,
                    (earlier.cash(player) - amount) as Cash,
                ),
                ..earlier
            };
            assert(debited.cash(player) == earlier.cash(player) - amount);
            let after = paid_each_below(state, player, amount, count);
            assert(after.cash(player) == debited.cash(player));
            assert(after.cash(player) == state.cash(player) - amount * earlier_count - amount);
            assert(after.cash(player) == state.cash(player) - amount * other_solvent_count(state, player, count));
            assert(after == GameState { cash_by_player_id: after.cash_by_player_id, ..state });
        } else {
            assert(other_solvent_count(state, player, count) == earlier_count);
            assert(paid_each_below(state, player, amount, count) == earlier);
        }
    } else {
        assert(other_solvent_count(state, player, count) == 0);
        assert(amount * 0 == 0) by (nonlinear_arith);
    }
}

/// The count of other solvent players only grows with the seats counted.
proof fn lemma_other_solvent_count_mono<const N: usize>(state: GameState<N>, player: int, first: nat, second: nat)
    requires
        first <= second,
    ensures
        other_solvent_count(state, player, first) <= other_solvent_count(state, player, second),
    decreases second - first,
{
    if first < second {
        lemma_other_solvent_count_mono(state, player, first, (second - 1) as nat);
    }
}

/// `state` with `player` moved back `tile_count` tiles, without salary.
pub open spec fn moved_back<const N: usize>(state: GameState<N>, player: int, tile_count: int) -> GameState<N> {
    let current = state.position_by_player_id@[player];
    GameState {
        position_by_player_id: vstd::array::spec_array_update(
            state.position_by_player_id,
            player,
            ((current + TILE_COUNT - tile_count) % (TILE_COUNT as int)) as TileId,
        ),
        ..state
    }
}

/// Whether `after` is what applying the card `card_id` of `deck`, drawn by `player`, gives
/// from `state`. A card that moves the player moves it, with the salary for passing or landing
/// on Go, to its tile, the next railroad or utility (with a fresh roll of the dice for the
/// utility's rent), or three tiles back, and the player lands there; jail, the jail card and
/// the bank's reward are exact; a payment to the bank or for repairs is paid when the player
/// has the cash; every other player who is not bankrupt pays the player, in seat order, when
/// each has the cash, and the player pays each of them when the player has it for all. A
/// landing after a card is taken as on a tile without cards: a card reached by moving back is
/// left open.
pub open spec fn card_applied<const N: usize>(
    state: GameState<N>,
    after: GameState<N>,
    rules: Ruleset,
    player: PlayerId,
    deck: DeckKind,
    card_id: CardId,
    dice_roll: DiceRoll,
) -> bool {
    let p = player as int;
    let current = state.position_by_player_id@[p] as int;
    match card_effect_spec(deck, card_id) {
        CardEffect::AdvanceToTile { tile_id } => landing_settled_without_cards(
            advanced_state(state, rules, p, tile_id),
            after,
            rules,
            player,
            dice_roll,
            RentModifier::Standard,
        ),
        CardEffect::AdvanceToNearestRailroad => exists|railroad: int|
            #![trigger next_tile_in_set(current, RAILROAD_TILE_SET_MASK, railroad)]
            next_tile_in_set(current, RAILROAD_TILE_SET_MASK, railroad) && landing_settled_without_cards(
                advanced_state(state, rules, p, railroad as TileId),
                after,
                rules,
                player,
                dice_roll,
                RentModifier::NearestRailroadCard,
            ),
        CardEffect::AdvanceToNearestUtility => exists|utility: int|
            #![trigger next_tile_in_set(current, UTILITY_TILE_SET_MASK, utility)]
            next_tile_in_set(current, UTILITY_TILE_SET_MASK, utility) && {
                let moved = advanced_state(state, rules, p, utility as TileId);
                landing_settled_without_cards(
                    GameState { rng: moved.rng.drawn(), ..moved },
                    after,
                    rules,
                    player,
                    dice_drawn(moved.rng.state()),
                    RentModifier::NearestUtilityCard,
                )
            },
        CardEffect::MoveBackward { tile_count } => {
            let moved = moved_back(state, p, tile_count as int);
            TILE_KIND_BY_TILE_ID@[moved.position_by_player_id@[p] as int] != TileKind::Chance
                && TILE_KIND_BY_TILE_ID@[moved.position_by_player_id@[p] as int] != TileKind::CommunityChest
                ==> landing_settled_without_cards(moved, after, rules, player, dice_roll, RentModifier::Standard)
        },
        CardEffect::GoToJail => after == sent_to_jail(state, p),
        CardEffect::GetOutOfJailFree => after == (GameState {
            get_out_of_jail_free_card_holder_by_deck_kind: vstd::array::spec_array_update(
                state.get_out_of_jail_free_card_holder_by_deck_kind,
                deck.index_spec(),
                Some(player),
            ),
            ..state
        }),
        CardEffect::CollectFromBank { amount } => after == (GameState {
            cash_by_player_id: vstd::array::spec_array_update(
                state.cash_by_player_id,
                p,
                credited(state.cash(p), amount as Cash),
            ),
            ..state
        }),
        CardEffect::PayBank { amount } => state.cash(p) >= amount ==> after == paid(
            state,
            p,
            amount as Cash,
            fee_creditor(rules),
        ),
        CardEffect::PayForRepairs { amount_per_house, amount_per_hotel } => {
            let cost = repair_cost(state, p, amount_per_house as int, amount_per_hotel as int);
            state.cash(p) >= cost ==> after == if cost > 0 {
                paid(state, p, cost as Cash, fee_creditor(rules))
            } else {
                state
            }
        },
        CardEffect::CollectFromEachPlayer { amount } => (forall|other: int|
            0 <= other < N && other != p && !state.is_bankrupt(other) ==> #[trigger] state.cash(other) >= amount)
            ==> after == collected_below(state, p, amount as Cash, N as nat),
        CardEffect::PayEachPlayer { amount } => state.cash(p) >= amount * other_solvent_count(state, p, N as nat) ==> after
            == paid_each_below(state, p, amount as Cash, N as nat),
    }
}

/// The events that collecting `amount` from the bank on a card of `deck` publishes: one, where
/// the amount is not zero.
pub open spec fn bank_reward_events(player: PlayerId, amount: Cash, deck: DeckKind) -> Seq<GameEvent> {
    if amount > 0 {
        seq![GameEvent::BankRewardCollected { player_id: player, amount, deck }]
    } else {
        seq![]
    }
}

/// Draws a card from `deck` for `player` and applies it. A card that sends the player to jail,
/// hands out the jail card or pays from the bank does only that; the other cards move the
/// player, or charge players, with the strategies' decisions.
pub fn draw_and_apply_card<const N: usize, Strategy: PlayerStrategy>(
    state: &mut GameState<N>,
    rules: &Ruleset,
    strategies: &mut [Strategy; N],
    player: PlayerId,
    deck: DeckKind,
    dice_roll: DiceRoll,
)
    requires
        old(state).wf(),
        (player as usize) < N,
        !old(state).is_bankrupt(player as int),
        dice_roll.first_die + dice_roll.second_die <= u8::MAX,
    ensures
        policies_kept(old(strategies)@, final(strategies)@),
        final(state).wf(),
        final(state).current_player_id == old(state).current_player_id,
        bankruptcy_kept(*old(state), *final(state)),
        double_count_kept(*old(state), *final(state), player as int),
        ({
            let (drawn, card_id) = card_drawn(*old(state), deck);
            &&& card_effect_spec(deck, card_id) == CardEffect::GoToJail ==> *final(state) == (GameState {
                position_by_player_id: vstd::array::spec_array_update(
                    drawn.position_by_player_id,
                    player as int,
                    JAIL_TILE_ID,
                ),
                jail_turn_count_by_player_id: vstd::array::spec_array_update(
                    drawn.jail_turn_count_by_player_id,
                    player as int,
                    0,
                ),
                jailed_players: drawn.jailed_players | (1u8 << player),
                consecutive_double_count: 0,
                ..drawn
            })
            &&& card_effect_spec(deck, card_id) == CardEffect::GetOutOfJailFree ==> *final(state) == (GameState {
                get_out_of_jail_free_card_holder_by_deck_kind: vstd::array::spec_array_update(
                    drawn.get_out_of_jail_free_card_holder_by_deck_kind,
                    deck.index_spec(),
                    Some(player),
                ),
                ..drawn
            })
            &&& card_effect_spec(deck, card_id) matches CardEffect::CollectFromBank { amount } ==> *final(state) == (
            GameState {
                cash_by_player_id: vstd::array::spec_array_update(
                    drawn.cash_by_player_id,
                    player as int,
                    credited(drawn.cash(player as int), amount as Cash),
                ),
                ..drawn
            })
            &&& card_applied(drawn, *final(state), *rules, player, deck, card_id, dice_roll)
            &&& card_effect_spec(deck, card_id) matches CardEffect::CollectFromBank { amount } ==> published_all(
                old(strategies)@,
                player as int,
                seq![GameEvent::CardDrawn { player_id: player, deck, effect: card_effect_spec(deck, card_id) }]
                    + bank_reward_events(player, amount as Cash, deck),
                final(strategies)@,
            )
        }),
    decreases draw_depth(deck, state.position_by_player_id@[player as int] as int), 1int,
{
    let card_id = draw_card(state, deck);
    let ghost drawn = *state;
    assert(bankruptcy_kept(*old(state), drawn));
    assert(drawn.deck_state_by_deck_kind =~= card_drawn(*old(state), deck).0.deck_state_by_deck_kind);
    let card = card_definition(deck, card_id);
    let ghost strategies_before = strategies@;
    publish_event(strategies, player as usize, GameEvent::CardDrawn { player_id: player, deck, effect: card.effect });
    let ghost strategies_drawn = strategies@;
    apply_card_effect(state, rules, strategies, player, deck, card_id, dice_roll);
    proof {
        if let CardEffect::CollectFromBank { amount } = card_effect_spec(deck, card_id) {
            let drawn_event = GameEvent::CardDrawn { player_id: player, deck, effect: card.effect };
            lemma_published_one(strategies_before, player as int, drawn_event, strategies_drawn);
            lemma_published_join(
                strategies_before,
                player as int,
                seq![drawn_event],
                strategies_drawn,
                bank_reward_events(player, amount as Cash, deck),
                strategies@,
            );
        }
        crate::game::state::model::lemma_bankruptcy_kept_trans(*old(state), drawn, *state);
    }
}

/// Every card moves a player onto a tile without cards, but for the Chance card that moves the
/// player back three tiles.
proof fn lemma_card_targets(deck: DeckKind, card_id: CardId)
    requires
        card_id < CARD_COUNT_PER_DECK,
    ensures
        card_effect_spec(deck, card_id) matches CardEffect::AdvanceToTile { tile_id } ==> tile_id < TILE_COUNT
            && landing_depth(tile_id as int) == 0,
        card_effect_spec(deck, card_id) matches CardEffect::MoveBackward { tile_count } ==> tile_count == 3 && deck
            == DeckKind::Chance,
{
    lemma_tile_tables(0);
    lemma_tile_tables(5);
    lemma_tile_tables(11);
    lemma_tile_tables(24);
    lemma_tile_tables(39);
}

/// Railroads and utilities are tiles without cards.
proof fn lemma_named_mask_depth(tile: int)
    requires
        tile_in(RAILROAD_TILE_SET_MASK, tile) || tile_in(UTILITY_TILE_SET_MASK, tile),
    ensures
        0 <= tile < TILE_COUNT,
        landing_depth(tile) == 0,
{
    crate::game::tile::lut::lemma_constant_mask_bits();
    assert(((RAILROAD_TILE_SET_MASK >> (tile as u64)) & 1u64 == 1u64) || ((UTILITY_TILE_SET_MASK >> (tile as u64)) & 1u64
        == 1u64));
    lemma_tile_tables(tile);
}

/// Applies the effect of the card `card_id` of `deck`, which `player` drew.
fn apply_card_effect<const N: usize, Strategy: PlayerStrategy>(
    state: &mut GameState<N>,
    rules: &Ruleset,
    strategies: &mut [Strategy; N],
    player: PlayerId,
    deck: DeckKind,
    card_id: CardId,
    dice_roll: DiceRoll,
)
    requires
        old(state).wf(),
        (player as usize) < N,
        !old(state).is_bankrupt(player as int),
        card_id < CARD_COUNT_PER_DECK,
        card_effect_spec(deck, card_id) == CardEffect::GetOutOfJailFree ==> old(
            state,
        ).get_out_of_jail_free_card_holder_by_deck_kind@[deck.index_spec()] is None,
        dice_roll.first_die + dice_roll.second_die <= u8::MAX,
    ensures
        policies_kept(old(strategies)@, final(strategies)@),
        final(state).wf(),
        final(state).current_player_id == old(state).current_player_id,
        bankruptcy_kept(*old(state), *final(state)),
        double_count_kept(*old(state), *final(state), player as int),
        card_effect_spec(deck, card_id) == CardEffect::GoToJail ==> *final(state) == (GameState {
            position_by_player_id: vstd::array::spec_array_update(
                old(state).position_by_player_id,
                player as int,
                JAIL_TILE_ID,
            ),
            jail_turn_count_by_player_id: vstd::array::spec_array_update(
                old(state).jail_turn_count_by_player_id,
                player as int,
                0,
            ),
            jailed_players: old(state).jailed_players | (1u8 << player),
            consecutive_double_count: 0,
            ..*old(state)
        }),
        card_effect_spec(deck, card_id) == CardEffect::GetOutOfJailFree ==> *final(state) == (GameState {
            get_out_of_jail_free_card_holder_by_deck_kind: vstd::array::spec_array_update(
                old(state).get_out_of_jail_free_card_holder_by_deck_kind,
                deck.index_spec(),
                Some(player),
            ),
            ..*old(state)
        }),
        card_effect_spec(deck, card_id) matches CardEffect::CollectFromBank { amount } ==> *final(state) == (GameState {
            cash_by_player_id: vstd::array::spec_array_update(
                old(state).cash_by_player_id,
                player as int,
                credited(old(state).cash(player as int), amount as Cash),
            ),
            ..*old(state)
        }),
        card_applied(*old(state), *final(state), *rules, player, deck, card_id, dice_roll),
        card_effect_spec(deck, card_id) matches CardEffect::CollectFromBank { amount } ==> published_all(
            old(strategies)@,
            player as int,
            bank_reward_events(player, amount as Cash, deck),
            final(strategies)@,
        ),
    decreases draw_depth(deck, state.position_by_player_id@[player as int] as int), 0int,
{
    let index = player as usize;
    let ghost start = *state;
    let effect = card_definition(deck, card_id).effect;
    proof {
        lemma_card_targets(deck, card_id);
        lemma_tile_tables(state.position_by_player_id@[player as int] as int);
    }
    match effect {
        CardEffect::AdvanceToTile { tile_id } => {
            let ghost moving = *state;
            let salary = advance_player_to_tile(state, rules, player, tile_id);
            proof {
                lemma_advanced_state(moving, *state, *rules, player as int, tile_id, salary);
                lemma_tile_tables(tile_id as int);
            }
            if let Some(event) = salary {
                publish_event(strategies, index, event);
            }
            resolve_landing(state, rules, strategies, player, dice_roll, RentModifier::Standard);
            assert(bankruptcy_kept(start, *state));
        },
        CardEffect::AdvanceToNearestRailroad => {
            proof {
                crate::game::tile::lut::lemma_constant_mask_bits();
                assert(tile_in(RAILROAD_TILE_SET_MASK, 5));
            }
            let railroad = find_next_tile_in_set(state.position_by_player_id[index], RAILROAD_TILE_SET_MASK);
            proof {
                lemma_named_mask_depth(railroad as int);
            }
            let ghost moving = *state;
            let salary = advance_player_to_tile(state, rules, player, railroad);
            proof {
                lemma_advanced_state(moving, *state, *rules, player as int, railroad, salary);
                lemma_tile_tables(railroad as int);
            }
            if let Some(event) = salary {
                publish_event(strategies, index, event);
            }
            resolve_landing(state, rules, strategies, player, dice_roll, RentModifier::NearestRailroadCard);
            assert(next_tile_in_set(start.position_by_player_id@[player as int] as int, RAILROAD_TILE_SET_MASK, railroad as int));
            assert(bankruptcy_kept(start, *state));
        },
        CardEffect::AdvanceToNearestUtility => {
            proof {
                crate::game::tile::lut::lemma_constant_mask_bits();
                assert(tile_in(UTILITY_TILE_SET_MASK, 12));
            }
            let utility = find_next_tile_in_set(state.position_by_player_id[index], UTILITY_TILE_SET_MASK);
            proof {
                lemma_named_mask_depth(utility as int);
            }
            let ghost moving = *state;
            let salary = advance_player_to_tile(state, rules, player, utility);
            proof {
                lemma_advanced_state(moving, *state, *rules, player as int, utility, salary);
                lemma_tile_tables(utility as int);
            }
            if let Some(event) = salary {
                publish_event(strategies, index, event);
            }
            let ghost before_roll = *state;
            let fresh_roll = state.rng.roll_dice();
            proof {
                lemma_state_frame(before_roll, *state);
            }
            publish_event(
                strategies,
                index,
                GameEvent::DiceRolled { player_id: player, first: fresh_roll.first_die, second: fresh_roll.second_die },
            );
            resolve_landing(state, rules, strategies, player, fresh_roll, RentModifier::NearestUtilityCard);
            assert(bankruptcy_kept(start, *state));
            assert(next_tile_in_set(start.position_by_player_id@[player as int] as int, UTILITY_TILE_SET_MASK, utility as int));
        },
        CardEffect::MoveBackward { tile_count } => {
            move_player_backward(state, player, tile_count);
            proof {
                assert(state.position_by_player_id =~= moved_back(start, player as int, tile_count as int).position_by_player_id);
            }
            resolve_landing(state, rules, strategies, player, dice_roll, RentModifier::Standard);
            assert(bankruptcy_kept(start, *state));
        },
        CardEffect::GoToJail => {
            let event = send_player_to_jail(state, player);
            publish_event(strategies, index, event);
            assert(bankruptcy_kept(start, *state));
            assert(state.position_by_player_id =~= vstd::array::spec_array_update(
                start.position_by_player_id,
                player as int,
                JAIL_TILE_ID,
            ));
            assert(state.jail_turn_count_by_player_id =~= vstd::array::spec_array_update(
                start.jail_turn_count_by_player_id,
                player as int,
                0,
            ));
        },
        CardEffect::GetOutOfJailFree => {
            let ghost before = *state;
            state.get_out_of_jail_free_card_holder_by_deck_kind[deck.index()] = Some(player);
            proof {
                crate::game::state::model::lemma_ownership_frame(before, *state);
                crate::game::state::model::lemma_buildings_frame(before, *state);
                assert forall|other: int| 0 <= other < 2 implies match #[trigger] state.get_out_of_jail_free_card_holder_by_deck_kind@[other] {
                    Some(holder) => holder < N,
                    None => true,
                } by {
                    assert(match before.get_out_of_jail_free_card_holder_by_deck_kind@[other] {
                        Some(holder) => holder < N,
                        None => true,
                    });
                }
                assert forall|other: int| 0 <= other < N && #[trigger] state.is_bankrupt(other) implies state.board.owned_tiles_by_player_id@[other]
                    == 0 && state.cash(other) == 0 by {
                    assert(before.is_bankrupt(other));
                }
            }
            assert(bankruptcy_kept(start, *state));
        },
        CardEffect::CollectFromBank { amount } => {
            let ghost before = *state;
            state.cash_by_player_id[index] = credit(state.cash_by_player_id[index], amount as Cash);
            proof {
                lemma_state_frame(before, *state);
            }
            let ghost strategies_before = strategies@;
            if amount > 0 {
                publish_event(
                    strategies,
                    index,
                    GameEvent::BankRewardCollected { player_id: player, amount: amount as Cash, deck },
                );
                proof {
                    lemma_published_one(
                        strategies_before,
                        player as int,
                        GameEvent::BankRewardCollected { player_id: player, amount: amount as Cash, deck },
                        strategies@,
                    );
                }
            } else {
                proof {
                    lemma_published_none(strategies_before, player as int);
                }
            }
            assert(bankruptcy_kept(start, *state));
        },
        CardEffect::PayBank { amount } => {
            charge_player(state, rules, strategies, player, amount as Cash, select_fee_creditor(rules));
            assert(bankruptcy_kept(start, *state));
        },
        CardEffect::CollectFromEachPlayer { amount } => {
            let ghost all_pay = forall|other: int|
                0 <= other < N && other != player && !start.is_bankrupt(other) ==> #[trigger] start.cash(other) >= amount;
            let mut other: usize = 0;
            while other < N
                invariant
                    policies_kept(old(strategies)@, strategies@),
                    state.wf(),
                    (player as usize) < N,
                    !state.is_bankrupt(player as int),
                    state.current_player_id == old(state).current_player_id,
                    bankruptcy_kept(*old(state), *state),
                    state.consecutive_double_count == old(state).consecutive_double_count,
                    start == *old(state),
                    other <= N,
                    all_pay == forall|other: int|
                        0 <= other < N && other != player && !start.is_bankrupt(other) ==> #[trigger] start.cash(other)
                            >= amount,
                    all_pay ==> *state == collected_below(start, player as int, amount as Cash, other as nat),
                decreases N - other,
            {
                proof {
                    lemma_collected_frame(start, player as int, amount as Cash, other as nat);
                }
                if other != player as usize && !contains_player(state.bankrupt_players, other as PlayerId) {
                    charge_player(state, rules, strategies, other as PlayerId, amount as Cash, Creditor::Player(player));
                }
                other = other + 1;
            }
            assert(bankruptcy_kept(start, *state));
        },
        CardEffect::PayEachPlayer { amount } => {
            let ghost affords = start.cash(player as int) >= amount * other_solvent_count(start, player as int, N as nat);
            let mut other: usize = 0;
            while other < N
                invariant
                    policies_kept(old(strategies)@, strategies@),
                    state.wf(),
                    (player as usize) < N,
                    state.current_player_id == old(state).current_player_id,
                    bankruptcy_kept(*old(state), *state),
                    state.consecutive_double_count == old(state).consecutive_double_count,
                    start == *old(state),
                    other <= N,
                    affords == (start.cash(player as int) >= amount * other_solvent_count(start, player as int, N as nat)),
                    affords ==> *state == paid_each_below(start, player as int, amount as Cash, other as nat),
                    affords ==> state.bankrupt_players == start.bankrupt_players,
                    !start.is_bankrupt(player as int),
                ensures
                    affords ==> *state == paid_each_below(start, player as int, amount as Cash, N as nat),
                decreases N - other,
            {
                proof {
                    if affords {
                        lemma_other_solvent_count_mono(start, player as int, other as nat, N as nat);
                        assert(amount * other_solvent_count(start, player as int, other as nat) <= amount
                            * other_solvent_count(start, player as int, N as nat)) by (nonlinear_arith)
                            requires
                                other_solvent_count(start, player as int, other as nat) <= other_solvent_count(
                                    start,
                                    player as int,
                                    N as nat,
                                ),
                        ;
                        lemma_paid_each_frame(start, player as int, amount as Cash, other as nat);
                        if other != player as usize && !start.is_bankrupt(other as int) {
                            lemma_other_solvent_count_mono(start, player as int, (other + 1) as nat, N as nat);
                            assert(amount * (other_solvent_count(start, player as int, other as nat) + 1) <= amount
                                * other_solvent_count(start, player as int, N as nat)) by (nonlinear_arith)
                                requires
                                    other_solvent_count(start, player as int, other as nat) + 1 <= other_solvent_count(
                                        start,
                                        player as int,
                                        N as nat,
                                    ),
                            ;
                            assert(amount * (other_solvent_count(start, player as int, other as nat) + 1) == amount
                                * other_solvent_count(start, player as int, other as nat) + amount) by (nonlinear_arith);
                        }
                    }
                }
                if contains_player(state.bankrupt_players, player) {
                    break;
                }
                if other != player as usize && !contains_player(state.bankrupt_players, other as PlayerId) {
                    charge_player(state, rules, strategies, player, amount as Cash, Creditor::Player(other as PlayerId));
                }
                other = other + 1;
            }
            assert(bankruptcy_kept(start, *state));
        },
        CardEffect::PayForRepairs { amount_per_house, amount_per_hotel } => {
            let (houses, hotels) = count_buildings(state, player);
            assert(houses * amount_per_house <= 110 * 65535) by (nonlinear_arith)
                requires
                    houses <= 110,
                    amount_per_house <= 65535,
            ;
            assert(hotels * amount_per_hotel <= 22 * 65535) by (nonlinear_arith)
                requires
                    hotels <= 22,
                    amount_per_hotel <= 65535,
            ;
            let cost = houses * amount_per_house as Cash + hotels * amount_per_hotel as Cash;
            if cost > 0 {
                charge_player(state, rules, strategies, player, cost, select_fee_creditor(rules));
            }
            assert(bankruptcy_kept(start, *state));
        },
    }
}

} // verus!
