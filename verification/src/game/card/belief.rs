use vstd::prelude::*;

use super::data::{
    CARD_COUNT_PER_DECK,
    card_definition,
    card_effect_spec,
};
use super::model::{
    CardEffect,
    CardId,
    DeckKind,
};
use crate::game::board::model::PlayerId;
use crate::game::engine::event::GameEvent;
use crate::game::engine::payment::Creditor;
use crate::game::rng::{
    WyRand,
    wyrand_output,
    wyrand_step,
};
use crate::game::state::model::DeckState;
use crate::game::trade::model::{
    deck_kind_bit,
    deck_kind_bit_spec,
};

verus! {

/// What a replay of the public history knows of a deck, for one assumed position of the jail
/// card: the effect that a draw revealed at each draw position, the next draw position, and
/// who holds the jail card.
pub type DrawReplay = (Seq<Option<CardEffect>>, int, Option<PlayerId>);

/// Before any draw only the assumed position of the jail card is known.
pub open spec fn initial_replay(jail_position: int) -> DrawReplay {
    (
        Seq::new(
            CARD_COUNT_PER_DECK as nat,
            |position: int|
                if position == jail_position {
                    Some(CardEffect::GetOutOfJailFree)
                } else {
                    None
                },
        ),
        0,
        None,
    )
}

/// The holder of the jail card of a deck after `event`: a player who draws it keeps it until
/// it is used, traded or lost to a creditor in bankruptcy.
pub open spec fn holder_after(deck: DeckKind, holder: Option<PlayerId>, event: GameEvent) -> Option<PlayerId> {
    match event {
        GameEvent::CardDrawn { player_id, deck: drawn_deck, effect } => if drawn_deck == deck && effect
            == CardEffect::GetOutOfJailFree {
            Some(player_id)
        } else {
            holder
        },
        GameEvent::JailCardUsed { deck: used_deck, .. } => if used_deck == deck {
            None
        } else {
            holder
        },
        GameEvent::TradeExecuted { offer } => {
            let bit = deck_kind_bit_spec(deck);
            let after_offer = if offer.offered_get_out_of_jail_free_cards & bit != 0 {
                Some(offer.recipient_player_id)
            } else {
                holder
            };
            if offer.requested_get_out_of_jail_free_cards & bit != 0 {
                Some(offer.proposer_player_id)
            } else {
                after_offer
            }
        },
        GameEvent::Bankrupt { player_id, creditor, .. } => if holder == Some(player_id) {
            match creditor {
                Creditor::Player(player) => Some(player),
                _ => None,
            }
        } else {
            holder
        },
        _ => holder,
    }
}

/// The holder of the jail card of a deck that the public `history` shows.
pub open spec fn public_holder(deck: DeckKind, history: Seq<GameEvent>) -> Option<PlayerId>
    decreases history.len(),
{
    if history.len() == 0 {
        None
    } else {
        holder_after(deck, public_holder(deck, history.drop_last()), history.last())
    }
}

/// The replay after `event`, or nothing when the event contradicts it: a draw reveals an effect
/// other than the one known at its position, the jail card turns up away from its assumed
/// position or while held, or a card is used or traded by a player who does not hold it. A
/// held jail card is skipped when the draws come round to it.
pub open spec fn replay_event(deck: DeckKind, jail_position: int, replay: DrawReplay, event: GameEvent) -> Option<
    DrawReplay,
> {
    let (effects, cursor, holder) = replay;
    match event {
        GameEvent::CardDrawn { player_id, deck: drawn_deck, effect } => if drawn_deck != deck {
            Some(replay)
        } else {
            let position = if holder is Some && cursor == jail_position {
                (cursor + 1) % (CARD_COUNT_PER_DECK as int)
            } else {
                cursor
            };
            if effects[position] is Some && effects[position] != Some(effect) {
                None
            } else if effect == CardEffect::GetOutOfJailFree && (holder is Some || position != jail_position) {
                None
            } else {
                Some(
                    (
                        effects.update(position, Some(effect)),
                        (position + 1) % (CARD_COUNT_PER_DECK as int),
                        holder_after(deck, holder, event),
                    ),
                )
            }
        },
        GameEvent::JailCardUsed { player_id, deck: used_deck } => if used_deck != deck {
            Some(replay)
        } else if holder != Some(player_id) {
            None
        } else {
            Some((effects, cursor, None))
        },
        GameEvent::TradeExecuted { offer } => {
            let bit = deck_kind_bit_spec(deck);
            let offered = offer.offered_get_out_of_jail_free_cards & bit != 0;
            let requested = offer.requested_get_out_of_jail_free_cards & bit != 0;
            if offered && holder != Some(offer.proposer_player_id) {
                None
            } else if requested && !offered && holder != Some(offer.recipient_player_id) {
                None
            } else {
                Some((effects, cursor, holder_after(deck, holder, event)))
            }
        },
        _ => Some((effects, cursor, holder_after(deck, holder, event))),
    }
}

/// The replay of `history` with the jail card assumed at `jail_position`, or nothing when the
/// history contradicts that assumption.
pub open spec fn replay_history(deck: DeckKind, jail_position: int, history: Seq<GameEvent>) -> Option<DrawReplay>
    decreases history.len(),
{
    if history.len() == 0 {
        Some(initial_replay(jail_position))
    } else {
        match replay_history(deck, jail_position, history.drop_last()) {
            Some(replay) => replay_event(deck, jail_position, replay, history.last()),
            None => None,
        }
    }
}

/// The number of the cards `ids` whose effect is `effect`.
pub open spec fn effect_count(deck: DeckKind, ids: Seq<CardId>, effect: CardEffect) -> nat
    decreases ids.len(),
{
    if ids.len() == 0 {
        0
    } else {
        effect_count(deck, ids.drop_last(), effect) + if card_effect_spec(deck, ids.last()) == effect {
            1nat
        } else {
            0nat
        }
    }
}

/// Every card of a deck, by id.
pub open spec fn all_card_ids() -> Seq<CardId> {
    Seq::new(CARD_COUNT_PER_DECK as nat, |id: int| id as CardId)
}

/// The number of cards of a deck with `effect`.
pub open spec fn copies(deck: DeckKind, effect: CardEffect) -> nat {
    effect_count(deck, all_card_ids(), effect)
}

/// The number of the first `count` positions known to hold `effect`.
pub open spec fn revealed_before(effects: Seq<Option<CardEffect>>, count: nat, effect: CardEffect) -> nat
    decreases count,
{
    if count == 0 {
        0
    } else {
        revealed_before(effects, (count - 1) as nat, effect) + if effects[count - 1] == Some(effect) {
            1nat
        } else {
            0nat
        }
    }
}

/// The number of the first `count` positions whose effect is known.
pub open spec fn revealed_count(effects: Seq<Option<CardEffect>>, count: nat) -> nat
    decreases count,
{
    if count == 0 {
        0
    } else {
        revealed_count(effects, (count - 1) as nat) + if effects[count - 1] is Some {
            1nat
        } else {
            0nat
        }
    }
}

/// The number of ways to put distinct cards at the first `count` positions whose effect is
/// known, position by position: each takes one of the cards with its effect that earlier
/// positions left. Nothing when some effect is known at more positions than the deck has
/// cards with it.
pub open spec fn placement_weight(deck: DeckKind, effects: Seq<Option<CardEffect>>, count: nat) -> Option<nat>
    decreases count,
{
    if count == 0 {
        Some(1)
    } else {
        match placement_weight(deck, effects, (count - 1) as nat) {
            None => None,
            Some(weight) => match effects[count - 1] {
                None => Some(weight),
                Some(effect) => if copies(deck, effect) > revealed_before(effects, (count - 1) as nat, effect) {
                    Some(weight * (copies(deck, effect) - revealed_before(effects, (count - 1) as nat, effect)) as nat)
                } else {
                    None
                },
            },
        }
    }
}

pub open spec fn factorial(count: nat) -> nat
    decreases count,
{
    if count == 0 {
        1
    } else {
        count * factorial((count - 1) as nat)
    }
}

/// Whether the history is consistent with the jail card at `jail_position`.
pub open spec fn feasible(deck: DeckKind, history: Seq<GameEvent>, jail_position: int) -> bool {
    &&& replay_history(deck, jail_position, history) is Some
    &&& placement_weight(deck, replay_history(deck, jail_position, history).unwrap().0, CARD_COUNT_PER_DECK as nat) is Some
}

/// The number of orders of the deck that agree with the history and put the jail card at
/// `jail_position`: the placements of the revealed positions times the orders of the other
/// cards over the other positions.
pub open spec fn candidate_weight(deck: DeckKind, history: Seq<GameEvent>, jail_position: int) -> nat {
    if feasible(deck, history, jail_position) {
        let effects = replay_history(deck, jail_position, history).unwrap().0;
        placement_weight(deck, effects, CARD_COUNT_PER_DECK as nat)->0 * factorial(
            (CARD_COUNT_PER_DECK - revealed_count(effects, CARD_COUNT_PER_DECK as nat)) as nat,
        )
    } else {
        0
    }
}

/// The number of orders of the deck that agree with the history with the jail card at one of
/// the first `count` positions.
pub open spec fn total_weight(deck: DeckKind, history: Seq<GameEvent>, count: nat) -> nat
    decreases count,
{
    if count == 0 {
        0
    } else {
        total_weight(deck, history, (count - 1) as nat) + candidate_weight(deck, history, count - 1)
    }
}

/// Whether `state` is an order of the deck, with its next draw position, that the history
/// allows: for some consistent position of the jail card, the state puts a card with the
/// revealed effect at each revealed position and is at the replayed draw position.
pub open spec fn possible_world(deck: DeckKind, history: Seq<GameEvent>, state: DeckState) -> bool {
    exists|jail_position: int|
        0 <= jail_position < CARD_COUNT_PER_DECK && #[trigger] feasible(deck, history, jail_position) && {
            let (effects, cursor, _) = replay_history(deck, jail_position, history)->0;
            &&& state.next_draw_position == cursor
            &&& forall|position: int|
                0 <= position < CARD_COUNT_PER_DECK && #[trigger] effects[position] is Some ==> card_effect_spec(
                    deck,
                    state.card_id_by_draw_position@[position],
                ) == effects[position]->0
        }
}


/// Nothing that a replay can know changes the holder of the jail card: every replay that the
/// history allows shows the public holder.
pub proof fn lemma_replay_holder(deck: DeckKind, jail_position: int, history: Seq<GameEvent>)
    requires
        replay_history(deck, jail_position, history) is Some,
    ensures
        replay_history(deck, jail_position, history).unwrap().2 == public_holder(deck, history),
    decreases history.len(),
{
    if history.len() > 0 {
        lemma_replay_holder(deck, jail_position, history.drop_last());
    }
}

/// A replay keeps one known effect or none per draw position, and its next draw position lies
/// within the deck.
proof fn lemma_replay_shape(deck: DeckKind, jail_position: int, history: Seq<GameEvent>)
    requires
        0 <= jail_position < CARD_COUNT_PER_DECK,
        replay_history(deck, jail_position, history) is Some,
    ensures
        replay_history(deck, jail_position, history).unwrap().0.len() == CARD_COUNT_PER_DECK,
        0 <= replay_history(deck, jail_position, history).unwrap().1 < CARD_COUNT_PER_DECK,
    decreases history.len(),
{
    if history.len() > 0 {
        lemma_replay_shape(deck, jail_position, history.drop_last());
    }
}

proof fn lemma_effect_count_bound(deck: DeckKind, ids: Seq<CardId>, effect: CardEffect)
    ensures
        effect_count(deck, ids, effect) <= ids.len(),
    decreases ids.len(),
{
    if ids.len() > 0 {
        lemma_effect_count_bound(deck, ids.drop_last(), effect);
    }
}

proof fn lemma_effect_count_update(deck: DeckKind, ids: Seq<CardId>, index: int, id: CardId, effect: CardEffect)
    requires
        0 <= index < ids.len(),
    ensures
        effect_count(deck, ids.update(index, id), effect) + (if card_effect_spec(deck, ids[index]) == effect {
            1int
        } else {
            0int
        }) == effect_count(deck, ids, effect) + (if card_effect_spec(deck, id) == effect {
            1int
        } else {
            0int
        }),
    decreases ids.len(),
{
    let updated = ids.update(index, id);
    if index == ids.len() - 1 {
        assert(updated.drop_last() =~= ids.drop_last());
    } else {
        assert(updated.drop_last() =~= ids.drop_last().update(index, id));
        lemma_effect_count_update(deck, ids.drop_last(), index, id, effect);
    }
}

/// Taking the card at `index` out as `Vec::swap_remove` does leaves one card fewer with its
/// effect, and keeps distinct cards distinct.
proof fn lemma_swap_remove(deck: DeckKind, ids: Seq<CardId>, index: int)
    requires
        0 <= index < ids.len(),
    ensures
        ({
            let left = ids.update(index, ids.last()).drop_last();
            &&& left.len() == ids.len() - 1
            &&& forall|effect: CardEffect| #[trigger]
                effect_count(deck, left, effect) + (if card_effect_spec(deck, ids[index]) == effect {
                    1int
                } else {
                    0int
                }) == effect_count(deck, ids, effect)
            &&& forall|position: int| 0 <= position < left.len() ==> #[trigger] ids.contains(left[position])
            &&& ids.no_duplicates() ==> left.no_duplicates() && !left.contains(ids[index])
        }),
{
    let updated = ids.update(index, ids.last());
    let left = updated.drop_last();
    assert forall|effect: CardEffect| #[trigger]
        effect_count(deck, left, effect) + (if card_effect_spec(deck, ids[index]) == effect {
            1int
        } else {
            0int
        }) == effect_count(deck, ids, effect) by {
        lemma_effect_count_update(deck, ids, index, ids.last(), effect);
    }
    assert forall|position: int| 0 <= position < left.len() implies #[trigger] ids.contains(left[position]) by {
        if position == index {
            assert(ids[ids.len() - 1] == left[position]);
        } else {
            assert(ids[position] == left[position]);
        }
    }
    if ids.no_duplicates() {
        assert forall|first: int, second: int| 0 <= first < left.len() && 0 <= second < left.len() && first != second implies left[first]
            != left[second] by {
            if first == index {
                assert(left[first] == ids[ids.len() - 1]);
            }
            if second == index {
                assert(left[second] == ids[ids.len() - 1]);
            }
        }
        if left.contains(ids[index]) {
            let position = choose|position: int| 0 <= position < left.len() && left[position] == ids[index];
            if position == index {
                assert(left[position] == ids[ids.len() - 1]);
            }
        }
    }
}

proof fn lemma_revealed_bounds(effects: Seq<Option<CardEffect>>, from: nat, to: nat)
    requires
        from <= to,
        to <= effects.len(),
    ensures
        revealed_count(effects, to) - revealed_count(effects, from) <= to - from,
        from < to && effects[from as int] is None ==> revealed_count(effects, to) - revealed_count(effects, from) <= to
            - from - 1,
        revealed_count(effects, from) <= from,
    decreases to,
{
    if from < to {
        lemma_revealed_bounds(effects, from, (to - 1) as nat);
    } else if from > 0 {
        lemma_revealed_bounds(effects, (from - 1) as nat, (from - 1) as nat);
    }
}

/// A placement that succeeds counts at least one way, and leaves a card for every revealed
/// position.
proof fn lemma_placement_feasible(deck: DeckKind, effects: Seq<Option<CardEffect>>, count: nat)
    requires
        placement_weight(deck, effects, count) is Some,
    ensures
        placement_weight(deck, effects, count)->0 >= 1,
        forall|position: int|
            0 <= position < count && #[trigger] effects[position] is Some ==> copies(deck, effects[position]->0)
                > revealed_before(effects, position as nat, effects[position]->0),
    decreases count,
{
    if count > 0 {
        lemma_placement_feasible(deck, effects, (count - 1) as nat);
        let weight = placement_weight(deck, effects, (count - 1) as nat)->0;
        if let Some(effect) = effects[count - 1] {
            let left = (copies(deck, effect) - revealed_before(effects, (count - 1) as nat, effect)) as nat;
            assert(weight * left >= 1) by (nonlinear_arith)
                requires
                    weight >= 1,
                    left >= 1,
            ;
        }
    }
}

proof fn lemma_placement_fails_after(deck: DeckKind, effects: Seq<Option<CardEffect>>, count: nat, later: nat)
    requires
        count <= later,
        placement_weight(deck, effects, count) is None,
    ensures
        placement_weight(deck, effects, later) is None,
    decreases later,
{
    if count < later {
        lemma_placement_fails_after(deck, effects, count, (later - 1) as nat);
    }
}

proof fn lemma_factorial_positive(count: nat)
    ensures
        factorial(count) >= 1,
    decreases count,
{
    if count > 0 {
        lemma_factorial_positive((count - 1) as nat);
        assert(count * factorial((count - 1) as nat) >= 1) by (nonlinear_arith)
            requires
                count >= 1,
                factorial((count - 1) as nat) >= 1,
        ;
    }
}

proof fn lemma_factorial_monotonic(smaller: nat, larger: nat)
    requires
        smaller <= larger,
    ensures
        factorial(smaller) <= factorial(larger),
    decreases larger,
{
    if smaller < larger {
        lemma_factorial_monotonic(smaller, (larger - 1) as nat);
        lemma_factorial_positive((larger - 1) as nat);
        assert(factorial((larger - 1) as nat) <= larger * factorial((larger - 1) as nat)) by (nonlinear_arith)
            requires
                larger >= 1,
        ;
    }
}

proof fn lemma_factorial_of_deck()
    ensures
        factorial(CARD_COUNT_PER_DECK as nat) == 20922789888000,
{
    reveal_with_fuel(factorial, 17);
}


/// Whether `holder` is `player`.
fn holds(holder: Option<PlayerId>, player: PlayerId) -> (result: bool)
    ensures
        result == (holder == Some(player)),
{
    match holder {
        Some(held_by) => held_by == player,
        None => false,
    }
}

/// Applies `event` to the replay held in `effects`, `cursor` and `holder`; false when the
/// event contradicts it.
fn replay_step(
    deck: DeckKind,
    jail_position: usize,
    effects: &mut [Option<CardEffect>; CARD_COUNT_PER_DECK],
    cursor: &mut usize,
    holder: &mut Option<PlayerId>,
    event: GameEvent,
) -> (consistent: bool)
    requires
        jail_position < CARD_COUNT_PER_DECK,
        *old(cursor) < CARD_COUNT_PER_DECK,
    ensures
        *final(cursor) < CARD_COUNT_PER_DECK,
        match replay_event(deck, jail_position as int, (old(effects)@, *old(cursor) as int, *old(holder)), event) {
            Some(replay) => consistent && replay.0 == final(effects)@ && replay.1 == *final(cursor) as int && replay.2
                == *final(holder),
            None => !consistent,
        },
{
    match event {
        GameEvent::CardDrawn { player_id, deck: drawn_deck, effect } => {
            if drawn_deck != deck {
                return true;
            }
            if holder.is_some() && *cursor == jail_position {
                *cursor = (*cursor + 1) % CARD_COUNT_PER_DECK;
            }
            let position = *cursor;
            match effects[position] {
                Some(known) => if known != effect {
                    return false;
                },
                None => {},
            }
            if effect == CardEffect::GetOutOfJailFree {
                if holder.is_some() || position != jail_position {
                    return false;
                }
                *holder = Some(player_id);
            }
            effects[position] = Some(effect);
            *cursor = (position + 1) % CARD_COUNT_PER_DECK;
            true
        },
        GameEvent::JailCardUsed { player_id, deck: used_deck } => {
            if used_deck == deck {
                if !holds(*holder, player_id) {
                    return false;
                }
                *holder = None;
            }
            true
        },
        GameEvent::TradeExecuted { offer } => {
            let bit = deck_kind_bit(deck);
            if offer.offered_get_out_of_jail_free_cards & bit != 0 {
                if !holds(*holder, offer.proposer_player_id) {
                    return false;
                }
                *holder = Some(offer.recipient_player_id);
            }
            if offer.requested_get_out_of_jail_free_cards & bit != 0 {
                if !holds(*holder, offer.recipient_player_id) {
                    return false;
                }
                *holder = Some(offer.proposer_player_id);
            }
            true
        },
        GameEvent::Bankrupt { player_id, creditor, .. } => {
            if holds(*holder, player_id) {
                *holder = match creditor {
                    Creditor::Player(player) => Some(player),
                    _ => None,
                };
            }
            true
        },
        _ => true,
    }
}

/// Every card of the deck, by id.
fn all_cards() -> (ids: Vec<CardId>)
    ensures
        ids@ == all_card_ids(),
        ids@.no_duplicates(),
        forall|index: int| 0 <= index < ids@.len() ==> #[trigger] ids@[index] < CARD_COUNT_PER_DECK,
{
    let mut ids: Vec<CardId> = Vec::new();
    let mut id: u8 = 0;
    while (id as usize) < CARD_COUNT_PER_DECK
        invariant
            id <= CARD_COUNT_PER_DECK,
            ids@ == all_card_ids().take(id as int),
        decreases CARD_COUNT_PER_DECK - id,
    {
        ids.push(id);
        id = id + 1;
        assert(ids@ =~= all_card_ids().take(id as int));
    }
    assert(ids@ =~= all_card_ids());
    ids
}

/// The number of the cards `ids` with `effect`.
fn count_matching(deck: DeckKind, ids: &Vec<CardId>, effect: CardEffect) -> (count: u64)
    requires
        forall|index: int| 0 <= index < ids@.len() ==> #[trigger] ids@[index] < CARD_COUNT_PER_DECK,
        ids@.len() <= CARD_COUNT_PER_DECK,
    ensures
        count == effect_count(deck, ids@, effect),
{
    let mut count: u64 = 0;
    let mut index: usize = 0;
    while index < ids.len()
        invariant
            index <= ids@.len() <= CARD_COUNT_PER_DECK,
            forall|position: int| 0 <= position < ids@.len() ==> #[trigger] ids@[position] < CARD_COUNT_PER_DECK,
            count == effect_count(deck, ids@.take(index as int), effect),
            count <= index,
        decreases ids@.len() - index,
    {
        assert(ids@.take(index + 1).drop_last() =~= ids@.take(index as int));
        if card_definition(deck, ids[index]).effect == effect {
            count = count + 1;
        }
        index = index + 1;
    }
    assert(ids@.take(index as int) =~= ids@);
    count
}

/// The positions in `ids` of the cards with `effect`, in order.
fn matching_positions(deck: DeckKind, ids: &Vec<CardId>, effect: CardEffect) -> (positions: Vec<usize>)
    requires
        forall|index: int| 0 <= index < ids@.len() ==> #[trigger] ids@[index] < CARD_COUNT_PER_DECK,
    ensures
        positions@.len() == effect_count(deck, ids@, effect),
        forall|index: int|
            0 <= index < positions@.len() ==> #[trigger] positions@[index] < ids@.len() && card_effect_spec(
                deck,
                ids@[positions@[index] as int],
            ) == effect,
{
    let mut positions: Vec<usize> = Vec::new();
    let mut index: usize = 0;
    while index < ids.len()
        invariant
            index <= ids@.len(),
            forall|position: int| 0 <= position < ids@.len() ==> #[trigger] ids@[position] < CARD_COUNT_PER_DECK,
            positions@.len() == effect_count(deck, ids@.take(index as int), effect),
            forall|position: int|
                0 <= position < positions@.len() ==> #[trigger] positions@[position] < index && card_effect_spec(
                    deck,
                    ids@[positions@[position] as int],
                ) == effect,
        decreases ids@.len() - index,
    {
        assert(ids@.take(index + 1).drop_last() =~= ids@.take(index as int));
        if card_definition(deck, ids[index]).effect == effect {
            positions.push(index);
        }
        index = index + 1;
    }
    assert(ids@.take(index as int) =~= ids@);
    positions
}

/// The number of orders of the deck that put a card with the known effect at each position
/// of `effects`, or nothing when there are none.
fn placement(deck: DeckKind, effects: &[Option<CardEffect>; CARD_COUNT_PER_DECK]) -> (weight: Option<u64>)
    ensures
        match placement_weight(deck, effects@, CARD_COUNT_PER_DECK as nat) {
            Some(placed) => weight == Some((placed * factorial(
                (CARD_COUNT_PER_DECK - revealed_count(effects@, CARD_COUNT_PER_DECK as nat)) as nat,
            )) as u64) && placed * factorial(
                (CARD_COUNT_PER_DECK - revealed_count(effects@, CARD_COUNT_PER_DECK as nat)) as nat,
            ) <= factorial(CARD_COUNT_PER_DECK as nat),
            None => weight is None,
        },
{
    proof {
        lemma_factorial_of_deck();
    }
    let mut remaining = all_cards();
    let mut weight: u64 = 1;
    let mut position: usize = 0;
    while position < CARD_COUNT_PER_DECK
        invariant
            position <= CARD_COUNT_PER_DECK,
            factorial(CARD_COUNT_PER_DECK as nat) == 20922789888000,
            remaining@.len() + revealed_count(effects@, position as nat) == CARD_COUNT_PER_DECK,
            forall|index: int| 0 <= index < remaining@.len() ==> #[trigger] remaining@[index] < CARD_COUNT_PER_DECK,
            forall|effect: CardEffect| #[trigger]
                effect_count(deck, remaining@, effect) + revealed_before(effects@, position as nat, effect) == copies(
                    deck,
                    effect,
                ),
            placement_weight(deck, effects@, position as nat) == Some(weight as nat),
            weight * factorial(remaining@.len()) <= factorial(CARD_COUNT_PER_DECK as nat),
        decreases CARD_COUNT_PER_DECK - position,
    {
        proof {
            lemma_revealed_bounds(effects@, position as nat, position as nat);
        }
        match effects[position] {
            None => {},
            Some(effect) => {
                let matching = count_matching(deck, &remaining, effect);
                assert(effect_count(deck, remaining@, effect) + revealed_before(effects@, position as nat, effect)
                    == copies(deck, effect));
                if matching == 0 {
                    proof {
                        lemma_placement_fails_after(
                            deck,
                            effects@,
                            (position + 1) as nat,
                            CARD_COUNT_PER_DECK as nat,
                        );
                    }
                    return None;
                }
                let positions = matching_positions(deck, &remaining, effect);
                let index = positions[0];
                proof {
                    lemma_effect_count_bound(deck, remaining@, effect);
                    let count = remaining@.len();
                    assert(count >= 1);
                    assert(factorial(count) == count * factorial((count - 1) as nat));
                    assert(weight * matching * factorial((count - 1) as nat) <= weight * factorial(count)) by (
                    nonlinear_arith)
                        requires
                            matching <= count,
                            factorial(count) == count * factorial((count - 1) as nat),
                    ;
                    lemma_factorial_positive((count - 1) as nat);
                    assert(weight * matching <= weight * matching * factorial((count - 1) as nat)) by (nonlinear_arith)
                        requires
                            factorial((count - 1) as nat) >= 1,
                    ;
                    lemma_swap_remove(deck, remaining@, index as int);
                }
                weight = weight * matching;
                let ghost before = remaining@;
                remaining.swap_remove(index);
                proof {
                    assert forall|other: CardEffect| #[trigger]
                        effect_count(deck, remaining@, other) + revealed_before(effects@, (position + 1) as nat, other)
                            == copies(deck, other) by {
                        assert(effect_count(deck, remaining@, other) + (if card_effect_spec(deck, before[index as int])
                            == other {
                            1int
                        } else {
                            0int
                        }) == effect_count(deck, before, other));
                        assert(effect_count(deck, before, other) + revealed_before(effects@, position as nat, other)
                            == copies(deck, other));
                    }
                    assert forall|slot: int| 0 <= slot < remaining@.len() implies #[trigger] remaining@[slot]
                        < CARD_COUNT_PER_DECK by {
                        assert(before.contains(remaining@[slot]));
                    }
                }
            },
        }
        position = position + 1;
    }
    let ghost placed = weight;
    let count_limit = remaining.len();
    proof {
        reveal_with_fuel(factorial, 2);
        assert(factorial(1) == 1);
        assert(placed * factorial(1) == placed);
    }
    let mut count: u64 = 1;
    while (count as usize) < count_limit
        invariant
            count_limit == remaining@.len(),
            1 <= count,
            count <= count_limit || count == 1,
            weight == placed * factorial(count as nat),
            placed * factorial(count_limit as nat) <= factorial(CARD_COUNT_PER_DECK as nat),
            factorial(CARD_COUNT_PER_DECK as nat) == 20922789888000,
        decreases count_limit - count,
    {
        proof {
            lemma_factorial_monotonic((count + 1) as nat, count_limit as nat);
            assert(placed * factorial((count + 1) as nat) <= placed * factorial(count_limit as nat)) by (
            nonlinear_arith)
                requires
                    factorial((count + 1) as nat) <= factorial(count_limit as nat),
            ;
            assert(factorial((count + 1) as nat) == (count + 1) * factorial(count as nat));
            assert(weight * (count + 1) == placed * factorial((count + 1) as nat)) by (nonlinear_arith)
                requires
                    weight == placed * factorial(count as nat),
                    factorial((count + 1) as nat) == (count + 1) * factorial(count as nat),
            ;
        }
        count = count + 1;
        weight = weight * count;
    }
    proof {
        if count_limit == 0 {
            assert(factorial(0) == 1);
        }
        assert(factorial(count as nat) == factorial(count_limit as nat));
    }
    Some(weight)
}


/// One position of the jail card that the history allows: the effects it reveals, the next
/// draw position, and the number of orders of the deck that agree with it.
#[derive(Debug, Clone, Copy)]
struct Candidate {
    effects: [Option<CardEffect>; CARD_COUNT_PER_DECK],
    next_draw_position: u8,
    weight: u64,
}

/// Whether `candidate` is what the history shows with the jail card at `jail_position`.
spec fn describes(deck: DeckKind, history: Seq<GameEvent>, jail_position: int, candidate: Candidate) -> bool {
    &&& 0 <= jail_position < CARD_COUNT_PER_DECK
    &&& feasible(deck, history, jail_position)
    &&& candidate.effects@ == replay_history(deck, jail_position, history).unwrap().0
    &&& candidate.next_draw_position == replay_history(deck, jail_position, history).unwrap().1
    &&& candidate.weight == candidate_weight(deck, history, jail_position)
}

/// Whether `candidate` is what the history shows for some position of the jail card.
spec fn allowed(deck: DeckKind, history: Seq<GameEvent>, candidate: Candidate) -> bool {
    exists|jail_position: int| #[trigger] describes(deck, history, jail_position, candidate)
}

/// The sum of the weights of `candidates`.
spec fn weight_sum(candidates: Seq<Candidate>) -> nat
    decreases candidates.len(),
{
    if candidates.len() == 0 {
        0
    } else {
        (weight_sum(candidates.drop_last()) + candidates.last().weight) as nat
    }
}

/// Replays `history` with the jail card at `jail_position`; gives the candidate and the holder
/// of the jail card when the history allows that position.
fn candidate_from_history(deck: DeckKind, history: &[GameEvent], jail_position: usize) -> (result: Option<
    (Candidate, Option<PlayerId>),
>)
    requires
        jail_position < CARD_COUNT_PER_DECK,
    ensures
        match result {
            Some((candidate, holder)) => {
                &&& describes(deck, history@, jail_position as int, candidate)
                &&& holder == public_holder(deck, history@)
                &&& candidate.weight <= factorial(CARD_COUNT_PER_DECK as nat)
            },
            None => !feasible(deck, history@, jail_position as int),
        },
{
    let mut effects: [Option<CardEffect>; CARD_COUNT_PER_DECK] = vstd::array::array_fill_for_copy_types(None);
    effects[jail_position] = Some(CardEffect::GetOutOfJailFree);
    assert forall|position: int| 0 <= position < CARD_COUNT_PER_DECK implies #[trigger] effects@[position]
        == initial_replay(jail_position as int).0[position] by {}
    let mut cursor: usize = 0;
    let mut holder: Option<PlayerId> = None;
    assert(effects@ =~= initial_replay(jail_position as int).0);
    assert(history@.take(0) =~= Seq::<GameEvent>::empty());
    let mut index: usize = 0;
    while index < history.len()
        invariant
            jail_position < CARD_COUNT_PER_DECK,
            index <= history@.len(),
            cursor < CARD_COUNT_PER_DECK,
            replay_history(deck, jail_position as int, history@.take(index as int)) == Some(
                (effects@, cursor as int, holder),
            ),
        decreases history@.len() - index,
    {
        assert(history@.take(index + 1).drop_last() =~= history@.take(index as int));
        if !replay_step(deck, jail_position, &mut effects, &mut cursor, &mut holder, history[index]) {
            assert(replay_history(deck, jail_position as int, history@.take(index + 1)) is None);
            proof {
                lemma_replay_fails_after(deck, jail_position as int, history@, (index + 1) as nat);
            }
            return None;
        }
        index = index + 1;
    }
    assert(history@.take(index as int) =~= history@);
    proof {
        lemma_replay_holder(deck, jail_position as int, history@);
        lemma_factorial_of_deck();
    }
    match placement(deck, &effects) {
        Some(weight) => {
            let next_draw_position = cursor as u8;
            Some((Candidate { effects, next_draw_position, weight }, holder))
        },
        None => None,
    }
}

proof fn lemma_replay_fails_after(deck: DeckKind, jail_position: int, history: Seq<GameEvent>, count: nat)
    requires
        count <= history.len(),
        replay_history(deck, jail_position, history.take(count as int)) is None,
    ensures
        replay_history(deck, jail_position, history) is None,
    decreases history.len() - count,
{
    if count < history.len() {
        assert(history.take((count + 1) as int).drop_last() =~= history.take(count as int));
        lemma_replay_fails_after(deck, jail_position, history, count + 1);
    } else {
        assert(history.take(count as int) =~= history);
    }
}

/// What the public history of a game tells about the order of one deck: every position of the
/// jail card that the history allows, with the number of orders of the deck that agree with
/// each, and who holds the jail card.
#[derive(Clone)]
pub struct DeckBelief {
    deck: DeckKind,
    candidates: Vec<Candidate>,
    holder: Option<PlayerId>,
    permutation_count: u64,
    history: Ghost<Seq<GameEvent>>,
}

impl DeckBelief {
    /// The deck the belief is about.
    pub closed spec fn deck_spec(self) -> DeckKind {
        self.deck
    }

    /// The public history the belief was formed from.
    pub closed spec fn history_spec(self) -> Seq<GameEvent> {
        self.history@
    }

    /// The belief holds every position of the jail card that its history allows, and the
    /// number of orders of the deck that agree with its history.
    pub closed spec fn wf(self) -> bool {
        &&& self.candidates@.len() <= CARD_COUNT_PER_DECK
        &&& forall|index: int|
            0 <= index < self.candidates@.len() ==> #[trigger] allowed(self.deck, self.history@, self.candidates@[index])
        &&& forall|jail_position: int|
            0 <= jail_position < CARD_COUNT_PER_DECK && #[trigger] feasible(self.deck, self.history@, jail_position)
                ==> exists|index: int|
                0 <= index < self.candidates@.len() && #[trigger] describes(
                    self.deck,
                    self.history@,
                    jail_position,
                    self.candidates@[index],
                )
        &&& self.permutation_count == weight_sum(self.candidates@)
        &&& self.permutation_count == total_weight(self.deck, self.history@, CARD_COUNT_PER_DECK as nat)
        &&& self.permutation_count > 0
        &&& self.holder == public_holder(self.deck, self.history@)
    }

    /// Whether `state` agrees with the jail card's place that the draw `draw` picks, the orders
    /// of each place laid end to end: the next draw position and every effect the history
    /// revealed are those of that place.
    pub closed spec fn agrees_with_draw(self, draw: int, state: DeckState) -> bool {
        exists|index: int|
            #![trigger self.candidates@[index]]
            0 <= index < self.candidates@.len() && weight_sum(self.candidates@.take(index)) <= draw < weight_sum(
                self.candidates@.take(index + 1),
            ) && agrees(self.deck, self.candidates@[index], state)
    }

    /// Forms the belief about `deck` from the public events of a game from its start. Fails when
    /// no order of the deck agrees with them.
    pub fn from_start_history(deck: DeckKind, history: &[GameEvent]) -> (result: Result<Self, &'static str>)
        ensures
            result is Ok <==> total_weight(deck, history@, CARD_COUNT_PER_DECK as nat) > 0,
            result matches Ok(belief) ==> {
                &&& belief.wf()
                &&& belief.deck_spec() == deck
                &&& belief.history_spec() == history@
            },
    {
        let mut candidates: Vec<Candidate> = Vec::new();
        let mut holder: Option<PlayerId> = None;
        let mut permutation_count: u64 = 0;
        let mut jail_position: usize = 0;
        proof {
            lemma_factorial_of_deck();
        }
        while jail_position < CARD_COUNT_PER_DECK
            invariant
                jail_position <= CARD_COUNT_PER_DECK,
                candidates@.len() <= jail_position,
                forall|index: int| 0 <= index < candidates@.len() ==> #[trigger] allowed(deck, history@, candidates@[index]),
                forall|earlier: int|
                    0 <= earlier < jail_position && #[trigger] feasible(deck, history@, earlier) ==> exists|index: int|
                        0 <= index < candidates@.len() && #[trigger] describes(deck, history@, earlier, candidates@[index]),
                permutation_count == weight_sum(candidates@),
                permutation_count == total_weight(deck, history@, jail_position as nat),
                permutation_count <= jail_position * factorial(CARD_COUNT_PER_DECK as nat),
                factorial(CARD_COUNT_PER_DECK as nat) == 20922789888000,
                candidates@.len() > 0 ==> holder == public_holder(deck, history@),
                permutation_count > 0 ==> candidates@.len() > 0,
            decreases CARD_COUNT_PER_DECK - jail_position,
        {
            match candidate_from_history(deck, history, jail_position) {
                Some((candidate, final_holder)) => {
                    let ghost before = candidates@;
                    candidates.push(candidate);
                    assert(candidates@.drop_last() =~= before);
                    assert(describes(deck, history@, jail_position as int, candidate));
                    assert(candidates@[before.len() as int] == candidate);
                    assert forall|earlier: int|
                        0 <= earlier < jail_position + 1 && #[trigger] feasible(deck, history@, earlier) implies exists|index: int|
                            0 <= index < candidates@.len() && #[trigger] describes(deck, history@, earlier, candidates@[index]) by {
                        if earlier < jail_position {
                            let index = choose|index: int|
                                0 <= index < before.len() && #[trigger] describes(deck, history@, earlier, before[index]);
                            assert(candidates@[index] == before[index]);
                        } else {
                            assert(describes(deck, history@, earlier, candidates@[before.len() as int]));
                        }
                    }
                    permutation_count = permutation_count + candidate.weight;
                    holder = final_holder;
                },
                None => {},
            }
            jail_position = jail_position + 1;
        }
        if permutation_count == 0 {
            return Err("card history is inconsistent with the starting deck and public jail card transfers");
        }
        let belief = DeckBelief { deck, candidates, holder, permutation_count, history: Ghost(history@) };
        assert forall|jail_position: int|
            0 <= jail_position < CARD_COUNT_PER_DECK && #[trigger] feasible(belief.deck, belief.history@, jail_position)
                implies exists|index: int|
                0 <= index < belief.candidates@.len() && #[trigger] describes(
                    belief.deck,
                    belief.history@,
                    jail_position,
                    belief.candidates@[index],
                ) by {
            let index = choose|index: int|
                0 <= index < candidates@.len() && #[trigger] describes(deck, history@, jail_position, candidates@[index]);
            assert(describes(belief.deck, belief.history@, jail_position, belief.candidates@[index]));
        }
        Ok(belief)
    }

    pub fn holder(&self) -> (holder: Option<PlayerId>)
        requires
            self.wf(),
        ensures
            holder == public_holder(self.deck_spec(), self.history_spec()),
    {
        self.holder
    }

    pub fn permutation_count(&self) -> (count: u64)
        requires
            self.wf(),
        ensures
            count == total_weight(self.deck_spec(), self.history_spec(), CARD_COUNT_PER_DECK as nat),
    {
        self.permutation_count
    }
}


/// The generator state and the number below `bound` that sampling from the state `state` gives,
/// after `rejections` draws were rejected: the next draw modulo `bound`, once the draw is at least
/// `2^64 mod bound` or `u64::MAX` draws were rejected, and otherwise a draw more.
pub open spec fn sampled_below(state: u64, bound: u64, rejections: int) -> (u64, u64)
    decreases u64::MAX - rejections,
{
    let next = wyrand_step(state);
    let value = wyrand_output(next);
    if value >= (u64::MAX - bound + 1) % (bound as int) || rejections >= u64::MAX {
        (next, (value % bound) as u64)
    } else {
        sampled_below(next, bound, rejections + 1)
    }
}

/// A number below `bound`, drawn without bias by rejecting the draws below `2^64 mod bound`.
/// After `u64::MAX` rejections in a row the next draw is taken as it is.
fn sample_below(rng: &mut WyRand, bound: u64) -> (value: u64)
    requires
        bound > 0,
    ensures
        value < bound,
        (final(rng).state(), value) == sampled_below(old(rng).state(), bound, 0),
{
    let threshold = (u64::MAX - bound + 1) % bound;
    let mut rejection_count: u64 = 0;
    loop
        invariant
            bound > 0,
            threshold == (u64::MAX - bound + 1) % (bound as int),
            sampled_below(old(rng).state(), bound, 0) == sampled_below(rng.state(), bound, rejection_count as int),
        decreases u64::MAX - rejection_count,
    {
        let value = rng.generate_u64();
        if value >= threshold || rejection_count == u64::MAX {
            return value % bound;
        }
        rejection_count = rejection_count + 1;
    }
}

/// The candidate at which `index` falls when the weights of the candidates are laid end to
/// end.
fn pick_candidate(candidates: &Vec<Candidate>, index: u64) -> (chosen: usize)
    requires
        index < weight_sum(candidates@),
    ensures
        chosen < candidates@.len(),
        weight_sum(candidates@.take(chosen as int)) <= index < weight_sum(candidates@.take(chosen + 1)),
{
    let mut left = index;
    let mut position: usize = 0;
    assert(candidates@.take(0) =~= Seq::<Candidate>::empty());
    while position < candidates.len()
        invariant
            position <= candidates@.len(),
            left + weight_sum(candidates@.take(position as int)) == index,
            index < weight_sum(candidates@),
        decreases candidates@.len() - position,
    {
        assert(candidates@.take(position + 1).drop_last() =~= candidates@.take(position as int));
        if left < candidates[position].weight {
            return position;
        }
        left = left - candidates[position].weight;
        position = position + 1;
    }
    assert(candidates@.take(position as int) =~= candidates@);
    position
}

impl DeckBelief {
    /// Draws an order of the deck, with its next draw position, that the history allows: a
    /// position of the jail card in proportion to the orders that agree with it, then for each
    /// revealed position one of the cards left with its effect, then the cards left over the
    /// other positions.
    pub fn sample(&self, rng: &mut WyRand) -> (state: DeckState)
        requires
            self.wf(),
        ensures
            state.wf(),
            possible_world(self.deck_spec(), self.history_spec(), state),
            self.agrees_with_draw(
                sampled_below(
                    old(rng).state(),
                    total_weight(self.deck_spec(), self.history_spec(), CARD_COUNT_PER_DECK as nat) as u64,
                    0,
                ).1 as int,
                state,
            ),
    {
        let deck = self.deck;
        let index = sample_below(rng, self.permutation_count);
        let chosen = pick_candidate(&self.candidates, index);
        let candidate = self.candidates[chosen];
        let ghost effects = candidate.effects@;
        let ghost jail_position = choose|jail_position: int| #[trigger] describes(deck, self.history@, jail_position, candidate);
        proof {
            assert(allowed(deck, self.history@, self.candidates@[chosen as int]));
            lemma_replay_shape(deck, jail_position, self.history@);
            lemma_placement_feasible(deck, effects, CARD_COUNT_PER_DECK as nat);
        }
        let mut remaining = all_cards();
        let mut order: [CardId; CARD_COUNT_PER_DECK] = [0; CARD_COUNT_PER_DECK];
        let mut position: usize = 0;
        while position < CARD_COUNT_PER_DECK
            invariant
                position <= CARD_COUNT_PER_DECK,
                effects == candidate.effects@,
                effects.len() == CARD_COUNT_PER_DECK,
                forall|slot: int|
                    0 <= slot < CARD_COUNT_PER_DECK && #[trigger] effects[slot] is Some ==> copies(deck, effects[slot]->0)
                        > revealed_before(effects, slot as nat, effects[slot]->0),
                remaining@.len() + revealed_count(effects, position as nat) == CARD_COUNT_PER_DECK,
                forall|effect: CardEffect| #[trigger]
                    effect_count(deck, remaining@, effect) + revealed_before(effects, position as nat, effect) == copies(
                        deck,
                        effect,
                    ),
                remaining@.no_duplicates(),
                forall|slot: int| 0 <= slot < remaining@.len() ==> #[trigger] remaining@[slot] < CARD_COUNT_PER_DECK,
                forall|slot: int|
                    0 <= slot < position && effects[slot] is Some ==> #[trigger] order@[slot] < CARD_COUNT_PER_DECK
                        && !remaining@.contains(order@[slot]) && card_effect_spec(deck, order@[slot]) == effects[slot]->0,
                forall|first: int, second: int|
                    0 <= first < position && 0 <= second < position && first != second && effects[first] is Some
                        && effects[second] is Some ==> #[trigger] order@[first] != #[trigger] order@[second],
            decreases CARD_COUNT_PER_DECK - position,
        {
            proof {
                lemma_revealed_bounds(effects, position as nat, position as nat);
            }
            match candidate.effects[position as usize] {
                None => {},
                Some(effect) => {
                    assert(effects[position as int] is Some);
                    assert(effect_count(deck, remaining@, effect) + revealed_before(effects, position as nat, effect)
                        == copies(deck, effect));
                    let positions = matching_positions(deck, &remaining, effect);
                    proof {
                        lemma_effect_count_bound(deck, remaining@, effect);
                    }
                    let pick = sample_below(rng, positions.len() as u64) as usize;
                    let slot = positions[pick];
                    let ghost before = remaining@;
                    proof {
                        lemma_swap_remove(deck, remaining@, slot as int);
                    }
                    let id = remaining.swap_remove(slot);
                    order[position] = id;
                    proof {
                        assert forall|other: CardEffect| #[trigger]
                            effect_count(deck, remaining@, other) + revealed_before(effects, (position + 1) as nat, other)
                                == copies(deck, other) by {
                            assert(effect_count(deck, remaining@, other) + (if card_effect_spec(deck, before[slot as int])
                                == other {
                                1int
                            } else {
                                0int
                            }) == effect_count(deck, before, other));
                            assert(effect_count(deck, before, other) + revealed_before(effects, position as nat, other)
                                == copies(deck, other));
                        }
                        assert forall|index: int| 0 <= index < remaining@.len() implies #[trigger] remaining@[index]
                            < CARD_COUNT_PER_DECK by {
                            assert(before.contains(remaining@[index]));
                        }
                        assert forall|earlier: int|
                            0 <= earlier < position + 1 && effects[earlier] is Some implies #[trigger] order@[earlier]
                                < CARD_COUNT_PER_DECK && !remaining@.contains(order@[earlier]) && card_effect_spec(
                                deck,
                                order@[earlier],
                            ) == effects[earlier]->0 by {
                            if earlier < position {
                                if remaining@.contains(order@[earlier]) {
                                    let at = choose|at: int| 0 <= at < remaining@.len() && remaining@[at] == order@[earlier];
                                    assert(before.contains(remaining@[at]));
                                }
                            }
                        }
                    }
                },
            }
            position = position + 1;
        }
        proof {
            lemma_revealed_bounds(effects, position as nat, position as nat);
            assert(remaining@.len() + revealed_count(effects, CARD_COUNT_PER_DECK as nat) == CARD_COUNT_PER_DECK);
        }
        let mut position: usize = 0;
        while position < CARD_COUNT_PER_DECK
            invariant
                position <= CARD_COUNT_PER_DECK,
                effects == candidate.effects@,
                effects.len() == CARD_COUNT_PER_DECK,
                remaining@.len() + revealed_count(effects, CARD_COUNT_PER_DECK as nat) + position - revealed_count(
                    effects,
                    position as nat,
                ) == CARD_COUNT_PER_DECK,
                remaining@.no_duplicates(),
                forall|slot: int| 0 <= slot < remaining@.len() ==> #[trigger] remaining@[slot] < CARD_COUNT_PER_DECK,
                forall|slot: int|
                    0 <= slot < CARD_COUNT_PER_DECK && (effects[slot] is Some || slot < position) ==> #[trigger] order@[slot]
                        < CARD_COUNT_PER_DECK && !remaining@.contains(order@[slot]),
                forall|slot: int|
                    0 <= slot < CARD_COUNT_PER_DECK && #[trigger] effects[slot] is Some ==> card_effect_spec(
                        deck,
                        order@[slot],
                    ) == effects[slot]->0,
                forall|first: int, second: int|
                    0 <= first < CARD_COUNT_PER_DECK && 0 <= second < CARD_COUNT_PER_DECK && first != second && (
                    effects[first] is Some || first < position) && (effects[second] is Some || second < position)
                        ==> #[trigger] order@[first] != #[trigger] order@[second],
            decreases CARD_COUNT_PER_DECK - position,
        {
            proof {
                lemma_revealed_bounds(effects, position as nat, CARD_COUNT_PER_DECK as nat);
                lemma_revealed_bounds(effects, position as nat, (position + 1) as nat);
            }
            if candidate.effects[position].is_none() {
                let pick = sample_below(rng, remaining.len() as u64) as usize;
                let ghost before = remaining@;
                proof {
                    lemma_swap_remove(deck, remaining@, pick as int);
                }
                let id = remaining.swap_remove(pick);
                order[position] = id;
                proof {
                    assert forall|index: int| 0 <= index < remaining@.len() implies #[trigger] remaining@[index]
                        < CARD_COUNT_PER_DECK by {
                        assert(before.contains(remaining@[index]));
                    }
                    assert forall|slot: int|
                        0 <= slot < CARD_COUNT_PER_DECK && (effects[slot] is Some || slot < position + 1) implies #[trigger] order@[slot]
                            < CARD_COUNT_PER_DECK && !remaining@.contains(order@[slot]) by {
                        if slot != position {
                            if remaining@.contains(order@[slot]) {
                                let at = choose|at: int| 0 <= at < remaining@.len() && remaining@[at] == order@[slot];
                                assert(before.contains(remaining@[at]));
                            }
                        }
                    }
                }
            }
            position = position + 1;
        }
        let state = DeckState { card_id_by_draw_position: order, next_draw_position: candidate.next_draw_position };
        proof {
            assert(describes(deck, self.history@, jail_position, candidate));
            assert(feasible(deck, self.history@, jail_position));
            assert(agrees(deck, self.candidates@[chosen as int], state));
        }
        state
    }
}


/// Whether `candidate` puts the next draw at the position of `state` and reveals only effects
/// that `state` has at their positions.
spec fn agrees(deck: DeckKind, candidate: Candidate, state: DeckState) -> bool {
    &&& state.next_draw_position == candidate.next_draw_position
    &&& forall|position: int|
        0 <= position < CARD_COUNT_PER_DECK && #[trigger] candidate.effects@[position] is Some ==> card_effect_spec(
            deck,
            state.card_id_by_draw_position@[position],
        ) == candidate.effects@[position]->0
}

/// Whether `candidate` agrees with `state`.
fn candidate_agrees(deck: DeckKind, candidate: &Candidate, state: &DeckState) -> (result: bool)
    requires
        state.wf(),
    ensures
        result == agrees(deck, *candidate, *state),
{
    if state.next_draw_position != candidate.next_draw_position {
        return false;
    }
    let mut position: usize = 0;
    while position < CARD_COUNT_PER_DECK
        invariant
            position <= CARD_COUNT_PER_DECK,
            state.wf(),
            forall|earlier: int|
                0 <= earlier < position && #[trigger] candidate.effects@[earlier] is Some ==> card_effect_spec(
                    deck,
                    state.card_id_by_draw_position@[earlier],
                ) == candidate.effects@[earlier]->0,
        decreases CARD_COUNT_PER_DECK - position,
    {
        match candidate.effects[position] {
            Some(effect) => {
                if card_definition(deck, state.card_id_by_draw_position[position]).effect != effect {
                    assert(candidate.effects@[position as int] is Some);
                    return false;
                }
            },
            None => {},
        }
        position = position + 1;
    }
    true
}

impl DeckBelief {
    /// Whether the history allows `state` as the order of the deck and its next draw position.
    pub fn allows(&self, state: &DeckState) -> (allowed: bool)
        requires
            self.wf(),
            state.wf(),
        ensures
            allowed == possible_world(self.deck_spec(), self.history_spec(), *state),
    {
        let mut index: usize = 0;
        while index < self.candidates.len()
            invariant
                self.wf(),
                state.wf(),
                index <= self.candidates@.len(),
                forall|earlier: int| 0 <= earlier < index ==> !agrees(self.deck, #[trigger] self.candidates@[earlier], *state),
            decreases self.candidates@.len() - index,
        {
            if candidate_agrees(self.deck, &self.candidates[index], state) {
                proof {
                    let candidate = self.candidates@[index as int];
                    assert(allowed(self.deck, self.history@, candidate));
                    let jail_position = choose|jail_position: int| #[trigger] describes(self.deck, self.history@, jail_position, candidate);
                    assert(feasible(self.deck, self.history@, jail_position));
                }
                return true;
            }
            index = index + 1;
        }
        proof {
            if possible_world(self.deck, self.history@, *state) {
                let jail_position = choose|jail_position: int|
                    0 <= jail_position < CARD_COUNT_PER_DECK && #[trigger] feasible(self.deck, self.history@, jail_position)
                        && {
                        let (effects, cursor, _) = replay_history(self.deck, jail_position, self.history@)->0;
                        &&& state.next_draw_position == cursor
                        &&& forall|position: int|
                            0 <= position < CARD_COUNT_PER_DECK && #[trigger] effects[position] is Some ==> card_effect_spec(
                                self.deck,
                                state.card_id_by_draw_position@[position],
                            ) == effects[position]->0
                    };
                let found = choose|found: int|
                    0 <= found < self.candidates@.len() && #[trigger] describes(
                        self.deck,
                        self.history@,
                        jail_position,
                        self.candidates@[found],
                    );
                assert(agrees(self.deck, self.candidates@[found], *state));
            }
        }
        false
    }
}

} // verus!
