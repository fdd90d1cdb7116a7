use vstd::prelude::*;

use crate::game::strategy::model::policies_kept;

use super::payment::Creditor;
use crate::game::board::model::PlayerId;
use crate::game::card::model::{
    CardEffect,
    DeckKind,
};
use crate::game::strategy::model::PlayerStrategy;
use crate::game::tile::model::{
    Cash,
    PropertyId,
    TileId,
};
use crate::game::trade::model::TradeOffer;

verus! {

/// Whether `after` is `before` once it has recorded `event` and then seen it in public.
pub open spec fn records_then_observes<S: PlayerStrategy>(before: S, event: GameEvent, after: S) -> bool {
    exists|recorded: S| #[trigger] before.records(event, recorded) && recorded.observes(event, after)
}

/// Whether the players `after` are the players `before` once `event` has been recorded by
/// the player `recorder` and shown to every player: the recorder records it and then sees
/// it, every other player only sees it.
pub open spec fn published<S: PlayerStrategy>(before: Seq<S>, recorder: int, event: GameEvent, after: Seq<S>) -> bool {
    &&& after.len() == before.len()
    &&& forall|i: int|
        0 <= i < before.len() ==> if i == recorder {
            records_then_observes(before[i], event, #[trigger] after[i])
        } else {
            before[i].observes(event, after[i])
        }
}

/// Whether `stages` runs from `before` to `after` through each of `events` published in
/// turn, every one recorded by the player `recorder`.
pub open spec fn publishes_through<S: PlayerStrategy>(
    stages: Seq<Seq<S>>,
    before: Seq<S>,
    recorder: int,
    events: Seq<GameEvent>,
    after: Seq<S>,
) -> bool {
    &&& stages.len() == events.len() + 1
    &&& stages[0] == before
    &&& stages.last() == after
    &&& forall|i: int| 0 <= i < events.len() ==> published(#[trigger] stages[i], recorder, events[i], stages[i + 1])
}

/// Whether the players `after` are the players `before` once each of `events` has been
/// published in turn, every one recorded by the player `recorder`.
pub open spec fn published_all<S: PlayerStrategy>(
    before: Seq<S>,
    recorder: int,
    events: Seq<GameEvent>,
    after: Seq<S>,
) -> bool {
    exists|stages: Seq<Seq<S>>| #[trigger] publishes_through(stages, before, recorder, events, after)
}

/// Nothing published leaves the players as they are.
pub proof fn lemma_published_none<S: PlayerStrategy>(players: Seq<S>, recorder: int)
    ensures
        published_all(players, recorder, seq![], players),
{
    assert(publishes_through(seq![players], players, recorder, seq![], players));
}

/// Publishing one more event extends the events published so far.
pub proof fn lemma_published_then<S: PlayerStrategy>(
    before: Seq<S>,
    recorder: int,
    events: Seq<GameEvent>,
    middle: Seq<S>,
    event: GameEvent,
    after: Seq<S>,
)
    requires
        published_all(before, recorder, events, middle),
        published(middle, recorder, event, after),
    ensures
        published_all(before, recorder, events.push(event), after),
{
    let stages = choose|stages: Seq<Seq<S>>| publishes_through(stages, before, recorder, events, middle);
    let extended = stages.push(after);
    let more = events.push(event);
    assert forall|i: int| 0 <= i < more.len() implies published(
        #[trigger] extended[i],
        recorder,
        more[i],
        extended[i + 1],
    ) by {
        if i < events.len() {
            assert(published(stages[i], recorder, events[i], stages[i + 1]));
        }
    }
    assert(publishes_through(extended, before, recorder, more, after));
}

/// Publishing one event is a run of that one event.
pub proof fn lemma_published_one<S: PlayerStrategy>(before: Seq<S>, recorder: int, event: GameEvent, after: Seq<S>)
    requires
        published(before, recorder, event, after),
    ensures
        published_all(before, recorder, seq![event], after),
{
    assert(publishes_through(seq![before, after], before, recorder, seq![event], after));
}

/// Publishing two runs of events one after the other publishes them joined.
pub proof fn lemma_published_join<S: PlayerStrategy>(
    before: Seq<S>,
    recorder: int,
    first: Seq<GameEvent>,
    middle: Seq<S>,
    second: Seq<GameEvent>,
    after: Seq<S>,
)
    requires
        published_all(before, recorder, first, middle),
        published_all(middle, recorder, second, after),
    ensures
        published_all(before, recorder, first + second, after),
{
    let head = choose|stages: Seq<Seq<S>>| publishes_through(stages, before, recorder, first, middle);
    let tail = choose|stages: Seq<Seq<S>>| publishes_through(stages, middle, recorder, second, after);
    let joined = head + tail.drop_first();
    let events = first + second;
    assert forall|i: int| 0 <= i < events.len() implies published(
        #[trigger] joined[i],
        recorder,
        events[i],
        joined[i + 1],
    ) by {
        if i < first.len() {
            assert(published(head[i], recorder, first[i], head[i + 1]));
        } else {
            let k = i - first.len();
            assert(published(tail[k], recorder, second[k], tail[k + 1]));
        }
    }
    assert(publishes_through(joined, before, recorder, events, after));
}

/// Records `event` for the player `recorder` and shows it to every player, the recorder
/// included, in seat order.
pub fn publish_event<const N: usize, S: PlayerStrategy>(strategies: &mut [S; N], recorder: usize, event: GameEvent)
    requires
        recorder < N,
    ensures
        policies_kept(old(strategies)@, final(strategies)@),
        published(old(strategies)@, recorder as int, event, final(strategies)@),
{
    let ghost before = strategies@;
    strategies[recorder].record_event(event);
    let ghost recorded = strategies@;
    let mut index: usize = 0;
    while index < N
        invariant
            policies_kept(old(strategies)@, strategies@),
            index <= N,
            recorder < N,
            before.len() == N,
            recorded.len() == N,
            strategies@.len() == N,
            before[recorder as int].records(event, recorded[recorder as int]),
            forall|i: int| 0 <= i < N && i != recorder ==> recorded[i] == before[i],
            forall|i: int| 0 <= i < index ==> recorded[i].observes(event, #[trigger] strategies@[i]),
            forall|i: int| index <= i < N ==> #[trigger] strategies@[i] == recorded[i],
            policies_kept(before, recorded),
        decreases N - index,
    {
        strategies[index].observe_public_event(event);
        index = index + 1;
    }
    assert forall|i: int| 0 <= i < N && i == recorder implies records_then_observes(
        before[i],
        event,
        #[trigger] strategies@[i],
    ) by {
        assert(before[i].records(event, recorded[i]));
    }
}

#[derive(Debug, Clone, Copy, PartialEq, Eq, Structural)]
pub enum GameEvent {
    SalaryPaid { player_id: PlayerId, amount: Cash, landed_on_go: bool },
    BankRewardCollected { player_id: PlayerId, amount: Cash, deck: DeckKind },
    FreeParkingCollected { player_id: PlayerId, amount: Cash },
    SentToJail { player_id: PlayerId },
    ReleasedFromJail { player_id: PlayerId },
    JailCardUsed { player_id: PlayerId, deck: DeckKind },
    TurnStarted { player_id: PlayerId },
    DiceRolled { player_id: PlayerId, first: u8, second: u8 },
    Landed { player_id: PlayerId, tile_id: TileId },
    CardDrawn { player_id: PlayerId, deck: DeckKind, effect: CardEffect },
    PropertyPurchased { player_id: PlayerId, tile_id: TileId, price: Cash, auction: bool },
    PaymentDue { player_id: PlayerId, creditor: Creditor, amount: Cash },
    PaymentCompleted { player_id: PlayerId, creditor: Creditor, amount: Cash },
    Bankrupt { player_id: PlayerId, creditor: Creditor, remaining_cash: Cash },
    TradeProposed { offer: TradeOffer },
    TradeRejected { offer: TradeOffer },
    TradeExecuted { offer: TradeOffer },
    BuildingPurchased { player_id: PlayerId, property_id: PropertyId, level: u8 },
    TileUnmortgaged { player_id: PlayerId, tile_id: TileId },
    BuildingSold { player_id: PlayerId, property_id: PropertyId, previous_level: u8, level: u8, proceeds: Cash },
    TileMortgaged { player_id: PlayerId, tile_id: TileId, proceeds: Cash },
}

impl GameEvent {
    /// The first trace format version that records events of this kind.
    pub open spec fn trace_version_spec(self) -> u32 {
        match self {
            GameEvent::SalaryPaid { .. } | GameEvent::BankRewardCollected { .. } | GameEvent::FreeParkingCollected { .. } => 6,
            GameEvent::SentToJail { .. } | GameEvent::ReleasedFromJail { .. } | GameEvent::JailCardUsed { .. } => 5,
            GameEvent::BuildingSold { .. } | GameEvent::TileMortgaged { .. } => 3,
            _ => 2,
        }
    }

    pub fn trace_version(self) -> (version: u32)
        ensures
            version == self.trace_version_spec(),
    {
        match self {
            GameEvent::SalaryPaid { .. } | GameEvent::BankRewardCollected { .. } | GameEvent::FreeParkingCollected { .. } => 6,
            GameEvent::SentToJail { .. } | GameEvent::ReleasedFromJail { .. } | GameEvent::JailCardUsed { .. } => 5,
            GameEvent::BuildingSold { .. } | GameEvent::TileMortgaged { .. } => 3,
            _ => 2,
        }
    }
}

} // verus!
