use vstd::prelude::*;

use crate::game::board::model::PlayerId;
use crate::game::card::model::DeckKind;
use crate::game::tile::model::{
    Cash,
    TileSetMask,
};

verus! {

// one bit per deck kind (2) < 8 bits
pub type DeckKindSetMask = u8;

#[derive(Debug, Clone, Copy, PartialEq, Eq, Hash, Structural)]
pub struct TradeOffer {
    pub proposer_player_id: PlayerId,
    pub recipient_player_id: PlayerId,
    pub offered_cash: Cash,
    pub offered_tiles: TileSetMask,
    pub offered_get_out_of_jail_free_cards: DeckKindSetMask,
    pub requested_cash: Cash,
    pub requested_tiles: TileSetMask,
    pub requested_get_out_of_jail_free_cards: DeckKindSetMask,
}

impl TradeOffer {
    pub fn traded_tiles(&self) -> (tiles: TileSetMask)
        ensures
            tiles == self.offered_tiles | self.requested_tiles,
    {
        self.offered_tiles | self.requested_tiles
    }

    pub fn traded_get_out_of_jail_free_cards(&self) -> (cards: DeckKindSetMask)
        ensures
            cards == self.offered_get_out_of_jail_free_cards | self.requested_get_out_of_jail_free_cards,
    {
        self.offered_get_out_of_jail_free_cards | self.requested_get_out_of_jail_free_cards
    }
}

/// The bit of a deck in a set of decks.
pub open spec fn deck_kind_bit_spec(deck_kind: DeckKind) -> DeckKindSetMask {
    match deck_kind {
        DeckKind::Chance => 1,
        DeckKind::CommunityChest => 2,
    }
}

pub fn deck_kind_bit(deck_kind: DeckKind) -> (bit: DeckKindSetMask)
    ensures
        bit == deck_kind_bit_spec(deck_kind),
{
    match deck_kind {
        DeckKind::Chance => 1,
        DeckKind::CommunityChest => 2,
    }
}

} // verus!
