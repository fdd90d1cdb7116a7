use vstd::prelude::*;

use crate::game::tile::model::{
    Money,
    TileId,
};

verus! {

// cards per deck (16) < 255
pub type CardId = u8;

#[derive(Debug, Clone, Copy, PartialEq, Eq, Hash)]
pub struct CardDefinition {
    pub text: &'static str,
    pub effect: CardEffect,
}

#[derive(Debug, Clone, Copy, PartialEq, Eq, Hash, Structural)]
pub enum CardEffect {
    AdvanceToTile { tile_id: TileId },
    AdvanceToNearestRailroad,
    AdvanceToNearestUtility,
    MoveBackward { tile_count: u8 },
    GoToJail,
    GetOutOfJailFree,
    CollectFromBank { amount: Money },
    PayBank { amount: Money },
    CollectFromEachPlayer { amount: Money },
    PayEachPlayer { amount: Money },
    PayForRepairs { amount_per_house: Money, amount_per_hotel: Money },
}

#[derive(Debug, Clone, Copy, PartialEq, Eq, Hash, Structural)]
pub enum DeckKind {
    Chance,
    CommunityChest,
}

/// The number of decks.
pub const DECK_KIND_COUNT: usize = 2;

impl DeckKind {
    /// The position of the deck in declaration order.
    pub open spec fn index_spec(self) -> int {
        match self {
            DeckKind::Chance => 0,
            DeckKind::CommunityChest => 1,
        }
    }

    pub fn index(self) -> (index: usize)
        ensures
            index == self.index_spec(),
            index < DECK_KIND_COUNT,
    {
        match self {
            DeckKind::Chance => 0,
            DeckKind::CommunityChest => 1,
        }
    }
}

} // verus!
