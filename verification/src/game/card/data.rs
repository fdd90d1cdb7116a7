use vstd::prelude::*;

use super::model::{
    CardDefinition,
    CardEffect,
    CardId,
    DeckKind,
};
use crate::game::tile::data::{
    BOARDWALK_TILE_ID,
    GO_TILE_ID,
    ILLINOIS_AVENUE_TILE_ID,
    READING_RAILROAD_TILE_ID,
    ST_CHARLES_PLACE_TILE_ID,
};

verus! {

pub const CARD_COUNT_PER_DECK: usize = 16;

pub const NEAREST_RAILROAD_RENT_MULTIPLIER: u16 = 2;
pub const NEAREST_UTILITY_RENT_DICE_MULTIPLIER: u16 = 10;

/// The effect of the card `card_id` of a deck.
pub open spec fn card_effect_spec(deck: DeckKind, card_id: CardId) -> CardEffect {
    match deck {
        DeckKind::Chance => match card_id {
            0 => CardEffect::AdvanceToTile { tile_id: BOARDWALK_TILE_ID },
            1 => CardEffect::AdvanceToTile { tile_id: GO_TILE_ID },
            2 => CardEffect::AdvanceToTile { tile_id: ILLINOIS_AVENUE_TILE_ID },
            3 => CardEffect::AdvanceToTile { tile_id: ST_CHARLES_PLACE_TILE_ID },
            4 => CardEffect::AdvanceToNearestRailroad,
            5 => CardEffect::AdvanceToNearestRailroad,
            6 => CardEffect::AdvanceToNearestUtility,
            7 => CardEffect::CollectFromBank { amount: 50 },
            8 => CardEffect::GetOutOfJailFree,
            9 => CardEffect::MoveBackward { tile_count: 3 },
            10 => CardEffect::GoToJail,
            11 => CardEffect::PayForRepairs { amount_per_house: 25, amount_per_hotel: 100, },
            12 => CardEffect::PayBank { amount: 15 },
            13 => CardEffect::AdvanceToTile { tile_id: READING_RAILROAD_TILE_ID },
            14 => CardEffect::PayEachPlayer { amount: 50 },
            _ => CardEffect::CollectFromBank { amount: 150 },
        },
        DeckKind::CommunityChest => match card_id {
            0 => CardEffect::AdvanceToTile { tile_id: GO_TILE_ID },
            1 => CardEffect::CollectFromBank { amount: 200 },
            2 => CardEffect::PayBank { amount: 50 },
            3 => CardEffect::CollectFromBank { amount: 50 },
            4 => CardEffect::GetOutOfJailFree,
            5 => CardEffect::GoToJail,
            6 => CardEffect::CollectFromBank { amount: 100 },
            7 => CardEffect::CollectFromBank { amount: 20 },
            8 => CardEffect::CollectFromEachPlayer { amount: 10 },
            9 => CardEffect::CollectFromBank { amount: 100 },
            10 => CardEffect::PayBank { amount: 100 },
            11 => CardEffect::PayBank { amount: 50 },
            12 => CardEffect::CollectFromBank { amount: 25 },
            13 => CardEffect::PayForRepairs { amount_per_house: 40, amount_per_hotel: 115, },
            14 => CardEffect::CollectFromBank { amount: 10 },
            _ => CardEffect::CollectFromBank { amount: 100 },
        },
    }
}

/// The id of the get out of jail free card of a deck.
pub open spec fn jail_card_id(deck: DeckKind) -> int {
    match deck {
        DeckKind::Chance => 8,
        DeckKind::CommunityChest => 4,
    }
}

/// Each deck holds exactly one get out of jail free card.
pub proof fn lemma_one_jail_card_per_deck(deck: DeckKind, card_id: CardId)
    requires
        0 <= card_id < CARD_COUNT_PER_DECK,
    ensures
        (card_effect_spec(deck, card_id) == CardEffect::GetOutOfJailFree) == (card_id as int == jail_card_id(deck)),
{
}

/// The printed definition of the card `card_id` of a deck.
pub fn card_definition(deck: DeckKind, card_id: CardId) -> (definition: CardDefinition)
    requires
        (card_id as usize) < CARD_COUNT_PER_DECK,
    ensures
        definition.effect == card_effect_spec(deck, card_id),
{
    match deck {
        DeckKind::Chance => match card_id {
            0 => CardDefinition {
                text: "Advance to Boardwalk",
                effect: CardEffect::AdvanceToTile { tile_id: BOARDWALK_TILE_ID },
            },
            1 => CardDefinition {
                text: "Advance to Go (Collect $200)",
                effect: CardEffect::AdvanceToTile { tile_id: GO_TILE_ID },
            },
            2 => CardDefinition {
                text: "Advance to Illinois Avenue. If you pass Go, collect $200",
                effect: CardEffect::AdvanceToTile { tile_id: ILLINOIS_AVENUE_TILE_ID },
            },
            3 => CardDefinition {
                text: "Advance to St. Charles Place. If you pass Go, collect $200",
                effect: CardEffect::AdvanceToTile { tile_id: ST_CHARLES_PLACE_TILE_ID },
            },
            4 => CardDefinition {
                text: "Advance to the nearest Railroad. If owned, pay owner twice the rental to which they are otherwise entitled",
                effect: CardEffect::AdvanceToNearestRailroad,
            },
            5 => CardDefinition {
                text: "Advance to the nearest Railroad. If owned, pay owner twice the rental to which they are otherwise entitled",
                effect: CardEffect::AdvanceToNearestRailroad,
            },
            6 => CardDefinition {
                text: "Advance token to nearest Utility. If owned, throw dice and pay owner a total ten times amount thrown",
                effect: CardEffect::AdvanceToNearestUtility,
            },
            7 => CardDefinition {
                text: "Bank pays you dividend of $50",
                effect: CardEffect::CollectFromBank { amount: 50 },
            },
            8 => CardDefinition {
                text: "Get Out of Jail Free",
                effect: CardEffect::GetOutOfJailFree,
            },
            9 => CardDefinition {
                text: "Go Back 3 Spaces",
                effect: CardEffect::MoveBackward { tile_count: 3 },
            },
            10 => CardDefinition {
                text: "Go to Jail. Go directly to Jail, do not pass Go, do not collect $200",
                effect: CardEffect::GoToJail,
            },
            11 => CardDefinition {
                text: "Make general repairs on all your property. For each house pay $25. For each hotel pay $100",
                effect: CardEffect::PayForRepairs { amount_per_house: 25, amount_per_hotel: 100, },
            },
            12 => CardDefinition {
                text: "Speeding fine $15",
                effect: CardEffect::PayBank { amount: 15 },
            },
            13 => CardDefinition {
                text: "Take a trip to Reading Railroad. If you pass Go, collect $200",
                effect: CardEffect::AdvanceToTile { tile_id: READING_RAILROAD_TILE_ID },
            },
            14 => CardDefinition {
                text: "You have been elected Chairman of the Board. Pay each player $50",
                effect: CardEffect::PayEachPlayer { amount: 50 },
            },
            _ => CardDefinition {
                text: "Your building loan matures. Collect $150",
                effect: CardEffect::CollectFromBank { amount: 150 },
            },
        },
        DeckKind::CommunityChest => match card_id {
            0 => CardDefinition {
                text: "Advance to Go (Collect $200)",
                effect: CardEffect::AdvanceToTile { tile_id: GO_TILE_ID },
            },
            1 => CardDefinition {
                text: "Bank error in your favor. Collect $200",
                effect: CardEffect::CollectFromBank { amount: 200 },
            },
            2 => CardDefinition {
                text: "Doctor's fee. Pay $50",
                effect: CardEffect::PayBank { amount: 50 },
            },
            3 => CardDefinition {
                text: "From sale of stock you get $50",
                effect: CardEffect::CollectFromBank { amount: 50 },
            },
            4 => CardDefinition {
                text: "Get Out of Jail Free",
                effect: CardEffect::GetOutOfJailFree,
            },
            5 => CardDefinition {
                text: "Go to Jail. Go directly to jail, do not pass Go, do not collect $200",
                effect: CardEffect::GoToJail,
            },
            6 => CardDefinition {
                text: "Holiday fund matures. Receive $100",
                effect: CardEffect::CollectFromBank { amount: 100 },
            },
            7 => CardDefinition {
                text: "Income tax refund. Collect $20",
                effect: CardEffect::CollectFromBank { amount: 20 },
            },
            8 => CardDefinition {
                text: "It is your birthday. Collect $10 from every player",
                effect: CardEffect::CollectFromEachPlayer { amount: 10 },
            },
            9 => CardDefinition {
                text: "Life insurance matures. Collect $100",
                effect: CardEffect::CollectFromBank { amount: 100 },
            },
            10 => CardDefinition {
                text: "Pay hospital fees of $100",
                effect: CardEffect::PayBank { amount: 100 },
            },
            11 => CardDefinition {
                text: "Pay school fees of $50",
                effect: CardEffect::PayBank { amount: 50 },
            },
            12 => CardDefinition {
                text: "Receive $25 consultancy fee",
                effect: CardEffect::CollectFromBank { amount: 25 },
            },
            13 => CardDefinition {
                text: "You are assessed for street repair. $40 per house. $115 per hotel",
                effect: CardEffect::PayForRepairs { amount_per_house: 40, amount_per_hotel: 115, },
            },
            14 => CardDefinition {
                text: "You have won second prize in a beauty contest. Collect $10",
                effect: CardEffect::CollectFromBank { amount: 10 },
            },
            _ => CardDefinition {
                text: "You inherit $100",
                effect: CardEffect::CollectFromBank { amount: 100 },
            },
        },
    }
}

} // verus!
