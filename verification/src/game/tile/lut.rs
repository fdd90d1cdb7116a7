use vstd::prelude::*;

use super::data::{
    PROPERTY_COUNT,
    TILE_COUNT,
};
use super::model::{
    Money,
    OWNERSHIP_GROUP_COUNT,
    OwnershipGroup,
    PropertyId,
    RentLevel,
    TileDefinitionKind,
    TileId,
    TileKind,
    TileSetMask,
    tile_in,
};

verus! {

pub const UNIMPROVED_RENT_LEVEL: RentLevel = 0;
pub const UNIMPROVED_MONOPOLY_RENT_LEVEL: RentLevel = 1;
pub const ONE_HOUSE_RENT_LEVEL: RentLevel = 2;
pub const TWO_HOUSES_RENT_LEVEL: RentLevel = 3;
pub const THREE_HOUSES_RENT_LEVEL: RentLevel = 4;
pub const FOUR_HOUSES_RENT_LEVEL: RentLevel = 5;
pub const HOTEL_RENT_LEVEL: RentLevel = 6;

// seven rent levels of two bytes each, padded to eight for alignment
pub const RENT_LEVEL_COUNT: usize = 8;

/// The value of `OWNERSHIP_GROUP_INDEX_BY_TILE_ID` for a tile outside every group.
pub const NO_OWNERSHIP_GROUP: u8 = 10;

/// The value of `PROPERTY_ID_OR_NONE_BY_TILE_ID` for a tile that is no street property.
pub const NO_PROPERTY: u8 = 22;
pub const TILE_NAME_BY_TILE_ID: [&'static str; 40] = ["Go", "Mediterranean Avenue", "Community Chest", "Baltic Avenue", "Income Tax", "Reading Railroad", "Oriental Avenue", "Chance", "Vermont Avenue", "Connecticut Avenue", "Jail", "St. Charles Place", "Electric Company", "States Avenue", "Virginia Avenue", "Pennsylvania Railroad", "St. James Place", "Community Chest", "Tennessee Avenue", "New York Avenue", "Free Parking", "Kentucky Avenue", "Chance", "Indiana Avenue", "Illinois Avenue", "B. & O. Railroad", "Atlantic Avenue", "Ventnor Avenue", "Water Works", "Marvin Gardens", "Go To Jail", "Pacific Avenue", "North Carolina Avenue", "Community Chest", "Pennsylvania Avenue", "Short Line", "Chance", "Park Place", "Luxury Tax", "Boardwalk"];
pub const TILE_KIND_BY_TILE_ID: [TileKind; 40] = [TileKind::Go, TileKind::Property, TileKind::CommunityChest, TileKind::Property, TileKind::Tax, TileKind::Railroad, TileKind::Property, TileKind::Chance, TileKind::Property, TileKind::Property, TileKind::Jail, TileKind::Property, TileKind::Utility, TileKind::Property, TileKind::Property, TileKind::Railroad, TileKind::Property, TileKind::CommunityChest, TileKind::Property, TileKind::Property, TileKind::FreeParking, TileKind::Property, TileKind::Chance, TileKind::Property, TileKind::Property, TileKind::Railroad, TileKind::Property, TileKind::Property, TileKind::Utility, TileKind::Property, TileKind::GoToJail, TileKind::Property, TileKind::Property, TileKind::CommunityChest, TileKind::Property, TileKind::Railroad, TileKind::Chance, TileKind::Property, TileKind::Tax, TileKind::Property];
pub const OWNERSHIP_GROUP_INDEX_BY_TILE_ID: [u8; 40] = [10, 0, 10, 0, 10, 8, 1, 10, 1, 1, 10, 2, 9, 2, 2, 8, 3, 10, 3, 3, 10, 4, 10, 4, 4, 8, 5, 5, 9, 5, 10, 6, 6, 10, 6, 8, 10, 7, 10, 7];
pub const PURCHASE_PRICE_BY_TILE_ID: [Money; 40] = [0, 60, 0, 60, 0, 200, 100, 0, 100, 120, 0, 140, 150, 140, 160, 200, 180, 0, 180, 200, 0, 220, 0, 220, 240, 200, 260, 260, 150, 280, 0, 300, 300, 0, 320, 200, 0, 350, 0, 400];
pub const MORTGAGE_VALUE_BY_TILE_ID: [Money; 40] = [0, 30, 0, 30, 0, 100, 50, 0, 50, 60, 0, 70, 75, 70, 80, 100, 90, 0, 90, 100, 0, 110, 0, 110, 120, 100, 130, 130, 75, 140, 0, 150, 150, 0, 160, 100, 0, 175, 0, 200];
pub const UNMORTGAGE_PRICE_BY_TILE_ID: [Money; 40] = [0, 33, 0, 33, 0, 110, 55, 0, 55, 66, 0, 77, 83, 77, 88, 110, 99, 0, 99, 110, 0, 121, 0, 121, 132, 110, 143, 143, 83, 154, 0, 165, 165, 0, 176, 110, 0, 193, 0, 220];
pub const HOUSE_PURCHASE_PRICE_BY_TILE_ID: [Money; 40] = [0, 50, 0, 50, 0, 0, 50, 0, 50, 50, 0, 100, 0, 100, 100, 0, 100, 0, 100, 100, 0, 150, 0, 150, 150, 0, 150, 150, 0, 150, 0, 200, 200, 0, 200, 0, 0, 200, 0, 200];
pub const TAX_AMOUNT_BY_TILE_ID: [Money; 40] = [0, 0, 0, 0, 200, 0, 0, 0, 0, 0, 0, 0, 0, 0, 0, 0, 0, 0, 0, 0, 0, 0, 0, 0, 0, 0, 0, 0, 0, 0, 0, 0, 0, 0, 0, 0, 0, 0, 100, 0];
pub const RENT_BY_TILE_ID_BY_RENT_LEVEL: [[Money; 8]; 40] = [
    [0, 0, 0, 0, 0, 0, 0, 0],
    [2, 4, 10, 30, 90, 160, 250, 0],
    [0, 0, 0, 0, 0, 0, 0, 0],
    [4, 8, 20, 60, 180, 320, 450, 0],
    [0, 0, 0, 0, 0, 0, 0, 0],
    [25, 50, 100, 200, 0, 0, 0, 0],
    [6, 12, 30, 90, 270, 400, 550, 0],
    [0, 0, 0, 0, 0, 0, 0, 0],
    [6, 12, 30, 90, 270, 400, 550, 0],
    [8, 16, 40, 100, 300, 450, 600, 0],
    [0, 0, 0, 0, 0, 0, 0, 0],
    [10, 20, 50, 150, 450, 625, 750, 0],
    [4, 10, 0, 0, 0, 0, 0, 0],
    [10, 20, 50, 150, 450, 625, 750, 0],
    [12, 24, 60, 180, 500, 700, 900, 0],
    [25, 50, 100, 200, 0, 0, 0, 0],
    [14, 28, 70, 200, 550, 750, 950, 0],
    [0, 0, 0, 0, 0, 0, 0, 0],
    [14, 28, 70, 200, 550, 750, 950, 0],
    [16, 32, 80, 220, 600, 800, 1000, 0],
    [0, 0, 0, 0, 0, 0, 0, 0],
    [18, 36, 90, 250, 700, 875, 1050, 0],
    [0, 0, 0, 0, 0, 0, 0, 0],
    [18, 36, 90, 250, 700, 875, 1050, 0],
    [20, 40, 100, 300, 750, 925, 1100, 0],
    [25, 50, 100, 200, 0, 0, 0, 0],
    [22, 44, 110, 330, 800, 975, 1150, 0],
    [22, 44, 110, 330, 800, 975, 1150, 0],
    [4, 10, 0, 0, 0, 0, 0, 0],
    [24, 48, 120, 360, 850, 1025, 1200, 0],
    [0, 0, 0, 0, 0, 0, 0, 0],
    [26, 52, 130, 390, 900, 1100, 1275, 0],
    [26, 52, 130, 390, 900, 1100, 1275, 0],
    [0, 0, 0, 0, 0, 0, 0, 0],
    [28, 56, 150, 450, 1000, 1200, 1400, 0],
    [25, 50, 100, 200, 0, 0, 0, 0],
    [0, 0, 0, 0, 0, 0, 0, 0],
    [35, 70, 175, 500, 1100, 1300, 1500, 0],
    [0, 0, 0, 0, 0, 0, 0, 0],
    [50, 100, 200, 600, 1400, 1700, 2000, 0],
];
pub const PROPERTY_ID_OR_NONE_BY_TILE_ID: [u8; 40] = [22, 0, 22, 1, 22, 22, 2, 22, 3, 4, 22, 5, 22, 6, 7, 22, 8, 22, 9, 10, 22, 11, 22, 12, 13, 22, 14, 15, 22, 16, 22, 17, 18, 22, 19, 22, 22, 20, 22, 21];
pub const TILE_ID_BY_PROPERTY_ID: [TileId; 22] = [1, 3, 6, 8, 9, 11, 13, 14, 16, 18, 19, 21, 23, 24, 26, 27, 29, 31, 32, 34, 37, 39];
pub const TILE_SET_MASK_BY_OWNERSHIP_GROUP: [TileSetMask; 10] = [0xa, 0x340, 0x6800, 0xd0000, 0x1a00000, 0x2c000000, 0x580000000, 0xa000000000, 0x802008020, 0x10001000];
pub const RAILROAD_TILE_SET_MASK: TileSetMask = 0x802008020;
pub const UTILITY_TILE_SET_MASK: TileSetMask = 0x10001000;
pub const OWNABLE_TILE_SET_MASK: TileSetMask = 0xadbfadfb6a;

/// The table value of an optional ownership group.
pub open spec fn group_index_of(group: Option<OwnershipGroup>) -> u8 {
    match group {
        Some(group) => group.index_spec() as u8,
        None => NO_OWNERSHIP_GROUP,
    }
}

/// The ownership group of a tile, if it has one.
pub open spec fn ownership_group_of(tile_id: int) -> Option<OwnershipGroup> {
    let index = OWNERSHIP_GROUP_INDEX_BY_TILE_ID@[tile_id];
    if index < NO_OWNERSHIP_GROUP {
        Some(OwnershipGroup::from_index_spec(index as int))
    } else {
        None
    }
}

/// The property id of a tile, if it is a street property.
pub open spec fn property_of(tile_id: int) -> Option<PropertyId> {
    let id = PROPERTY_ID_OR_NONE_BY_TILE_ID@[tile_id];
    if id < NO_PROPERTY {
        Some(id)
    } else {
        None
    }
}

pub fn ownership_group_by_tile_id(tile_id: TileId) -> (group: Option<OwnershipGroup>)
    requires
        (tile_id as usize) < TILE_COUNT,
    ensures
        group == ownership_group_of(tile_id as int),
{
    let index = OWNERSHIP_GROUP_INDEX_BY_TILE_ID[tile_id as usize];
    if index < NO_OWNERSHIP_GROUP {
        Some(OwnershipGroup::from_index(index as usize))
    } else {
        None
    }
}

pub fn property_id_by_tile_id(tile_id: TileId) -> (property: Option<PropertyId>)
    requires
        (tile_id as usize) < TILE_COUNT,
    ensures
        property == property_of(tile_id as int),
{
    let id = PROPERTY_ID_OR_NONE_BY_TILE_ID[tile_id as usize];
    if id < NO_PROPERTY {
        Some(id)
    } else {
        None
    }
}

/// Derives the rent row of a tile from its definition.
pub fn derive_rent_by_rent_level(tile_definition_kind: &TileDefinitionKind) -> (rent_by_rent_level: [Money; RENT_LEVEL_COUNT])
    requires
        match *tile_definition_kind {
            TileDefinitionKind::Property { rent, .. } => rent.unimproved * 2 <= u16::MAX,
            _ => true,
        },
    ensures
        forall|level: int| 0 <= level < RENT_LEVEL_COUNT ==> rent_by_rent_level@[level] as int == tile_definition_kind.rent_spec(level),
{
    match *tile_definition_kind {
        TileDefinitionKind::Property { rent, .. } => {
            let mut rent_by_rent_level = [0u16; 8];
            rent_by_rent_level[UNIMPROVED_RENT_LEVEL] = rent.unimproved;
            rent_by_rent_level[UNIMPROVED_MONOPOLY_RENT_LEVEL] = rent.unimproved * 2;
            rent_by_rent_level[ONE_HOUSE_RENT_LEVEL] = rent.one_house;
            rent_by_rent_level[TWO_HOUSES_RENT_LEVEL] = rent.two_houses;
            rent_by_rent_level[THREE_HOUSES_RENT_LEVEL] = rent.three_houses;
            rent_by_rent_level[FOUR_HOUSES_RENT_LEVEL] = rent.four_houses;
            rent_by_rent_level[HOTEL_RENT_LEVEL] = rent.hotel;
            rent_by_rent_level
        },
        TileDefinitionKind::Railroad => pad_to_rent_level_count([25u16, 50, 100, 200]),
        TileDefinitionKind::Utility => pad_to_rent_level_count([4u16, 10]),
        _ => [0u16; 8],
    }
}

/// Copies `values` into a rent row, padding the rest with zeros.
pub fn pad_to_rent_level_count<const VALUE_COUNT: usize>(values: [u16; VALUE_COUNT]) -> (padded_values: [u16; RENT_LEVEL_COUNT])
    requires
        VALUE_COUNT <= RENT_LEVEL_COUNT,
    ensures
        forall|index: int| 0 <= index < RENT_LEVEL_COUNT ==> padded_values@[index] == if index < VALUE_COUNT {
            values@[index]
        } else {
            0u16
        },
{
    let mut padded_values = [0u16; 8];
    let mut value_index: usize = 0;
    while value_index < VALUE_COUNT
        invariant
            value_index <= VALUE_COUNT <= RENT_LEVEL_COUNT,
            padded_values@.len() == RENT_LEVEL_COUNT,
            forall|index: int| 0 <= index < RENT_LEVEL_COUNT ==> padded_values@[index] == if index < value_index {
                values@[index]
            } else {
                0u16
            },
        decreases VALUE_COUNT - value_index,
    {
        padded_values[value_index] = values[value_index];
        value_index = value_index + 1;
    }
    padded_values
}
/// Which tiles each constant tile set holds, bit by bit.
pub proof fn lemma_constant_mask_bits()
    ensures
        forall|t: u64| t < 64 ==> (((0xau64 >> t) & 1u64 == 1u64) == (t == 1 || t == 3)),
        forall|t: u64| t < 64 ==> (((0x340u64 >> t) & 1u64 == 1u64) == (t == 6 || t == 8 || t == 9)),
        forall|t: u64| t < 64 ==> (((0x6800u64 >> t) & 1u64 == 1u64) == (t == 11 || t == 13 || t == 14)),
        forall|t: u64| t < 64 ==> (((0xd0000u64 >> t) & 1u64 == 1u64) == (t == 16 || t == 18 || t == 19)),
        forall|t: u64| t < 64 ==> (((0x1a00000u64 >> t) & 1u64 == 1u64) == (t == 21 || t == 23 || t == 24)),
        forall|t: u64| t < 64 ==> (((0x2c000000u64 >> t) & 1u64 == 1u64) == (t == 26 || t == 27 || t == 29)),
        forall|t: u64| t < 64 ==> (((0x580000000u64 >> t) & 1u64 == 1u64) == (t == 31 || t == 32 || t == 34)),
        forall|t: u64| t < 64 ==> (((0xa000000000u64 >> t) & 1u64 == 1u64) == (t == 37 || t == 39)),
        forall|t: u64| t < 64 ==> (((0x802008020u64 >> t) & 1u64 == 1u64) == (t == 5 || t == 15 || t == 25 || t == 35)),
        forall|t: u64| t < 64 ==> (((0x10001000u64 >> t) & 1u64 == 1u64) == (t == 12 || t == 28)),
        forall|t: u64| t < 64 ==> (((0xadbfadfb6au64 >> t) & 1u64 == 1u64) == (t == 1 || t == 3 || t == 5 || t == 6 || t == 8 || t == 9 || t == 11 || t == 12 || t == 13 || t == 14 || t == 15 || t == 16 || t == 18 || t == 19 || t == 21 || t == 23 || t == 24 || t == 25 || t == 26 || t == 27 || t == 28 || t == 29 || t == 31 || t == 32 || t == 34 || t == 35 || t == 37 || t == 39)),
{
    assert(forall|t: u64| t < 64 ==> (((0xau64 >> t) & 1u64 == 1u64) == (t == 1 || t == 3))) by (bit_vector);
    assert(forall|t: u64| t < 64 ==> (((0x340u64 >> t) & 1u64 == 1u64) == (t == 6 || t == 8 || t == 9))) by (bit_vector);
    assert(forall|t: u64| t < 64 ==> (((0x6800u64 >> t) & 1u64 == 1u64) == (t == 11 || t == 13 || t == 14))) by (bit_vector);
    assert(forall|t: u64| t < 64 ==> (((0xd0000u64 >> t) & 1u64 == 1u64) == (t == 16 || t == 18 || t == 19))) by (bit_vector);
    assert(forall|t: u64| t < 64 ==> (((0x1a00000u64 >> t) & 1u64 == 1u64) == (t == 21 || t == 23 || t == 24))) by (bit_vector);
    assert(forall|t: u64| t < 64 ==> (((0x2c000000u64 >> t) & 1u64 == 1u64) == (t == 26 || t == 27 || t == 29))) by (bit_vector);
    assert(forall|t: u64| t < 64 ==> (((0x580000000u64 >> t) & 1u64 == 1u64) == (t == 31 || t == 32 || t == 34))) by (bit_vector);
    assert(forall|t: u64| t < 64 ==> (((0xa000000000u64 >> t) & 1u64 == 1u64) == (t == 37 || t == 39))) by (bit_vector);
    assert(forall|t: u64| t < 64 ==> (((0x802008020u64 >> t) & 1u64 == 1u64) == (t == 5 || t == 15 || t == 25 || t == 35))) by (bit_vector);
    assert(forall|t: u64| t < 64 ==> (((0x10001000u64 >> t) & 1u64 == 1u64) == (t == 12 || t == 28))) by (bit_vector);
    assert(forall|t: u64| t < 64 ==> (((0xadbfadfb6au64 >> t) & 1u64 == 1u64) == (t == 1 || t == 3 || t == 5 || t == 6 || t == 8 || t == 9 || t == 11 || t == 12 || t == 13 || t == 14 || t == 15 || t == 16 || t == 18 || t == 19 || t == 21 || t == 23 || t == 24 || t == 25 || t == 26 || t == 27 || t == 28 || t == 29 || t == 31 || t == 32 || t == 34 || t == 35 || t == 37 || t == 39))) by (bit_vector);
}

/// A tile belongs to the tile set of a group exactly when the group table assigns it that group.
pub broadcast proof fn lemma_group_mask_membership(group: int, tile_id: int)
    requires
        0 <= group < OWNERSHIP_GROUP_COUNT,
    ensures
        #[trigger] tile_in(TILE_SET_MASK_BY_OWNERSHIP_GROUP@[group], tile_id) == (0 <= tile_id < TILE_COUNT
            && OWNERSHIP_GROUP_INDEX_BY_TILE_ID@[tile_id] == group),
{
    lemma_constant_mask_bits();
    if 0 <= tile_id < 64 {
        let t = tile_id as u64;
        assert(tile_in(TILE_SET_MASK_BY_OWNERSHIP_GROUP@[group], tile_id) == ((TILE_SET_MASK_BY_OWNERSHIP_GROUP@[group] >> t) & 1u64 == 1u64));
        if tile_id == 0 {
        } else if tile_id == 1 {
        } else if tile_id == 2 {
        } else if tile_id == 3 {
        } else if tile_id == 4 {
        } else if tile_id == 5 {
        } else if tile_id == 6 {
        } else if tile_id == 7 {
        } else if tile_id == 8 {
        } else if tile_id == 9 {
        } else if tile_id == 10 {
        } else if tile_id == 11 {
        } else if tile_id == 12 {
        } else if tile_id == 13 {
        } else if tile_id == 14 {
        } else if tile_id == 15 {
        } else if tile_id == 16 {
        } else if tile_id == 17 {
        } else if tile_id == 18 {
        } else if tile_id == 19 {
        } else if tile_id == 20 {
        } else if tile_id == 21 {
        } else if tile_id == 22 {
        } else if tile_id == 23 {
        } else if tile_id == 24 {
        } else if tile_id == 25 {
        } else if tile_id == 26 {
        } else if tile_id == 27 {
        } else if tile_id == 28 {
        } else if tile_id == 29 {
        } else if tile_id == 30 {
        } else if tile_id == 31 {
        } else if tile_id == 32 {
        } else if tile_id == 33 {
        } else if tile_id == 34 {
        } else if tile_id == 35 {
        } else if tile_id == 36 {
        } else if tile_id == 37 {
        } else if tile_id == 38 {
        } else if tile_id == 39 {
        }
    }
}

/// A tile is ownable exactly when it belongs to an ownership group.
pub broadcast proof fn lemma_ownable_mask_membership(tile_id: int)
    ensures
        #[trigger] tile_in(OWNABLE_TILE_SET_MASK, tile_id) == (0 <= tile_id < TILE_COUNT
            && OWNERSHIP_GROUP_INDEX_BY_TILE_ID@[tile_id] < NO_OWNERSHIP_GROUP),
{
    lemma_constant_mask_bits();
    if 0 <= tile_id < 64 {
        let t = tile_id as u64;
        assert(tile_in(OWNABLE_TILE_SET_MASK, tile_id) == ((OWNABLE_TILE_SET_MASK >> t) & 1u64 == 1u64));
        if tile_id == 0 {
        } else if tile_id == 1 {
        } else if tile_id == 2 {
        } else if tile_id == 3 {
        } else if tile_id == 4 {
        } else if tile_id == 5 {
        } else if tile_id == 6 {
        } else if tile_id == 7 {
        } else if tile_id == 8 {
        } else if tile_id == 9 {
        } else if tile_id == 10 {
        } else if tile_id == 11 {
        } else if tile_id == 12 {
        } else if tile_id == 13 {
        } else if tile_id == 14 {
        } else if tile_id == 15 {
        } else if tile_id == 16 {
        } else if tile_id == 17 {
        } else if tile_id == 18 {
        } else if tile_id == 19 {
        } else if tile_id == 20 {
        } else if tile_id == 21 {
        } else if tile_id == 22 {
        } else if tile_id == 23 {
        } else if tile_id == 24 {
        } else if tile_id == 25 {
        } else if tile_id == 26 {
        } else if tile_id == 27 {
        } else if tile_id == 28 {
        } else if tile_id == 29 {
        } else if tile_id == 30 {
        } else if tile_id == 31 {
        } else if tile_id == 32 {
        } else if tile_id == 33 {
        } else if tile_id == 34 {
        } else if tile_id == 35 {
        } else if tile_id == 36 {
        } else if tile_id == 37 {
        } else if tile_id == 38 {
        } else if tile_id == 39 {
        }
    }
}

/// The railroad and utility sets are the sets of their groups.
pub proof fn lemma_named_masks()
    ensures
        RAILROAD_TILE_SET_MASK == TILE_SET_MASK_BY_OWNERSHIP_GROUP@[8],
        UTILITY_TILE_SET_MASK == TILE_SET_MASK_BY_OWNERSHIP_GROUP@[9],
{
}

/// How the tables agree on one tile.
pub proof fn lemma_tile_tables(tile_id: int)
    requires
        0 <= tile_id < TILE_COUNT,
    ensures
        (PROPERTY_ID_OR_NONE_BY_TILE_ID@[tile_id] < NO_PROPERTY) == (TILE_KIND_BY_TILE_ID@[tile_id] == TileKind::Property),
        PROPERTY_ID_OR_NONE_BY_TILE_ID@[tile_id] <= NO_PROPERTY,
        PROPERTY_ID_OR_NONE_BY_TILE_ID@[tile_id] < NO_PROPERTY ==> TILE_ID_BY_PROPERTY_ID@[PROPERTY_ID_OR_NONE_BY_TILE_ID@[tile_id] as int] == tile_id,
        PROPERTY_ID_OR_NONE_BY_TILE_ID@[tile_id] < NO_PROPERTY ==> OWNERSHIP_GROUP_INDEX_BY_TILE_ID@[tile_id] < 8,
        OWNERSHIP_GROUP_INDEX_BY_TILE_ID@[tile_id] <= NO_OWNERSHIP_GROUP,
        (OWNERSHIP_GROUP_INDEX_BY_TILE_ID@[tile_id] < NO_OWNERSHIP_GROUP) == (TILE_KIND_BY_TILE_ID@[tile_id] == TileKind::Property
            || TILE_KIND_BY_TILE_ID@[tile_id] == TileKind::Railroad || TILE_KIND_BY_TILE_ID@[tile_id] == TileKind::Utility),
        TILE_KIND_BY_TILE_ID@[tile_id] == TileKind::Railroad ==> OWNERSHIP_GROUP_INDEX_BY_TILE_ID@[tile_id] == 8,
        TILE_KIND_BY_TILE_ID@[tile_id] == TileKind::Utility ==> OWNERSHIP_GROUP_INDEX_BY_TILE_ID@[tile_id] == 9,
        MORTGAGE_VALUE_BY_TILE_ID@[tile_id] <= UNMORTGAGE_PRICE_BY_TILE_ID@[tile_id] <= 220,
        MORTGAGE_VALUE_BY_TILE_ID@[tile_id] <= PURCHASE_PRICE_BY_TILE_ID@[tile_id] <= 400,
        HOUSE_PURCHASE_PRICE_BY_TILE_ID@[tile_id] <= 200,
        TAX_AMOUNT_BY_TILE_ID@[tile_id] <= 200,
        forall|level: int| 0 <= level < RENT_LEVEL_COUNT ==> #[trigger] RENT_BY_TILE_ID_BY_RENT_LEVEL@[tile_id]@[level] <= 2000,
{
    if tile_id == 0 {
    } else if tile_id == 1 {
    } else if tile_id == 2 {
    } else if tile_id == 3 {
    } else if tile_id == 4 {
    } else if tile_id == 5 {
    } else if tile_id == 6 {
    } else if tile_id == 7 {
    } else if tile_id == 8 {
    } else if tile_id == 9 {
    } else if tile_id == 10 {
    } else if tile_id == 11 {
    } else if tile_id == 12 {
    } else if tile_id == 13 {
    } else if tile_id == 14 {
    } else if tile_id == 15 {
    } else if tile_id == 16 {
    } else if tile_id == 17 {
    } else if tile_id == 18 {
    } else if tile_id == 19 {
    } else if tile_id == 20 {
    } else if tile_id == 21 {
    } else if tile_id == 22 {
    } else if tile_id == 23 {
    } else if tile_id == 24 {
    } else if tile_id == 25 {
    } else if tile_id == 26 {
    } else if tile_id == 27 {
    } else if tile_id == 28 {
    } else if tile_id == 29 {
    } else if tile_id == 30 {
    } else if tile_id == 31 {
    } else if tile_id == 32 {
    } else if tile_id == 33 {
    } else if tile_id == 34 {
    } else if tile_id == 35 {
    } else if tile_id == 36 {
    } else if tile_id == 37 {
    } else if tile_id == 38 {
    } else if tile_id == 39 {
    }
}

/// How the tables agree on one street property.
pub proof fn lemma_property_tables(property_id: int)
    requires
        0 <= property_id < PROPERTY_COUNT,
    ensures
        TILE_ID_BY_PROPERTY_ID@[property_id] < TILE_COUNT,
        PROPERTY_ID_OR_NONE_BY_TILE_ID@[TILE_ID_BY_PROPERTY_ID@[property_id] as int] == property_id,
        TILE_KIND_BY_TILE_ID@[TILE_ID_BY_PROPERTY_ID@[property_id] as int] == TileKind::Property,
        OWNERSHIP_GROUP_INDEX_BY_TILE_ID@[TILE_ID_BY_PROPERTY_ID@[property_id] as int] < 8,
        HOUSE_PURCHASE_PRICE_BY_TILE_ID@[TILE_ID_BY_PROPERTY_ID@[property_id] as int] >= 50,
        forall|other: int| 0 <= other < property_id ==> TILE_ID_BY_PROPERTY_ID@[other] < TILE_ID_BY_PROPERTY_ID@[property_id],
{
    if property_id == 0 {
    } else if property_id == 1 {
    } else if property_id == 2 {
    } else if property_id == 3 {
    } else if property_id == 4 {
    } else if property_id == 5 {
    } else if property_id == 6 {
    } else if property_id == 7 {
    } else if property_id == 8 {
    } else if property_id == 9 {
    } else if property_id == 10 {
    } else if property_id == 11 {
    } else if property_id == 12 {
    } else if property_id == 13 {
    } else if property_id == 14 {
    } else if property_id == 15 {
    } else if property_id == 16 {
    } else if property_id == 17 {
    } else if property_id == 18 {
    } else if property_id == 19 {
    } else if property_id == 20 {
    } else if property_id == 21 {
    }
}

} // verus!
