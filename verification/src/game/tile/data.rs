use vstd::prelude::*;

use super::lut::{
    HOUSE_PURCHASE_PRICE_BY_TILE_ID,
    MORTGAGE_VALUE_BY_TILE_ID,
    OWNERSHIP_GROUP_INDEX_BY_TILE_ID,
    PURCHASE_PRICE_BY_TILE_ID,
    RENT_BY_TILE_ID_BY_RENT_LEVEL,
    RENT_LEVEL_COUNT,
    TAX_AMOUNT_BY_TILE_ID,
    TILE_KIND_BY_TILE_ID,
    UNMORTGAGE_PRICE_BY_TILE_ID,
    group_index_of,
};
use super::model::{
    PropertyColor,
    PropertyRent,
    TileDefinition,
    TileDefinitionKind,
    TileId,
};

verus! {

pub const TILE_COUNT: usize = 40;

pub const PROPERTY_COUNT: usize = 22;

pub const GO_TILE_ID: TileId = 0;
pub const READING_RAILROAD_TILE_ID: TileId = 5;
pub const JAIL_TILE_ID: TileId = 10;
pub const ST_CHARLES_PLACE_TILE_ID: TileId = 11;
pub const FREE_PARKING_TILE_ID: TileId = 20;
pub const ILLINOIS_AVENUE_TILE_ID: TileId = 24;
pub const GO_TO_JAIL_TILE_ID: TileId = 30;
pub const BOARDWALK_TILE_ID: TileId = 39;

pub const RAILROAD_TILE_PURCHASE_PRICE: u16 = 200;
pub const RAILROAD_RENT_BY_POSSESSION_COUNT: [u16; 4] = [25, 50, 100, 200];

pub const UTILITY_TILE_PURCHASE_PRICE: u16 = 150;
pub const UTILITY_RENT_DICE_MULTIPLIER_BY_POSSESSION_COUNT: [u16; 2] = [4, 10];

pub const UNIMPROVED_MONOPOLY_RENT_MULTIPLIER: u16 = 2;

pub const MORTGAGE_VALUE_PERCENT_OF_PURCHASE_PRICE: u16 = 50;
pub const UNMORTGAGE_INTEREST_PERCENT_OF_MORTGAGE_VALUE: u16 = 10;

/// The printed definition of a tile of the board. The lookup tables of `lut` are derived from
/// these definitions; the postcondition states, tile by tile, that they agree.
pub fn tile_definition(tile_id: TileId) -> (definition: TileDefinition)
    requires
        (tile_id as usize) < TILE_COUNT,
    ensures
        definition.kind.kind_spec() == TILE_KIND_BY_TILE_ID@[tile_id as int],
        group_index_of(definition.kind.ownership_group_spec()) == OWNERSHIP_GROUP_INDEX_BY_TILE_ID@[tile_id as int],
        definition.kind.purchase_price_spec() == PURCHASE_PRICE_BY_TILE_ID@[tile_id as int],
        definition.kind.mortgage_value_spec() == MORTGAGE_VALUE_BY_TILE_ID@[tile_id as int],
        definition.kind.unmortgage_price_spec() == UNMORTGAGE_PRICE_BY_TILE_ID@[tile_id as int],
        definition.kind.house_purchase_price_spec() == HOUSE_PURCHASE_PRICE_BY_TILE_ID@[tile_id as int],
        definition.kind.tax_amount_spec() == TAX_AMOUNT_BY_TILE_ID@[tile_id as int],
        forall|level: int|
            0 <= level < RENT_LEVEL_COUNT ==> #[trigger] definition.kind.rent_spec(level)
                == RENT_BY_TILE_ID_BY_RENT_LEVEL@[tile_id as int]@[level],
{
    match tile_id {
        0 => TileDefinition {
            name: "Go",
            kind: TileDefinitionKind::Go,
        },
        1 => TileDefinition {
            name: "Mediterranean Avenue",
            kind: TileDefinitionKind::Property {
                color: PropertyColor::Brown,
                purchase_price: 60,
                rent: PropertyRent {
                    unimproved: 2,
                    one_house: 10,
                    two_houses: 30,
                    three_houses: 90,
                    four_houses: 160,
                    hotel: 250,
                },
            },
        },
        2 => TileDefinition {
            name: "Community Chest",
            kind: TileDefinitionKind::CommunityChest,
        },
        3 => TileDefinition {
            name: "Baltic Avenue",
            kind: TileDefinitionKind::Property {
                color: PropertyColor::Brown,
                purchase_price: 60,
                rent: PropertyRent {
                    unimproved: 4,
                    one_house: 20,
                    two_houses: 60,
                    three_houses: 180,
                    four_houses: 320,
                    hotel: 450,
                },
            },
        },
        4 => TileDefinition {
            name: "Income Tax",
            kind: TileDefinitionKind::Tax { amount: 200 },
        },
        5 => TileDefinition {
            name: "Reading Railroad",
            kind: TileDefinitionKind::Railroad,
        },
        6 => TileDefinition {
            name: "Oriental Avenue",
            kind: TileDefinitionKind::Property {
                color: PropertyColor::LightBlue,
                purchase_price: 100,
                rent: PropertyRent {
                    unimproved: 6,
                    one_house: 30,
                    two_houses: 90,
                    three_houses: 270,
                    four_houses: 400,
                    hotel: 550,
                },
            },
        },
        7 => TileDefinition {
            name: "Chance",
            kind: TileDefinitionKind::Chance,
        },
        8 => TileDefinition {
            name: "Vermont Avenue",
            kind: TileDefinitionKind::Property {
                color: PropertyColor::LightBlue,
                purchase_price: 100,
                rent: PropertyRent {
                    unimproved: 6,
                    one_house: 30,
                    two_houses: 90,
                    three_houses: 270,
                    four_houses: 400,
                    hotel: 550,
                },
            },
        },
        9 => TileDefinition {
            name: "Connecticut Avenue",
            kind: TileDefinitionKind::Property {
                color: PropertyColor::LightBlue,
                purchase_price: 120,
                rent: PropertyRent {
                    unimproved: 8,
                    one_house: 40,
                    two_houses: 100,
                    three_houses: 300,
                    four_houses: 450,
                    hotel: 600,
                },
            },
        },
        10 => TileDefinition {
            name: "Jail",
            kind: TileDefinitionKind::Jail,
        },
        11 => TileDefinition {
            name: "St. Charles Place",
            kind: TileDefinitionKind::Property {
                color: PropertyColor::Pink,
                purchase_price: 140,
                rent: PropertyRent {
                    unimproved: 10,
                    one_house: 50,
                    two_houses: 150,
                    three_houses: 450,
                    four_houses: 625,
                    hotel: 750,
                },
            },
        },
        12 => TileDefinition {
            name: "Electric Company",
            kind: TileDefinitionKind::Utility,
        },
        13 => TileDefinition {
            name: "States Avenue",
            kind: TileDefinitionKind::Property {
                color: PropertyColor::Pink,
                purchase_price: 140,
                rent: PropertyRent {
                    unimproved: 10,
                    one_house: 50,
                    two_houses: 150,
                    three_houses: 450,
                    four_houses: 625,
                    hotel: 750,
                },
            },
        },
        14 => TileDefinition {
            name: "Virginia Avenue",
            kind: TileDefinitionKind::Property {
                color: PropertyColor::Pink,
                purchase_price: 160,
                rent: PropertyRent {
                    unimproved: 12,
                    one_house: 60,
                    two_houses: 180,
                    three_houses: 500,
                    four_houses: 700,
                    hotel: 900,
                },
            },
        },
        15 => TileDefinition {
            name: "Pennsylvania Railroad",
            kind: TileDefinitionKind::Railroad,
        },
        16 => TileDefinition {
            name: "St. James Place",
            kind: TileDefinitionKind::Property {
                color: PropertyColor::Orange,
                purchase_price: 180,
                rent: PropertyRent {
                    unimproved: 14,
                    one_house: 70,
                    two_houses: 200,
                    three_houses: 550,
                    four_houses: 750,
                    hotel: 950,
                },
            },
        },
        17 => TileDefinition {
            name: "Community Chest",
            kind: TileDefinitionKind::CommunityChest,
        },
        18 => TileDefinition {
            name: "Tennessee Avenue",
            kind: TileDefinitionKind::Property {
                color: PropertyColor::Orange,
                purchase_price: 180,
                rent: PropertyRent {
                    unimproved: 14,
                    one_house: 70,
                    two_houses: 200,
                    three_houses: 550,
                    four_houses: 750,
                    hotel: 950,
                },
            },
        },
        19 => TileDefinition {
            name: "New York Avenue",
            kind: TileDefinitionKind::Property {
                color: PropertyColor::Orange,
                purchase_price: 200,
                rent: PropertyRent {
                    unimproved: 16,
                    one_house: 80,
                    two_houses: 220,
                    three_houses: 600,
                    four_houses: 800,
                    hotel: 1000,
                },
            },
        },
        20 => TileDefinition {
            name: "Free Parking",
            kind: TileDefinitionKind::FreeParking,
        },
        21 => TileDefinition {
            name: "Kentucky Avenue",
            kind: TileDefinitionKind::Property {
                color: PropertyColor::Red,
                purchase_price: 220,
                rent: PropertyRent {
                    unimproved: 18,
                    one_house: 90,
                    two_houses: 250,
                    three_houses: 700,
                    four_houses: 875,
                    hotel: 1050,
                },
            },
        },
        22 => TileDefinition {
            name: "Chance",
            kind: TileDefinitionKind::Chance,
        },
        23 => TileDefinition {
            name: "Indiana Avenue",
            kind: TileDefinitionKind::Property {
                color: PropertyColor::Red,
                purchase_price: 220,
                rent: PropertyRent {
                    unimproved: 18,
                    one_house: 90,
                    two_houses: 250,
                    three_houses: 700,
                    four_houses: 875,
                    hotel: 1050,
                },
            },
        },
        24 => TileDefinition {
            name: "Illinois Avenue",
            kind: TileDefinitionKind::Property {
                color: PropertyColor::Red,
                purchase_price: 240,
                rent: PropertyRent {
                    unimproved: 20,
                    one_house: 100,
                    two_houses: 300,
                    three_houses: 750,
                    four_houses: 925,
                    hotel: 1100,
                },
            },
        },
        25 => TileDefinition {
            name: "B. & O. Railroad",
            kind: TileDefinitionKind::Railroad,
        },
        26 => TileDefinition {
            name: "Atlantic Avenue",
            kind: TileDefinitionKind::Property {
                color: PropertyColor::Yellow,
                purchase_price: 260,
                rent: PropertyRent {
                    unimproved: 22,
                    one_house: 110,
                    two_houses: 330,
                    three_houses: 800,
                    four_houses: 975,
                    hotel: 1150,
                },
            },
        },
        27 => TileDefinition {
            name: "Ventnor Avenue",
            kind: TileDefinitionKind::Property {
                color: PropertyColor::Yellow,
                purchase_price: 260,
                rent: PropertyRent {
                    unimproved: 22,
                    one_house: 110,
                    two_houses: 330,
                    three_houses: 800,
                    four_houses: 975,
                    hotel: 1150,
                },
            },
        },
        28 => TileDefinition {
            name: "Water Works",
            kind: TileDefinitionKind::Utility,
        },
        29 => TileDefinition {
            name: "Marvin Gardens",
            kind: TileDefinitionKind::Property {
                color: PropertyColor::Yellow,
                purchase_price: 280,
                rent: PropertyRent {
                    unimproved: 24,
                    one_house: 120,
                    two_houses: 360,
                    three_houses: 850,
                    four_houses: 1025,
                    hotel: 1200,
                },
            },
        },
        30 => TileDefinition {
            name: "Go To Jail",
            kind: TileDefinitionKind::GoToJail,
        },
        31 => TileDefinition {
            name: "Pacific Avenue",
            kind: TileDefinitionKind::Property {
                color: PropertyColor::Green,
                purchase_price: 300,
                rent: PropertyRent {
                    unimproved: 26,
                    one_house: 130,
                    two_houses: 390,
                    three_houses: 900,
                    four_houses: 1100,
                    hotel: 1275,
                },
            },
        },
        32 => TileDefinition {
            name: "North Carolina Avenue",
            kind: TileDefinitionKind::Property {
                color: PropertyColor::Green,
                purchase_price: 300,
                rent: PropertyRent {
                    unimproved: 26,
                    one_house: 130,
                    two_houses: 390,
                    three_houses: 900,
                    four_houses: 1100,
                    hotel: 1275,
                },
            },
        },
        33 => TileDefinition {
            name: "Community Chest",
            kind: TileDefinitionKind::CommunityChest,
        },
        34 => TileDefinition {
            name: "Pennsylvania Avenue",
            kind: TileDefinitionKind::Property {
                color: PropertyColor::Green,
                purchase_price: 320,
                rent: PropertyRent {
                    unimproved: 28,
                    one_house: 150,
                    two_houses: 450,
                    three_houses: 1000,
                    four_houses: 1200,
                    hotel: 1400,
                },
            },
        },
        35 => TileDefinition {
            name: "Short Line",
            kind: TileDefinitionKind::Railroad,
        },
        36 => TileDefinition {
            name: "Chance",
            kind: TileDefinitionKind::Chance,
        },
        37 => TileDefinition {
            name: "Park Place",
            kind: TileDefinitionKind::Property {
                color: PropertyColor::DarkBlue,
                purchase_price: 350,
                rent: PropertyRent {
                    unimproved: 35,
                    one_house: 175,
                    two_houses: 500,
                    three_houses: 1100,
                    four_houses: 1300,
                    hotel: 1500,
                },
            },
        },
        38 => TileDefinition {
            name: "Luxury Tax",
            kind: TileDefinitionKind::Tax { amount: 100 },
        },
        _ => TileDefinition {
            name: "Boardwalk",
            kind: TileDefinitionKind::Property {
                color: PropertyColor::DarkBlue,
                purchase_price: 400,
                rent: PropertyRent {
                    unimproved: 50,
                    one_house: 200,
                    two_houses: 600,
                    three_houses: 1400,
                    four_houses: 1700,
                    hotel: 2000,
                },
            },
        },
    }
}

} // verus!
