use vstd::prelude::*;

use super::model::{
    BoardState,
    BuildingCount,
    PropertyImprovementLevel,
};

verus! {

pub const MIN_PLAYER_COUNT: usize = 2;
pub const MAX_PLAYER_COUNT: usize = 8;

pub const BANK_STARTING_HOUSE_COUNT: BuildingCount = 32;
pub const BANK_STARTING_HOTEL_COUNT: BuildingCount = 12;

pub const MAX_HOUSE_IMPROVEMENT_LEVEL: PropertyImprovementLevel = 4;
pub const HOTEL_IMPROVEMENT_LEVEL: PropertyImprovementLevel = 5;

impl<const PLAYER_COUNT: usize> BoardState<PLAYER_COUNT> {
    /// The board before the first turn.
    pub open spec fn starting_state_spec() -> Self {
        BoardState {
            owned_tiles_by_player_id: vstd::array::spec_array_fill_for_copy_type(0u64),
            mortgaged_tiles: 0,
            improvement_level_by_property_id: vstd::array::spec_array_fill_for_copy_type(0u8),
            bank_house_count: BANK_STARTING_HOUSE_COUNT,
            bank_hotel_count: BANK_STARTING_HOTEL_COUNT,
        }
    }

    /// The board before the first turn: nobody owns or has mortgaged a tile, no property is
    /// improved, and the bank holds every house and hotel.
    pub fn starting_state() -> (board: Self)
        ensures
            board == Self::starting_state_spec(),
            forall|player: int| 0 <= player < PLAYER_COUNT ==> board.owned_tiles_by_player_id@[player] == 0,
            board.mortgaged_tiles == 0,
            forall|property: int| 0 <= property < 22 ==> board.improvement_level_by_property_id@[property] == 0,
            board.bank_house_count == BANK_STARTING_HOUSE_COUNT,
            board.bank_hotel_count == BANK_STARTING_HOTEL_COUNT,
    {
        BoardState {
            owned_tiles_by_player_id: vstd::array::array_fill_for_copy_types(0u64),
            mortgaged_tiles: 0,
            improvement_level_by_property_id: vstd::array::array_fill_for_copy_types(0u8),
            bank_house_count: BANK_STARTING_HOUSE_COUNT,
            bank_hotel_count: BANK_STARTING_HOTEL_COUNT,
        }
    }
}

} // verus!
