use vstd::prelude::*;

use crate::game::tile::data::PROPERTY_COUNT;
use crate::game::tile::model::{
    TileId,
    TileSetMask,
    count_tiles,
    holds_all_tiles,
    tile_bit,
    tile_count,
    tile_in,
};

verus! {

broadcast use crate::game::tile::model::group_tile_mask;

// max player count (8) < 255
pub type PlayerId = u8;

// 0 = unimproved, 1-4 = houses, 5 = hotel
pub type PropertyImprovementLevel = u8;

// max hotel supply (12) < max bank supply (32 houses) < 255
pub type BuildingCount = u8;

#[derive(Debug, Clone, Copy, PartialEq, Eq, Hash)]
pub struct BoardState<const PLAYER_COUNT: usize> {
    pub owned_tiles_by_player_id: [TileSetMask; PLAYER_COUNT],
    pub mortgaged_tiles: TileSetMask,
    pub improvement_level_by_property_id: [PropertyImprovementLevel; PROPERTY_COUNT],
    pub bank_house_count: BuildingCount,
    pub bank_hotel_count: BuildingCount,
}

impl<const PLAYER_COUNT: usize> BoardState<PLAYER_COUNT> {
    /// Whether `player` owns `tile`.
    pub open spec fn owns(self, player: int, tile: int) -> bool {
        0 <= player < PLAYER_COUNT && tile_in(self.owned_tiles_by_player_id@[player], tile)
    }

    /// The first player, in seat order, who owns `tile`.
    pub open spec fn owner_of(self, tile: int) -> Option<PlayerId> {
        if exists|player: int| self.owns(player, tile) {
            let player = choose|player: int|
                self.owns(player, tile) && forall|earlier: int| 0 <= earlier < player ==> !self.owns(earlier, tile);
            Some(player as PlayerId)
        } else {
            None
        }
    }

    /// Whether `tile` is mortgaged.
    pub open spec fn mortgaged(self, tile: int) -> bool {
        tile_in(self.mortgaged_tiles, tile)
    }

    pub fn get_tile_owner(&self, tile_id: TileId) -> (owner: Option<PlayerId>)
        requires
            tile_id < 64,
            PLAYER_COUNT <= 256,
        ensures
            owner == self.owner_of(tile_id as int),
            owner matches Some(player) ==> self.owns(player as int, tile_id as int),
            owner is None ==> forall|player: int| !self.owns(player, tile_id as int),
    {
        let tile_bit = tile_bit(tile_id);
        let mut player: usize = 0;
        while player < PLAYER_COUNT
            invariant
                player <= PLAYER_COUNT <= 256,
                forall|earlier: int| 0 <= earlier < player ==> !self.owns(earlier, tile_id as int),
                forall|t: int| #[trigger] tile_in(tile_bit, t) == (t == tile_id),
            decreases PLAYER_COUNT - player,
        {
            if self.owned_tiles_by_player_id[player] & tile_bit != 0 {
                proof {
                    crate::game::tile::model::lemma_tiles_empty(self.owned_tiles_by_player_id@[player as int] & tile_bit);
                    let p = player as int;
                    assert(self.owns(p, tile_id as int));
                    let chosen = choose|q: int|
                        self.owns(q, tile_id as int) && forall|earlier: int| 0 <= earlier < q ==> !self.owns(earlier, tile_id as int);
                    assert(self.owns(chosen, tile_id as int));
                    if chosen < p {
                    } else if chosen > p {
                        assert(!self.owns(p, tile_id as int));
                    }
                }
                return Some(player as PlayerId);
            }
            proof {
                crate::game::tile::model::lemma_tiles_empty(self.owned_tiles_by_player_id@[player as int] & tile_bit);
                assert(!tile_in(self.owned_tiles_by_player_id@[player as int] & tile_bit, tile_id as int));
            }
            player = player + 1;
        }
        None
    }

    pub fn get_player_owned_tiles_count(&self, player_id: PlayerId, tiles: TileSetMask) -> (count: u32)
        requires
            (player_id as usize) < PLAYER_COUNT,
        ensures
            count == tile_count(self.owned_tiles_by_player_id@[player_id as int] & tiles),
    {
        count_tiles(self.owned_tiles_by_player_id[player_id as usize] & tiles)
    }

    pub fn does_player_own_all_tiles(&self, player_id: PlayerId, tiles: TileSetMask) -> (result: bool)
        requires
            (player_id as usize) < PLAYER_COUNT,
        ensures
            result == (forall|t: int| tile_in(tiles, t) ==> self.owns(player_id as int, t)),
    {
        holds_all_tiles(self.owned_tiles_by_player_id[player_id as usize], tiles)
    }

    pub fn is_tile_mortgaged(&self, tile_id: TileId) -> (result: bool)
        ensures
            result == self.mortgaged(tile_id as int),
    {
        crate::game::tile::model::contains_tile(self.mortgaged_tiles, tile_id)
    }
}

} // verus!
