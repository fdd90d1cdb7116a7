use vstd::prelude::*;

use super::analysis::{
    buildings_below,
    development_bucket_of,
};
use crate::game::engine::card::buildings_owned;
use crate::game::state::model::GameState;
use crate::game::tile::data::PROPERTY_COUNT;
use crate::game::tile::lut::TILE_ID_BY_PROPERTY_ID;

verus! {

proof fn lemma_no_own_buildings_below<const N: usize>(state: GameState<N>, player: int, count: nat)
    requires
        forall|property: int|
            0 <= property < count && state.board.owns(player, TILE_ID_BY_PROPERTY_ID@[property] as int) ==> state.level(
                property,
            ) == 0,
    ensures
        buildings_below(state, player, count) == 0,
    decreases count,
{
    if count > 0 {
        lemma_no_own_buildings_below(state, player, (count - 1) as nat);
    }
}

proof fn lemma_own_buildings_below_frame<const N: usize>(
    first: GameState<N>,
    second: GameState<N>,
    player: int,
    count: nat,
)
    requires
        forall|property: int|
            0 <= property < count ==> first.board.owns(player, TILE_ID_BY_PROPERTY_ID@[property] as int)
                == second.board.owns(player, TILE_ID_BY_PROPERTY_ID@[property] as int),
        forall|property: int|
            0 <= property < count && first.board.owns(player, TILE_ID_BY_PROPERTY_ID@[property] as int) ==> first.level(
                property,
            ) == second.level(property),
    ensures
        buildings_below(first, player, count) == buildings_below(second, player, count),
    decreases count,
{
    if count > 0 {
        lemma_own_buildings_below_frame(first, second, player, (count - 1) as nat);
    }
}

/// In the monopoly analysis a player's building count covers the player's own properties only:
/// a player none of whose properties carries a building counts no building and falls in the
/// first development bucket, whatever the other players built.
pub proof fn law_building_count_without_own_buildings<const N: usize>(state: GameState<N>, player: int)
    requires
        forall|property: int|
            0 <= property < PROPERTY_COUNT && state.board.owns(player, TILE_ID_BY_PROPERTY_ID@[property] as int)
                ==> state.level(property) == 0,
    ensures
        buildings_below(state, player, PROPERTY_COUNT as nat) == 0,
        development_bucket_of(buildings_below(state, player, PROPERTY_COUNT as nat) as int) == 0,
{
    lemma_no_own_buildings_below(state, player, PROPERTY_COUNT as nat);
}

/// A player's building count depends on the player's own holdings alone: two boards on which
/// the player owns the same properties, with the same buildings on them, give the same count and
/// the same development bucket, however the other players' buildings differ.
pub proof fn law_building_count_ignores_other_players<const N: usize>(
    first: GameState<N>,
    second: GameState<N>,
    player: int,
)
    requires
        forall|property: int|
            0 <= property < PROPERTY_COUNT ==> first.board.owns(player, TILE_ID_BY_PROPERTY_ID@[property] as int)
                == second.board.owns(player, TILE_ID_BY_PROPERTY_ID@[property] as int),
        forall|property: int|
            0 <= property < PROPERTY_COUNT && first.board.owns(player, TILE_ID_BY_PROPERTY_ID@[property] as int)
                ==> first.level(property) == second.level(property),
    ensures
        buildings_below(first, player, PROPERTY_COUNT as nat) == buildings_below(second, player, PROPERTY_COUNT as nat),
        development_bucket_of(buildings_below(first, player, PROPERTY_COUNT as nat) as int) == development_bucket_of(
            buildings_below(second, player, PROPERTY_COUNT as nat) as int,
        ),
{
    lemma_own_buildings_below_frame(first, second, player, PROPERTY_COUNT as nat);
}

proof fn lemma_counts_agree<const N: usize>(state: GameState<N>, player: int, count: nat)
    requires
        0 <= player < N,
    ensures
        buildings_owned(state, state.board.owned_tiles_by_player_id@[player], count).0 + 5 * buildings_owned(
            state,
            state.board.owned_tiles_by_player_id@[player],
            count,
        ).1 == buildings_below(state, player, count),
    decreases count,
{
    if count > 0 {
        lemma_counts_agree(state, player, (count - 1) as nat);
    }
}

/// The repair card and the monopoly analysis count a player's buildings alike: the houses that
/// a repair bill charges, with five for each hotel, are the buildings that the analysis counts
/// for the player.
pub proof fn law_repair_counts_match_building_count<const N: usize>(state: GameState<N>, player: int)
    requires
        0 <= player < N,
    ensures
        buildings_owned(state, state.board.owned_tiles_by_player_id@[player], PROPERTY_COUNT as nat).0 + 5
            * buildings_owned(state, state.board.owned_tiles_by_player_id@[player], PROPERTY_COUNT as nat).1
            == buildings_below(state, player, PROPERTY_COUNT as nat),
{
    lemma_counts_agree(state, player, PROPERTY_COUNT as nat);
}

} // verus!
