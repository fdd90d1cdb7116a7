use vstd::prelude::*;

use crate::game::strategy::model::{
    policies_kept,
    unmortgage_choice_by,
};

use super::event::{
    GameEvent,
    published,
};

use crate::game::board::model::PlayerId;
use crate::game::ruleset::model::Ruleset;
use crate::game::state::model::{
    GameState,
    group_player_mask,
    lemma_buildings_frame,
    lemma_ownership_frame,
    lemma_wf_frame,
};
use crate::game::strategy::model::PlayerStrategy;
use crate::game::tile::data::{
    PROPERTY_COUNT,
    TILE_COUNT,
};
use crate::game::tile::lut::{
    MORTGAGE_VALUE_BY_TILE_ID,
    NO_OWNERSHIP_GROUP,
    OWNERSHIP_GROUP_INDEX_BY_TILE_ID,
    TILE_ID_BY_PROPERTY_ID,
    UNMORTGAGE_PRICE_BY_TILE_ID,
    lemma_property_tables,
    lemma_tile_tables,
};
use crate::game::tile::model::{
    Cash,
    TileId,
    TileSetMask,
    contains_tile,
    group_tile_mask,
    tile_count,
    tile_in,
    with_tile,
    without_tile,
};

verus! {

broadcast use {group_player_mask, group_tile_mask};

/// The ownership group index of the tile of a street property.
pub open spec fn property_group(property: int) -> u8 {
    OWNERSHIP_GROUP_INDEX_BY_TILE_ID@[TILE_ID_BY_PROPERTY_ID@[property] as int]
}

/// Whether some street property in the ownership group of `tile` has a building.
pub open spec fn group_improved<const N: usize>(state: GameState<N>, tile: int) -> bool {
    let group = OWNERSHIP_GROUP_INDEX_BY_TILE_ID@[tile];
    group < NO_OWNERSHIP_GROUP && exists|property: int|
        0 <= property < PROPERTY_COUNT && #[trigger] property_group(property) == group && state.level(property) > 0
}

pub open spec fn can_mortgage_spec<const N: usize>(state: GameState<N>, player: int, tile: int) -> bool {
    &&& 0 <= player < N
    &&& 0 <= tile < TILE_COUNT
    &&& !state.is_bankrupt(player)
    &&& state.board.owner_of(tile) == Some(player as PlayerId)
    &&& !state.board.mortgaged(tile)
    &&& !group_improved(state, tile)
    &&& state.cash(player) + MORTGAGE_VALUE_BY_TILE_ID@[tile] <= Cash::MAX
}

pub open spec fn can_unmortgage_spec<const N: usize>(state: GameState<N>, player: int, tile: int) -> bool {
    &&& 0 <= player < N
    &&& 0 <= tile < TILE_COUNT
    &&& !state.is_bankrupt(player)
    &&& state.board.owner_of(tile) == Some(player as PlayerId)
    &&& state.board.mortgaged(tile)
    &&& state.cash(player) >= UNMORTGAGE_PRICE_BY_TILE_ID@[tile]
}

/// `after` is `before` with the mortgaged tiles replaced by `mortgaged` and the cash of
/// `player` replaced by `cash`.
pub open spec fn with_mortgage_change<const N: usize>(
    before: GameState<N>,
    player: int,
    mortgaged: TileSetMask,
    cash: Cash,
) -> GameState<N> {
    GameState {
        board: crate::game::board::model::BoardState { mortgaged_tiles: mortgaged, ..before.board },
        cash_by_player_id: vstd::array::spec_array_update(before.cash_by_player_id, player, cash),
        ..before
    }
}

/// The state after `player` pays off the mortgage of `tile`: the tile is no longer mortgaged
/// and the player has paid its unmortgage price.
pub open spec fn unmortgaged_state<const N: usize>(before: GameState<N>, player: int, tile: TileId) -> GameState<N> {
    with_mortgage_change(
        before,
        player,
        before.board.mortgaged_tiles & !(1u64 << tile),
        (before.cash(player) - UNMORTGAGE_PRICE_BY_TILE_ID@[tile as int]) as Cash,
    )
}

/// Whether `after`, with the players `seats_after`, follows `before` with the players `seats`
/// by one mortgage that `player` pays off: its strategy chose a tile as its policy decides, the
/// tile was unmortgaged, and that was published, recorded by `player`.
pub open spec fn unmortgage_step<const N: usize, S: PlayerStrategy>(
    before: GameState<N>,
    seats: Seq<S>,
    rules: Ruleset,
    player: PlayerId,
    after: GameState<N>,
    seats_after: Seq<S>,
) -> bool {
    exists|tile: TileId, answered: Seq<S>|
        #![trigger unmortgage_choice_by(seats[player as int].policy_of(), before, rules, player, Some(tile)), policies_kept(seats, answered)]
        unmortgage_choice_by(seats[player as int].policy_of(), before, rules, player, Some(tile))
            && can_unmortgage_spec(before, player as int, tile as int) && after == unmortgaged_state(
            before,
            player as int,
            tile,
        ) && policies_kept(seats, answered) && published(
            answered,
            player as int,
            GameEvent::TileUnmortgaged { player_id: player, tile_id: tile },
            seats_after,
        )
}

/// Whether the strategy of `player` among `seats` stops the unmortgaging phase in `state`: it
/// chooses no tile, as its policy decides, or one that cannot be unmortgaged.
pub open spec fn unmortgage_stopped<const N: usize, S: PlayerStrategy>(
    state: GameState<N>,
    seats: Seq<S>,
    rules: Ruleset,
    player: PlayerId,
) -> bool {
    exists|choice: Option<TileId>|
        #[trigger] unmortgage_choice_by(seats[player as int].policy_of(), state, rules, player, choice) && match choice {
            Some(tile) => !can_unmortgage_spec(state, player as int, tile as int),
            None => true,
        }
}

/// Whether `states`, each with the players of the same place in `seats`, are the unmortgaging
/// phase of `player`, tile by tile, up to the state where its strategy stops it.
pub open spec fn unmortgages_played<const N: usize, S: PlayerStrategy>(
    states: Seq<GameState<N>>,
    seats: Seq<Seq<S>>,
    rules: Ruleset,
    player: PlayerId,
) -> bool {
    &&& states.len() >= 1
    &&& seats.len() == states.len()
    &&& forall|index: int|
        0 <= index < states.len() - 1 ==> #[trigger] unmortgage_step(
            states[index],
            seats[index],
            rules,
            player,
            states[index + 1],
            seats[index + 1],
        )
    &&& unmortgage_stopped(states.last(), seats.last(), rules, player)
}

/// Lets `player_id`'s strategy pay off mortgages, one tile at a time, until it chooses none or
/// its choice cannot be unmortgaged.
pub fn run_mortgage_phase<const PLAYER_COUNT: usize, Strategy: PlayerStrategy>(
    game_state: &mut GameState<PLAYER_COUNT>,
    ruleset: &Ruleset,
    strategies: &mut [Strategy; PLAYER_COUNT],
    player_id: PlayerId,
)
    requires
        (player_id as usize) < PLAYER_COUNT <= 256,
    ensures
        policies_kept(old(strategies)@, final(strategies)@),
        final(game_state).board.owned_tiles_by_player_id == old(game_state).board.owned_tiles_by_player_id,
        final(game_state).board.improvement_level_by_property_id == old(game_state).board.improvement_level_by_property_id,
        final(game_state).bankrupt_players == old(game_state).bankrupt_players,
        old(game_state).wf() ==> final(game_state).wf(),
        forall|other: int|
            0 <= other < PLAYER_COUNT && other != player_id ==> #[trigger] final(game_state).cash(other) == old(
                game_state,
            ).cash(other),
        final(game_state).cash(player_id as int) <= old(game_state).cash(player_id as int),
        tile_count(final(game_state).board.mortgaged_tiles) <= tile_count(old(game_state).board.mortgaged_tiles),
        exists|states: Seq<GameState<PLAYER_COUNT>>, seats: Seq<Seq<Strategy>>|
            #[trigger] unmortgages_played(states, seats, *ruleset, player_id) && states[0] == *old(game_state)
                && seats[0] == old(strategies)@ && states.last() == *final(game_state) && policies_kept(
                seats.last(),
                final(strategies)@,
            ),
{
    let ghost mut states: Seq<GameState<PLAYER_COUNT>> = seq![*game_state];
    let ghost mut seats: Seq<Seq<Strategy>> = seq![strategies@];
    loop
        invariant
            states.len() >= 1,
            seats.len() == states.len(),
            states[0] == *old(game_state),
            seats[0] == old(strategies)@,
            states.last() == *game_state,
            seats.last() == strategies@,
            forall|index: int|
                0 <= index < states.len() - 1 ==> #[trigger] unmortgage_step(
                    states[index],
                    seats[index],
                    *ruleset,
                    player_id,
                    states[index + 1],
                    seats[index + 1],
                ),
            policies_kept(old(strategies)@, strategies@),
            (player_id as usize) < PLAYER_COUNT <= 256,
            game_state.board.owned_tiles_by_player_id == old(game_state).board.owned_tiles_by_player_id,
            game_state.board.improvement_level_by_property_id == old(game_state).board.improvement_level_by_property_id,
            game_state.bankrupt_players == old(game_state).bankrupt_players,
            old(game_state).wf() ==> game_state.wf(),
            forall|other: int|
                0 <= other < PLAYER_COUNT && other != player_id ==> #[trigger] game_state.cash(other) == old(
                    game_state,
                ).cash(other),
            game_state.cash(player_id as int) <= old(game_state).cash(player_id as int),
            tile_count(game_state.board.mortgaged_tiles) <= tile_count(old(game_state).board.mortgaged_tiles),
        decreases tile_count(game_state.board.mortgaged_tiles),
    {
        let ghost asked = strategies@;
        let choice = strategies[player_id as usize].choose_tile_to_unmortgage(game_state, ruleset, player_id);
        let ghost answered = strategies@;
        proof {
            assert(policies_kept(asked, answered)) by {
                assert forall|seat: int| 0 <= seat < asked.len() implies #[trigger] answered[seat].policy_of()
                    == asked[seat].policy_of() by {}
            }
            assert(unmortgage_choice_by(asked[player_id as int].policy_of(), *game_state, *ruleset, player_id, choice));
        }
        let tile_id = match choice {
            Some(tile_id) => tile_id,
            None => {
                assert(unmortgage_stopped(*game_state, asked, *ruleset, player_id));
                assert(unmortgages_played(states, seats, *ruleset, player_id));
                return;
            },
        };
        let ghost before = *game_state;
        if !unmortgage_tile(game_state, player_id, tile_id) {
            assert(unmortgage_stopped(*game_state, asked, *ruleset, player_id));
            assert(unmortgages_played(states, seats, *ruleset, player_id));
            return;
        }
        proof {
            assert forall|other: int| 0 <= other < PLAYER_COUNT && other != player_id implies #[trigger] game_state.cash(
                other,
            ) == old(game_state).cash(other) by {
                assert(game_state.cash(other) == before.cash(other));
            }
        }
        super::event::publish_event(strategies, player_id as usize, GameEvent::TileUnmortgaged { player_id, tile_id });
        proof {
            assert(unmortgage_step(before, asked, *ruleset, player_id, *game_state, strategies@));
            let longer = states.push(*game_state);
            let more_seats = seats.push(strategies@);
            assert forall|index: int| 0 <= index < longer.len() - 1 implies #[trigger] unmortgage_step(
                longer[index],
                more_seats[index],
                *ruleset,
                player_id,
                longer[index + 1],
                more_seats[index + 1],
            ) by {
                if index < states.len() - 1 {
                    assert(unmortgage_step(
                        states[index],
                        seats[index],
                        *ruleset,
                        player_id,
                        states[index + 1],
                        seats[index + 1],
                    ));
                }
            }
            states = longer;
            seats = more_seats;
        }
    }
}

#[verifier::rlimit(50)]
pub fn can_mortgage_tile<const PLAYER_COUNT: usize>(
    game_state: &GameState<PLAYER_COUNT>,
    player_id: PlayerId,
    tile_id: TileId,
) -> (result: bool)
    requires
        PLAYER_COUNT <= 256,
    ensures
        result == can_mortgage_spec(*game_state, player_id as int, tile_id as int),
{
    if player_id as usize >= PLAYER_COUNT || tile_id as usize >= TILE_COUNT
        || crate::game::state::model::contains_player(game_state.bankrupt_players, player_id) {
        return false;
    }
    match game_state.board.get_tile_owner(tile_id) {
        Some(owner) => if owner != player_id {
            return false;
        },
        None => return false,
    }
    if game_state.board.is_tile_mortgaged(tile_id) {
        return false;
    }

    !has_group_improvements(game_state, tile_id)
        && game_state.cash_by_player_id[player_id as usize].checked_add(MORTGAGE_VALUE_BY_TILE_ID[tile_id as usize] as Cash).is_some()
}

pub fn mortgage_tile<const PLAYER_COUNT: usize>(
    game_state: &mut GameState<PLAYER_COUNT>,
    player_id: PlayerId,
    tile_id: TileId,
) -> (mortgaged: bool)
    requires
        PLAYER_COUNT <= 256,
    ensures
        mortgaged == can_mortgage_spec(*old(game_state), player_id as int, tile_id as int),
        mortgaged ==> *final(game_state) == with_mortgage_change(
            *old(game_state),
            player_id as int,
            old(game_state).board.mortgaged_tiles | (1u64 << tile_id),
            (old(game_state).cash(player_id as int) + MORTGAGE_VALUE_BY_TILE_ID@[tile_id as int]) as Cash,
        ),
        !mortgaged ==> *final(game_state) == *old(game_state),
        old(game_state).buildings_wf() ==> final(game_state).buildings_wf(),
        old(game_state).wf() ==> final(game_state).wf(),
        final(game_state).board.improvement_level_by_property_id == old(game_state).board.improvement_level_by_property_id,
{
    if !can_mortgage_tile(game_state, player_id, tile_id) {
        return false;
    }

    let ghost before = *game_state;
    game_state.board.mortgaged_tiles = with_tile(game_state.board.mortgaged_tiles, tile_id);
    game_state.cash_by_player_id[player_id as usize] = game_state.cash_by_player_id[player_id as usize]
        + MORTGAGE_VALUE_BY_TILE_ID[tile_id as usize] as Cash;
    proof {
        if before.buildings_wf() {
            lemma_buildings_frame(before, *game_state);
        }
        if before.wf() {
            lemma_ownership_frame(before, *game_state);
            lemma_wf_frame(before, *game_state);
        }
    }
    true
}

#[verifier::spinoff_prover]
pub fn can_unmortgage_tile<const PLAYER_COUNT: usize>(
    game_state: &GameState<PLAYER_COUNT>,
    player_id: PlayerId,
    tile_id: TileId,
) -> (result: bool)
    requires
        PLAYER_COUNT <= 256,
    ensures
        result == can_unmortgage_spec(*game_state, player_id as int, tile_id as int),
{
    if player_id as usize >= PLAYER_COUNT || tile_id as usize >= TILE_COUNT
        || crate::game::state::model::contains_player(game_state.bankrupt_players, player_id) {
        return false;
    }
    match game_state.board.get_tile_owner(tile_id) {
        Some(owner) => if owner != player_id {
            return false;
        },
        None => return false,
    }
    if !game_state.board.is_tile_mortgaged(tile_id) {
        return false;
    }

    game_state.cash_by_player_id[player_id as usize] >= UNMORTGAGE_PRICE_BY_TILE_ID[tile_id as usize] as Cash
}

pub fn unmortgage_tile<const PLAYER_COUNT: usize>(
    game_state: &mut GameState<PLAYER_COUNT>,
    player_id: PlayerId,
    tile_id: TileId,
) -> (unmortgaged: bool)
    requires
        PLAYER_COUNT <= 256,
    ensures
        unmortgaged == can_unmortgage_spec(*old(game_state), player_id as int, tile_id as int),
        unmortgaged ==> *final(game_state) == with_mortgage_change(
            *old(game_state),
            player_id as int,
            old(game_state).board.mortgaged_tiles & !(1u64 << tile_id),
            (old(game_state).cash(player_id as int) - UNMORTGAGE_PRICE_BY_TILE_ID@[tile_id as int]) as Cash,
        ),
        unmortgaged ==> tile_count(final(game_state).board.mortgaged_tiles) + 1 == tile_count(old(game_state).board.mortgaged_tiles),
        final(game_state).board.improvement_level_by_property_id == old(game_state).board.improvement_level_by_property_id,
        !unmortgaged ==> *final(game_state) == *old(game_state),
        old(game_state).buildings_wf() ==> final(game_state).buildings_wf(),
        old(game_state).wf() ==> final(game_state).wf(),
{
    if !can_unmortgage_tile(game_state, player_id, tile_id) {
        return false;
    }

    let ghost before = *game_state;
    game_state.board.mortgaged_tiles = without_tile(game_state.board.mortgaged_tiles, tile_id);
    game_state.cash_by_player_id[player_id as usize] = game_state.cash_by_player_id[player_id as usize]
        - UNMORTGAGE_PRICE_BY_TILE_ID[tile_id as usize] as Cash;
    proof {
        if before.buildings_wf() {
            lemma_buildings_frame(before, *game_state);
        }
        if before.wf() {
            lemma_ownership_frame(before, *game_state);
            lemma_wf_frame(before, *game_state);
        }
    }
    true
}

/// The interest owed on the mortgaged tiles of `tiles` among the tiles `0..bound`: for each,
/// its unmortgage price less its mortgage value.
pub open spec fn transfer_interest_below<const N: usize>(state: GameState<N>, tiles: TileSetMask, bound: nat) -> nat
    decreases bound,
{
    if bound == 0 {
        0
    } else {
        let tile = bound - 1;
        transfer_interest_below(state, tiles, (bound - 1) as nat) + if tile_in(tiles, tile) && state.board.mortgaged(tile) {
            (UNMORTGAGE_PRICE_BY_TILE_ID@[tile] - MORTGAGE_VALUE_BY_TILE_ID@[tile]) as nat
        } else {
            0nat
        }
    }
}

proof fn lemma_transfer_interest_bound<const N: usize>(state: GameState<N>, tiles: TileSetMask, bound: nat)
    requires
        bound <= TILE_COUNT,
    ensures
        transfer_interest_below(state, tiles, bound) <= 30 * bound,
    decreases bound,
{
    if bound > 0 {
        lemma_transfer_interest_bound(state, tiles, (bound - 1) as nat);
        lemma_tile_tables(bound - 1);
    }
}

proof fn lemma_transfer_interest_high_tiles<const N: usize>(state: GameState<N>, tiles: TileSetMask, bound: nat)
    requires
        TILE_COUNT <= bound <= 64,
        forall|tile: int| TILE_COUNT <= tile < 64 ==> !(tile_in(tiles, tile) && state.board.mortgaged(tile)),
    ensures
        transfer_interest_below(state, tiles, bound) == transfer_interest_below(state, tiles, TILE_COUNT as nat),
    decreases bound,
{
    if bound > TILE_COUNT {
        lemma_transfer_interest_high_tiles(state, tiles, (bound - 1) as nat);
    }
}

/// The interest that a player who receives `transferred_tiles` owes on those that are
/// mortgaged.
pub open spec fn transfer_interest_spec<const N: usize>(state: GameState<N>, tiles: TileSetMask) -> nat {
    transfer_interest_below(state, tiles, 64)
}

pub fn calculate_mortgage_transfer_interest<const PLAYER_COUNT: usize>(
    game_state: &GameState<PLAYER_COUNT>,
    transferred_tiles: TileSetMask,
) -> (transfer_interest: Cash)
    requires
        forall|tile: int| #[trigger] tile_in(transferred_tiles, tile) && game_state.board.mortgaged(tile) ==> tile < TILE_COUNT,
    ensures
        transfer_interest == transfer_interest_spec(*game_state, transferred_tiles),
        transfer_interest <= 1200,
{
    let mortgaged_transferred_tiles = transferred_tiles & game_state.board.mortgaged_tiles;
    let mut transfer_interest: Cash = 0;
    let mut tile: u8 = 0;
    while (tile as usize) < TILE_COUNT
        invariant
            tile <= TILE_COUNT,
            mortgaged_transferred_tiles == transferred_tiles & game_state.board.mortgaged_tiles,
            transfer_interest == transfer_interest_below(*game_state, transferred_tiles, tile as nat),
            transfer_interest <= 30 * tile,
        decreases TILE_COUNT - tile,
    {
        proof {
            lemma_tile_tables(tile as int);
            lemma_transfer_interest_bound(*game_state, transferred_tiles, (tile + 1) as nat);
        }
        if contains_tile(mortgaged_transferred_tiles, tile) {
            transfer_interest = transfer_interest + (UNMORTGAGE_PRICE_BY_TILE_ID[tile as usize]
                - MORTGAGE_VALUE_BY_TILE_ID[tile as usize]) as Cash;
        }
        tile = tile + 1;
    }
    proof {
        lemma_transfer_interest_high_tiles(*game_state, transferred_tiles, 64);
    }
    transfer_interest
}

pub fn has_group_improvements<const PLAYER_COUNT: usize>(
    game_state: &GameState<PLAYER_COUNT>,
    tile_id: TileId,
) -> (improved: bool)
    requires
        (tile_id as usize) < TILE_COUNT,
    ensures
        improved == group_improved(*game_state, tile_id as int),
{
    let group = OWNERSHIP_GROUP_INDEX_BY_TILE_ID[tile_id as usize];
    if group >= NO_OWNERSHIP_GROUP {
        return false;
    }
    let mut property: usize = 0;
    while property < PROPERTY_COUNT
        invariant
            property <= PROPERTY_COUNT,
            group == OWNERSHIP_GROUP_INDEX_BY_TILE_ID@[tile_id as int],
            forall|earlier: int|
                0 <= earlier < property ==> !(#[trigger] property_group(earlier) == group && game_state.level(earlier) > 0),
        decreases PROPERTY_COUNT - property,
    {
        proof {
            lemma_property_tables(property as int);
        }
        if OWNERSHIP_GROUP_INDEX_BY_TILE_ID[TILE_ID_BY_PROPERTY_ID[property] as usize] == group
            && game_state.board.improvement_level_by_property_id[property] > 0 {
            assert(property_group(property as int) == group);
            return true;
        }
        property = property + 1;
    }
    false
}

} // verus!
