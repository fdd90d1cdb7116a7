use vstd::prelude::*;

use super::model::{
    DeckState,
    GameState,
    contains_player,
    hotels_in_play,
    houses_in_play,
};
use crate::game::board::data::{
    BANK_STARTING_HOTEL_COUNT,
    BANK_STARTING_HOUSE_COUNT,
    HOTEL_IMPROVEMENT_LEVEL,
    MAX_PLAYER_COUNT,
    MIN_PLAYER_COUNT,
};
use crate::game::card::data::CARD_COUNT_PER_DECK;
use crate::game::card::model::DECK_KIND_COUNT;
use crate::game::tile::data::{
    PROPERTY_COUNT,
    TILE_COUNT,
};
use crate::game::tile::lut::OWNABLE_TILE_SET_MASK;
use crate::game::tile::model::{
    holds_all_tiles,
    tile_in,
    tiles_disjoint,
};

verus! {

impl DeckState {
    /// Whether the deck holds each card once and its next draw position lies within it.
    pub fn is_valid(&self) -> (valid: bool)
        ensures
            valid == self.wf(),
    {
        if self.next_draw_position as usize >= CARD_COUNT_PER_DECK {
            return false;
        }
        let mut first: usize = 0;
        while first < CARD_COUNT_PER_DECK
            invariant
                first <= CARD_COUNT_PER_DECK,
                self.next_draw_position < CARD_COUNT_PER_DECK,
                forall|position: int| 0 <= position < first ==> #[trigger] self.card_id_by_draw_position@[position]
                    < CARD_COUNT_PER_DECK,
                forall|one: int, other: int|
                    0 <= one < first && one < other < CARD_COUNT_PER_DECK ==> #[trigger] self.card_id_by_draw_position@[one]
                        != #[trigger] self.card_id_by_draw_position@[other],
            decreases CARD_COUNT_PER_DECK - first,
        {
            if self.card_id_by_draw_position[first] as usize >= CARD_COUNT_PER_DECK {
                return false;
            }
            let mut second: usize = first + 1;
            while second < CARD_COUNT_PER_DECK
                invariant
                    first < second <= CARD_COUNT_PER_DECK,
                    forall|other: int|
                        first < other < second ==> #[trigger] self.card_id_by_draw_position@[other]
                            != self.card_id_by_draw_position@[first as int],
                decreases CARD_COUNT_PER_DECK - second,
            {
                if self.card_id_by_draw_position[first] == self.card_id_by_draw_position[second] {
                    return false;
                }
                second = second + 1;
            }
            first = first + 1;
        }
        true
    }
}

/// Whether every house and hotel is in play or with the bank, and no property is above a
/// hotel.
fn buildings_valid<const N: usize>(state: &GameState<N>) -> (valid: bool)
    ensures
        valid == state.buildings_wf(),
{
    let levels = &state.board.improvement_level_by_property_id;
    let mut houses: u32 = 0;
    let mut hotels: u32 = 0;
    let mut property: usize = 0;
    while property < PROPERTY_COUNT
        invariant
            property <= PROPERTY_COUNT,
            levels == &state.board.improvement_level_by_property_id,
            forall|earlier: int| 0 <= earlier < property ==> #[trigger] state.level(earlier) <= HOTEL_IMPROVEMENT_LEVEL,
            houses == houses_in_play(levels@, property as nat),
            hotels == hotels_in_play(levels@, property as nat),
            houses <= 4 * property,
            hotels <= property,
        decreases PROPERTY_COUNT - property,
    {
        let level = levels[property];
        if level > HOTEL_IMPROVEMENT_LEVEL {
            assert(state.level(property as int) > HOTEL_IMPROVEMENT_LEVEL);
            return false;
        }
        if level == HOTEL_IMPROVEMENT_LEVEL {
            hotels = hotels + 1;
        } else {
            houses = houses + level as u32;
        }
        property = property + 1;
    }
    houses + state.board.bank_house_count as u32 == BANK_STARTING_HOUSE_COUNT as u32 && hotels
        + state.board.bank_hotel_count as u32 == BANK_STARTING_HOTEL_COUNT as u32
}

/// Whether only ownable tiles are owned, each by one player at most.
fn ownership_valid<const N: usize>(state: &GameState<N>) -> (valid: bool)
    ensures
        valid == state.ownership_wf(),
{
    let mut first: usize = 0;
    while first < N
        invariant
            first <= N,
            forall|player: int, tile: int|
                0 <= player < first && #[trigger] state.board.owns(player, tile) ==> tile_in(OWNABLE_TILE_SET_MASK, tile),
            forall|one: int, other: int, tile: int|
                #![trigger state.board.owns(one, tile), state.board.owns(other, tile)]
                0 <= one < first && one < other < N && state.board.owns(one, tile) ==> !state.board.owns(other, tile),
        decreases N - first,
    {
        let owned = state.board.owned_tiles_by_player_id[first];
        if !holds_all_tiles(OWNABLE_TILE_SET_MASK, owned) {
            proof {
                let tile = choose|tile: int| tile_in(owned, tile) && !tile_in(OWNABLE_TILE_SET_MASK, tile);
                assert(state.board.owns(first as int, tile));
            }
            return false;
        }
        let mut second: usize = first + 1;
        while second < N
            invariant
                first < second <= N,
                owned == state.board.owned_tiles_by_player_id@[first as int],
                forall|other: int, tile: int|
                    #![trigger state.board.owns(other, tile)]
                    first < other < second && state.board.owns(first as int, tile) ==> !state.board.owns(other, tile),
            decreases N - second,
        {
            if !tiles_disjoint(owned, state.board.owned_tiles_by_player_id[second]) {
                proof {
                    let tile = choose|tile: int|
                        tile_in(owned, tile) && tile_in(state.board.owned_tiles_by_player_id@[second as int], tile);
                    assert(state.board.owns(first as int, tile) && state.board.owns(second as int, tile));
                }
                return false;
            }
            second = second + 1;
        }
        first = first + 1;
    }
    proof {
        assert forall|one: int, other: int, tile: int|
            #![trigger state.board.owns(one, tile), state.board.owns(other, tile)]
            state.board.owns(one, tile) && state.board.owns(other, tile) implies one == other by {
            if one < other {
                assert(!state.board.owns(other, tile));
            } else if other < one {
                assert(!state.board.owns(one, tile));
            }
        }
    }
    true
}

impl<const PLAYER_COUNT: usize> GameState<PLAYER_COUNT> {
    /// Whether the state is one that a game in progress can be in: the properties that every
    /// engine step keeps.
    pub fn is_valid(&self) -> (valid: bool)
        ensures
            valid == self.wf(),
    {
        if !(MIN_PLAYER_COUNT <= PLAYER_COUNT && PLAYER_COUNT <= MAX_PLAYER_COUNT) {
            return false;
        }
        if self.current_player_id as usize >= PLAYER_COUNT || self.consecutive_double_count >= 3 {
            return false;
        }
        if !ownership_valid(self) || !buildings_valid(self) {
            return false;
        }
        let mut player: usize = 0;
        while player < PLAYER_COUNT
            invariant
                player <= PLAYER_COUNT <= MAX_PLAYER_COUNT,
                forall|earlier: int|
                    0 <= earlier < player ==> #[trigger] self.position_by_player_id@[earlier] < TILE_COUNT,
                forall|earlier: int|
                    0 <= earlier < player && #[trigger] self.is_bankrupt(earlier)
                        ==> self.board.owned_tiles_by_player_id@[earlier] == 0 && self.cash(earlier) == 0,
                forall|earlier: int|
                    0 <= earlier < player && #[trigger] super::model::player_in(self.jailed_players, earlier)
                        ==> self.jail_turn_count_by_player_id@[earlier] < 255,
            decreases PLAYER_COUNT - player,
        {
            if self.position_by_player_id[player] as usize >= TILE_COUNT {
                assert(self.position_by_player_id@[player as int] >= TILE_COUNT);
                return false;
            }
            if contains_player(self.bankrupt_players, player as u8) && (self.board.owned_tiles_by_player_id[player] != 0
                || self.cash_by_player_id[player] != 0) {
                assert(self.is_bankrupt(player as int));
                return false;
            }
            if contains_player(self.jailed_players, player as u8) && self.jail_turn_count_by_player_id[player] == 255 {
                assert(super::model::player_in(self.jailed_players, player as int));
                return false;
            }
            player = player + 1;
        }
        let mut deck: usize = 0;
        while deck < DECK_KIND_COUNT
            invariant
                deck <= DECK_KIND_COUNT,
                forall|earlier: int| 0 <= earlier < deck ==> (#[trigger] self.deck_state_by_deck_kind@[earlier]).wf(),
                forall|earlier: int|
                    0 <= earlier < deck ==> match #[trigger] self.get_out_of_jail_free_card_holder_by_deck_kind@[earlier] {
                        Some(holder) => holder < PLAYER_COUNT,
                        None => true,
                    },
            decreases DECK_KIND_COUNT - deck,
        {
            if !self.deck_state_by_deck_kind[deck].is_valid() {
                assert(!self.deck_state_by_deck_kind@[deck as int].wf());
                return false;
            }
            match self.get_out_of_jail_free_card_holder_by_deck_kind[deck] {
                Some(holder) => if holder as usize >= PLAYER_COUNT {
                    assert(self.get_out_of_jail_free_card_holder_by_deck_kind@[deck as int] == Some(holder));
                    return false;
                },
                None => {},
            }
            deck = deck + 1;
        }
        true
    }
}

} // verus!
