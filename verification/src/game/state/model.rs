use vstd::prelude::*;

use crate::game::board::data::{
    BANK_STARTING_HOTEL_COUNT,
    BANK_STARTING_HOUSE_COUNT,
    HOTEL_IMPROVEMENT_LEVEL,
    MAX_PLAYER_COUNT,
    MIN_PLAYER_COUNT,
};
use crate::game::board::model::{
    BoardState,
    PlayerId,
};
use crate::game::card::data::CARD_COUNT_PER_DECK;
use crate::game::card::model::{
    CardId,
    DECK_KIND_COUNT,
};
use crate::game::rng::{
    WyRand,
    lemma_shuffle_permutes,
    shuffle_spec,
};
use crate::game::ruleset::model::{
    Ruleset,
    TurnCount,
};
use crate::game::tile::data::{
    GO_TILE_ID,
    PROPERTY_COUNT,
    TILE_COUNT,
};
use crate::game::tile::lut::OWNABLE_TILE_SET_MASK;
use crate::game::tile::model::{
    Cash,
    TileId,
    tile_in,
};

verus! {

// max player count (8) = 8 bits
pub type PlayerSetMask = u8;

/// Whether the set of players `mask` holds `player`.
pub open spec fn player_in(mask: u8, player: int) -> bool {
    0 <= player < 8 && (mask >> (player as u8)) & 1u8 == 1u8
}

pub broadcast proof fn lemma_player_in_or(a: u8, b: u8, player: int)
    ensures
        #[trigger] player_in(a | b, player) == (player_in(a, player) || player_in(b, player)),
{
    if 0 <= player < 8 {
        let p = player as u8;
        assert(((a | b) >> p) & 1u8 == 1u8 <==> ((a >> p) & 1u8 == 1u8 || (b >> p) & 1u8 == 1u8))
            by (bit_vector);
    }
}

pub broadcast proof fn lemma_player_in_and(a: u8, b: u8, player: int)
    ensures
        #[trigger] player_in(a & b, player) == (player_in(a, player) && player_in(b, player)),
{
    if 0 <= player < 8 {
        let p = player as u8;
        assert(((a & b) >> p) & 1u8 == 1u8 <==> ((a >> p) & 1u8 == 1u8 && (b >> p) & 1u8 == 1u8))
            by (bit_vector);
    }
}

pub broadcast proof fn lemma_player_in_not(a: u8, player: int)
    ensures
        #[trigger] player_in(!a, player) == (0 <= player < 8 && !player_in(a, player)),
{
    if 0 <= player < 8 {
        let p = player as u8;
        assert(((!a) >> p) & 1u8 == 1u8 <==> !((a >> p) & 1u8 == 1u8)) by (bit_vector)
            requires
                p < 8,
        ;
    }
}

pub broadcast proof fn lemma_player_in_bit(bit: u8, player: int)
    requires
        bit < 8,
    ensures
        #[trigger] player_in(1u8 << bit, player) == (player == bit),
{
    if 0 <= player < 8 {
        let p = player as u8;
        assert(bit < 8 ==> (((1u8 << bit) >> p) & 1u8 == 1u8 <==> p == bit)) by (bit_vector);
    }
}

pub broadcast proof fn lemma_player_in_zero(player: int)
    ensures
        !#[trigger] player_in(0u8, player),
{
    if 0 <= player < 8 {
        let p = player as u8;
        assert((0u8 >> p) & 1u8 != 1u8) by (bit_vector);
    }
}

pub broadcast group group_player_mask {
    lemma_player_in_or,
    lemma_player_in_and,
    lemma_player_in_not,
    lemma_player_in_bit,
    lemma_player_in_zero,
}

/// Whether the set of players `mask` holds `player`.
pub fn contains_player(mask: PlayerSetMask, player: PlayerId) -> (result: bool)
    ensures
        result == player_in(mask, player as int),
{
    if player >= 8 {
        return false;
    }
    (mask >> player) & 1 == 1
}

/// Adds `player` to the set of players `mask`.
pub fn with_player(mask: PlayerSetMask, player: PlayerId) -> (result: PlayerSetMask)
    requires
        player < 8,
    ensures
        forall|p: int| #[trigger] player_in(result, p) == (player_in(mask, p) || p == player),
        result == mask | (1u8 << player),
{
    broadcast use group_player_mask;

    mask | (1u8 << player)
}

/// Removes `player` from the set of players `mask`.
pub fn without_player(mask: PlayerSetMask, player: PlayerId) -> (result: PlayerSetMask)
    requires
        player < 8,
    ensures
        forall|p: int| #[trigger] player_in(result, p) == (player_in(mask, p) && p != player),
        result == mask & !(1u8 << player),
{
    broadcast use group_player_mask;

    mask & !(1u8 << player)
}

#[derive(Debug, Clone, Copy, PartialEq, Eq, Hash)]
pub struct DeckState {
    pub card_id_by_draw_position: [CardId; CARD_COUNT_PER_DECK],
    pub next_draw_position: u8,
}

impl DeckState {
    /// The deck holds each card once and the next draw position lies within it.
    pub open spec fn wf(self) -> bool {
        &&& self.next_draw_position < CARD_COUNT_PER_DECK
        &&& forall|position: int|
            0 <= position < CARD_COUNT_PER_DECK ==> #[trigger] self.card_id_by_draw_position@[position]
                < CARD_COUNT_PER_DECK
        &&& forall|first: int, second: int|
            0 <= first < second < CARD_COUNT_PER_DECK ==> #[trigger] self.card_id_by_draw_position@[first]
                != #[trigger] self.card_id_by_draw_position@[second]
    }
}

/// The number of houses standing on the properties `0..count`; a hotel counts as none.
pub open spec fn houses_in_play(levels: Seq<u8>, count: nat) -> nat
    decreases count,
{
    if count == 0 {
        0
    } else {
        houses_in_play(levels, (count - 1) as nat) + if levels[count - 1] == HOTEL_IMPROVEMENT_LEVEL {
            0nat
        } else {
            levels[count - 1] as nat
        }
    }
}

/// The number of hotels standing on the properties `0..count`.
pub open spec fn hotels_in_play(levels: Seq<u8>, count: nat) -> nat
    decreases count,
{
    if count == 0 {
        0
    } else {
        hotels_in_play(levels, (count - 1) as nat) + if levels[count - 1] == HOTEL_IMPROVEMENT_LEVEL {
            1nat
        } else {
            0nat
        }
    }
}

/// Changing the level of one property changes the buildings in play by the buildings of the
/// old and the new level.
pub proof fn lemma_buildings_in_play_update(levels: Seq<u8>, count: nat, index: int, level: u8)
    requires
        0 <= index < levels.len(),
        count <= levels.len(),
    ensures
        houses_in_play(levels.update(index, level), count) + (if index < count && levels[index]
            != HOTEL_IMPROVEMENT_LEVEL {
            levels[index] as int
        } else {
            0
        }) == houses_in_play(levels, count) + (if index < count && level != HOTEL_IMPROVEMENT_LEVEL {
            level as int
        } else {
            0
        }),
        hotels_in_play(levels.update(index, level), count) + (if index < count && levels[index]
            == HOTEL_IMPROVEMENT_LEVEL {
            1int
        } else {
            0
        }) == hotels_in_play(levels, count) + (if index < count && level == HOTEL_IMPROVEMENT_LEVEL {
            1int
        } else {
            0
        }),
    decreases count,
{
    if count > 0 {
        lemma_buildings_in_play_update(levels, (count - 1) as nat, index, level);
    }
}

#[derive(Debug, Clone, Copy, PartialEq, Eq, Hash)]
pub struct GameState<const PLAYER_COUNT: usize> {
    pub board: BoardState<PLAYER_COUNT>,
    pub cash_by_player_id: [Cash; PLAYER_COUNT],
    pub position_by_player_id: [TileId; PLAYER_COUNT],
    pub jail_turn_count_by_player_id: [TurnCount; PLAYER_COUNT],
    pub jailed_players: PlayerSetMask,
    pub bankrupt_players: PlayerSetMask,
    pub get_out_of_jail_free_card_holder_by_deck_kind: [Option<PlayerId>; DECK_KIND_COUNT],
    pub deck_state_by_deck_kind: [DeckState; DECK_KIND_COUNT],
    pub free_parking_jackpot: Cash,
    pub current_player_id: PlayerId,
    pub consecutive_double_count: u8,
    pub rng: WyRand,
}

impl<const PLAYER_COUNT: usize> GameState<PLAYER_COUNT> {
    pub open spec fn cash(self, player: int) -> Cash {
        self.cash_by_player_id@[player]
    }

    pub open spec fn is_bankrupt(self, player: int) -> bool {
        player_in(self.bankrupt_players, player)
    }

    pub open spec fn is_jailed(self, player: int) -> bool {
        player_in(self.jailed_players, player)
    }

    pub open spec fn level(self, property: int) -> u8 {
        self.board.improvement_level_by_property_id@[property]
    }

    /// Only ownable tiles are owned, and each by one player at most.
    pub open spec fn ownership_wf(self) -> bool {
        &&& forall|player: int, tile: int|
            #[trigger] self.board.owns(player, tile) ==> tile_in(OWNABLE_TILE_SET_MASK, tile)
        &&& forall|first: int, second: int, tile: int|
            #![trigger self.board.owns(first, tile), self.board.owns(second, tile)]
            self.board.owns(first, tile) && self.board.owns(second, tile) ==> first == second
    }

    /// No property has more than a hotel.
    pub open spec fn levels_bounded(self) -> bool {
        forall|property: int| 0 <= property < PROPERTY_COUNT ==> #[trigger] self.level(property) <= HOTEL_IMPROVEMENT_LEVEL
    }

    /// Every house and hotel is either in play or held by the bank.
    pub open spec fn buildings_wf(self) -> bool {
        &&& self.levels_bounded()
        &&& houses_in_play(self.board.improvement_level_by_property_id@, PROPERTY_COUNT as nat)
            + self.board.bank_house_count == BANK_STARTING_HOUSE_COUNT
        &&& hotels_in_play(self.board.improvement_level_by_property_id@, PROPERTY_COUNT as nat)
            + self.board.bank_hotel_count == BANK_STARTING_HOTEL_COUNT
    }

    /// The state of a game in progress: the properties that every engine step keeps.
    pub open spec fn wf(self) -> bool {
        &&& MIN_PLAYER_COUNT <= PLAYER_COUNT <= MAX_PLAYER_COUNT
        &&& self.current_player_id < PLAYER_COUNT
        &&& self.consecutive_double_count < 3
        &&& forall|player: int|
            0 <= player < PLAYER_COUNT ==> #[trigger] self.position_by_player_id@[player] < TILE_COUNT
        &&& self.ownership_wf()
        &&& self.buildings_wf()
        &&& forall|player: int|
            0 <= player < PLAYER_COUNT && #[trigger] self.is_bankrupt(player) ==> self.board.owned_tiles_by_player_id@[player]
                == 0 && self.cash(player) == 0
        &&& forall|player: int|
            0 <= player < PLAYER_COUNT && #[trigger] player_in(self.jailed_players, player)
                ==> self.jail_turn_count_by_player_id@[player] < 255
        &&& forall|deck: int|
            0 <= deck < DECK_KIND_COUNT ==> (#[trigger] self.deck_state_by_deck_kind@[deck]).wf()
        &&& forall|deck: int|
            0 <= deck < DECK_KIND_COUNT ==> match #[trigger] self.get_out_of_jail_free_card_holder_by_deck_kind@[deck] {
                Some(holder) => holder < PLAYER_COUNT,
                None => true,
            }
    }

    /// Whether `state` is the state in which a game with `ruleset` and `seed` starts: every player
    /// on Go with the starting money, nothing owned, no one jailed or bankrupt, both decks shuffled
    /// by the generator seeded with `seed`, and the first player to move.
    pub open spec fn is_starting_state(state: Self, ruleset: Ruleset, seed: u64) -> bool {
        &&& state.board == BoardState::<PLAYER_COUNT>::starting_state_spec()
        &&& forall|player: int| 0 <= player < PLAYER_COUNT ==> #[trigger] state.cash(player) == ruleset.starting_player_money
        &&& forall|player: int| 0 <= player < PLAYER_COUNT ==> #[trigger] state.position_by_player_id@[player] == GO_TILE_ID
        &&& forall|player: int| 0 <= player < PLAYER_COUNT ==> #[trigger] state.jail_turn_count_by_player_id@[player] == 0
        &&& state.jailed_players == 0
        &&& state.bankrupt_players == 0
        &&& state.get_out_of_jail_free_card_holder_by_deck_kind@ == seq![None::<PlayerId>, None]
        &&& ({
            let (chance_state, chance_order) = shuffle_spec(seed, unshuffled_deck(), CARD_COUNT_PER_DECK as nat);
            let (final_state, community_chest_order) = shuffle_spec(chance_state, unshuffled_deck(), CARD_COUNT_PER_DECK as nat);
            &&& state.deck_state_by_deck_kind@[0].card_id_by_draw_position@ == chance_order
            &&& state.deck_state_by_deck_kind@[1].card_id_by_draw_position@ == community_chest_order
            &&& state.rng.state() == final_state
        })
        &&& state.deck_state_by_deck_kind@[0].next_draw_position == 0
        &&& state.deck_state_by_deck_kind@[1].next_draw_position == 0
        &&& state.free_parking_jackpot == 0
        &&& state.current_player_id == 0
        &&& state.consecutive_double_count == 0
    }

    pub fn create_starting_state(ruleset: &Ruleset, seed: u64) -> (state: Self)
        requires
            PLAYER_COUNT <= MAX_PLAYER_COUNT,
        ensures
            MIN_PLAYER_COUNT <= PLAYER_COUNT ==> state.wf(),
            Self::is_starting_state(state, *ruleset, seed),
    {
        broadcast use group_player_mask;

        let mut rng = WyRand::new(seed);
        let mut chance_order: [CardId; CARD_COUNT_PER_DECK] = [0u8, 1, 2, 3, 4, 5, 6, 7, 8, 9, 10, 11, 12, 13, 14, 15];
        let mut community_chest_order: [CardId; CARD_COUNT_PER_DECK] = [0u8, 1, 2, 3, 4, 5, 6, 7, 8, 9, 10, 11, 12, 13, 14, 15];
        assert(chance_order@ == unshuffled_deck());
        assert(community_chest_order@ == unshuffled_deck());
        rng.shuffle(&mut chance_order);
        rng.shuffle(&mut community_chest_order);
        let chance_deck = DeckState { card_id_by_draw_position: chance_order, next_draw_position: 0 };
        let community_chest_deck = DeckState {
            card_id_by_draw_position: community_chest_order,
            next_draw_position: 0,
        };
        proof {
            lemma_shuffled_deck_wf(seed, chance_deck);
            lemma_shuffled_deck_wf(shuffle_spec(seed, unshuffled_deck(), CARD_COUNT_PER_DECK as nat).0, community_chest_deck);
            lemma_starting_buildings();
        }
        let state = GameState {
            board: BoardState::starting_state(),
            cash_by_player_id: vstd::array::array_fill_for_copy_types(ruleset.starting_player_money as Cash),
            position_by_player_id: vstd::array::array_fill_for_copy_types(GO_TILE_ID),
            jail_turn_count_by_player_id: vstd::array::array_fill_for_copy_types(0u8),
            jailed_players: 0,
            bankrupt_players: 0,
            get_out_of_jail_free_card_holder_by_deck_kind: [None, None],
            deck_state_by_deck_kind: [chance_deck, community_chest_deck],
            free_parking_jackpot: 0,
            current_player_id: 0,
            consecutive_double_count: 0,
            rng,
        };
        assert(state.deck_state_by_deck_kind@[0] == chance_deck);
        assert(state.deck_state_by_deck_kind@[1] == community_chest_deck);
        assert(state.board.improvement_level_by_property_id@ =~= Seq::new(PROPERTY_COUNT as nat, |property: int| 0u8));
        assert(state.ownership_wf()) by {
            broadcast use crate::game::tile::model::group_tile_mask;
        }
        assert(state.buildings_wf());
        state
    }
}

/// A deck in printed order.
pub open spec fn unshuffled_deck() -> Seq<CardId> {
    Seq::new(CARD_COUNT_PER_DECK as nat, |position: int| position as CardId)
}

proof fn lemma_shuffled_deck_wf(seed: u64, deck: DeckState)
    requires
        deck.card_id_by_draw_position@ == shuffle_spec(seed, unshuffled_deck(), CARD_COUNT_PER_DECK as nat).1,
        deck.next_draw_position == 0,
    ensures
        deck.wf(),
{
    lemma_shuffle_permutes(seed, unshuffled_deck(), CARD_COUNT_PER_DECK as nat);
    let shuffled = deck.card_id_by_draw_position@;
    let source = choose|source: Seq<int>| crate::game::rng::is_rearrangement(source, shuffled, unshuffled_deck());
    assert forall|first: int, second: int|
        0 <= first < second < CARD_COUNT_PER_DECK implies #[trigger] shuffled[first] != #[trigger] shuffled[second] by {
        assert(source[first] != source[second]);
    }
}

proof fn lemma_starting_buildings()
    ensures
        houses_in_play(Seq::new(PROPERTY_COUNT as nat, |property: int| 0u8), PROPERTY_COUNT as nat) == 0,
        hotels_in_play(Seq::new(PROPERTY_COUNT as nat, |property: int| 0u8), PROPERTY_COUNT as nat) == 0,
{
    let levels = Seq::new(PROPERTY_COUNT as nat, |property: int| 0u8);
    lemma_no_buildings(levels, PROPERTY_COUNT as nat);
}

proof fn lemma_no_buildings(levels: Seq<u8>, count: nat)
    requires
        count <= levels.len(),
        forall|property: int| 0 <= property < count ==> levels[property] == 0,
    ensures
        houses_in_play(levels, count) == 0,
        hotels_in_play(levels, count) == 0,
    decreases count,
{
    if count > 0 {
        lemma_no_buildings(levels, (count - 1) as nat);
    }
}

/// Ownership stays well formed while who owns what is unchanged.
pub proof fn lemma_ownership_frame<const N: usize>(before: GameState<N>, after: GameState<N>)
    requires
        before.ownership_wf(),
        after.board.owned_tiles_by_player_id == before.board.owned_tiles_by_player_id,
    ensures
        after.ownership_wf(),
{
    assert forall|player: int, tile: int| #[trigger] after.board.owns(player, tile) implies tile_in(
        OWNABLE_TILE_SET_MASK,
        tile,
    ) by {
        assert(before.board.owns(player, tile));
    }
    assert forall|first: int, second: int, tile: int|
        after.board.owns(first, tile) && after.board.owns(second, tile) implies first == second by {
        assert(before.board.owns(first, tile));
        assert(before.board.owns(second, tile));
    }
}

/// The buildings stay accounted for while no level and no bank stock changes.
pub proof fn lemma_buildings_frame<const N: usize>(before: GameState<N>, after: GameState<N>)
    requires
        before.buildings_wf(),
        after.board.improvement_level_by_property_id == before.board.improvement_level_by_property_id,
        after.board.bank_house_count == before.board.bank_house_count,
        after.board.bank_hotel_count == before.board.bank_hotel_count,
    ensures
        after.buildings_wf(),
{
    assert forall|property: int| 0 <= property < PROPERTY_COUNT implies #[trigger] after.level(property)
        <= HOTEL_IMPROVEMENT_LEVEL by {
        assert(before.level(property) <= HOTEL_IMPROVEMENT_LEVEL);
    }
}

/// No player who was bankrupt before is solvent after.
pub open spec fn bankruptcy_kept<const N: usize>(before: GameState<N>, after: GameState<N>) -> bool {
    forall|player: int| #[trigger] player_in(before.bankrupt_players, player) ==> player_in(after.bankrupt_players, player)
}

/// Bankruptcy lasts from one state to a later one.
pub proof fn lemma_bankruptcy_kept_trans<const N: usize>(first: GameState<N>, second: GameState<N>, third: GameState<N>)
    requires
        bankruptcy_kept(first, second),
        bankruptcy_kept(second, third),
    ensures
        bankruptcy_kept(first, third),
{
    assert forall|player: int| #[trigger] player_in(first.bankrupt_players, player) implies player_in(
        third.bankrupt_players,
        player,
    ) by {
        assert(player_in(second.bankrupt_players, player));
    }
}

/// Whether `after` differs from `before` in the board, the players' cash, the holders of the
/// jail cards and the free parking jackpot at most.
pub open spec fn only_holdings_changed<const N: usize>(before: GameState<N>, after: GameState<N>) -> bool {
    after == (GameState {
        board: after.board,
        cash_by_player_id: after.cash_by_player_id,
        get_out_of_jail_free_card_holder_by_deck_kind: after.get_out_of_jail_free_card_holder_by_deck_kind,
        free_parking_jackpot: after.free_parking_jackpot,
        ..before
    })
}

/// A step that keeps ownership and the buildings well formed, keeps the players' places, the
/// decks, the jail cards and who is bankrupt, and leaves bankrupt players without cash or
/// tiles, keeps the state well formed.
pub proof fn lemma_wf_frame<const N: usize>(before: GameState<N>, after: GameState<N>)
    requires
        before.wf(),
        after.ownership_wf(),
        after.buildings_wf(),
        after.current_player_id == before.current_player_id,
        after.consecutive_double_count == before.consecutive_double_count,
        after.position_by_player_id == before.position_by_player_id,
        after.bankrupt_players == before.bankrupt_players,
        after.deck_state_by_deck_kind == before.deck_state_by_deck_kind,
        after.get_out_of_jail_free_card_holder_by_deck_kind == before.get_out_of_jail_free_card_holder_by_deck_kind,
        forall|player: int| 0 <= player < N && before.is_bankrupt(player) ==> after.cash(player) == 0
            && after.board.owned_tiles_by_player_id@[player] == 0,
        forall|player: int| 0 <= player < N && #[trigger] player_in(after.jailed_players, player)
            ==> after.jail_turn_count_by_player_id@[player] < 255,
    ensures
        after.wf(),
{
    assert forall|player: int| 0 <= player < N && #[trigger] after.is_bankrupt(player) implies after.board.owned_tiles_by_player_id@[player]
        == 0 && after.cash(player) == 0 by {
        assert(before.is_bankrupt(player));
    }
}

/// A change of the buildings and of the cash of one player who owns a tile keeps the state
/// well formed while the buildings stay accounted for.
pub proof fn lemma_owner_cash_change<const N: usize>(before: GameState<N>, after: GameState<N>, player: int, tile: int)
    requires
        before.wf(),
        after.buildings_wf(),
        before.board.owns(player, tile),
        after.board.owned_tiles_by_player_id == before.board.owned_tiles_by_player_id,
        after == (GameState { board: after.board, cash_by_player_id: after.cash_by_player_id, ..before }),
        forall|other: int| 0 <= other < N && other != player ==> after.cash(other) == before.cash(other),
    ensures
        after.wf(),
{
    broadcast use crate::game::tile::model::group_tile_mask;

    if before.is_bankrupt(player) {
        assert(before.board.owned_tiles_by_player_id@[player] == 0);
    }
    lemma_ownership_frame(before, after);
    lemma_wf_frame(before, after);
}

/// A step that leaves the board, the decks, the jail cards and who is bankrupt alone keeps the
/// state well formed while the players stay on the board, the turn stays with a player and
/// bankrupt players stay without cash.
pub proof fn lemma_state_frame<const N: usize>(before: GameState<N>, after: GameState<N>)
    requires
        before.wf(),
        after.board == before.board,
        after.bankrupt_players == before.bankrupt_players,
        forall|deck: int| 0 <= deck < DECK_KIND_COUNT ==> (#[trigger] after.deck_state_by_deck_kind@[deck]).wf(),
        after.get_out_of_jail_free_card_holder_by_deck_kind == before.get_out_of_jail_free_card_holder_by_deck_kind,
        after.current_player_id < N,
        after.consecutive_double_count < 3,
        forall|player: int| 0 <= player < N ==> #[trigger] after.position_by_player_id@[player] < TILE_COUNT,
        forall|player: int| 0 <= player < N && before.is_bankrupt(player) ==> after.cash(player) == 0,
        forall|player: int| 0 <= player < N && #[trigger] player_in(after.jailed_players, player)
            ==> after.jail_turn_count_by_player_id@[player] < 255,
    ensures
        after.wf(),
{
    lemma_buildings_frame(before, after);
    lemma_ownership_frame(before, after);
    assert forall|player: int| 0 <= player < N && #[trigger] after.is_bankrupt(player) implies after.board.owned_tiles_by_player_id@[player]
        == 0 && after.cash(player) == 0 by {
        assert(before.is_bankrupt(player));
    }
}

/// Giving an ownable tile that nobody owns to one player keeps ownership well formed.
pub proof fn lemma_ownership_grant<const N: usize>(before: GameState<N>, after: GameState<N>, player: int, tile: int)
    requires
        before.ownership_wf(),
        0 <= player < N,
        tile_in(OWNABLE_TILE_SET_MASK, tile),
        forall|other: int| !before.board.owns(other, tile),
        forall|other: int, t: int| #[trigger] after.board.owns(other, t) == (before.board.owns(other, t) || (other == player
            && t == tile)),
    ensures
        after.ownership_wf(),
{
    assert forall|other: int, t: int| #[trigger] after.board.owns(other, t) implies tile_in(OWNABLE_TILE_SET_MASK, t) by {
        if !(other == player && t == tile) {
            assert(before.board.owns(other, t));
        }
    }
    assert forall|first: int, second: int, t: int|
        after.board.owns(first, t) && after.board.owns(second, t) implies first == second by {
        if t == tile {
            assert(!before.board.owns(first, t));
            assert(!before.board.owns(second, t));
        } else {
            assert(before.board.owns(first, t));
            assert(before.board.owns(second, t));
        }
    }
}

/// Changing the level of one property to one within bounds keeps every level within bounds.
pub proof fn lemma_level_bound_update<const N: usize>(state: GameState<N>, index: int, level: u8)
    requires
        state.levels_bounded(),
        0 <= index < PROPERTY_COUNT,
        level <= HOTEL_IMPROVEMENT_LEVEL,
    ensures
        forall|property: int| 0 <= property < PROPERTY_COUNT ==> #[trigger] state.board.improvement_level_by_property_id@.update(
            index,
            level,
        )[property] <= HOTEL_IMPROVEMENT_LEVEL,
{
    assert forall|property: int| 0 <= property < PROPERTY_COUNT implies #[trigger] state.board.improvement_level_by_property_id@.update(
        index,
        level,
    )[property] <= HOTEL_IMPROVEMENT_LEVEL by {
        if property != index {
            assert(state.level(property) <= HOTEL_IMPROVEMENT_LEVEL);
        }
    }
}

} // verus!
