use vstd::prelude::*;

use crate::game::strategy::model::{
    improvement_choice_by,
    policies_kept,
};

use super::event::{
    GameEvent,
    published,
};

use super::mortgage::property_group;
use crate::game::board::data::{
    HOTEL_IMPROVEMENT_LEVEL,
    MAX_HOUSE_IMPROVEMENT_LEVEL,
};
use crate::game::board::model::{
    BoardState,
    PlayerId,
    PropertyImprovementLevel,
};
use crate::game::ruleset::model::{
    PropertyImprovementDistribution,
    Ruleset,
};
use crate::game::state::model::{
    GameState,
    group_player_mask,
    lemma_buildings_in_play_update,
    lemma_level_bound_update,
    lemma_owner_cash_change,
    lemma_ownership_frame,
    lemma_wf_frame,
};
use crate::game::strategy::model::PlayerStrategy;
use crate::game::tile::data::PROPERTY_COUNT;
use crate::game::tile::lut::{
    HOUSE_PURCHASE_PRICE_BY_TILE_ID,
    OWNERSHIP_GROUP_INDEX_BY_TILE_ID,
    TILE_ID_BY_PROPERTY_ID,
    TILE_SET_MASK_BY_OWNERSHIP_GROUP,
    lemma_group_mask_membership,
    lemma_property_tables,
};
use crate::game::tile::model::{
    Cash,
    OWNERSHIP_GROUP_COUNT,
    PropertyId,
    contains_tile,
    group_tile_mask,
    tile_in,
};

verus! {

broadcast use {group_player_mask, group_tile_mask, lemma_group_mask_membership};

/// The tile of a street property.
pub open spec fn property_tile(property: int) -> int {
    TILE_ID_BY_PROPERTY_ID@[property] as int
}

/// Whether `player` owns every tile of the ownership group with index `group`.
pub open spec fn owns_group<const N: usize>(state: GameState<N>, player: int, group: int) -> bool {
    forall|tile: int| tile_in(TILE_SET_MASK_BY_OWNERSHIP_GROUP@[group], tile) ==> state.board.owns(player, tile)
}

/// Whether some tile of the ownership group with index `group` is mortgaged.
pub open spec fn group_mortgaged<const N: usize>(state: GameState<N>, group: int) -> bool {
    exists|tile: int| tile_in(TILE_SET_MASK_BY_OWNERSHIP_GROUP@[group], tile) && #[trigger] state.board.mortgaged(tile)
}

pub open spec fn can_improve_spec<const N: usize>(state: GameState<N>, rules: Ruleset, player: int, property: int) -> bool {
    let tile = property_tile(property);
    let group = property_group(property) as int;
    let level = state.level(property);
    &&& 0 <= property < PROPERTY_COUNT
    &&& 0 <= player < N
    &&& !state.is_bankrupt(player)
    &&& level < HOTEL_IMPROVEMENT_LEVEL
    &&& owns_group(state, player, group)
    &&& !group_mortgaged(state, group)
    &&& (rules.property_improvement_distribution == PropertyImprovementDistribution::Even ==> forall|other: int|
        0 <= other < PROPERTY_COUNT && #[trigger] property_group(other) == group ==> level <= state.level(other))
    &&& if level == MAX_HOUSE_IMPROVEMENT_LEVEL {
        state.board.bank_hotel_count > 0
    } else {
        state.board.bank_house_count > 0
    }
    &&& state.cash(player) >= HOUSE_PURCHASE_PRICE_BY_TILE_ID@[tile]
}

/// `state` with the level of `property`, the bank's houses and hotels and the cash of `player`
/// replaced.
pub open spec fn with_building_change<const N: usize>(
    state: GameState<N>,
    player: int,
    property: int,
    level: PropertyImprovementLevel,
    bank_house_count: u8,
    bank_hotel_count: u8,
    cash: Cash,
) -> GameState<N> {
    GameState {
        board: BoardState {
            improvement_level_by_property_id: vstd::array::spec_array_update(state.board.improvement_level_by_property_id, property, level),
            bank_house_count,
            bank_hotel_count,
            ..state.board
        },
        cash_by_player_id: vstd::array::spec_array_update(state.cash_by_player_id, player, cash),
        ..state
    }
}

/// The state after `player` buys one building on `property`.
pub open spec fn improved_state<const N: usize>(state: GameState<N>, player: int, property: int) -> GameState<N> {
    let level = state.level(property);
    let price = HOUSE_PURCHASE_PRICE_BY_TILE_ID@[property_tile(property)];
    if level == MAX_HOUSE_IMPROVEMENT_LEVEL {
        with_building_change(state, player, property, (level + 1) as u8,
            (state.board.bank_house_count + MAX_HOUSE_IMPROVEMENT_LEVEL) as u8,
            (state.board.bank_hotel_count - 1) as u8, (state.cash(player) - price) as Cash)
    } else {
        with_building_change(state, player, property, (level + 1) as u8,
            (state.board.bank_house_count - 1) as u8, state.board.bank_hotel_count,
            (state.cash(player) - price) as Cash)
    }
}

/// Whether `after` differs from `before` only by buildings that `player` bought: no building
/// level fell, the player spent cash, and the bank's buildings and everything else but the
/// levels and the player's cash are as they were or changed with them.
pub open spec fn only_built_by<const N: usize>(before: GameState<N>, after: GameState<N>, player: int) -> bool {
    &&& after == (GameState {
        board: BoardState {
            improvement_level_by_property_id: after.board.improvement_level_by_property_id,
            bank_house_count: after.board.bank_house_count,
            bank_hotel_count: after.board.bank_hotel_count,
            ..before.board
        },
        cash_by_player_id: after.cash_by_player_id,
        ..before
    })
    &&& forall|other: int| 0 <= other < N && other != player ==> #[trigger] after.cash(other) == before.cash(other)
    &&& after.cash(player) <= before.cash(player)
    &&& forall|property: int| 0 <= property < PROPERTY_COUNT ==> #[trigger] after.level(property) >= before.level(property)
}

/// A building that the rules allow changes only what building changes.
proof fn lemma_only_built_by_step<const N: usize>(state: GameState<N>, rules: Ruleset, player: int, property: int)
    requires
        can_improve_spec(state, rules, player, property),
    ensures
        only_built_by(state, improved_state(state, player, property), player),
{
    let after = improved_state(state, player, property);
    assert(after.board == BoardState {
        improvement_level_by_property_id: after.board.improvement_level_by_property_id,
        bank_house_count: after.board.bank_house_count,
        bank_hotel_count: after.board.bank_hotel_count,
        ..state.board
    });
    assert forall|other: int| 0 <= other < PROPERTY_COUNT implies #[trigger] after.level(other) >= state.level(other) by {
        if other == property {
            assert(after.level(other) == state.level(other) + 1);
        }
    }
}

/// Buildings bought after buildings bought are buildings bought.
proof fn lemma_only_built_by_trans<const N: usize>(
    first: GameState<N>,
    second: GameState<N>,
    third: GameState<N>,
    player: int,
)
    requires
        only_built_by(first, second, player),
        only_built_by(second, third, player),
    ensures
        only_built_by(first, third, player),
{
    assert forall|property: int| 0 <= property < PROPERTY_COUNT implies #[trigger] third.level(property) >= first.level(
        property,
    ) by {
        assert(second.level(property) >= first.level(property));
    }
}

/// Whether `after`, with the players `seats_after`, follows `before` with the players `seats`
/// by one purchase of `player`: its strategy chose a street as its policy decides, the street
/// was built on, and the purchase was published, recorded by `player`.
pub open spec fn improvement_step<const N: usize, S: PlayerStrategy>(
    before: GameState<N>,
    seats: Seq<S>,
    rules: Ruleset,
    player: PlayerId,
    after: GameState<N>,
    seats_after: Seq<S>,
) -> bool {
    exists|property: PropertyId, answered: Seq<S>|
        #![trigger improvement_choice_by(seats[player as int].policy_of(), before, rules, player, Some(property)), policies_kept(seats, answered)]
        improvement_choice_by(seats[player as int].policy_of(), before, rules, player, Some(property))
            && can_improve_spec(before, rules, player as int, property as int) && after == improved_state(
            before,
            player as int,
            property as int,
        ) && policies_kept(seats, answered) && published(
            answered,
            player as int,
            GameEvent::BuildingPurchased {
                player_id: player,
                property_id: property,
                level: after.board.improvement_level_by_property_id[property as int],
            },
            seats_after,
        )
}

/// Whether the strategy of `player` among `seats` stops the improvement phase in `state`: it
/// chooses no street, as its policy decides, or one that cannot be built on.
pub open spec fn improvement_stopped<const N: usize, S: PlayerStrategy>(
    state: GameState<N>,
    seats: Seq<S>,
    rules: Ruleset,
    player: PlayerId,
) -> bool {
    exists|choice: Option<PropertyId>|
        #[trigger] improvement_choice_by(seats[player as int].policy_of(), state, rules, player, choice) && match choice {
            Some(property) => !can_improve_spec(state, rules, player as int, property as int),
            None => true,
        }
}

/// Whether `states`, each with the players of the same place in `seats`, are the improvement
/// phase of `player`, purchase by purchase, up to the state where its strategy stops it.
pub open spec fn improvements_played<const N: usize, S: PlayerStrategy>(
    states: Seq<GameState<N>>,
    seats: Seq<Seq<S>>,
    rules: Ruleset,
    player: PlayerId,
) -> bool {
    &&& states.len() >= 1
    &&& seats.len() == states.len()
    &&& forall|index: int|
        0 <= index < states.len() - 1 ==> #[trigger] improvement_step(
            states[index],
            seats[index],
            rules,
            player,
            states[index + 1],
            seats[index + 1],
        )
    &&& improvement_stopped(states.last(), seats.last(), rules, player)
}

/// Lets `player_id`'s strategy buy buildings, one at a time, until it chooses none or its
/// choice cannot be built.
pub fn run_improvement_phase<const PLAYER_COUNT: usize, Strategy: PlayerStrategy>(
    game_state: &mut GameState<PLAYER_COUNT>,
    ruleset: &Ruleset,
    strategies: &mut [Strategy; PLAYER_COUNT],
    player_id: PlayerId,
)
    requires
        (player_id as usize) < PLAYER_COUNT <= 256,
        old(game_state).wf(),
    ensures
        policies_kept(old(strategies)@, final(strategies)@),
        final(game_state).wf(),
        only_built_by(*old(game_state), *final(game_state), player_id as int),
        exists|states: Seq<GameState<PLAYER_COUNT>>, seats: Seq<Seq<Strategy>>|
            #[trigger] improvements_played(states, seats, *ruleset, player_id) && states[0] == *old(game_state)
                && seats[0] == old(strategies)@ && states.last() == *final(game_state) && policies_kept(
                seats.last(),
                final(strategies)@,
            ),
{
    let ghost mut states: Seq<GameState<PLAYER_COUNT>> = seq![*game_state];
    let ghost mut seats: Seq<Seq<Strategy>> = seq![strategies@];
    loop
        invariant
            policies_kept(old(strategies)@, strategies@),
            (player_id as usize) < PLAYER_COUNT <= 256,
            game_state.wf(),
            only_built_by(*old(game_state), *game_state, player_id as int),
            states.len() >= 1,
            seats.len() == states.len(),
            states[0] == *old(game_state),
            seats[0] == old(strategies)@,
            states.last() == *game_state,
            seats.last() == strategies@,
            forall|index: int|
                0 <= index < states.len() - 1 ==> #[trigger] improvement_step(
                    states[index],
                    seats[index],
                    *ruleset,
                    player_id,
                    states[index + 1],
                    seats[index + 1],
                ),
        decreases unbuilt_levels(game_state.board.improvement_level_by_property_id@, PROPERTY_COUNT as nat),
    {
        let ghost asked = strategies@;
        let choice = strategies[player_id as usize].choose_property_to_improve(game_state, ruleset, player_id);
        let ghost answered = strategies@;
        proof {
            assert(policies_kept(asked, answered)) by {
                assert forall|seat: int| 0 <= seat < asked.len() implies #[trigger] answered[seat].policy_of()
                    == asked[seat].policy_of() by {}
            }
            assert(improvement_choice_by(asked[player_id as int].policy_of(), *game_state, *ruleset, player_id, choice));
        }
        let property_id = match choice {
            Some(property_id) => property_id,
            None => {
                assert(improvement_stopped(*game_state, asked, *ruleset, player_id));
                assert(improvements_played(states, seats, *ruleset, player_id));
                return;
            },
        };
        let ghost before = *game_state;
        if !improve_property(game_state, ruleset, player_id, property_id) {
            assert(improvement_stopped(*game_state, asked, *ruleset, player_id));
            assert(improvements_played(states, seats, *ruleset, player_id));
            return;
        }
        proof {
            lemma_only_built_by_step(before, *ruleset, player_id as int, property_id as int);
            lemma_only_built_by_trans(*old(game_state), before, *game_state, player_id as int);
            lemma_unbuilt_levels_update(before.board.improvement_level_by_property_id@, PROPERTY_COUNT as nat, property_id as int,
                (before.level(property_id as int) + 1) as u8);
        }
        let level = game_state.board.improvement_level_by_property_id[property_id as usize];
        super::event::publish_event(strategies, player_id as usize, GameEvent::BuildingPurchased { player_id, property_id, level });
        proof {
            assert(improvement_step(before, asked, *ruleset, player_id, *game_state, strategies@));
            let longer = states.push(*game_state);
            let more_seats = seats.push(strategies@);
            assert forall|index: int| 0 <= index < longer.len() - 1 implies #[trigger] improvement_step(
                longer[index],
                more_seats[index],
                *ruleset,
                player_id,
                longer[index + 1],
                more_seats[index + 1],
            ) by {
                if index < states.len() - 1 {
                    assert(improvement_step(
                        states[index],
                        seats[index],
                        *ruleset,
                        player_id,
                        states[index + 1],
                        seats[index + 1],
                    ));
                }
            }
            states = longer;
            seats = more_seats;
        }
    }
}

/// The buildings that the properties `0..count` still have room for.
pub open spec fn unbuilt_levels(levels: Seq<u8>, count: nat) -> nat
    decreases count,
{
    if count == 0 {
        0
    } else {
        unbuilt_levels(levels, (count - 1) as nat) + if levels[count - 1] < HOTEL_IMPROVEMENT_LEVEL {
            (HOTEL_IMPROVEMENT_LEVEL - levels[count - 1]) as nat
        } else {
            0nat
        }
    }
}

pub proof fn lemma_unbuilt_levels_bound(levels: Seq<u8>, count: nat)
    ensures
        unbuilt_levels(levels, count) <= HOTEL_IMPROVEMENT_LEVEL * count,
    decreases count,
{
    if count > 0 {
        lemma_unbuilt_levels_bound(levels, (count - 1) as nat);
    }
}

pub proof fn lemma_unbuilt_levels_update(levels: Seq<u8>, count: nat, index: int, level: u8)
    requires
        0 <= index < levels.len(),
        count <= levels.len(),
        levels[index] < level <= HOTEL_IMPROVEMENT_LEVEL,
    ensures
        index < count ==> unbuilt_levels(levels.update(index, level), count) < unbuilt_levels(levels, count),
        index >= count ==> unbuilt_levels(levels.update(index, level), count) == unbuilt_levels(levels, count),
    decreases count,
{
    if count > 0 {
        lemma_unbuilt_levels_update(levels, (count - 1) as nat, index, level);
    }
}

pub fn can_improve_property<const PLAYER_COUNT: usize>(
    game_state: &GameState<PLAYER_COUNT>,
    ruleset: &Ruleset,
    player_id: PlayerId,
    property_id: PropertyId,
) -> (result: bool)
    requires
        PLAYER_COUNT <= 256,
    ensures
        result == can_improve_spec(*game_state, *ruleset, player_id as int, property_id as int),
{
    let property_index = property_id as usize;
    if property_index >= PROPERTY_COUNT || player_id as usize >= PLAYER_COUNT
        || crate::game::state::model::contains_player(game_state.bankrupt_players, player_id) {
        return false;
    }
    proof {
        lemma_property_tables(property_index as int);
    }

    let tile_id = TILE_ID_BY_PROPERTY_ID[property_index];
    let improvement_level = game_state.board.improvement_level_by_property_id[property_index];
    if improvement_level >= HOTEL_IMPROVEMENT_LEVEL {
        return false;
    }

    let group = OWNERSHIP_GROUP_INDEX_BY_TILE_ID[tile_id as usize] as usize;
    let group_tiles = TILE_SET_MASK_BY_OWNERSHIP_GROUP[group];
    if !game_state.board.does_player_own_all_tiles(player_id, group_tiles) {
        return false;
    }
    if !crate::game::tile::model::tiles_disjoint(game_state.board.mortgaged_tiles, group_tiles) {
        proof {
            let tile = choose|tile: int| tile_in(game_state.board.mortgaged_tiles, tile) && tile_in(group_tiles, tile);
            assert(game_state.board.mortgaged(tile));
        }
        return false;
    }

    if ruleset.property_improvement_distribution == PropertyImprovementDistribution::Even
        && improvement_level > find_lowest_group_improvement_level(game_state, group) {
        return false;
    }

    let is_hotel_purchase = improvement_level == MAX_HOUSE_IMPROVEMENT_LEVEL;
    let has_bank_supply = if is_hotel_purchase {
        game_state.board.bank_hotel_count > 0
    } else {
        game_state.board.bank_house_count > 0
    };

    has_bank_supply && game_state.cash_by_player_id[player_id as usize] >= HOUSE_PURCHASE_PRICE_BY_TILE_ID[tile_id as usize] as Cash
}

/// Whether the bank can take back the four houses that a hotel on `property` replaces, where
/// `player` may build one there: the bank's house count stays within a byte.
pub open spec fn improvement_fits<const N: usize>(state: GameState<N>, rules: Ruleset, player: int, property: int) -> bool {
    can_improve_spec(state, rules, player, property) && state.level(property) == MAX_HOUSE_IMPROVEMENT_LEVEL
        ==> state.board.bank_house_count + MAX_HOUSE_IMPROVEMENT_LEVEL <= u8::MAX
}

pub fn improve_property<const PLAYER_COUNT: usize>(
    game_state: &mut GameState<PLAYER_COUNT>,
    ruleset: &Ruleset,
    player_id: PlayerId,
    property_id: PropertyId,
) -> (improved: bool)
    requires
        PLAYER_COUNT <= 256,
        old(game_state).levels_bounded(),
        improvement_fits(*old(game_state), *ruleset, player_id as int, property_id as int),
    ensures
        improved == can_improve_spec(*old(game_state), *ruleset, player_id as int, property_id as int),
        improved ==> *final(game_state) == improved_state(*old(game_state), player_id as int, property_id as int),
        !improved ==> *final(game_state) == *old(game_state),
        final(game_state).levels_bounded(),
        old(game_state).buildings_wf() ==> final(game_state).buildings_wf(),
        old(game_state).wf() ==> final(game_state).wf(),
{
    if !can_improve_property(game_state, ruleset, player_id, property_id) {
        return false;
    }

    let property_index = property_id as usize;
    let tile_id = TILE_ID_BY_PROPERTY_ID[property_index];
    let improvement_level = game_state.board.improvement_level_by_property_id[property_index];
    let ghost before = *game_state;
    proof {
        lemma_property_tables(property_index as int);
        lemma_buildings_in_play_update(before.board.improvement_level_by_property_id@, PROPERTY_COUNT as nat,
            property_index as int, (improvement_level + 1) as u8);
    }

    game_state.cash_by_player_id[player_id as usize] = game_state.cash_by_player_id[player_id as usize]
        - HOUSE_PURCHASE_PRICE_BY_TILE_ID[tile_id as usize] as Cash;
    game_state.board.improvement_level_by_property_id[property_index] = improvement_level + 1;

    if improvement_level == MAX_HOUSE_IMPROVEMENT_LEVEL {
        game_state.board.bank_hotel_count = game_state.board.bank_hotel_count - 1;
        game_state.board.bank_house_count = game_state.board.bank_house_count + MAX_HOUSE_IMPROVEMENT_LEVEL;
    } else {
        game_state.board.bank_house_count = game_state.board.bank_house_count - 1;
    }
    assert(game_state.board.improvement_level_by_property_id@ == before.board.improvement_level_by_property_id@.update(
        property_index as int, (improvement_level + 1) as u8));
    proof {
        lemma_level_bound_update(before, property_index as int, (improvement_level + 1) as u8);
        if before.wf() {
            lemma_ownership_frame(before, *game_state);
            lemma_wf_frame(before, *game_state);
        }
    }

    true
}

#[derive(Debug, Clone, Copy, PartialEq, Eq, Structural)]
pub struct BuildingSale {
    pub property_id: PropertyId,
    pub previous_level: u8,
    pub level: u8,
    pub proceeds: Cash,
}

/// The sale of one building from `property` by `player`: a house returns to the bank; a hotel
/// is traded for four houses when the bank has them, and otherwise sold whole. A building
/// sells for half its price, a whole hotel for five times that.
pub open spec fn building_sale_spec<const N: usize>(state: GameState<N>, player: int, property: int) -> (GameState<N>, BuildingSale) {
    let level = state.level(property);
    let half_price = (HOUSE_PURCHASE_PRICE_BY_TILE_ID@[property_tile(property)] / 2) as Cash;
    let cash = state.cash(player);
    if level < HOTEL_IMPROVEMENT_LEVEL {
        (
            with_building_change(state, player, property, (level - 1) as u8, (state.board.bank_house_count + 1) as u8,
                state.board.bank_hotel_count, crate::game::tile::model::credited(cash, half_price)),
            BuildingSale { property_id: property as PropertyId, previous_level: level, level: (level - 1) as u8, proceeds: half_price },
        )
    } else if state.board.bank_house_count >= MAX_HOUSE_IMPROVEMENT_LEVEL {
        (
            with_building_change(state, player, property, MAX_HOUSE_IMPROVEMENT_LEVEL,
                (state.board.bank_house_count - MAX_HOUSE_IMPROVEMENT_LEVEL) as u8,
                (state.board.bank_hotel_count + 1) as u8, crate::game::tile::model::credited(cash, half_price)),
            BuildingSale { property_id: property as PropertyId, previous_level: level, level: MAX_HOUSE_IMPROVEMENT_LEVEL, proceeds: half_price },
        )
    } else {
        (
            with_building_change(state, player, property, 0, state.board.bank_house_count,
                (state.board.bank_hotel_count + 1) as u8, crate::game::tile::model::credited(cash, (half_price * 5) as Cash)),
            BuildingSale { property_id: property as PropertyId, previous_level: level, level: 0, proceeds: (half_price * 5) as Cash },
        )
    }
}

/// Whether the bank can take back a building sold from `property` without its count leaving a
/// byte: a house for a house, a hotel for a hotel.
pub open spec fn sale_fits<const N: usize>(state: GameState<N>, property: int) -> bool {
    &&& state.level(property) < HOTEL_IMPROVEMENT_LEVEL ==> state.board.bank_house_count < u8::MAX
    &&& state.level(property) >= HOTEL_IMPROVEMENT_LEVEL ==> state.board.bank_hotel_count < u8::MAX
}

/// Whether selling the building that `player` would sell first fits, as `sale_fits` says.
pub open spec fn first_sale_fits<const N: usize>(state: GameState<N>, player: int) -> bool {
    forall|property: PropertyId| #[trigger] most_improved_spec(state, player, Some(property)) ==> sale_fits(state, property as int)
}

/// Sells one building from `property`, which `player` owns and which has a building.
fn sell_building_at<const PLAYER_COUNT: usize>(
    game_state: &mut GameState<PLAYER_COUNT>,
    player_id: PlayerId,
    property_id: PropertyId,
) -> (sale: BuildingSale)
    requires
        (player_id as usize) < PLAYER_COUNT,
        (property_id as usize) < PROPERTY_COUNT,
        old(game_state).level(property_id as int) > 0,
        old(game_state).board.owns(player_id as int, property_tile(property_id as int)),
        old(game_state).levels_bounded(),
        sale_fits(*old(game_state), property_id as int),
    ensures
        (*final(game_state), sale) == building_sale_spec(*old(game_state), player_id as int, property_id as int),
        final(game_state).levels_bounded(),
        old(game_state).buildings_wf() ==> final(game_state).buildings_wf(),
        old(game_state).wf() ==> final(game_state).wf(),
        unbuilt_levels(final(game_state).board.improvement_level_by_property_id@, PROPERTY_COUNT as nat)
            > unbuilt_levels(old(game_state).board.improvement_level_by_property_id@, PROPERTY_COUNT as nat),
{
    let property_index = property_id as usize;
    proof {
        lemma_property_tables(property_index as int);
    }
    let tile_id = TILE_ID_BY_PROPERTY_ID[property_index];
    let improvement_level = game_state.board.improvement_level_by_property_id[property_index];
    let building_sale_price = HOUSE_PURCHASE_PRICE_BY_TILE_ID[tile_id as usize] as Cash / 2;
    let cash = game_state.cash_by_player_id[player_id as usize];
    let ghost levels = game_state.board.improvement_level_by_property_id@;
    let ghost before = *game_state;

    if improvement_level < HOTEL_IMPROVEMENT_LEVEL {
        proof {
            lemma_buildings_in_play_update(levels, PROPERTY_COUNT as nat, property_index as int, (improvement_level - 1) as u8);
            lemma_level_bound_update(before, property_index as int, (improvement_level - 1) as u8);
            lemma_unbuilt_levels_update(levels.update(property_index as int, (improvement_level - 1) as u8), PROPERTY_COUNT as nat,
                property_index as int, improvement_level);
            assert(levels.update(property_index as int, (improvement_level - 1) as u8).update(property_index as int, improvement_level) == levels);
        }
        game_state.board.improvement_level_by_property_id[property_index] = improvement_level - 1;
        game_state.board.bank_house_count = game_state.board.bank_house_count + 1;
        game_state.cash_by_player_id[player_id as usize] = crate::game::tile::model::credit(cash, building_sale_price);
        proof {
            if before.wf() {
                lemma_owner_cash_change(before, *game_state, player_id as int, property_tile(property_id as int));
            }
        }

        return BuildingSale {
            property_id,
            previous_level: improvement_level,
            level: improvement_level - 1,
            proceeds: building_sale_price,
        };
    }

    if game_state.board.bank_house_count >= MAX_HOUSE_IMPROVEMENT_LEVEL {
        proof {
            lemma_buildings_in_play_update(levels, PROPERTY_COUNT as nat, property_index as int, MAX_HOUSE_IMPROVEMENT_LEVEL);
            lemma_level_bound_update(before, property_index as int, MAX_HOUSE_IMPROVEMENT_LEVEL);
            lemma_unbuilt_levels_update(levels.update(property_index as int, MAX_HOUSE_IMPROVEMENT_LEVEL), PROPERTY_COUNT as nat,
                property_index as int, improvement_level);
            assert(levels.update(property_index as int, MAX_HOUSE_IMPROVEMENT_LEVEL).update(property_index as int, improvement_level) == levels);
        }
        game_state.board.bank_hotel_count = game_state.board.bank_hotel_count + 1;
        game_state.board.bank_house_count = game_state.board.bank_house_count - MAX_HOUSE_IMPROVEMENT_LEVEL;
        game_state.board.improvement_level_by_property_id[property_index] = MAX_HOUSE_IMPROVEMENT_LEVEL;
        game_state.cash_by_player_id[player_id as usize] = crate::game::tile::model::credit(cash, building_sale_price);
        proof {
            if before.wf() {
                lemma_owner_cash_change(before, *game_state, player_id as int, property_tile(property_id as int));
            }
        }

        return BuildingSale {
            property_id,
            previous_level: improvement_level,
            level: MAX_HOUSE_IMPROVEMENT_LEVEL,
            proceeds: building_sale_price,
        };
    }

    proof {
        lemma_buildings_in_play_update(levels, PROPERTY_COUNT as nat, property_index as int, 0u8);
        lemma_level_bound_update(before, property_index as int, 0u8);
        lemma_unbuilt_levels_update(levels.update(property_index as int, 0u8), PROPERTY_COUNT as nat,
            property_index as int, improvement_level);
        assert(levels.update(property_index as int, 0u8).update(property_index as int, improvement_level) == levels);
    }
    let hotel_sale_price = building_sale_price * HOTEL_IMPROVEMENT_LEVEL as Cash;
    game_state.board.bank_hotel_count = game_state.board.bank_hotel_count + 1;
    game_state.board.improvement_level_by_property_id[property_index] = 0;
    game_state.cash_by_player_id[player_id as usize] = crate::game::tile::model::credit(cash, hotel_sale_price);
    proof {
        if before.wf() {
            lemma_owner_cash_change(before, *game_state, player_id as int, property_tile(property_id as int));
        }
    }

    BuildingSale {
        property_id,
        previous_level: improvement_level,
        level: 0,
        proceeds: hotel_sale_price,
    }
}

/// The property of `player` with the most buildings, the first in board order among equals;
/// `None` when no property of the player has a building.
pub open spec fn most_improved_spec<const N: usize>(state: GameState<N>, player: int, result: Option<PropertyId>) -> bool {
    match result {
        Some(property) => {
            &&& property < PROPERTY_COUNT
            &&& state.board.owns(player, property_tile(property as int))
            &&& state.level(property as int) > 0
            &&& forall|other: int| 0 <= other < PROPERTY_COUNT && #[trigger] state.board.owns(player, property_tile(other))
                ==> state.level(other) <= state.level(property as int)
            &&& forall|other: int| 0 <= other < property && #[trigger] state.board.owns(player, property_tile(other))
                ==> state.level(other) < state.level(property as int)
        },
        None => forall|other: int| 0 <= other < PROPERTY_COUNT && #[trigger] state.board.owns(player, property_tile(other))
            ==> state.level(other) == 0,
    }
}

pub fn sell_one_building<const PLAYER_COUNT: usize>(
    game_state: &mut GameState<PLAYER_COUNT>,
    player_id: PlayerId,
) -> (sale: Option<BuildingSale>)
    requires
        (player_id as usize) < PLAYER_COUNT,
        old(game_state).levels_bounded(),
        first_sale_fits(*old(game_state), player_id as int),
    ensures
        final(game_state).levels_bounded(),
        old(game_state).buildings_wf() ==> final(game_state).buildings_wf(),
        ({
            let property = match sale {
                Some(sale) => Some(sale.property_id),
                None => None,
            };
            most_improved_spec(*old(game_state), player_id as int, property)
        }),
        sale matches Some(sale) ==> (*final(game_state), sale) == building_sale_spec(*old(game_state), player_id as int, sale.property_id as int),
        sale is None ==> *final(game_state) == *old(game_state),
        old(game_state).wf() ==> final(game_state).wf(),
{
    let property_id = match find_most_improved_property(game_state, player_id) {
        Some(property_id) => property_id,
        None => return None,
    };
    Some(sell_building_at(game_state, player_id, property_id))
}

pub open spec fn can_sell_building_spec<const N: usize>(state: GameState<N>, rules: Ruleset, player: int, property: int) -> bool {
    &&& 0 <= property < PROPERTY_COUNT
    &&& 0 <= player < N
    &&& !state.is_bankrupt(player)
    &&& state.board.owns(player, property_tile(property))
    &&& state.level(property) > 0
    &&& (rules.property_improvement_distribution == PropertyImprovementDistribution::Even ==> forall|other: int|
        0 <= other < PROPERTY_COUNT && #[trigger] property_group(other) == property_group(property) ==> state.level(other) <= state.level(property))
}

/// Whether `player` may sell a building from `property`: the player owns the property, which
/// has a building, and under even improvement no property of its group stands higher.
pub fn can_sell_property_building<const PLAYER_COUNT: usize>(
    game_state: &GameState<PLAYER_COUNT>,
    ruleset: &Ruleset,
    player_id: PlayerId,
    property_id: PropertyId,
) -> (result: bool)
    ensures
        result == can_sell_building_spec(*game_state, *ruleset, player_id as int, property_id as int),
{
    let property_index = property_id as usize;
    if property_index >= PROPERTY_COUNT || player_id as usize >= PLAYER_COUNT
        || crate::game::state::model::contains_player(game_state.bankrupt_players, player_id) {
        return false;
    }
    proof {
        lemma_property_tables(property_index as int);
    }
    let tile_id = TILE_ID_BY_PROPERTY_ID[property_index];
    if !contains_tile(game_state.board.owned_tiles_by_player_id[player_id as usize], tile_id) {
        return false;
    }
    let level = game_state.board.improvement_level_by_property_id[property_index];
    if level == 0 {
        return false;
    }
    if ruleset.property_improvement_distribution != PropertyImprovementDistribution::Even {
        return true;
    }
    let group = OWNERSHIP_GROUP_INDEX_BY_TILE_ID[tile_id as usize];
    let mut other: usize = 0;
    while other < PROPERTY_COUNT
        invariant
            other <= PROPERTY_COUNT,
            property_index < PROPERTY_COUNT,
            group == property_group(property_index as int),
            level == game_state.level(property_index as int),
            level > 0,
            property_index == property_id as usize,
            (player_id as usize) < PLAYER_COUNT,
            !game_state.is_bankrupt(player_id as int),
            game_state.board.owns(player_id as int, property_tile(property_index as int)),
            ruleset.property_improvement_distribution == PropertyImprovementDistribution::Even,
            forall|earlier: int| 0 <= earlier < other && #[trigger] property_group(earlier) == group ==> game_state.level(earlier) <= level,
        decreases PROPERTY_COUNT - other,
    {
        proof {
            lemma_property_tables(other as int);
        }
        if OWNERSHIP_GROUP_INDEX_BY_TILE_ID[TILE_ID_BY_PROPERTY_ID[other] as usize] == group
            && game_state.board.improvement_level_by_property_id[other] > level {
            assert(property_group(other as int) == group);
            return false;
        }
        other = other + 1;
    }
    true
}

/// Sells one building from `property` when `player` may, as `can_sell_property_building` says.
pub fn sell_property_building<const PLAYER_COUNT: usize>(
    game_state: &mut GameState<PLAYER_COUNT>,
    ruleset: &Ruleset,
    player_id: PlayerId,
    property_id: PropertyId,
) -> (sale: Option<BuildingSale>)
    requires
        old(game_state).levels_bounded(),
        can_sell_building_spec(*old(game_state), *ruleset, player_id as int, property_id as int) ==> sale_fits(
            *old(game_state),
            property_id as int,
        ),
    ensures
        final(game_state).levels_bounded(),
        old(game_state).buildings_wf() ==> final(game_state).buildings_wf(),
        sale is Some == can_sell_building_spec(*old(game_state), *ruleset, player_id as int, property_id as int),
        sale matches Some(sale) ==> (*final(game_state), sale) == building_sale_spec(*old(game_state), player_id as int, property_id as int),
        sale is None ==> *final(game_state) == *old(game_state),
        old(game_state).wf() ==> final(game_state).wf(),
        sale is Some ==> unbuilt_levels(final(game_state).board.improvement_level_by_property_id@, PROPERTY_COUNT as nat)
            > unbuilt_levels(old(game_state).board.improvement_level_by_property_id@, PROPERTY_COUNT as nat),
{
    if !can_sell_property_building(game_state, ruleset, player_id, property_id) {
        return None;
    }
    Some(sell_building_at(game_state, player_id, property_id))
}

pub fn find_most_improved_property<const PLAYER_COUNT: usize>(
    game_state: &GameState<PLAYER_COUNT>,
    player_id: PlayerId,
) -> (property: Option<PropertyId>)
    requires
        (player_id as usize) < PLAYER_COUNT,
    ensures
        most_improved_spec(*game_state, player_id as int, property),
{
    let owned_tiles = game_state.board.owned_tiles_by_player_id[player_id as usize];
    let mut most_improved_property_id: Option<PropertyId> = None;
    let mut highest_improvement_level: u8 = 0;

    let mut property_id: usize = 0;
    while property_id < PROPERTY_COUNT
        invariant
            property_id <= PROPERTY_COUNT,
            owned_tiles == game_state.board.owned_tiles_by_player_id@[player_id as int],
            (player_id as usize) < PLAYER_COUNT,
            forall|other: int| 0 <= other < property_id && #[trigger] game_state.board.owns(player_id as int, property_tile(other))
                ==> game_state.level(other) <= highest_improvement_level,
            match most_improved_property_id {
                Some(property) => {
                    &&& property < property_id
                    &&& game_state.board.owns(player_id as int, property_tile(property as int))
                    &&& game_state.level(property as int) == highest_improvement_level
                    &&& highest_improvement_level > 0
                    &&& forall|other: int| 0 <= other < property && #[trigger] game_state.board.owns(player_id as int, property_tile(other))
                        ==> game_state.level(other) < highest_improvement_level
                },
                None => highest_improvement_level == 0,
            },
        decreases PROPERTY_COUNT - property_id,
    {
        proof {
            lemma_property_tables(property_id as int);
        }
        let improvement_level = game_state.board.improvement_level_by_property_id[property_id];
        let is_owned = contains_tile(owned_tiles, TILE_ID_BY_PROPERTY_ID[property_id]);

        if is_owned && improvement_level > highest_improvement_level {
            highest_improvement_level = improvement_level;
            most_improved_property_id = Some(property_id as PropertyId);
        }
        property_id = property_id + 1;
    }

    most_improved_property_id
}

pub fn find_lowest_group_improvement_level<const PLAYER_COUNT: usize>(
    game_state: &GameState<PLAYER_COUNT>,
    ownership_group_index: usize,
) -> (lowest: PropertyImprovementLevel)
    requires
        ownership_group_index < OWNERSHIP_GROUP_COUNT,
    ensures
        lowest <= HOTEL_IMPROVEMENT_LEVEL,
        forall|property: int| 0 <= property < PROPERTY_COUNT && #[trigger] property_group(property) == ownership_group_index
            ==> lowest <= game_state.level(property),
        lowest == HOTEL_IMPROVEMENT_LEVEL || exists|property: int| 0 <= property < PROPERTY_COUNT
            && #[trigger] property_group(property) == ownership_group_index && game_state.level(property) == lowest,
{
    let mut lowest_improvement_level = HOTEL_IMPROVEMENT_LEVEL;
    let mut property: usize = 0;
    while property < PROPERTY_COUNT
        invariant
            property <= PROPERTY_COUNT,
            lowest_improvement_level <= HOTEL_IMPROVEMENT_LEVEL,
            forall|earlier: int| 0 <= earlier < property && #[trigger] property_group(earlier) == ownership_group_index
                ==> lowest_improvement_level <= game_state.level(earlier),
            lowest_improvement_level == HOTEL_IMPROVEMENT_LEVEL || exists|earlier: int| 0 <= earlier < PROPERTY_COUNT
                && #[trigger] property_group(earlier) == ownership_group_index && game_state.level(earlier) == lowest_improvement_level,
        decreases PROPERTY_COUNT - property,
    {
        proof {
            lemma_property_tables(property as int);
        }
        if OWNERSHIP_GROUP_INDEX_BY_TILE_ID[TILE_ID_BY_PROPERTY_ID[property] as usize] as usize == ownership_group_index {
            assert(property_group(property as int) == ownership_group_index);
            let level = game_state.board.improvement_level_by_property_id[property];
            if level < lowest_improvement_level {
                lowest_improvement_level = level;
            }
        }
        property = property + 1;
    }

    lowest_improvement_level
}

} // verus!
