use vstd::prelude::*;

use super::action::ActionError;
use super::event::GameEvent;
use super::improvement::{
    building_sale_spec,
    can_sell_building_spec,
    can_sell_property_building,
    sale_fits,
    sell_property_building,
    lemma_unbuilt_levels_bound,
    unbuilt_levels,
};
use super::mortgage::{
    can_mortgage_spec,
    can_mortgage_tile,
    mortgage_tile,
    with_mortgage_change,
};
use crate::game::board::model::PlayerId;
use crate::game::ruleset::model::Ruleset;
use crate::game::state::model::{
    GameState,
    contains_player,
    group_player_mask,
};
use crate::game::tile::data::{
    PROPERTY_COUNT,
    TILE_COUNT,
};
use crate::game::tile::lut::MORTGAGE_VALUE_BY_TILE_ID;
use crate::game::tile::model::{
    Cash,
    PropertyId,
    TileId,
    tile_count,
};

verus! {

broadcast use group_player_mask;

#[derive(Debug, Clone, Copy, PartialEq, Eq, Structural)]
pub enum LiquidationAction {
    SellBuilding(PropertyId),
    Mortgage(TileId),
}

/// Whether `action` is open to `player`, who must raise cash.
pub open spec fn is_legal_liquidation<const N: usize>(
    state: GameState<N>,
    rules: Ruleset,
    player: int,
    action: LiquidationAction,
) -> bool {
    match action {
        LiquidationAction::SellBuilding(property) => can_sell_building_spec(state, rules, player, property as int),
        LiquidationAction::Mortgage(tile) => can_mortgage_spec(state, player, tile as int),
    }
}

/// The building sales open to `player` among the properties `0..count`, in property order.
pub open spec fn legal_sales<const N: usize>(state: GameState<N>, rules: Ruleset, player: int, count: nat) -> Seq<
    LiquidationAction,
>
    decreases count,
{
    if count == 0 {
        seq![]
    } else {
        let earlier = legal_sales(state, rules, player, (count - 1) as nat);
        if can_sell_building_spec(state, rules, player, count - 1) {
            earlier.push(LiquidationAction::SellBuilding((count - 1) as PropertyId))
        } else {
            earlier
        }
    }
}

/// The mortgages open to `player` among the tiles `0..count`, in tile order.
pub open spec fn legal_mortgages<const N: usize>(state: GameState<N>, player: int, count: nat) -> Seq<LiquidationAction>
    decreases count,
{
    if count == 0 {
        seq![]
    } else {
        let earlier = legal_mortgages(state, player, (count - 1) as nat);
        if can_mortgage_spec(state, player, count - 1) {
            earlier.push(LiquidationAction::Mortgage((count - 1) as TileId))
        } else {
            earlier
        }
    }
}

/// Every legal liquidation of `player`: the building sales in property order, then the
/// mortgages in tile order.
pub open spec fn legal_liquidations<const N: usize>(state: GameState<N>, rules: Ruleset, player: int) -> Seq<
    LiquidationAction,
> {
    legal_sales(state, rules, player, PROPERTY_COUNT as nat) + legal_mortgages(state, player, TILE_COUNT as nat)
}

proof fn lemma_legal_sales_members<const N: usize>(state: GameState<N>, rules: Ruleset, player: int, count: nat)
    requires
        count <= PROPERTY_COUNT,
    ensures
        forall|index: int| 0 <= index < legal_sales(state, rules, player, count).len() ==> {
            let action = #[trigger] legal_sales(state, rules, player, count)[index];
            &&& action matches LiquidationAction::SellBuilding(property)
            &&& property < count
            &&& is_legal_liquidation(state, rules, player, action)
        },
        forall|property: int| 0 <= property < count && can_sell_building_spec(state, rules, player, property)
            ==> legal_sales(state, rules, player, count).contains(LiquidationAction::SellBuilding(property as PropertyId)),
    decreases count,
{
    if count > 0 {
        lemma_legal_sales_members(state, rules, player, (count - 1) as nat);
        let earlier = legal_sales(state, rules, player, (count - 1) as nat);
        assert forall|property: int| 0 <= property < count && can_sell_building_spec(state, rules, player, property)
            implies legal_sales(state, rules, player, count).contains(LiquidationAction::SellBuilding(property as PropertyId)) by {
            if property < count - 1 {
                let index = choose|index: int| 0 <= index < earlier.len() && earlier[index] == LiquidationAction::SellBuilding(property as PropertyId);
                assert(legal_sales(state, rules, player, count)[index] == LiquidationAction::SellBuilding(property as PropertyId));
            } else {
                let all = legal_sales(state, rules, player, count);
                assert(all[all.len() - 1] == LiquidationAction::SellBuilding(property as PropertyId));
            }
        }
    }
}

proof fn lemma_legal_mortgages_members<const N: usize>(state: GameState<N>, player: int, count: nat)
    requires
        count <= TILE_COUNT,
    ensures
        forall|index: int| 0 <= index < legal_mortgages(state, player, count).len() ==> {
            let action = #[trigger] legal_mortgages(state, player, count)[index];
            &&& action matches LiquidationAction::Mortgage(tile)
            &&& tile < count
            &&& can_mortgage_spec(state, player, tile as int)
        },
        forall|tile: int| 0 <= tile < count && can_mortgage_spec(state, player, tile)
            ==> legal_mortgages(state, player, count).contains(LiquidationAction::Mortgage(tile as TileId)),
    decreases count,
{
    if count > 0 {
        lemma_legal_mortgages_members(state, player, (count - 1) as nat);
        let earlier = legal_mortgages(state, player, (count - 1) as nat);
        assert forall|tile: int| 0 <= tile < count && can_mortgage_spec(state, player, tile)
            implies legal_mortgages(state, player, count).contains(LiquidationAction::Mortgage(tile as TileId)) by {
            if tile < count - 1 {
                let index = choose|index: int| 0 <= index < earlier.len() && earlier[index] == LiquidationAction::Mortgage(tile as TileId);
                assert(legal_mortgages(state, player, count)[index] == LiquidationAction::Mortgage(tile as TileId));
            } else {
                let all = legal_mortgages(state, player, count);
                assert(all[all.len() - 1] == LiquidationAction::Mortgage(tile as TileId));
            }
        }
    }
}

/// An action is among the legal liquidations exactly when it is legal.
pub proof fn lemma_legal_liquidations_complete<const N: usize>(
    state: GameState<N>,
    rules: Ruleset,
    player: int,
    action: LiquidationAction,
)
    ensures
        legal_liquidations(state, rules, player).contains(action) <==> is_legal_liquidation(state, rules, player, action),
{
    lemma_legal_sales_members(state, rules, player, PROPERTY_COUNT as nat);
    lemma_legal_mortgages_members(state, player, TILE_COUNT as nat);
    let sales = legal_sales(state, rules, player, PROPERTY_COUNT as nat);
    let mortgages = legal_mortgages(state, player, TILE_COUNT as nat);
    let all = legal_liquidations(state, rules, player);
    if all.contains(action) {
        let index = choose|index: int| 0 <= index < all.len() && all[index] == action;
        if index < sales.len() {
            assert(sales[index] == action);
        } else {
            assert(mortgages[index - sales.len()] == action);
        }
    }
    if is_legal_liquidation(state, rules, player, action) {
        match action {
            LiquidationAction::SellBuilding(property) => {
                let index = choose|index: int| 0 <= index < sales.len() && sales[index] == action;
                assert(all[index] == action);
            },
            LiquidationAction::Mortgage(tile) => {
                let index = choose|index: int| 0 <= index < mortgages.len() && mortgages[index] == action;
                assert(all[sales.len() + index] == action);
            },
        }
    }
}

pub fn legal_liquidation_actions<const N: usize>(
    state: &GameState<N>,
    rules: &Ruleset,
    player: PlayerId,
) -> (actions: Vec<LiquidationAction>)
    requires
        N <= 256,
    ensures
        actions@ == legal_liquidations(*state, *rules, player as int),
{
    let mut actions: Vec<LiquidationAction> = Vec::new();
    let mut property: u8 = 0;
    while (property as usize) < PROPERTY_COUNT
        invariant
            property <= PROPERTY_COUNT,
            actions@ == legal_sales(*state, *rules, player as int, property as nat),
        decreases PROPERTY_COUNT - property,
    {
        if can_sell_property_building(state, rules, player, property) {
            actions.push(LiquidationAction::SellBuilding(property));
        }
        property = property + 1;
    }
    let ghost sales = actions@;
    let mut tile: u8 = 0;
    while (tile as usize) < TILE_COUNT
        invariant
            N <= 256,
            tile <= TILE_COUNT,
            sales == legal_sales(*state, *rules, player as int, PROPERTY_COUNT as nat),
            actions@ == sales + legal_mortgages(*state, player as int, tile as nat),
        decreases TILE_COUNT - tile,
    {
        if can_mortgage_tile(state, player, tile) {
            actions.push(LiquidationAction::Mortgage(tile));
            assert(actions@ == sales + legal_mortgages(*state, player as int, (tile + 1) as nat));
        }
        tile = tile + 1;
    }
    actions
}

/// The state after `player` takes the legal liquidation `action`, with the event that reports
/// it.
pub open spec fn liquidated<const N: usize>(state: GameState<N>, player: int, action: LiquidationAction) -> (
    GameState<N>,
    GameEvent,
) {
    match action {
        LiquidationAction::SellBuilding(property) => {
            let (after, sale) = building_sale_spec(state, player, property as int);
            (
                after,
                GameEvent::BuildingSold {
                    player_id: player as PlayerId,
                    property_id: property,
                    previous_level: sale.previous_level,
                    level: sale.level,
                    proceeds: sale.proceeds,
                },
            )
        },
        LiquidationAction::Mortgage(tile) => (
            with_mortgage_change(
                state,
                player,
                state.board.mortgaged_tiles | (1u64 << tile),
                (state.cash(player) + MORTGAGE_VALUE_BY_TILE_ID@[tile as int]) as Cash,
            ),
            GameEvent::TileMortgaged {
                player_id: player as PlayerId,
                tile_id: tile,
                proceeds: MORTGAGE_VALUE_BY_TILE_ID@[tile as int] as Cash,
            },
        ),
    }
}

/// The number of owned tiles not yet mortgaged plus the buildings still standing: every
/// liquidation lowers it.
pub open spec fn liquidation_measure<const N: usize>(state: GameState<N>) -> int {
    tile_count(!state.board.mortgaged_tiles) + 5 * PROPERTY_COUNT
        - unbuilt_levels(state.board.improvement_level_by_property_id@, PROPERTY_COUNT as nat)
}

#[verifier::rlimit(40)]
pub fn execute_liquidation_action<const N: usize>(
    state: &mut GameState<N>,
    rules: &Ruleset,
    player: PlayerId,
    action: LiquidationAction,
) -> (result: Result<GameEvent, ActionError>)
    requires
        N <= 256,
        old(state).levels_bounded(),
        match action {
            LiquidationAction::SellBuilding(property) => can_sell_building_spec(
                *old(state),
                *rules,
                player as int,
                property as int,
            ) ==> sale_fits(*old(state), property as int),
            LiquidationAction::Mortgage(_) => true,
        },
    ensures
        (player as usize >= N || old(state).is_bankrupt(player as int)) ==> result == Err::<GameEvent, ActionError>(
            ActionError::InvalidPlayer,
        ),
        !(player as usize >= N || old(state).is_bankrupt(player as int)) ==> (result is Ok <==> is_legal_liquidation(
            *old(state),
            *rules,
            player as int,
            action,
        )),
        result is Err ==> result == Err::<GameEvent, ActionError>(ActionError::InvalidPlayer) || result == Err::<
            GameEvent,
            ActionError,
        >(ActionError::IllegalAction),
        result matches Ok(event) ==> (*final(state), event) == liquidated(*old(state), player as int, action),
        result is Err ==> *final(state) == *old(state),
        final(state).levels_bounded(),
        old(state).buildings_wf() ==> final(state).buildings_wf(),
        old(state).wf() ==> final(state).wf(),
        liquidation_measure(*final(state)) >= 0,
        result is Ok ==> liquidation_measure(*final(state)) < liquidation_measure(*old(state)),
{
    proof {
        lemma_unbuilt_levels_bound(old(state).board.improvement_level_by_property_id@, PROPERTY_COUNT as nat);
    }
    if player as usize >= N || contains_player(state.bankrupt_players, player) {
        return Err(ActionError::InvalidPlayer);
    }
    match action {
        LiquidationAction::SellBuilding(property_id) => {
            let ghost before = *state;
            match sell_property_building(state, rules, player, property_id) {
                Some(sale) => {
                    proof {
                        assert(state.board.mortgaged_tiles == before.board.mortgaged_tiles);
                        lemma_unbuilt_levels_bound(state.board.improvement_level_by_property_id@, PROPERTY_COUNT as nat);
                    }
                    Ok(GameEvent::BuildingSold {
                        player_id: player,
                        property_id,
                        previous_level: sale.previous_level,
                        level: sale.level,
                        proceeds: sale.proceeds,
                    })
                },
                None => Err(ActionError::IllegalAction),
            }
        },
        LiquidationAction::Mortgage(tile_id) => {
            let ghost before = *state;
            if !mortgage_tile(state, player, tile_id) {
                return Err(ActionError::IllegalAction);
            }
            proof {
                crate::game::tile::model::lemma_tile_count_complement_add(before.board.mortgaged_tiles, tile_id as int);
                assert forall|property: int| 0 <= property < PROPERTY_COUNT implies #[trigger] state.level(property)
                    <= crate::game::board::data::HOTEL_IMPROVEMENT_LEVEL by {
                    assert(state.level(property) == before.level(property));
                }
            }
            Ok(GameEvent::TileMortgaged {
                player_id: player,
                tile_id,
                proceeds: MORTGAGE_VALUE_BY_TILE_ID[tile_id as usize] as Cash,
            })
        },
    }
}

/// The liquidation the engine takes for a player who chooses none: sell a building from the
/// most improved property that may sell one (the first in property order among equals), else
/// mortgage the first tile that may be mortgaged.
pub open spec fn default_liquidation_spec<const N: usize>(
    state: GameState<N>,
    rules: Ruleset,
    player: int,
    result: Option<LiquidationAction>,
) -> bool {
    let no_sale = forall|property: int| 0 <= property < PROPERTY_COUNT ==> !can_sell_building_spec(state, rules, player, property);
    match result {
        Some(LiquidationAction::SellBuilding(property)) => {
            &&& can_sell_building_spec(state, rules, player, property as int)
            &&& forall|other: int| 0 <= other < PROPERTY_COUNT && #[trigger] can_sell_building_spec(state, rules, player, other)
                ==> state.level(other) <= state.level(property as int)
            &&& forall|other: int| 0 <= other < property && #[trigger] can_sell_building_spec(state, rules, player, other)
                ==> state.level(other) < state.level(property as int)
        },
        Some(LiquidationAction::Mortgage(tile)) => {
            &&& no_sale
            &&& can_mortgage_spec(state, player, tile as int)
            &&& forall|earlier: int| 0 <= earlier < tile ==> !can_mortgage_spec(state, player, earlier)
        },
        None => {
            &&& no_sale
            &&& forall|tile: int| 0 <= tile < TILE_COUNT ==> !can_mortgage_spec(state, player, tile)
        },
    }
}

#[verifier::rlimit(50)]
pub fn default_liquidation_action<const N: usize>(
    state: &GameState<N>,
    rules: &Ruleset,
    player: PlayerId,
) -> (action: Option<LiquidationAction>)
    requires
        N <= 256,
    ensures
        default_liquidation_spec(*state, *rules, player as int, action),
        action matches Some(action) ==> is_legal_liquidation(*state, *rules, player as int, action),
{
    let mut best: Option<PropertyId> = None;
    let mut best_level: u8 = 0;
    let mut property: u8 = 0;
    while (property as usize) < PROPERTY_COUNT
        invariant
            property <= PROPERTY_COUNT,
            forall|other: int| 0 <= other < property && #[trigger] can_sell_building_spec(*state, *rules, player as int, other)
                ==> state.level(other) <= best_level,
            match best {
                Some(chosen) => {
                    &&& chosen < property
                    &&& can_sell_building_spec(*state, *rules, player as int, chosen as int)
                    &&& state.level(chosen as int) == best_level
                    &&& forall|other: int| 0 <= other < chosen && #[trigger] can_sell_building_spec(*state, *rules, player as int, other)
                        ==> state.level(other) < best_level
                },
                None => forall|other: int| 0 <= other < property ==> !can_sell_building_spec(*state, *rules, player as int, other),
            },
        decreases PROPERTY_COUNT - property,
    {
        if can_sell_property_building(state, rules, player, property) {
            let level = state.board.improvement_level_by_property_id[property as usize];
            if best.is_none() || level > best_level {
                best = Some(property);
                best_level = level;
            }
        }
        property = property + 1;
    }
    if let Some(chosen) = best {
        return Some(LiquidationAction::SellBuilding(chosen));
    }
    let mut tile: u8 = 0;
    while (tile as usize) < TILE_COUNT
        invariant
            N <= 256,
            tile <= TILE_COUNT,
            forall|property: int| 0 <= property < PROPERTY_COUNT ==> !can_sell_building_spec(*state, *rules, player as int, property),
            forall|earlier: int| 0 <= earlier < tile ==> !can_mortgage_spec(*state, player as int, earlier),
        decreases TILE_COUNT - tile,
    {
        if can_mortgage_tile(state, player, tile) {
            return Some(LiquidationAction::Mortgage(tile));
        }
        tile = tile + 1;
    }
    None
}

} // verus!
