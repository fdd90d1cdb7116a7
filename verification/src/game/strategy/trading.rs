use vstd::prelude::*;

use super::configurable::{
    ConfigurableStrategy,
    PERCENT_DIVISOR,
    lowest_tile,
    lowest_tile_from,
};
use super::greedy::price_of;
use crate::game::board::model::PlayerId;
use crate::game::engine::trade::{
    calculate_tile_set_purchase_value,
    execute_trade,
    purchase_value_below,
    trade_permitted_spec,
    traded_state,
};
use crate::game::ruleset::model::Ruleset;
use crate::game::state::model::GameState;
use crate::game::tile::data::TILE_COUNT;
use crate::game::tile::lut::{
    PURCHASE_PRICE_BY_TILE_ID,
    TILE_SET_MASK_BY_OWNERSHIP_GROUP,
};
use crate::game::tile::model::{
    Cash,
    OWNERSHIP_GROUP_COUNT,
    TileSetMask,
    count_tiles,
    tile_count,
};
use crate::game::trade::model::TradeOffer;

verus! {

/// The percentage of the price of the tile asked for that a swap offers.
pub open spec fn swap_offer_percent(strategy: ConfigurableStrategy) -> int {
    match strategy.property_swap_offer_percent {
        Some(percent) => percent as int,
        None => strategy.trade_offer_percent as int,
    }
}

/// The swap that gives `recipient` the group `offered_group`, for the tile `target` of the group
/// `target_group` that `player` lacks, the group's lone tile `missing`: the offer, if the group
/// qualifies, the swap fits the budget, the engine permits it and the player keeps its reserve.
pub open spec fn swap_offer_for_group<const N: usize>(
    strategy: ConfigurableStrategy,
    state: GameState<N>,
    rules: Ruleset,
    player: PlayerId,
    recipient: PlayerId,
    target_group: int,
    target: int,
    missing: TileSetMask,
    offered_group: int,
) -> Option<TradeOffer> {
    let owned = state.board.owned_tiles_by_player_id@[player as int];
    let recipient_owned = state.board.owned_tiles_by_player_id@[recipient as int];
    let target_value = purchase_value_below(TILE_SET_MASK_BY_OWNERSHIP_GROUP@[target_group], TILE_COUNT as nat);
    let budget = price_of(PURCHASE_PRICE_BY_TILE_ID@, target) * swap_offer_percent(strategy) / PERCENT_DIVISOR as int;
    let offered_tiles = TILE_SET_MASK_BY_OWNERSHIP_GROUP@[offered_group];
    let needed = offered_tiles & !recipient_owned;
    if offered_group != target_group && owned & offered_tiles != offered_tiles && recipient_owned & offered_tiles != 0
        && needed != 0 && tile_count(needed) == 1 && owned & needed != 0 && purchase_value_below(
        offered_tiles,
        TILE_COUNT as nat,
    ) <= target_value {
        let offered_value = price_of(PURCHASE_PRICE_BY_TILE_ID@, lowest_tile_from(needed, 0));
        let offer = TradeOffer {
            proposer_player_id: player,
            recipient_player_id: recipient,
            offered_cash: (budget - offered_value) as Cash,
            offered_tiles: needed,
            offered_get_out_of_jail_free_cards: 0,
            requested_cash: 0,
            requested_tiles: missing,
            requested_get_out_of_jail_free_cards: 0,
        };
        if offered_value <= budget && budget - offered_value <= Cash::MAX && trade_permitted_spec(state, rules, offer)
            && traded_state(state, offer).cash(player as int) >= strategy.cash_reserve {
            Some(offer)
        } else {
            None
        }
    } else {
        None
    }
}

/// The first swap, in group order from `offered_group` on, for the tile `target`.
pub open spec fn swap_offer_from<const N: usize>(
    strategy: ConfigurableStrategy,
    state: GameState<N>,
    rules: Ruleset,
    player: PlayerId,
    recipient: PlayerId,
    target_group: int,
    target: int,
    missing: TileSetMask,
    offered_group: int,
) -> Option<TradeOffer>
    decreases OWNERSHIP_GROUP_COUNT - offered_group,
{
    if offered_group < 0 || offered_group >= OWNERSHIP_GROUP_COUNT {
        None
    } else {
        match swap_offer_for_group(
            strategy,
            state,
            rules,
            player,
            recipient,
            target_group,
            target,
            missing,
            offered_group,
        ) {
            Some(offer) => Some(offer),
            None => swap_offer_from(
                strategy,
                state,
                rules,
                player,
                recipient,
                target_group,
                target,
                missing,
                offered_group + 1,
            ),
        }
    }
}

/// The swap for the group `target_group`, of which `player` lacks exactly one tile that another
/// player owns.
pub open spec fn monopoly_swap_for_group<const N: usize>(
    strategy: ConfigurableStrategy,
    state: GameState<N>,
    rules: Ruleset,
    player: PlayerId,
    target_group: int,
) -> Option<TradeOffer> {
    let owned = state.board.owned_tiles_by_player_id@[player as int];
    let target_tiles = TILE_SET_MASK_BY_OWNERSHIP_GROUP@[target_group];
    let missing = target_tiles & !owned;
    if owned & target_tiles != 0 && missing != 0 && tile_count(missing) == 1 {
        let target = lowest_tile_from(missing, 0);
        match state.board.owner_of(target) {
            Some(recipient) => swap_offer_from(strategy, state, rules, player, recipient, target_group, target, missing, 0),
            None => None,
        }
    } else {
        None
    }
}

/// The first swap, in group order from `target_group` on, that completes a group for `player`.
pub open spec fn monopoly_swap_from<const N: usize>(
    strategy: ConfigurableStrategy,
    state: GameState<N>,
    rules: Ruleset,
    player: PlayerId,
    target_group: int,
) -> Option<TradeOffer>
    decreases OWNERSHIP_GROUP_COUNT - target_group,
{
    if target_group < 0 || target_group >= OWNERSHIP_GROUP_COUNT {
        None
    } else {
        match monopoly_swap_for_group(strategy, state, rules, player, target_group) {
            Some(offer) => Some(offer),
            None => monopoly_swap_from(strategy, state, rules, player, target_group + 1),
        }
    }
}

/// A swap that completes a group for `player` and one for the other side: the player gives the
/// one tile the other side lacks of a group, plus cash, for the one tile the player lacks of a
/// group worth at least as much. The tile and the cash together are worth the swap offer
/// percentage of the price of the tile asked for. The swap must be legal and leave the player
/// its reserve.
#[verifier::rlimit(50)]
pub fn propose_monopoly_swap<const N: usize>(
    strategy: &ConfigurableStrategy,
    state: &GameState<N>,
    rules: &Ruleset,
    player: PlayerId,
) -> (offer: Option<TradeOffer>)
    requires
        N <= 256,
    ensures
        offer matches Some(offer) ==> {
            &&& offer.proposer_player_id == player
            &&& trade_permitted_spec(*state, *rules, offer)
            &&& traded_state(*state, offer).cash(player as int) >= strategy.cash_reserve
        },
        offer == if (player as usize) < N {
            monopoly_swap_from(*strategy, *state, *rules, player, 0)
        } else {
            None
        },
{
    if (player as usize) >= N {
        return None;
    }
    let owned = state.board.owned_tiles_by_player_id[player as usize];
    let mut target_group: usize = 0;
    while target_group < OWNERSHIP_GROUP_COUNT
        invariant
            N <= 256,
            (player as usize) < N,
            target_group <= OWNERSHIP_GROUP_COUNT,
            owned == state.board.owned_tiles_by_player_id@[player as int],
            monopoly_swap_from(*strategy, *state, *rules, player, 0) == monopoly_swap_from(
                *strategy,
                *state,
                *rules,
                player,
                target_group as int,
            ),
        decreases OWNERSHIP_GROUP_COUNT - target_group,
    {
        let target_tiles = TILE_SET_MASK_BY_OWNERSHIP_GROUP[target_group];
        let missing = target_tiles & !owned;
        if owned & target_tiles != 0 && missing != 0 && count_tiles(missing) == 1 {
            let target = lowest_tile(missing);
            if let Some(recipient) = state.board.get_tile_owner(target) {
                if let Some(offer) = swap_for_target(strategy, state, rules, player, recipient, target_group, target, missing) {
                    return Some(offer);
                }
            }
        }
        target_group = target_group + 1;
    }
    None
}

/// The first swap, in group order, that gives `recipient` a group for the tile `target` of the
/// group `target_group`.
fn swap_for_target<const N: usize>(
    strategy: &ConfigurableStrategy,
    state: &GameState<N>,
    rules: &Ruleset,
    player: PlayerId,
    recipient: PlayerId,
    target_group: usize,
    target: u8,
    missing: TileSetMask,
) -> (offer: Option<TradeOffer>)
    requires
        (player as usize) < N,
        (recipient as usize) < N,
        target_group < OWNERSHIP_GROUP_COUNT,
        target < 64,
    ensures
        offer matches Some(offer) ==> {
            &&& offer.proposer_player_id == player
            &&& trade_permitted_spec(*state, *rules, offer)
            &&& traded_state(*state, offer).cash(player as int) >= strategy.cash_reserve
        },
        offer == swap_offer_from(
            *strategy,
            *state,
            *rules,
            player,
            recipient,
            target_group as int,
            target as int,
            missing,
            0,
        ),
{
    let owned = state.board.owned_tiles_by_player_id[player as usize];
    let recipient_owned = state.board.owned_tiles_by_player_id[recipient as usize];
    let target_tiles = TILE_SET_MASK_BY_OWNERSHIP_GROUP[target_group];
    let target_value = calculate_tile_set_purchase_value(target_tiles);
    let percent = match strategy.property_swap_offer_percent {
        Some(percent) => percent,
        None => strategy.trade_offer_percent,
    };
    let target_price = if (target as usize) < 40 {
        PURCHASE_PRICE_BY_TILE_ID[target as usize] as u64
    } else {
        0
    };
    assert(target_price * percent <= 0xffff_ffff * 0xffff_ffff) by (nonlinear_arith)
        requires
            target_price <= 0xffff_ffff,
            percent <= 0xffff_ffff,
    ;
    let budget = target_price * percent as u64 / PERCENT_DIVISOR as u64;
    let mut offered_group: usize = 0;
    while offered_group < OWNERSHIP_GROUP_COUNT
        invariant
            (player as usize) < N,
            (recipient as usize) < N,
            offered_group <= OWNERSHIP_GROUP_COUNT,
            target_group < OWNERSHIP_GROUP_COUNT,
            owned == state.board.owned_tiles_by_player_id@[player as int],
            recipient_owned == state.board.owned_tiles_by_player_id@[recipient as int],
            target_value == purchase_value_below(TILE_SET_MASK_BY_OWNERSHIP_GROUP@[target_group as int], TILE_COUNT as nat),
            budget == price_of(PURCHASE_PRICE_BY_TILE_ID@, target as int) * swap_offer_percent(*strategy)
                / PERCENT_DIVISOR as int,
            swap_offer_from(*strategy, *state, *rules, player, recipient, target_group as int, target as int, missing, 0)
                == swap_offer_from(
                *strategy,
                *state,
                *rules,
                player,
                recipient,
                target_group as int,
                target as int,
                missing,
                offered_group as int,
            ),
        decreases OWNERSHIP_GROUP_COUNT - offered_group,
    {
        let offered_tiles = TILE_SET_MASK_BY_OWNERSHIP_GROUP[offered_group];
        let needed = offered_tiles & !recipient_owned;
        if offered_group != target_group && owned & offered_tiles != offered_tiles && recipient_owned & offered_tiles != 0
            && needed != 0 && count_tiles(needed) == 1 && owned & needed != 0
            && calculate_tile_set_purchase_value(offered_tiles) <= target_value {
            let offered = lowest_tile(needed);
            let offered_value = if (offered as usize) < 40 {
                PURCHASE_PRICE_BY_TILE_ID[offered as usize] as u64
            } else {
                0
            };
            if offered_value <= budget && budget - offered_value <= Cash::MAX as u64 {
                let offer = TradeOffer {
                    proposer_player_id: player,
                    recipient_player_id: recipient,
                    offered_cash: (budget - offered_value) as Cash,
                    offered_tiles: needed,
                    offered_get_out_of_jail_free_cards: 0,
                    requested_cash: 0,
                    requested_tiles: missing,
                    requested_get_out_of_jail_free_cards: 0,
                };
                let mut projected = *state;
                if execute_trade(&mut projected, rules, &offer) && projected.cash_by_player_id[player as usize]
                    >= strategy.cash_reserve {
                    return Some(offer);
                }
            }
        }
        offered_group = offered_group + 1;
    }
    None
}

} // verus!
