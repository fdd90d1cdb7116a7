use vstd::prelude::*;

use super::card::{
    buildings_owned,
    card_applied,
    repair_cost,
};
use super::landing::{
    RentModifier,
    landing_settled,
    rent_spec,
};
use super::trade::{
    trade_permitted_spec,
};
use crate::game::board::data::HOTEL_IMPROVEMENT_LEVEL;
use crate::game::board::model::PlayerId;
use crate::game::card::data::card_effect_spec;
use crate::game::card::model::{
    CardEffect,
    CardId,
    DeckKind,
};
use crate::game::rng::DiceRoll;
use crate::game::ruleset::model::{
    BARTER_GET_OUT_OF_JAIL_FREE_CARDS,
    BARTER_MONEY,
    BARTER_MORTGAGED_PROPERTIES,
    BARTER_UNMORTGAGED_PROPERTIES,
    FreeParkingJackpotMode,
    Ruleset,
};
use crate::game::state::model::GameState;
use crate::game::tile::data::{
    PROPERTY_COUNT,
    RAILROAD_RENT_BY_POSSESSION_COUNT,
    UTILITY_RENT_DICE_MULTIPLIER_BY_POSSESSION_COUNT,
};
use crate::game::tile::lut::{
    OWNERSHIP_GROUP_INDEX_BY_TILE_ID,
    PROPERTY_ID_OR_NONE_BY_TILE_ID,
    RAILROAD_TILE_SET_MASK,
    RENT_BY_TILE_ID_BY_RENT_LEVEL,
    TILE_SET_MASK_BY_OWNERSHIP_GROUP,
    lemma_group_mask_membership,
    lemma_tile_tables,
    TAX_AMOUNT_BY_TILE_ID,
    TILE_ID_BY_PROPERTY_ID,
    TILE_KIND_BY_TILE_ID,
    UTILITY_TILE_SET_MASK,
};
use crate::game::tile::model::{
    Cash,
    TileKind,
    group_tile_mask,
    tile_count_below,
    tile_in,
};
use crate::game::trade::model::TradeOffer;

verus! {

broadcast use group_tile_mask;

/// The number of railroads (tiles 5, 15, 25 and 35) that `player` owns.
pub open spec fn railroads_owned<const N: usize>(state: GameState<N>, player: int) -> int {
    (if state.board.owns(player, 5) { 1int } else { 0 }) + (if state.board.owns(player, 15) { 1int } else { 0 }) + (
    if state.board.owns(player, 25) { 1int } else { 0 }) + (if state.board.owns(player, 35) { 1int } else { 0 })
}

/// The number of utilities (tiles 12 and 28) that `player` owns.
pub open spec fn utilities_owned<const N: usize>(state: GameState<N>, player: int) -> int {
    (if state.board.owns(player, 12) { 1int } else { 0 }) + (if state.board.owns(player, 28) { 1int } else { 0 })
}

proof fn lemma_railroad_mask(tile: int)
    ensures
        tile_in(RAILROAD_TILE_SET_MASK, tile) == (tile == 5 || tile == 15 || tile == 25 || tile == 35),
        tile_in(UTILITY_TILE_SET_MASK, tile) == (tile == 12 || tile == 28),
{
    if 0 <= tile < 64 {
        let bit = tile as u64;
        assert(((0x802008020u64 >> bit) & 1u64 == 1u64) == (bit == 5 || bit == 15 || bit == 25 || bit == 35))
            by (bit_vector)
            requires
                bit < 64,
        ;
        assert(((0x10001000u64 >> bit) & 1u64 == 1u64) == (bit == 12 || bit == 28)) by (bit_vector)
            requires
                bit < 64,
        ;
    }
}

proof fn lemma_railroad_bits(mask: u64, bound: nat)
    requires
        forall|tile: int| tile_in(mask, tile) ==> (tile == 5 || tile == 15 || tile == 25 || tile == 35),
    ensures
        tile_count_below(mask, bound) == (if bound > 5 && tile_in(mask, 5) { 1int } else { 0 }) + (if bound > 15
            && tile_in(mask, 15) { 1int } else { 0 }) + (if bound > 25 && tile_in(mask, 25) { 1int } else { 0 }) + (
        if bound > 35 && tile_in(mask, 35) { 1int } else { 0 }),
    decreases bound,
{
    if bound > 0 {
        lemma_railroad_bits(mask, (bound - 1) as nat);
    }
}

proof fn lemma_utility_bits(mask: u64, bound: nat)
    requires
        forall|tile: int| tile_in(mask, tile) ==> (tile == 12 || tile == 28),
    ensures
        tile_count_below(mask, bound) == (if bound > 12 && tile_in(mask, 12) { 1int } else { 0 }) + (if bound > 28
            && tile_in(mask, 28) { 1int } else { 0 }),
    decreases bound,
{
    if bound > 0 {
        lemma_utility_bits(mask, (bound - 1) as nat);
    }
}

proof fn lemma_railroads_counted<const N: usize>(state: GameState<N>, owner: int)
    requires
        0 <= owner < N,
    ensures
        tile_count_below(state.board.owned_tiles_by_player_id@[owner] & RAILROAD_TILE_SET_MASK, 64) == railroads_owned(
            state,
            owner,
        ),
        tile_count_below(state.board.owned_tiles_by_player_id@[owner] & UTILITY_TILE_SET_MASK, 64) == utilities_owned(
            state,
            owner,
        ),
{
    let owned = state.board.owned_tiles_by_player_id@[owner];
    assert forall|tile: int| tile_in(owned & RAILROAD_TILE_SET_MASK, tile) implies (tile == 5 || tile == 15 || tile
        == 25 || tile == 35) by {
        lemma_railroad_mask(tile);
    }
    assert forall|tile: int| tile_in(owned & UTILITY_TILE_SET_MASK, tile) implies (tile == 12 || tile == 28) by {
        lemma_railroad_mask(tile);
    }
    lemma_railroad_bits(owned & RAILROAD_TILE_SET_MASK, 64);
    lemma_utility_bits(owned & UTILITY_TILE_SET_MASK, 64);
    lemma_railroad_mask(5);
    lemma_railroad_mask(15);
    lemma_railroad_mask(25);
    lemma_railroad_mask(35);
    lemma_railroad_mask(12);
    lemma_railroad_mask(28);
}

/// Railroad rent follows the railroads that the owner holds: one railroad charges 25, two 50,
/// three 100 and four 200, and the nearest-railroad card doubles it.
pub proof fn law_railroad_rent_by_railroads_owned<const N: usize>(
    state: GameState<N>,
    tile: int,
    owner: int,
    dice_total: int,
)
    requires
        0 <= owner < N,
        tile == 5 || tile == 15 || tile == 25 || tile == 35,
        state.board.owns(owner, tile),
    ensures
        1 <= railroads_owned(state, owner) <= 4,
        rent_spec(state, tile, owner, dice_total, RentModifier::Standard)
            == RAILROAD_RENT_BY_POSSESSION_COUNT@[railroads_owned(state, owner) - 1],
        railroads_owned(state, owner) == 1 ==> rent_spec(state, tile, owner, dice_total, RentModifier::Standard) == 25,
        railroads_owned(state, owner) == 4 ==> rent_spec(state, tile, owner, dice_total, RentModifier::Standard) == 200,
        rent_spec(state, tile, owner, dice_total, RentModifier::NearestRailroadCard) == 2 * rent_spec(
            state,
            tile,
            owner,
            dice_total,
            RentModifier::Standard,
        ),
{
    lemma_railroads_counted(state, owner);
    assert(TILE_KIND_BY_TILE_ID@[tile] == TileKind::Railroad);
}

/// The more railroads an owner holds, the higher the rent on each of them: between two boards
/// the owner with more railroads charges more.
pub proof fn law_railroad_rent_grows_with_railroads<const N: usize>(
    first: GameState<N>,
    second: GameState<N>,
    tile: int,
    owner: int,
    dice_total: int,
)
    requires
        0 <= owner < N,
        tile == 5 || tile == 15 || tile == 25 || tile == 35,
        first.board.owns(owner, tile),
        second.board.owns(owner, tile),
        railroads_owned(first, owner) < railroads_owned(second, owner),
    ensures
        rent_spec(first, tile, owner, dice_total, RentModifier::Standard) < rent_spec(
            second,
            tile,
            owner,
            dice_total,
            RentModifier::Standard,
        ),
{
    law_railroad_rent_by_railroads_owned(first, tile, owner, dice_total);
    law_railroad_rent_by_railroads_owned(second, tile, owner, dice_total);
}

/// Utility rent is a multiple of the dice: four times with one utility, ten times with both,
/// and ten times after the nearest-utility card.
pub proof fn law_utility_rent_by_utilities_owned<const N: usize>(
    state: GameState<N>,
    tile: int,
    owner: int,
    dice_total: int,
)
    requires
        0 <= owner < N,
        tile == 12 || tile == 28,
        state.board.owns(owner, tile),
    ensures
        1 <= utilities_owned(state, owner) <= 2,
        rent_spec(state, tile, owner, dice_total, RentModifier::Standard)
            == UTILITY_RENT_DICE_MULTIPLIER_BY_POSSESSION_COUNT@[utilities_owned(state, owner) - 1] * dice_total,
        rent_spec(state, tile, owner, dice_total, RentModifier::NearestUtilityCard) == 10 * dice_total,
{
    lemma_railroads_counted(state, owner);
    assert(TILE_KIND_BY_TILE_ID@[tile] == TileKind::Utility);
}

proof fn lemma_no_own_buildings<const N: usize>(state: GameState<N>, owned: u64, count: nat)
    requires
        forall|property: int|
            0 <= property < count && tile_in(owned, TILE_ID_BY_PROPERTY_ID@[property] as int) ==> state.level(property)
                == 0,
    ensures
        buildings_owned(state, owned, count) == (0nat, 0nat),
    decreases count,
{
    if count > 0 {
        lemma_no_own_buildings(state, owned, (count - 1) as nat);
    }
}

proof fn lemma_own_buildings_frame<const N: usize>(
    first: GameState<N>,
    second: GameState<N>,
    owned: u64,
    count: nat,
)
    requires
        forall|property: int|
            0 <= property < count && tile_in(owned, TILE_ID_BY_PROPERTY_ID@[property] as int) ==> first.level(property)
                == second.level(property),
    ensures
        buildings_owned(first, owned, count) == buildings_owned(second, owned, count),
    decreases count,
{
    if count > 0 {
        lemma_own_buildings_frame(first, second, owned, (count - 1) as nat);
    }
}

/// A repair card bills only the buildings on the drawing player's own properties: a player
/// none of whose properties carries a building pays nothing, whatever the other players built.
pub proof fn law_repairs_bill_nothing_without_own_buildings<const N: usize>(
    state: GameState<N>,
    player: int,
    per_house: int,
    per_hotel: int,
)
    requires
        0 <= player < N,
        forall|property: int|
            0 <= property < PROPERTY_COUNT && state.board.owns(player, TILE_ID_BY_PROPERTY_ID@[property] as int)
                ==> state.level(property) == 0,
    ensures
        repair_cost(state, player, per_house, per_hotel) == 0,
{
    let owned = state.board.owned_tiles_by_player_id@[player];
    lemma_no_own_buildings(state, owned, PROPERTY_COUNT as nat);
    let (houses, hotels) = buildings_owned(state, owned, PROPERTY_COUNT as nat);
    assert(houses == 0 && hotels == 0);
    assert(houses * per_house + hotels * per_hotel == 0) by (nonlinear_arith)
        requires
            houses == 0,
            hotels == 0,
    ;
}

/// The repair bill of a player depends on the player's own holdings alone: two boards on which
/// the player owns the same tiles, with the same buildings on them, give the same bill, however
/// the other players' buildings differ.
pub proof fn law_repairs_ignore_other_players<const N: usize>(
    first: GameState<N>,
    second: GameState<N>,
    player: int,
    per_house: int,
    per_hotel: int,
)
    requires
        0 <= player < N,
        first.board.owned_tiles_by_player_id@[player] == second.board.owned_tiles_by_player_id@[player],
        forall|property: int|
            0 <= property < PROPERTY_COUNT && first.board.owns(player, TILE_ID_BY_PROPERTY_ID@[property] as int)
                ==> first.level(property) == second.level(property),
    ensures
        repair_cost(first, player, per_house, per_hotel) == repair_cost(second, player, per_house, per_hotel),
{
    lemma_own_buildings_frame(first, second, first.board.owned_tiles_by_player_id@[player], PROPERTY_COUNT as nat);
}

/// Landing on a tax tile with the cash for it takes exactly the tax from the player; the tax
/// goes to the free parking jackpot when the rules let taxes and fees feed it, and to the bank,
/// leaving the jackpot as it is, otherwise. No other player's cash changes.
pub proof fn law_tax_goes_where_the_rules_send_fees<const N: usize>(
    state: GameState<N>,
    after: GameState<N>,
    rules: Ruleset,
    player: PlayerId,
    dice_roll: DiceRoll,
    modifier: RentModifier,
)
    requires
        (player as int) < N,
        0 <= state.position_by_player_id@[player as int] < 40,
        TILE_KIND_BY_TILE_ID@[state.position_by_player_id@[player as int] as int] == TileKind::Tax,
        state.cash(player as int) >= TAX_AMOUNT_BY_TILE_ID@[state.position_by_player_id@[player as int] as int],
        landing_settled(state, after, rules, player, dice_roll, modifier),
    ensures
        ({
            let tax = TAX_AMOUNT_BY_TILE_ID@[state.position_by_player_id@[player as int] as int] as int;
            &&& after.cash(player as int) == state.cash(player as int) - tax
            &&& forall|other: int| 0 <= other < N && other != player ==> #[trigger] after.cash(other) == state.cash(other)
            &&& rules.free_parking_jackpot_mode == FreeParkingJackpotMode::TaxesAndFees && state.free_parking_jackpot + tax
                <= Cash::MAX ==> after.free_parking_jackpot == state.free_parking_jackpot + tax
            &&& rules.free_parking_jackpot_mode == FreeParkingJackpotMode::Disabled ==> after.free_parking_jackpot
                == state.free_parking_jackpot
        }),
{
}

/// A trade that hands over a mortgaged tile needs the ruleset to permit bartering mortgaged
/// properties, one that hands over an unmortgaged tile needs unmortgaged properties, one with
/// cash needs money and one with a jail card needs jail cards; without the permission the trade
/// is not permitted, so executing it changes nothing.
pub proof fn law_trades_need_their_barter_tactics<const N: usize>(
    state: GameState<N>,
    rules: Ruleset,
    offer: TradeOffer,
    tile: int,
)
    ensures
        (tile_in(offer.offered_tiles, tile) || tile_in(offer.requested_tiles, tile)) && state.board.mortgaged(tile)
            && rules.permitted_barter_tactics & BARTER_MORTGAGED_PROPERTIES == 0 ==> !trade_permitted_spec(
            state,
            rules,
            offer,
        ),
        (tile_in(offer.offered_tiles, tile) || tile_in(offer.requested_tiles, tile)) && !state.board.mortgaged(tile)
            && rules.permitted_barter_tactics & BARTER_UNMORTGAGED_PROPERTIES == 0 ==> !trade_permitted_spec(
            state,
            rules,
            offer,
        ),
        (offer.offered_cash > 0 || offer.requested_cash > 0) && rules.permitted_barter_tactics & BARTER_MONEY == 0
            ==> !trade_permitted_spec(state, rules, offer),
        (offer.offered_get_out_of_jail_free_cards != 0 || offer.requested_get_out_of_jail_free_cards != 0)
            && rules.permitted_barter_tactics & BARTER_GET_OUT_OF_JAIL_FREE_CARDS == 0 ==> !trade_permitted_spec(
            state,
            rules,
            offer,
        ),
{
    let traded = offer.offered_tiles | offer.requested_tiles;
    let tactics = rules.permitted_barter_tactics;
    if tile_in(offer.offered_tiles, tile) || tile_in(offer.requested_tiles, tile) {
        assert(tile_in(traded, tile));
        if state.board.mortgaged(tile) {
            assert(tile_in(traded & state.board.mortgaged_tiles, tile));
        } else {
            assert(tile_in(traded & !state.board.mortgaged_tiles, tile));
        }
    }
    assert(tactics & BARTER_MORTGAGED_PROPERTIES == 0 ==> tactics & 4u8 != 4u8) by (bit_vector);
    assert(tactics & BARTER_UNMORTGAGED_PROPERTIES == 0 ==> tactics & 2u8 != 2u8) by (bit_vector);
    assert(tactics & BARTER_MONEY == 0 ==> tactics & 1u8 != 1u8) by (bit_vector);
    assert(tactics & BARTER_GET_OUT_OF_JAIL_FREE_CARDS == 0 ==> tactics & 8u8 != 8u8) by (bit_vector);
    let cards_offered = offer.offered_get_out_of_jail_free_cards;
    let cards_requested = offer.requested_get_out_of_jail_free_cards;
    assert(cards_offered != 0 || cards_requested != 0 ==> cards_offered | cards_requested != 0) by (bit_vector);
}

/// The street tiles of the board.
spec fn street_tile(tile: int) -> bool {
    tile == 1 || tile == 3 || tile == 6 || tile == 8 || tile == 9 || tile == 11 || tile == 13 || tile == 14 || tile
        == 16 || tile == 18 || tile == 19 || tile == 21 || tile == 23 || tile == 24 || tile == 26 || tile == 27 || tile
        == 29 || tile == 31 || tile == 32 || tile == 34 || tile == 37 || tile == 39
}

proof fn lemma_street_rents(tile: int)
    requires
        0 <= tile < 40,
        TILE_KIND_BY_TILE_ID@[tile] == TileKind::Property,
    ensures
        street_tile(tile),
        ({
            let rents = RENT_BY_TILE_ID_BY_RENT_LEVEL@[tile]@;
            &&& rents[1] == 2 * rents[0]
            &&& 0 < rents[0] < rents[1] < rents[2] < rents[3] < rents[4] < rents[5] < rents[6]
        }),
{
    lemma_tile_tables(tile);
    assert(street_tile(tile));
}

/// A street's rent rises with its buildings, and an unbuilt street costs less than a built one:
/// of two boards on which the owner holds the street, the one with more buildings on it charges
/// more.
pub proof fn law_street_rent_rises_with_buildings<const N: usize>(
    first: GameState<N>,
    second: GameState<N>,
    tile: int,
    owner: int,
    dice_total: int,
)
    requires
        0 <= tile < 40,
        TILE_KIND_BY_TILE_ID@[tile] == TileKind::Property,
        first.level(PROPERTY_ID_OR_NONE_BY_TILE_ID@[tile] as int) < second.level(
            PROPERTY_ID_OR_NONE_BY_TILE_ID@[tile] as int,
        ) <= HOTEL_IMPROVEMENT_LEVEL,
    ensures
        rent_spec(first, tile, owner, dice_total, RentModifier::Standard) < rent_spec(
            second,
            tile,
            owner,
            dice_total,
            RentModifier::Standard,
        ),
{
    lemma_street_rents(tile);
}

/// An unbuilt street charges double rent once its owner holds every tile of its colour group:
/// between a board where the owner lacks a tile of the group and one where the owner holds all
/// of them, the street unbuilt on both, the rent doubles.
pub proof fn law_unbuilt_street_rent_doubles_with_whole_group<const N: usize>(
    first: GameState<N>,
    second: GameState<N>,
    tile: int,
    owner: int,
    missing: int,
    dice_total: int,
)
    requires
        0 <= tile < 40,
        TILE_KIND_BY_TILE_ID@[tile] == TileKind::Property,
        first.level(PROPERTY_ID_OR_NONE_BY_TILE_ID@[tile] as int) == 0,
        second.level(PROPERTY_ID_OR_NONE_BY_TILE_ID@[tile] as int) == 0,
        0 <= missing < 40,
        OWNERSHIP_GROUP_INDEX_BY_TILE_ID@[missing] == OWNERSHIP_GROUP_INDEX_BY_TILE_ID@[tile],
        !first.board.owns(owner, missing),
        forall|other: int|
            0 <= other < 40 && OWNERSHIP_GROUP_INDEX_BY_TILE_ID@[other] == OWNERSHIP_GROUP_INDEX_BY_TILE_ID@[tile]
                ==> second.board.owns(owner, other),
    ensures
        rent_spec(second, tile, owner, dice_total, RentModifier::Standard) == 2 * rent_spec(
            first,
            tile,
            owner,
            dice_total,
            RentModifier::Standard,
        ),
{
    lemma_street_rents(tile);
    lemma_tile_tables(tile);
    let group = OWNERSHIP_GROUP_INDEX_BY_TILE_ID@[tile] as int;
    lemma_group_mask_membership(group, missing);
    assert(tile_in(TILE_SET_MASK_BY_OWNERSHIP_GROUP@[group], missing));
    assert forall|other: int| tile_in(TILE_SET_MASK_BY_OWNERSHIP_GROUP@[group], other) implies second.board.owns(
        owner,
        other,
    ) by {
        lemma_group_mask_membership(group, other);
    }
}

/// Drawing a repair card costs a player nothing, and changes nothing, when none of the
/// player's own properties carries a building, whatever the other players built.
pub proof fn law_repair_card_is_free_without_own_buildings<const N: usize>(
    state: GameState<N>,
    after: GameState<N>,
    rules: Ruleset,
    player: PlayerId,
    deck: DeckKind,
    card_id: CardId,
    dice_roll: DiceRoll,
)
    requires
        (player as int) < N,
        card_effect_spec(deck, card_id) is PayForRepairs,
        forall|property: int|
            0 <= property < PROPERTY_COUNT && state.board.owns(player as int, TILE_ID_BY_PROPERTY_ID@[property] as int)
                ==> state.level(property) == 0,
        card_applied(state, after, rules, player, deck, card_id, dice_roll),
    ensures
        after == state,
{
    match card_effect_spec(deck, card_id) {
        CardEffect::PayForRepairs { amount_per_house, amount_per_hotel } => {
            law_repairs_bill_nothing_without_own_buildings(
                state,
                player as int,
                amount_per_house as int,
                amount_per_hotel as int,
            );
        },
        _ => {},
    }
}

/// A trade needs the traded holdings: two different players, each giving only tiles that it
/// owns and no more cash than it has; otherwise the trade is not permitted.
pub proof fn law_trades_need_the_traded_holdings<const N: usize>(
    state: GameState<N>,
    rules: Ruleset,
    offer: TradeOffer,
    tile: int,
)
    ensures
        offer.proposer_player_id == offer.recipient_player_id ==> !trade_permitted_spec(state, rules, offer),
        tile_in(offer.offered_tiles, tile) && !state.board.owns(offer.proposer_player_id as int, tile)
            ==> !trade_permitted_spec(state, rules, offer),
        tile_in(offer.requested_tiles, tile) && !state.board.owns(offer.recipient_player_id as int, tile)
            ==> !trade_permitted_spec(state, rules, offer),
        (offer.proposer_player_id as int) < N && state.cash(offer.proposer_player_id as int) < offer.offered_cash
            ==> !trade_permitted_spec(state, rules, offer),
        (offer.recipient_player_id as int) < N && state.cash(offer.recipient_player_id as int) < offer.requested_cash
            ==> !trade_permitted_spec(state, rules, offer),
{
}

proof fn lemma_no_own_hotels<const N: usize>(state: GameState<N>, owned: u64, count: nat)
    requires
        forall|property: int|
            0 <= property < count && tile_in(owned, TILE_ID_BY_PROPERTY_ID@[property] as int) ==> state.level(property)
                != HOTEL_IMPROVEMENT_LEVEL,
    ensures
        buildings_owned(state, owned, count).1 == 0,
    decreases count,
{
    if count > 0 {
        lemma_no_own_hotels(state, owned, (count - 1) as nat);
    }
}

proof fn lemma_no_own_houses<const N: usize>(state: GameState<N>, owned: u64, count: nat)
    requires
        forall|property: int|
            0 <= property < count && tile_in(owned, TILE_ID_BY_PROPERTY_ID@[property] as int) ==> (state.level(property)
                == 0 || state.level(property) == HOTEL_IMPROVEMENT_LEVEL),
    ensures
        buildings_owned(state, owned, count).0 == 0,
    decreases count,
{
    if count > 0 {
        lemma_no_own_houses(state, owned, (count - 1) as nat);
    }
}

/// A repair bill charges hotels at the hotel rate and houses at the house rate: without a hotel
/// on the player's own properties the hotel rate does not matter, and when every building the
/// player owns is a hotel the house rate does not matter.
pub proof fn law_repairs_charge_each_building_at_its_rate<const N: usize>(
    state: GameState<N>,
    player: int,
    per_house: int,
    per_hotel: int,
    other_rate: int,
)
    requires
        0 <= player < N,
    ensures
        (forall|property: int|
            0 <= property < PROPERTY_COUNT && state.board.owns(player, TILE_ID_BY_PROPERTY_ID@[property] as int)
                ==> state.level(property) != HOTEL_IMPROVEMENT_LEVEL) ==> repair_cost(state, player, per_house, per_hotel)
            == repair_cost(state, player, per_house, other_rate),
        (forall|property: int|
            0 <= property < PROPERTY_COUNT && state.board.owns(player, TILE_ID_BY_PROPERTY_ID@[property] as int)
                ==> (state.level(property) == 0 || state.level(property) == HOTEL_IMPROVEMENT_LEVEL)) ==> repair_cost(
            state,
            player,
            per_house,
            per_hotel,
        ) == repair_cost(state, player, other_rate, per_hotel),
{
    let owned = state.board.owned_tiles_by_player_id@[player];
    let (houses, hotels) = buildings_owned(state, owned, PROPERTY_COUNT as nat);
    if forall|property: int|
        0 <= property < PROPERTY_COUNT && state.board.owns(player, TILE_ID_BY_PROPERTY_ID@[property] as int)
            ==> state.level(property) != HOTEL_IMPROVEMENT_LEVEL {
        lemma_no_own_hotels(state, owned, PROPERTY_COUNT as nat);
        assert(hotels * per_hotel == hotels * other_rate) by (nonlinear_arith)
            requires
                hotels == 0,
        ;
    }
    if forall|property: int|
        0 <= property < PROPERTY_COUNT && state.board.owns(player, TILE_ID_BY_PROPERTY_ID@[property] as int)
            ==> (state.level(property) == 0 || state.level(property) == HOTEL_IMPROVEMENT_LEVEL) {
        lemma_no_own_houses(state, owned, PROPERTY_COUNT as nat);
        assert(houses * per_house == houses * other_rate) by (nonlinear_arith)
            requires
                houses == 0,
        ;
    }
}

/// A card that makes the player pay the bank sends the fee where the rules send fees: with
/// the cash for it, the player pays exactly the amount, and the jackpot grows by it when taxes
/// and fees feed the jackpot, and stays as it is otherwise.
pub proof fn law_card_fees_go_where_the_rules_send_fees<const N: usize>(
    state: GameState<N>,
    after: GameState<N>,
    rules: Ruleset,
    player: PlayerId,
    deck: DeckKind,
    card_id: CardId,
    dice_roll: DiceRoll,
)
    requires
        (player as int) < N,
        card_effect_spec(deck, card_id) is PayBank,
        state.cash(player as int) >= card_effect_spec(deck, card_id)->PayBank_amount,
        card_applied(state, after, rules, player, deck, card_id, dice_roll),
    ensures
        ({
            let fee = card_effect_spec(deck, card_id)->PayBank_amount as int;
            &&& after.cash(player as int) == state.cash(player as int) - fee
            &&& rules.free_parking_jackpot_mode == FreeParkingJackpotMode::TaxesAndFees && state.free_parking_jackpot + fee
                <= Cash::MAX ==> after.free_parking_jackpot == state.free_parking_jackpot + fee
            &&& rules.free_parking_jackpot_mode == FreeParkingJackpotMode::Disabled ==> after.free_parking_jackpot
                == state.free_parking_jackpot
        }),
{
}

} // verus!
