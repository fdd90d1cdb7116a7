use vstd::prelude::*;

use crate::game::strategy::model::policies_kept;

use super::action::{
    execute_purchase,
    purchase_check,
    purchased,
    validate_purchase,
};
use super::auction::{
    may_bid,
    run_auction,
};
use super::card::{
    card_applied,
    card_drawn,
    draw_and_apply_card,
};
use super::event::{
    GameEvent,
    lemma_published_one,
    lemma_published_then,
    publish_event,
    published_all,
};
use super::movement::{
    send_player_to_jail,
    sent_to_jail,
};
use super::payment::{
    Creditor,
    charge_player,
    fee_creditor,
    paid,
    select_fee_creditor,
};
use super::trade::{
    run_trade_phase,
    traded_with,
};
use crate::game::trade::model::TradeOffer;
use crate::game::board::model::PlayerId;
use crate::game::card::data::{
    NEAREST_RAILROAD_RENT_MULTIPLIER,
    NEAREST_UTILITY_RENT_DICE_MULTIPLIER,
};
use crate::game::card::model::DeckKind;
use crate::game::rng::DiceRoll;
use crate::game::ruleset::model::{
    BARTER_BEFORE_PURCHASE,
    PropertyPurchaseDeclineMode,
    Ruleset,
    mask_contains_spec,
};
use crate::game::state::model::{
    GameState,
    bankruptcy_kept,
    group_player_mask,
    lemma_state_frame,
};
use crate::game::strategy::greedy::{
    cash_of,
    price_of,
};
use crate::game::strategy::model::PlayerStrategy;
use crate::game::tile::data::{
    JAIL_TILE_ID,
    TILE_COUNT,
};
use crate::game::tile::lut::{
    ONE_HOUSE_RENT_LEVEL,
    PURCHASE_PRICE_BY_TILE_ID,
    OWNERSHIP_GROUP_INDEX_BY_TILE_ID,
    PROPERTY_ID_OR_NONE_BY_TILE_ID,
    RAILROAD_TILE_SET_MASK,
    RENT_BY_TILE_ID_BY_RENT_LEVEL,
    TAX_AMOUNT_BY_TILE_ID,
    TILE_KIND_BY_TILE_ID,
    TILE_SET_MASK_BY_OWNERSHIP_GROUP,
    UNIMPROVED_MONOPOLY_RENT_LEVEL,
    UNIMPROVED_RENT_LEVEL,
    UTILITY_TILE_SET_MASK,
    lemma_tile_tables,
};
use crate::game::tile::model::{
    Cash,
    TileId,
    TileKind,
    credit,
    credited,
    group_tile_mask,
    tile_count,
    tile_in,
};

verus! {

broadcast use {group_player_mask, group_tile_mask};

#[derive(Debug, Clone, Copy, PartialEq, Eq, Hash, Structural)]
pub enum RentModifier {
    Standard,
    NearestRailroadCard,
    NearestUtilityCard,
}

/// The consecutive doubles of the turn of `player` stand unless the player went to jail or
/// went bankrupt.
pub open spec fn double_count_kept<const N: usize>(before: GameState<N>, after: GameState<N>, player: int) -> bool {
    after.consecutive_double_count == before.consecutive_double_count || after.is_jailed(player) || after.is_bankrupt(player)
}

/// The tile three tiles behind `tile`.
pub open spec fn back_three(tile: int) -> int {
    (tile + TILE_COUNT - 3) % (TILE_COUNT as int)
}

/// How deep the card draws that landing on `tile` can set off reach, for a tile that a
/// Chance card cannot move a player back onto.
pub open spec fn plain_depth(tile: int) -> int {
    if TILE_KIND_BY_TILE_ID@[tile] == TileKind::CommunityChest {
        1
    } else {
        0
    }
}

/// How deep the card draws that landing on `tile` can set off reach: a Chance card can move
/// the player back three tiles, onto a Community Chest tile at most; other cards move players
/// onto tiles without cards.
pub open spec fn landing_depth(tile: int) -> int {
    if TILE_KIND_BY_TILE_ID@[tile] == TileKind::Chance {
        1 + plain_depth(back_three(tile))
    } else {
        plain_depth(tile)
    }
}

/// No Chance tile lies three tiles ahead of another.
pub proof fn lemma_chance_tiles_apart(tile: int)
    requires
        0 <= tile < TILE_COUNT,
        TILE_KIND_BY_TILE_ID@[tile] == TileKind::Chance,
    ensures
        TILE_KIND_BY_TILE_ID@[back_three(tile)] != TileKind::Chance,
        landing_depth(back_three(tile)) == plain_depth(back_three(tile)),
{
    lemma_tile_tables(tile);
    assert(tile == 7 || tile == 22 || tile == 36);
}

/// The rent that landing on the owned `tile` costs: a street charges by its buildings, double
/// when unimproved in a complete group; a railroad by the railroads its owner holds, doubled
/// by the nearest-railroad card; a utility a multiple of the dice, by the utilities its owner
/// holds or ten times after the nearest-utility card.
pub open spec fn rent_spec<const N: usize>(
    state: GameState<N>,
    tile: int,
    owner: int,
    dice_total: int,
    modifier: RentModifier,
) -> int {
    let rents = RENT_BY_TILE_ID_BY_RENT_LEVEL@[tile]@;
    match TILE_KIND_BY_TILE_ID@[tile] {
        TileKind::Property => {
            let level = state.level(PROPERTY_ID_OR_NONE_BY_TILE_ID@[tile] as int);
            let group = OWNERSHIP_GROUP_INDEX_BY_TILE_ID@[tile] as int;
            let rent_level = if level > 0 {
                ONE_HOUSE_RENT_LEVEL + level - 1
            } else if forall|t: int| tile_in(TILE_SET_MASK_BY_OWNERSHIP_GROUP@[group], t) ==> state.board.owns(owner, t) {
                UNIMPROVED_MONOPOLY_RENT_LEVEL as int
            } else {
                UNIMPROVED_RENT_LEVEL as int
            };
            rents[rent_level] as int
        },
        TileKind::Railroad => {
            let rent = rents[tile_count(state.board.owned_tiles_by_player_id@[owner] & RAILROAD_TILE_SET_MASK) - 1] as int;
            if modifier == RentModifier::NearestRailroadCard {
                rent * NEAREST_RAILROAD_RENT_MULTIPLIER
            } else {
                rent
            }
        },
        TileKind::Utility => {
            let multiplier = if modifier == RentModifier::NearestUtilityCard {
                NEAREST_UTILITY_RENT_DICE_MULTIPLIER as int
            } else {
                rents[tile_count(state.board.owned_tiles_by_player_id@[owner] & UTILITY_TILE_SET_MASK) - 1] as int
            };
            multiplier * dice_total
        },
        _ => 0,
    }
}

#[verifier::spinoff_prover]
fn calculate_rent<const N: usize>(
    state: &GameState<N>,
    tile: TileId,
    owner: PlayerId,
    dice_roll: DiceRoll,
    modifier: RentModifier,
) -> (rent: Cash)
    requires
        state.wf(),
        (tile as usize) < TILE_COUNT,
        (owner as usize) < N,
        state.board.owns(owner as int, tile as int),
        dice_roll.first_die + dice_roll.second_die <= u8::MAX,
    ensures
        rent == rent_spec(*state, tile as int, owner as int, dice_roll.first_die + dice_roll.second_die, modifier),
{
    proof {
        lemma_tile_tables(tile as int);
    }
    let index = tile as usize;
    match TILE_KIND_BY_TILE_ID[index] {
        TileKind::Property => {
            let property = PROPERTY_ID_OR_NONE_BY_TILE_ID[index];
            let group = OWNERSHIP_GROUP_INDEX_BY_TILE_ID[index];
            let level = state.board.improvement_level_by_property_id[property as usize];
            assert(state.level(property as int) <= 5);
            let rent_level: usize = if level > 0 {
                ONE_HOUSE_RENT_LEVEL + level as usize - 1
            } else if state.board.does_player_own_all_tiles(owner, TILE_SET_MASK_BY_OWNERSHIP_GROUP[group as usize]) {
                UNIMPROVED_MONOPOLY_RENT_LEVEL
            } else {
                UNIMPROVED_RENT_LEVEL
            };
            RENT_BY_TILE_ID_BY_RENT_LEVEL[index][rent_level] as Cash
        },
        TileKind::Railroad => {
            proof {
                crate::game::tile::lut::lemma_named_masks();
                crate::game::tile::lut::lemma_group_mask_membership(8, tile as int);
                lemma_owned_count_positive(*state, owner as int, tile as int, RAILROAD_TILE_SET_MASK);
            }
            let count = state.board.get_player_owned_tiles_count(owner, RAILROAD_TILE_SET_MASK) as usize;
            let rent = RENT_BY_TILE_ID_BY_RENT_LEVEL[index][count - 1] as Cash;
            match modifier {
                RentModifier::NearestRailroadCard => rent * NEAREST_RAILROAD_RENT_MULTIPLIER as Cash,
                _ => rent,
            }
        },
        TileKind::Utility => {
            proof {
                crate::game::tile::lut::lemma_named_masks();
                crate::game::tile::lut::lemma_group_mask_membership(9, tile as int);
                lemma_owned_count_positive(*state, owner as int, tile as int, UTILITY_TILE_SET_MASK);
            }
            let count = state.board.get_player_owned_tiles_count(owner, UTILITY_TILE_SET_MASK) as usize;
            let multiplier = match modifier {
                RentModifier::NearestUtilityCard => NEAREST_UTILITY_RENT_DICE_MULTIPLIER,
                _ => RENT_BY_TILE_ID_BY_RENT_LEVEL[index][count - 1],
            };
            let total = dice_roll.total();
            assert(multiplier * total <= 65535 * 255) by (nonlinear_arith)
                requires
                    multiplier <= 65535,
                    total <= 255,
            ;
            multiplier as Cash * total as Cash
        },
        _ => 0,
    }
}

/// The number of railroads, or of utilities, below `bound`.
spec fn slots_below(railroads: bool, bound: int) -> int {
    if railroads {
        (if bound > 5 { 1int } else { 0 }) + (if bound > 15 { 1int } else { 0 }) + (if bound > 25 { 1int } else { 0 }) + (
        if bound > 35 { 1int } else { 0 })
    } else {
        (if bound > 12 { 1int } else { 0 }) + (if bound > 28 { 1int } else { 0 })
    }
}

spec fn is_slot(railroads: bool, tile: int) -> bool {
    if railroads {
        tile == 5 || tile == 15 || tile == 25 || tile == 35
    } else {
        tile == 12 || tile == 28
    }
}

proof fn lemma_slot_count(mask: u64, railroads: bool, bound: nat)
    requires
        forall|t: int| tile_in(mask, t) ==> is_slot(railroads, t),
    ensures
        crate::game::tile::model::tile_count_below(mask, bound) <= slots_below(railroads, bound as int),
    decreases bound,
{
    if bound > 0 {
        lemma_slot_count(mask, railroads, (bound - 1) as nat);
    }
}

proof fn lemma_count_positive(mask: u64, tile: int, bound: nat)
    requires
        tile_in(mask, tile),
        tile < bound,
    ensures
        crate::game::tile::model::tile_count_below(mask, bound) >= 1,
    decreases bound,
{
    if bound - 1 > tile {
        lemma_count_positive(mask, tile, (bound - 1) as nat);
    }
}

/// A player who owns a railroad owns one to four railroads; one who owns a utility owns one
/// or two utilities.
proof fn lemma_owned_count_positive<const N: usize>(state: GameState<N>, owner: int, tile: int, tiles: u64)
    requires
        state.board.owns(owner, tile),
        tile_in(tiles, tile),
        tiles == RAILROAD_TILE_SET_MASK || tiles == UTILITY_TILE_SET_MASK,
    ensures
        1 <= tile_count(state.board.owned_tiles_by_player_id@[owner] & tiles) <= 4,
{
    let owned = state.board.owned_tiles_by_player_id@[owner];
    let railroads = tiles == RAILROAD_TILE_SET_MASK;
    crate::game::tile::lut::lemma_constant_mask_bits();
    assert(tile_in(owned & tiles, tile));
    assert forall|t: int| tile_in(owned & tiles, t) implies is_slot(railroads, t) by {
        assert(tile_in(tiles, t));
        assert(((tiles >> (t as u64)) & 1u64 == 1u64));
    }
    lemma_slot_count(owned & tiles, railroads, 64);
    lemma_count_positive(owned & tiles, tile, 64);
}

/// Whether `after` is what offering `tile` to `player` can give from `state`, whatever the
/// players answer: nothing; the player's purchase at the tile's price, where the rules allow
/// it; or, in auction mode, a sale to a player allowed to bid, for a positive price within that
/// player's cash.
pub open spec fn purchase_outcome<const N: usize>(
    state: GameState<N>,
    after: GameState<N>,
    rules: Ruleset,
    player: PlayerId,
    tile: int,
) -> bool {
    ||| after == state
    ||| (purchase_check(state, player as int, tile) matches Ok(price) && after == purchased(state, player as int, tile, price))
    ||| (rules.property_purchase_decline_mode == PropertyPurchaseDeclineMode::Auction && exists|winner: int, price: Cash|
        #![trigger purchased(state, winner, tile, price)]
        {
            &&& may_bid(state, rules, player as int, winner)
            &&& 0 < price <= state.cash(winner)
            &&& after == purchased(state, winner, tile, price)
        })
}

/// Whether `after` is what `player` landing on the ownable `tile` in `state` gives: on an
/// unowned tile, the outcome of an offer after any trade the barter rules allow; nothing on the
/// player's own tile or a mortgaged one; and the rent paid to the owner when the player has the
/// cash.
pub open spec fn ownable_landing_settled<const N: usize>(
    state: GameState<N>,
    after: GameState<N>,
    rules: Ruleset,
    player: PlayerId,
    tile: int,
    dice_roll: DiceRoll,
    modifier: RentModifier,
) -> bool {
    match state.board.owner_of(tile) {
        None => exists|traded: GameState<N>|
            #![trigger purchase_outcome(traded, after, rules, player, tile)]
            {
                &&& traded == state || (mask_contains_spec(rules.permitted_barter_times, BARTER_BEFORE_PURCHASE)
                    && exists|offer: TradeOffer| traded_with(state, traded, rules, player as int, offer))
                &&& purchase_outcome(traded, after, rules, player, tile)
            },
        Some(owner) => if owner == player || state.board.mortgaged(tile) {
            after == state
        } else {
            let rent = rent_spec(state, tile, owner as int, dice_roll.first_die + dice_roll.second_die, modifier);
            state.cash(player as int) >= rent ==> after == paid(state, player as int, rent as Cash, Creditor::Player(owner))
        },
    }
}

/// Whether `after` is what `player` landing on the tile the player stands on in `state` gives,
/// for every tile but the card tiles: an ownable tile as above; a tax paid when the player has
/// the cash; jail, with the doubles count reset; the jackpot collected; and nothing on Go or the
/// jail tile.
pub open spec fn landing_settled_without_cards<const N: usize>(
    state: GameState<N>,
    after: GameState<N>,
    rules: Ruleset,
    player: PlayerId,
    dice_roll: DiceRoll,
    modifier: RentModifier,
) -> bool {
    let tile = state.position_by_player_id@[player as int] as int;
    match TILE_KIND_BY_TILE_ID@[tile] {
        TileKind::Property | TileKind::Railroad | TileKind::Utility => ownable_landing_settled(
            state,
            after,
            rules,
            player,
            tile,
            dice_roll,
            modifier,
        ),
        TileKind::Tax => state.cash(player as int) >= TAX_AMOUNT_BY_TILE_ID@[tile] ==> after == paid(
            state,
            player as int,
            TAX_AMOUNT_BY_TILE_ID@[tile] as Cash,
            fee_creditor(rules),
        ),
        TileKind::Chance | TileKind::CommunityChest => true,
        TileKind::GoToJail => after == sent_to_jail(state, player as int),
        TileKind::FreeParking => after == (GameState {
            cash_by_player_id: vstd::array::spec_array_update(
                state.cash_by_player_id,
                player as int,
                credited(state.cash(player as int), state.free_parking_jackpot),
            ),
            free_parking_jackpot: 0,
            ..state
        }),
        TileKind::Go | TileKind::Jail => after == state,
    }
}

/// Whether `after` is what `player` landing on the tile the player stands on in `state` gives:
/// on a card tile, the next card of its deck drawn and applied as `card_applied` says; on every
/// other tile as `landing_settled_without_cards` says.
pub open spec fn landing_settled<const N: usize>(
    state: GameState<N>,
    after: GameState<N>,
    rules: Ruleset,
    player: PlayerId,
    dice_roll: DiceRoll,
    modifier: RentModifier,
) -> bool {
    let tile = state.position_by_player_id@[player as int] as int;
    match TILE_KIND_BY_TILE_ID@[tile] {
        TileKind::Chance => {
            let (drawn, card_id) = card_drawn(state, DeckKind::Chance);
            card_applied(drawn, after, rules, player, DeckKind::Chance, card_id, dice_roll)
        },
        TileKind::CommunityChest => {
            let (drawn, card_id) = card_drawn(state, DeckKind::CommunityChest);
            card_applied(drawn, after, rules, player, DeckKind::CommunityChest, card_id, dice_roll)
        },
        _ => landing_settled_without_cards(state, after, rules, player, dice_roll, modifier),
    }
}

/// Whether landing where `player` stands in `state` consults no strategy: on go, in jail
/// (just visiting), on go-to-jail or on free parking.
pub open spec fn landing_is_quiet<const N: usize>(state: GameState<N>, player: PlayerId) -> bool {
    let tile = state.position_by_player_id@[player as int] as int;
    match TILE_KIND_BY_TILE_ID@[tile] {
        TileKind::Go | TileKind::Jail | TileKind::GoToJail | TileKind::FreeParking => true,
        _ => false,
    }
}

/// The events that such a quiet landing publishes after the landing itself: the arrest on
/// go-to-jail, and the jackpot on free parking where it is not empty.
pub open spec fn quiet_landing_events<const N: usize>(state: GameState<N>, player: PlayerId) -> Seq<GameEvent> {
    let tile = state.position_by_player_id@[player as int] as int;
    match TILE_KIND_BY_TILE_ID@[tile] {
        TileKind::GoToJail => seq![GameEvent::SentToJail { player_id: player }],
        TileKind::FreeParking => if state.free_parking_jackpot > 0 {
            seq![GameEvent::FreeParkingCollected { player_id: player, amount: state.free_parking_jackpot }]
        } else {
            seq![]
        },
        _ => seq![],
    }
}

/// Resolves `player` landing on the tile the player stands on: buying or paying rent on an
/// ownable tile, paying a tax, drawing a card, going to jail or collecting the jackpot.
pub fn resolve_landing<const N: usize, Strategy: PlayerStrategy>(
    state: &mut GameState<N>,
    rules: &Ruleset,
    strategies: &mut [Strategy; N],
    player: PlayerId,
    dice_roll: DiceRoll,
    modifier: RentModifier,
)
    requires
        old(state).wf(),
        (player as usize) < N,
        !old(state).is_bankrupt(player as int),
        dice_roll.first_die + dice_roll.second_die <= u8::MAX,
    ensures
        policies_kept(old(strategies)@, final(strategies)@),
        final(state).wf(),
        final(state).current_player_id == old(state).current_player_id,
        bankruptcy_kept(*old(state), *final(state)),
        double_count_kept(*old(state), *final(state), player as int),
        landing_settled(*old(state), *final(state), *rules, player, dice_roll, modifier),
        landing_is_quiet(*old(state), player) ==> published_all(
            old(strategies)@,
            player as int,
            seq![GameEvent::Landed { player_id: player, tile_id: old(state).position_by_player_id@[player as int] }]
                + quiet_landing_events(*old(state), player),
            final(strategies)@,
        ),
    decreases landing_depth(state.position_by_player_id@[player as int] as int), 2int,
{
    let tile = state.position_by_player_id[player as usize];
    let ghost strategies_before = strategies@;
    publish_event(strategies, player as usize, GameEvent::Landed { player_id: player, tile_id: tile });
    let ghost strategies_landed = strategies@;
    proof {
        lemma_published_one(
            strategies_before,
            player as int,
            GameEvent::Landed { player_id: player, tile_id: tile },
            strategies_landed,
        );
    }
    proof {
        lemma_tile_tables(tile as int);
    }
    match TILE_KIND_BY_TILE_ID[tile as usize] {
        TileKind::Property | TileKind::Railroad | TileKind::Utility => {
            resolve_ownable_tile_landing(state, rules, strategies, player, tile, dice_roll, modifier);
        },
        TileKind::Tax => {
            let tax = TAX_AMOUNT_BY_TILE_ID[tile as usize] as Cash;
            charge_player(state, rules, strategies, player, tax, select_fee_creditor(rules));
        },
        TileKind::Chance => {
            proof {
                lemma_chance_tiles_apart(tile as int);
            }
            draw_and_apply_card(state, rules, strategies, player, DeckKind::Chance, dice_roll);
        },
        TileKind::CommunityChest => {
            draw_and_apply_card(state, rules, strategies, player, DeckKind::CommunityChest, dice_roll);
        },
        TileKind::GoToJail => {
            let event = send_player_to_jail(state, player);
            publish_event(strategies, player as usize, event);
            proof {
                lemma_published_then(
                    strategies_before,
                    player as int,
                    seq![GameEvent::Landed { player_id: player, tile_id: tile }],
                    strategies_landed,
                    event,
                    strategies@,
                );
                assert(seq![GameEvent::Landed { player_id: player, tile_id: tile }].push(event) =~= seq![
                    GameEvent::Landed { player_id: player, tile_id: tile },
                ] + quiet_landing_events(*old(state), player));
            }
        },
        TileKind::FreeParking => {
            let amount = state.free_parking_jackpot;
            let ghost before = *state;
            state.cash_by_player_id[player as usize] = credit(state.cash_by_player_id[player as usize], amount);
            state.free_parking_jackpot = 0;
            proof {
                assert(state.cash_by_player_id =~= vstd::array::spec_array_update(
                    before.cash_by_player_id,
                    player as int,
                    credited(before.cash(player as int), amount),
                ));
                lemma_state_frame(before, *state);
            }
            if amount > 0 {
                publish_event(strategies, player as usize, GameEvent::FreeParkingCollected { player_id: player, amount });
                proof {
                    let collected = GameEvent::FreeParkingCollected { player_id: player, amount };
                    lemma_published_then(
                        strategies_before,
                        player as int,
                        seq![GameEvent::Landed { player_id: player, tile_id: tile }],
                        strategies_landed,
                        collected,
                        strategies@,
                    );
                    assert(seq![GameEvent::Landed { player_id: player, tile_id: tile }].push(collected) =~= seq![
                        GameEvent::Landed { player_id: player, tile_id: tile },
                    ] + quiet_landing_events(*old(state), player));
                }
            } else {
                assert(seq![GameEvent::Landed { player_id: player, tile_id: tile }] =~= seq![
                    GameEvent::Landed { player_id: player, tile_id: tile },
                ] + quiet_landing_events(*old(state), player));
            }
        },
        TileKind::Go | TileKind::Jail => {
            assert(seq![GameEvent::Landed { player_id: player, tile_id: tile }] =~= seq![
                GameEvent::Landed { player_id: player, tile_id: tile },
            ] + quiet_landing_events(*old(state), player));
        },
    }
}

fn resolve_ownable_tile_landing<const N: usize, Strategy: PlayerStrategy>(
    state: &mut GameState<N>,
    rules: &Ruleset,
    strategies: &mut [Strategy; N],
    player: PlayerId,
    tile: TileId,
    dice_roll: DiceRoll,
    modifier: RentModifier,
)
    requires
        old(state).wf(),
        (player as usize) < N,
        (tile as usize) < TILE_COUNT,
        !old(state).is_bankrupt(player as int),
        dice_roll.first_die + dice_roll.second_die <= u8::MAX,
    ensures
        policies_kept(old(strategies)@, final(strategies)@),
        final(state).wf(),
        final(state).current_player_id == old(state).current_player_id,
        bankruptcy_kept(*old(state), *final(state)),
        final(state).consecutive_double_count == old(state).consecutive_double_count,
        ownable_landing_settled(*old(state), *final(state), *rules, player, tile as int, dice_roll, modifier),
{
    match state.board.get_tile_owner(tile) {
        None => {
            run_trade_phase(state, rules, strategies, player, BARTER_BEFORE_PURCHASE);
            let ghost traded = *state;
            offer_purchase(state, rules, strategies, player, tile);
            proof {
                assert(purchase_outcome(traded, *state, *rules, player, tile as int));
            }
        },
        Some(owner) => {
            if owner == player || state.board.is_tile_mortgaged(tile) {
                return;
            }
            proof {
                if old(state).is_bankrupt(owner as int) {
                    crate::game::tile::model::lemma_tile_in_zero(tile as int);
                }
            }
            let rent = calculate_rent(state, tile, owner, dice_roll, modifier);
            charge_player(state, rules, strategies, player, rent, Creditor::Player(owner));
        },
    }
}

/// Whether `after` is what follows from `state` once `player` did not buy `tile`: where the
/// rules auction declined tiles and the tile is unowned, the auction leaves it unsold or sells
/// it to a player who may bid, for a price above zero within that player's cash; otherwise
/// nothing changes.
pub open spec fn declined_outcome<const N: usize>(
    state: GameState<N>,
    after: GameState<N>,
    rules: Ruleset,
    player: PlayerId,
    tile: int,
) -> bool {
    if rules.property_purchase_decline_mode == PropertyPurchaseDeclineMode::Auction && state.board.owner_of(tile) is None {
        ||| after == state
        ||| exists|winner: int, price: Cash|
            #![trigger purchased(state, winner, tile, price)]
            {
                &&& may_bid(state, rules, player as int, winner)
                &&& 0 < price <= state.cash(winner)
                &&& after == purchased(state, winner, tile, price)
            }
    } else {
        after == state
    }
}

/// Offers `tile` to `player`, who stands on it: the player buys it when the purchase is legal
/// and the player's strategy wants it; otherwise the tile may go to auction.
fn offer_purchase<const N: usize, Strategy: PlayerStrategy>(
    state: &mut GameState<N>,
    rules: &Ruleset,
    strategies: &mut [Strategy; N],
    player: PlayerId,
    tile: TileId,
)
    requires
        old(state).wf(),
        (player as usize) < N,
        (tile as usize) < TILE_COUNT,
    ensures
        policies_kept(old(strategies)@, final(strategies)@),
        final(state).wf(),
        crate::game::state::model::only_holdings_changed(*old(state), *final(state)),
        purchase_check(*old(state), player as int, tile as int) is Err && rules.property_purchase_decline_mode
            != PropertyPurchaseDeclineMode::Auction ==> *final(state) == *old(state),
        purchase_outcome(*old(state), *final(state), *rules, player, tile as int),
        match purchase_check(*old(state), player as int, tile as int) {
            Ok(price) => exists|buy: bool, answered: Strategy|
                #[trigger] old(strategies)@[player as int].chooses_purchase(
                    cash_of(*old(state), player as int),
                    price_of(PURCHASE_PRICE_BY_TILE_ID@, tile as int),
                    buy,
                    answered,
                ) && if buy {
                    *final(state) == purchased(*old(state), player as int, tile as int, price)
                } else {
                    declined_outcome(*old(state), *final(state), *rules, player, tile as int)
                },
            Err(_) => declined_outcome(*old(state), *final(state), *rules, player, tile as int),
        },
{
    if validate_purchase(state, player, tile).is_ok() {
        let ghost asked = strategies@[player as int];
        let buy = strategies[player as usize].should_purchase_property(state, rules, player, tile);
        assert(asked.chooses_purchase(
            cash_of(*state, player as int),
            price_of(PURCHASE_PRICE_BY_TILE_ID@, tile as int),
            buy,
            strategies@[player as int],
        ));
        if buy {
            if let Ok(event) = execute_purchase(state, player, tile) {
                publish_event(strategies, player as usize, event);
                return;
            }
        }
    }
    if state.board.get_tile_owner(tile).is_none() && rules.property_purchase_decline_mode
        == PropertyPurchaseDeclineMode::Auction {
        run_auction(state, rules, strategies, player, tile);
    }
}

} // verus!
