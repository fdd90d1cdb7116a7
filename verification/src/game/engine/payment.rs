use vstd::prelude::*;

use crate::game::strategy::model::{
    liquidation_choice_by,
    policies_kept,
};

use super::auction::run_auction;
use super::event::{
    GameEvent,
    lemma_published_none,
    lemma_published_then,
    publish_event,
    published,
    published_all,
};
use super::liquidation::{
    LiquidationAction,
    default_liquidation_action,
    default_liquidation_spec,
    execute_liquidation_action,
    is_legal_liquidation,
    liquidated,
    liquidation_measure,
};
use super::mortgage::{
    calculate_mortgage_transfer_interest,
    transfer_interest_spec,
};
use super::trade::run_trade_phase;
use crate::game::board::model::{
    BoardState,
    PlayerId,
};
use crate::game::ruleset::model::{
    BARTER_DURING_PAYMENT,
    FreeParkingJackpotMode,
    PropertyPurchaseDeclineMode,
    Ruleset,
};
use crate::game::state::model::{
    GameState,
    group_player_mask,
    bankruptcy_kept,
    lemma_buildings_frame,
    lemma_ownership_frame,
    player_in,
    lemma_wf_frame,
    only_holdings_changed,
    with_player,
    without_player,
};
use crate::game::strategy::model::PlayerStrategy;
use crate::game::tile::lut::{
    OWNABLE_TILE_SET_MASK,
    lemma_ownable_mask_membership,
};
use crate::game::tile::model::{
    Cash,
    TileId,
    TileSetMask,
    contains_tile,
    credit,
    credited,
    group_tile_mask,
    tile_in,
};

verus! {

broadcast use {group_player_mask, group_tile_mask};

#[derive(Debug, Clone, Copy, PartialEq, Eq, Hash, Structural)]
pub enum Creditor {
    Bank,
    FreeParkingJackpot,
    Player(PlayerId),
}

/// Who receives fees: the free parking jackpot when the ruleset collects fees there, else the
/// bank.
pub open spec fn fee_creditor(rules: Ruleset) -> Creditor {
    match rules.free_parking_jackpot_mode {
        FreeParkingJackpotMode::Disabled => Creditor::Bank,
        FreeParkingJackpotMode::TaxesAndFees => Creditor::FreeParkingJackpot,
    }
}

pub fn select_fee_creditor(ruleset: &Ruleset) -> (creditor: Creditor)
    ensures
        creditor == fee_creditor(*ruleset),
{
    match ruleset.free_parking_jackpot_mode {
        FreeParkingJackpotMode::Disabled => Creditor::Bank,
        FreeParkingJackpotMode::TaxesAndFees => Creditor::FreeParkingJackpot,
    }
}

/// Whether `creditor` can be paid by `debtor`: a creditor player is another player still in
/// the game.
pub open spec fn creditor_valid<const N: usize>(state: GameState<N>, creditor: Creditor, debtor: int) -> bool {
    match creditor {
        Creditor::Player(player) => player < N && player != debtor && !state.is_bankrupt(player as int),
        _ => true,
    }
}

/// `state` with `amount` paid to `creditor`: the bank keeps nothing, the jackpot and players
/// hold it.
pub open spec fn credited_to<const N: usize>(state: GameState<N>, creditor: Creditor, amount: Cash) -> GameState<N> {
    match creditor {
        Creditor::Bank => state,
        Creditor::FreeParkingJackpot => GameState {
            free_parking_jackpot: credited(state.free_parking_jackpot, amount),
            ..state
        },
        Creditor::Player(player) => GameState {
            cash_by_player_id: vstd::array::spec_array_update(
                state.cash_by_player_id,
                player as int,
                credited(state.cash(player as int), amount),
            ),
            ..state
        },
    }
}

/// `state` after `debtor`, who holds at least `amount`, pays it to `creditor`.
pub open spec fn paid<const N: usize>(state: GameState<N>, debtor: int, amount: Cash, creditor: Creditor) -> GameState<N> {
    credited_to(
        GameState {
            cash_by_player_id: vstd::array::spec_array_update(
                state.cash_by_player_id,
                debtor,
                (state.cash(debtor) - amount) as Cash,
            ),
            ..state
        },
        creditor,
        amount,
    )
}

/// The fields that paying, trading, liquidating and going bankrupt leave alone.
pub open spec fn payment_frame<const N: usize>(before: GameState<N>, after: GameState<N>, debtor: int) -> bool {
    &&& after.current_player_id == before.current_player_id
    &&& after.consecutive_double_count == before.consecutive_double_count
    &&& after.position_by_player_id == before.position_by_player_id
    &&& after.jail_turn_count_by_player_id == before.jail_turn_count_by_player_id
    &&& after.deck_state_by_deck_kind == before.deck_state_by_deck_kind
    &&& after.rng == before.rng
    &&& forall|player: int| player != debtor ==> #[trigger] after.is_bankrupt(player) == before.is_bankrupt(player)
    &&& forall|player: int| player != debtor ==> #[trigger] after.is_jailed(player) == before.is_jailed(player)
    &&& before.is_bankrupt(debtor) ==> after.is_bankrupt(debtor)
    &&& !after.is_bankrupt(debtor) ==> after.is_jailed(debtor) == before.is_jailed(debtor)
    &&& after.is_bankrupt(debtor) && !before.is_bankrupt(debtor) ==> !after.is_jailed(debtor)
}

fn credit_creditor<const N: usize>(state: &mut GameState<N>, creditor: Creditor, amount: Cash)
    requires
        creditor matches Creditor::Player(player) ==> player < N,
    ensures
        *final(state) == credited_to(*old(state), creditor, amount),
{
    match creditor {
        Creditor::Bank => {},
        Creditor::FreeParkingJackpot => {
            state.free_parking_jackpot = credit(state.free_parking_jackpot, amount);
        },
        Creditor::Player(player) => {
            state.cash_by_player_id[player as usize] = credit(state.cash_by_player_id[player as usize], amount);
        },
    }
}

proof fn lemma_credit_keeps_wf<const N: usize>(state: GameState<N>, creditor: Creditor, amount: Cash, debtor: int)
    requires
        state.wf(),
        creditor_valid(state, creditor, debtor),
    ensures
        credited_to(state, creditor, amount).wf(),
{
    let after = credited_to(state, creditor, amount);
    lemma_ownership_frame(state, after);
    lemma_buildings_frame(state, after);
    lemma_wf_frame(state, after);
}

/// Charges `amount` to `debtor` for `creditor`. A debtor short of cash may first trade, then
/// liquidates buildings and mortgages; a debtor who still cannot pay goes bankrupt.
pub fn charge_player<const N: usize, Strategy: PlayerStrategy>(
    state: &mut GameState<N>,
    rules: &Ruleset,
    strategies: &mut [Strategy; N],
    debtor: PlayerId,
    amount: Cash,
    creditor: Creditor,
)
    requires
        old(state).wf(),
        (debtor as usize) < N,
        !old(state).is_bankrupt(debtor as int),
        creditor_valid(*old(state), creditor, debtor as int),
    ensures
        policies_kept(old(strategies)@, final(strategies)@),
        final(state).wf(),
        payment_frame(*old(state), *final(state), debtor as int),
        old(state).cash(debtor as int) >= amount ==> *final(state) == paid(*old(state), debtor as int, amount, creditor),
        !final(state).is_bankrupt(debtor as int) ==> only_holdings_changed(*old(state), *final(state)),
        bankruptcy_kept(*old(state), *final(state)),
        !final(state).is_bankrupt(debtor as int) ==> exists|raised: GameState<N>|
            #![trigger paid(raised, debtor as int, amount, creditor)]
            {
                &&& only_holdings_changed(*old(state), raised)
                &&& raised.cash(debtor as int) >= amount
                &&& *final(state) == paid(raised, debtor as int, amount, creditor)
            },
        final(state).is_bankrupt(debtor as int) ==> exists|raised: GameState<N>|
            #![trigger default_liquidation_spec(raised, *rules, debtor as int, None)]
            {
                &&& only_holdings_changed(*old(state), raised)
                &&& raised.cash(debtor as int) < amount
                &&& default_liquidation_spec(raised, *rules, debtor as int, None)
                &&& (creditor is Player ==> *final(state) == bankrupted(raised, debtor as int, creditor))
                &&& (!(creditor is Player) ==> returned_tiles_auctioned(
                    bankrupted(raised, debtor as int, creditor),
                    *final(state),
                    *rules,
                    raised.board.owned_tiles_by_player_id@[debtor as int],
                ))
            },
        old(state).cash(debtor as int) >= amount ==> published_all(
            old(strategies)@,
            debtor as int,
            seq![
                GameEvent::PaymentDue { player_id: debtor, creditor, amount },
                GameEvent::PaymentCompleted { player_id: debtor, creditor, amount },
            ],
            final(strategies)@,
        ),
        old(state).cash(debtor as int) < amount ==> exists|states: Seq<GameState<N>>, seats: Seq<Seq<Strategy>>|
            #[trigger] liquidations_played(states, seats, *rules, debtor) && only_holdings_changed(
                *old(state),
                states[0],
            ) && (!final(state).is_bankrupt(debtor as int) ==> *final(state) == paid(
                states.last(),
                debtor as int,
                amount,
                creditor,
            )) && (final(state).is_bankrupt(debtor as int) ==> states.last().cash(debtor as int) < amount
                && default_liquidation_spec(states.last(), *rules, debtor as int, None)),
{
    let ghost strategies_before = strategies@;
    publish_event(strategies, debtor as usize, GameEvent::PaymentDue { player_id: debtor, creditor, amount });
    let ghost strategies_due = strategies@;
    let index = debtor as usize;
    if state.cash_by_player_id[index] < amount {
        run_trade_phase(state, rules, strategies, debtor, BARTER_DURING_PAYMENT);
    }
    let ghost traded = *state;
    if state.cash_by_player_id[index] < amount {
        raise_cash(state, rules, strategies, debtor, amount);
    }
    let ghost raised = *state;
    let ghost mut liquidation_states: Seq<GameState<N>> = seq![raised];
    let ghost mut liquidation_seats: Seq<Seq<Strategy>> = seq![strategies@];
    proof {
        if traded.cash(debtor as int) < amount {
            let (found_states, found_seats) = choose|found_states: Seq<GameState<N>>, found_seats: Seq<Seq<Strategy>>|
                #[trigger] liquidations_played(found_states, found_seats, *rules, debtor) && found_states[0] == traded
                    && found_states.last() == raised;
            liquidation_states = found_states;
            liquidation_seats = found_seats;
        }
        assert(liquidations_played(liquidation_states, liquidation_seats, *rules, debtor));
        assert(liquidation_states[0] == traded && liquidation_states.last() == raised);
    }
    if state.cash_by_player_id[index] >= amount {
        let ghost before = *state;
        state.cash_by_player_id[index] = state.cash_by_player_id[index] - amount;
        proof {
            let debited = *state;
            lemma_ownership_frame(before, debited);
            lemma_buildings_frame(before, debited);
            lemma_wf_frame(before, debited);
            lemma_credit_keeps_wf(debited, creditor, amount, debtor as int);
        }
        credit_creditor(state, creditor, amount);
        publish_event(strategies, index, GameEvent::PaymentCompleted { player_id: debtor, creditor, amount });
        assert(*state == paid(raised, debtor as int, amount, creditor));
        proof {
            if old(state).cash(debtor as int) >= amount {
                let due = GameEvent::PaymentDue { player_id: debtor, creditor, amount };
                let completed = GameEvent::PaymentCompleted { player_id: debtor, creditor, amount };
                lemma_published_none(strategies_before, debtor as int);
                lemma_published_then(strategies_before, debtor as int, seq![], strategies_before, due, strategies_due);
                assert(seq![].push(due) =~= seq![due]);
                lemma_published_then(strategies_before, debtor as int, seq![due], strategies_due, completed, strategies@);
                assert(seq![due].push(completed) =~= seq![due, completed]);
            }
        }
    } else {
        declare_bankruptcy(state, rules, strategies, debtor, creditor);
        assert(default_liquidation_spec(raised, *rules, debtor as int, None));
    }
    proof {
        lemma_payment_frame_kept(*old(state), *state, debtor as int);
    }
}

proof fn lemma_payment_frame_kept<const N: usize>(before: GameState<N>, after: GameState<N>, debtor: int)
    requires
        payment_frame(before, after, debtor),
    ensures
        bankruptcy_kept(before, after),
{
    assert forall|player: int| #[trigger] player_in(before.bankrupt_players, player) implies player_in(
        after.bankrupt_players,
        player,
    ) by {
        assert(before.is_bankrupt(player));
        assert(after.is_bankrupt(player));
    }
}

/// Whether `after`, with the players `seats_after`, follows `before` with the players `seats`
/// by one liquidation of `player`: its strategy answered as its policy decides; the answer was
/// taken where the rules allow it, and the default liquidation otherwise; and the sale or
/// mortgage was published, recorded by `player`.
pub open spec fn liquidation_step<const N: usize, S: PlayerStrategy>(
    before: GameState<N>,
    seats: Seq<S>,
    rules: Ruleset,
    player: PlayerId,
    after: GameState<N>,
    seats_after: Seq<S>,
) -> bool {
    exists|answer: Option<LiquidationAction>, action: LiquidationAction, answered: Seq<S>|
        #![trigger liquidation_choice_by(seats[player as int].policy_of(), before, rules, player, answer), liquidated(before, player as int, action), policies_kept(seats, answered)]
        liquidation_choice_by(seats[player as int].policy_of(), before, rules, player, answer) && is_legal_liquidation(
            before,
            rules,
            player as int,
            action,
        ) && match answer {
            Some(chosen) => if is_legal_liquidation(before, rules, player as int, chosen) {
                action == chosen
            } else {
                default_liquidation_spec(before, rules, player as int, Some(action))
            },
            None => default_liquidation_spec(before, rules, player as int, Some(action)),
        } && after == liquidated(before, player as int, action).0 && policies_kept(seats, answered) && published(
            answered,
            player as int,
            liquidated(before, player as int, action).1,
            seats_after,
        )
}

/// Whether `states`, each with the players of the same place in `seats`, are liquidations of
/// `player`, one after another.
pub open spec fn liquidations_played<const N: usize, S: PlayerStrategy>(
    states: Seq<GameState<N>>,
    seats: Seq<Seq<S>>,
    rules: Ruleset,
    player: PlayerId,
) -> bool {
    &&& states.len() >= 1
    &&& seats.len() == states.len()
    &&& forall|index: int|
        0 <= index < states.len() - 1 ==> #[trigger] liquidation_step(
            states[index],
            seats[index],
            rules,
            player,
            states[index + 1],
            seats[index + 1],
        )
}

/// Liquidates the holdings of `player`, one legal liquidation at a time, until the player holds
/// `required_amount` or has nothing left to liquidate. The player's strategy chooses each
/// liquidation; an illegal choice, or none, is replaced by the default liquidation.
fn raise_cash<const N: usize, Strategy: PlayerStrategy>(
    state: &mut GameState<N>,
    rules: &Ruleset,
    strategies: &mut [Strategy; N],
    player: PlayerId,
    required_amount: Cash,
)
    requires
        old(state).wf(),
        (player as usize) < N,
        !old(state).is_bankrupt(player as int),
    ensures
        policies_kept(old(strategies)@, final(strategies)@),
        final(state).wf(),
        only_holdings_changed(*old(state), *final(state)),
        final(state).board.owned_tiles_by_player_id == old(state).board.owned_tiles_by_player_id,
        final(state).get_out_of_jail_free_card_holder_by_deck_kind == old(state).get_out_of_jail_free_card_holder_by_deck_kind,
        forall|other: int| 0 <= other < N && other != player ==> #[trigger] final(state).cash(other) == old(state).cash(other),
        final(state).cash(player as int) >= required_amount || default_liquidation_spec(
            *final(state),
            *rules,
            player as int,
            None,
        ),
        exists|states: Seq<GameState<N>>, seats: Seq<Seq<Strategy>>|
            #[trigger] liquidations_played(states, seats, *rules, player) && states[0] == *old(state) && seats[0] == old(
                strategies,
            )@ && states.last() == *final(state) && policies_kept(seats.last(), final(strategies)@),
{
    let index = player as usize;
    proof {
        super::improvement::lemma_unbuilt_levels_bound(state.board.improvement_level_by_property_id@, 22);
    }
    let ghost mut states: Seq<GameState<N>> = seq![*state];
    let ghost mut seats: Seq<Seq<Strategy>> = seq![strategies@];
    while state.cash_by_player_id[index] < required_amount
        invariant
            states.len() >= 1,
            seats.len() == states.len(),
            states[0] == *old(state),
            seats[0] == old(strategies)@,
            states.last() == *state,
            seats.last() == strategies@,
            forall|step: int|
                0 <= step < states.len() - 1 ==> #[trigger] liquidation_step(
                    states[step],
                    seats[step],
                    *rules,
                    player,
                    states[step + 1],
                    seats[step + 1],
                ),
            policies_kept(old(strategies)@, strategies@),
            state.wf(),
            index == player as usize,
            (player as usize) < N,
            !state.is_bankrupt(player as int),
            only_holdings_changed(*old(state), *state),
            state.board.owned_tiles_by_player_id == old(state).board.owned_tiles_by_player_id,
            state.get_out_of_jail_free_card_holder_by_deck_kind == old(state).get_out_of_jail_free_card_holder_by_deck_kind,
            forall|other: int| 0 <= other < N && other != player ==> #[trigger] state.cash(other) == old(state).cash(other),
            liquidation_measure(*state) >= 0,
        decreases liquidation_measure(*state),
    {
        let ghost previous = *state;
        let ghost asked = strategies@;
        let choice = strategies[index].choose_liquidation_action(state, rules, player, required_amount);
        let ghost answered = strategies@;
        proof {
            assert(policies_kept(asked, answered)) by {
                assert forall|seat: int| 0 <= seat < asked.len() implies #[trigger] answered[seat].policy_of()
                    == asked[seat].policy_of() by {}
            }
            assert(liquidation_choice_by(asked[player as int].policy_of(), previous, *rules, player, choice));
        }
        let ghost mut taken: LiquidationAction = LiquidationAction::Mortgage(0);
        let chosen = match choice {
            Some(action) => {
                proof {
                    taken = action;
                }
                execute_liquidation_action(state, rules, player, action)
            },
            None => Err(super::action::ActionError::IllegalAction),
        };
        let event = match chosen {
            Ok(event) => event,
            Err(_) => {
                let fallback = match default_liquidation_action(state, rules, player) {
                    Some(action) => action,
                    None => {
                        assert(liquidations_played(states, seats, *rules, player));
                        return;
                    },
                };
                proof {
                    taken = fallback;
                }
                match execute_liquidation_action(state, rules, player, fallback) {
                    Ok(event) => event,
                    Err(_) => {
                        assert(liquidations_played(states, seats, *rules, player));
                        return;
                    },
                }
            },
        };
        publish_event(strategies, index, event);
        proof {
            assert forall|other: int| 0 <= other < N && other != player implies #[trigger] state.cash(other) == old(
                state,
            ).cash(other) by {
                assert(previous.cash(other) == old(state).cash(other));
            }
            assert(liquidation_step(previous, asked, *rules, player, *state, strategies@)) by {
                assert(is_legal_liquidation(previous, *rules, player as int, taken));
                assert(liquidated(previous, player as int, taken).0 == *state);
                assert(policies_kept(asked, answered));
            }
            let longer = states.push(*state);
            let more_seats = seats.push(strategies@);
            assert forall|step: int| 0 <= step < longer.len() - 1 implies #[trigger] liquidation_step(
                longer[step],
                more_seats[step],
                *rules,
                player,
                longer[step + 1],
                more_seats[step + 1],
            ) by {
                if step < states.len() - 1 {
                    assert(liquidation_step(
                        states[step],
                        seats[step],
                        *rules,
                        player,
                        states[step + 1],
                        seats[step + 1],
                    ));
                }
            }
            states = longer;
            seats = more_seats;
        }
    }
    assert(policies_kept(seats.last(), strategies@));
    assert(liquidations_played(states, seats, *rules, player));
}

/// The state after `debtor` goes bankrupt to `creditor`, before any auction: the debtor's cash
/// and tiles go to a creditor player, who pays the interest on the mortgaged ones, or return
/// to the bank unmortgaged; the debtor's jail cards go to a creditor player or back to their
/// decks; the debtor leaves jail and the game.
pub open spec fn bankrupted<const N: usize>(state: GameState<N>, debtor: int, creditor: Creditor) -> GameState<N> {
    let owned = state.board.owned_tiles_by_player_id;
    let tiles = owned@[debtor];
    let remaining = state.cash(debtor);
    let cleared_owned = vstd::array::spec_array_update(owned, debtor, 0u64);
    let cleared_cash = vstd::array::spec_array_update(state.cash_by_player_id, debtor, 0u32);
    let holders = state.get_out_of_jail_free_card_holder_by_deck_kind;
    let heir = match creditor {
        Creditor::Player(player) => Some(player),
        _ => None,
    };
    let new_holders = vstd::array::spec_array_update(
        vstd::array::spec_array_update(
            holders,
            0,
            if holders@[0] == Some(debtor as PlayerId) {
                heir
            } else {
                holders@[0]
            },
        ),
        1,
        if holders@[1] == Some(debtor as PlayerId) {
            heir
        } else {
            holders@[1]
        },
    );
    let base = GameState {
        get_out_of_jail_free_card_holder_by_deck_kind: new_holders,
        bankrupt_players: state.bankrupt_players | (1u8 << (debtor as u8)),
        jailed_players: state.jailed_players & !(1u8 << (debtor as u8)),
        ..state
    };
    match creditor {
        Creditor::Player(player) => {
            let interest = transfer_interest_spec(state, tiles);
            let gross = credited(state.cash(player as int), remaining);
            let net = if gross >= interest {
                (gross - interest) as Cash
            } else {
                0
            };
            GameState {
                board: BoardState {
                    owned_tiles_by_player_id: vstd::array::spec_array_update(cleared_owned, player as int, owned@[player as int] | tiles),
                    ..state.board
                },
                cash_by_player_id: vstd::array::spec_array_update(cleared_cash, player as int, net),
                ..base
            }
        },
        _ => credited_to(
            GameState {
                board: BoardState {
                    owned_tiles_by_player_id: cleared_owned,
                    mortgaged_tiles: state.board.mortgaged_tiles & !tiles,
                    ..state.board
                },
                cash_by_player_id: cleared_cash,
                ..base
            },
            creditor,
            remaining,
        ),
    }
}

proof fn lemma_bankrupted_wf<const N: usize>(state: GameState<N>, debtor: int, creditor: Creditor)
    requires
        state.wf(),
        0 <= debtor < N,
        !state.is_bankrupt(debtor),
        creditor_valid(state, creditor, debtor),
    ensures
        bankrupted(state, debtor, creditor).wf(),
        payment_frame(state, bankrupted(state, debtor, creditor), debtor),
        bankrupted(state, debtor, creditor).is_bankrupt(debtor),
{
    let after = bankrupted(state, debtor, creditor);
    lemma_buildings_frame(state, after);
    let heir = match creditor {
        Creditor::Player(player) => player as int,
        _ => -1,
    };
    let owned = state.board.owned_tiles_by_player_id;
    match creditor {
        Creditor::Player(player) => {
            assert(after.board.owned_tiles_by_player_id@ == owned@.update(debtor, 0u64).update(
                player as int,
                owned@[player as int] | owned@[debtor],
            ));
        },
        _ => {
            assert(after.board.owned_tiles_by_player_id@ == owned@.update(debtor, 0u64));
        },
    }
    assert forall|player: int, tile: int| #[trigger] after.board.owns(player, tile) == if player == debtor {
        false
    } else if creditor is Player && player == heir {
        state.board.owns(player, tile) || state.board.owns(debtor, tile)
    } else {
        state.board.owns(player, tile)
    } by {
        if 0 <= player < N {
            match creditor {
                Creditor::Player(heir_player) => {
                    if player == debtor {
                        assert(after.board.owned_tiles_by_player_id@[player] == 0u64);
                        crate::game::tile::model::lemma_tile_in_zero(tile);
                    } else if player == heir_player {
                        assert(after.board.owned_tiles_by_player_id@[player] == owned@[player] | owned@[debtor]);
                        crate::game::tile::model::lemma_tile_in_or(owned@[player], owned@[debtor], tile);
                    } else {
                        assert(after.board.owned_tiles_by_player_id@[player] == owned@[player]);
                    }
                },
                _ => {
                    if player == debtor {
                        assert(after.board.owned_tiles_by_player_id@[player] == 0u64);
                        crate::game::tile::model::lemma_tile_in_zero(tile);
                    } else {
                        assert(after.board.owned_tiles_by_player_id@[player] == owned@[player]);
                    }
                },
            }
        }
    }
    assert forall|player: int, tile: int| #[trigger] after.board.owns(player, tile) implies tile_in(
        OWNABLE_TILE_SET_MASK,
        tile,
    ) by {
        if state.board.owns(player, tile) {
        } else {
            assert(state.board.owns(debtor, tile));
        }
    }
    assert forall|first: int, second: int, tile: int|
        after.board.owns(first, tile) && after.board.owns(second, tile) implies first == second by {
        if creditor is Player && first == heir && !state.board.owns(first, tile) {
            assert(state.board.owns(debtor, tile));
        }
        if creditor is Player && second == heir && !state.board.owns(second, tile) {
            assert(state.board.owns(debtor, tile));
        }
    }
    assert forall|player: int| 0 <= player < N && #[trigger] after.is_bankrupt(player) implies after.board.owned_tiles_by_player_id@[player]
        == 0 && after.cash(player) == 0 by {
        if player != debtor {
            assert(state.is_bankrupt(player));
        }
    }
    assert forall|deck: int| 0 <= deck < 2 implies match #[trigger] after.get_out_of_jail_free_card_holder_by_deck_kind@[deck] {
        Some(holder) => holder < N,
        None => true,
    } by {
        assert(match state.get_out_of_jail_free_card_holder_by_deck_kind@[deck] {
            Some(holder) => holder < N,
            None => true,
        });
    }
}

/// Whether `after` follows from `returned`, where a bankrupt player gave `tiles` back to the
/// bank, by the auctions of those tiles where the rules auction declined tiles: only holdings
/// change, and only of those tiles; where the rules do not auction, nothing follows.
pub open spec fn returned_tiles_auctioned<const N: usize>(
    returned: GameState<N>,
    after: GameState<N>,
    rules: Ruleset,
    tiles: TileSetMask,
) -> bool {
    if rules.property_purchase_decline_mode == PropertyPurchaseDeclineMode::Auction {
        &&& only_holdings_changed(returned, after)
        &&& forall|player: int, tile: int|
            !tile_in(tiles, tile) ==> #[trigger] after.board.owns(player, tile) == returned.board.owns(player, tile)
    } else {
        after == returned
    }
}

fn declare_bankruptcy<const N: usize, Strategy: PlayerStrategy>(
    state: &mut GameState<N>,
    rules: &Ruleset,
    strategies: &mut [Strategy; N],
    debtor: PlayerId,
    creditor: Creditor,
)
    requires
        old(state).wf(),
        (debtor as usize) < N,
        !old(state).is_bankrupt(debtor as int),
        creditor_valid(*old(state), creditor, debtor as int),
    ensures
        policies_kept(old(strategies)@, final(strategies)@),
        final(state).wf(),
        final(state).is_bankrupt(debtor as int),
        payment_frame(*old(state), *final(state), debtor as int),
        creditor is Player ==> *final(state) == bankrupted(*old(state), debtor as int, creditor),
        !(creditor is Player) ==> returned_tiles_auctioned(
            bankrupted(*old(state), debtor as int, creditor),
            *final(state),
            *rules,
            old(state).board.owned_tiles_by_player_id@[debtor as int],
        ),
{
    broadcast use lemma_ownable_mask_membership;

    let index = debtor as usize;
    let remaining_cash = state.cash_by_player_id[index];
    let owned_tiles = state.board.owned_tiles_by_player_id[index];
    let ghost before = *state;
    proof {
        assert forall|tile: int| #[trigger] tile_in(owned_tiles, tile) && state.board.mortgaged(tile) implies tile
            < crate::game::tile::data::TILE_COUNT by {
            assert(state.board.owns(debtor as int, tile));
        }
    }
    let interest = calculate_mortgage_transfer_interest(state, owned_tiles);
    state.cash_by_player_id[index] = 0;
    state.board.owned_tiles_by_player_id[index] = 0;
    match creditor {
        Creditor::Player(heir) => {
            let heir_index = heir as usize;
            state.board.owned_tiles_by_player_id[heir_index] = state.board.owned_tiles_by_player_id[heir_index] | owned_tiles;
            let gross = credit(state.cash_by_player_id[heir_index], remaining_cash);
            state.cash_by_player_id[heir_index] = gross.saturating_sub(interest);
        },
        _ => {
            state.board.mortgaged_tiles = state.board.mortgaged_tiles & !owned_tiles;
            credit_creditor(state, creditor, remaining_cash);
        },
    }
    let heir: Option<PlayerId> = match creditor {
        Creditor::Player(heir) => Some(heir),
        _ => None,
    };
    if state.get_out_of_jail_free_card_holder_by_deck_kind[0] == Some(debtor) {
        state.get_out_of_jail_free_card_holder_by_deck_kind[0] = heir;
    }
    if state.get_out_of_jail_free_card_holder_by_deck_kind[1] == Some(debtor) {
        state.get_out_of_jail_free_card_holder_by_deck_kind[1] = heir;
    }
    state.bankrupt_players = with_player(state.bankrupt_players, debtor);
    state.jailed_players = without_player(state.jailed_players, debtor);
    proof {
        let after = bankrupted(before, debtor as int, creditor);
        assert(state.board.owned_tiles_by_player_id =~= after.board.owned_tiles_by_player_id);
        assert(state.cash_by_player_id =~= after.cash_by_player_id);
        assert(state.get_out_of_jail_free_card_holder_by_deck_kind =~= after.get_out_of_jail_free_card_holder_by_deck_kind);
        assert(*state == after);
        lemma_bankrupted_wf(before, debtor as int, creditor);
    }
    publish_event(
        strategies,
        index,
        GameEvent::Bankrupt { player_id: debtor, creditor, remaining_cash },
    );
    if heir.is_none() && rules.property_purchase_decline_mode == PropertyPurchaseDeclineMode::Auction {
        auction_bank_owned_tiles(state, rules, strategies, debtor, owned_tiles);
    }
}

/// Auctions each tile of `bank_owned_tiles`, in board order, after `bankrupt_player` returned
/// them to the bank.
fn auction_bank_owned_tiles<const N: usize, Strategy: PlayerStrategy>(
    state: &mut GameState<N>,
    rules: &Ruleset,
    strategies: &mut [Strategy; N],
    bankrupt_player: PlayerId,
    bank_owned_tiles: TileSetMask,
)
    requires
        old(state).wf(),
    ensures
        policies_kept(old(strategies)@, final(strategies)@),
        final(state).wf(),
        only_holdings_changed(*old(state), *final(state)),
        forall|player: int, tile: int|
            !tile_in(bank_owned_tiles, tile) ==> #[trigger] final(state).board.owns(player, tile) == old(
                state,
            ).board.owns(player, tile),
{
    let mut tile: u8 = 0;
    while tile < 64
        invariant
            policies_kept(old(strategies)@, strategies@),
            tile <= 64,
            state.wf(),
            only_holdings_changed(*old(state), *state),
            forall|player: int, other: int|
                !tile_in(bank_owned_tiles, other) ==> #[trigger] state.board.owns(player, other) == old(
                    state,
                ).board.owns(player, other),
        decreases 64 - tile,
    {
        if contains_tile(bank_owned_tiles, tile) {
            run_auction(state, rules, strategies, bankrupt_player, tile as TileId);
        }
        tile = tile + 1;
    }
}

} // verus!
