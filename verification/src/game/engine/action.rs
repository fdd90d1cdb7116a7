use vstd::prelude::*;

use crate::game::strategy::model::policies_kept;

use super::event::{
    GameEvent,
    publish_event,
    lemma_published_none,
    lemma_published_then,
    published_all,
};
use super::movement::{
    release_player_from_jail,
    released,
};
use super::payment::{
    charge_player,
    fee_creditor,
    paid,
    select_fee_creditor,
};
use super::improvement::{
    can_improve_property,
    can_improve_spec,
    improve_property,
    improved_state,
    improvement_fits,
    lemma_unbuilt_levels_update,
    unbuilt_levels,
};
use super::mortgage::{
    can_unmortgage_spec,
    can_unmortgage_tile,
    unmortgage_tile,
    with_mortgage_change,
};
use crate::game::board::model::PlayerId;
use crate::game::ruleset::model::{
    FreeParkingJackpotMode,
    Ruleset,
};
use crate::game::state::model::{
    GameState,
    contains_player,
    group_player_mask,
    lemma_buildings_frame,
    lemma_ownership_frame,
    lemma_ownership_grant,
    lemma_wf_frame,
};
use crate::game::card::model::DeckKind;
use crate::game::strategy::model::{
    JailAction,
    PlayerStrategy,
};
use crate::game::tile::data::{
    PROPERTY_COUNT,
    TILE_COUNT,
};
use crate::game::tile::lut::{
    OWNABLE_TILE_SET_MASK,
    PURCHASE_PRICE_BY_TILE_ID,
    lemma_tile_tables,
};
use crate::game::tile::model::{
    Cash,
    PropertyId,
    TileId,
    contains_tile,
    group_tile_mask,
    tile_count,
    tile_in,
    with_tile,
};

verus! {

broadcast use {group_player_mask, group_tile_mask};

#[derive(Debug, Clone, Copy, PartialEq, Eq, Structural)]
pub enum ManagementAction {
    Build(PropertyId),
    Unmortgage(TileId),
}

#[derive(Debug, Clone, Copy, PartialEq, Eq, Structural)]
pub enum ManagementPhase {
    Building,
    Unmortgaging,
}

#[derive(Debug, Clone, Copy, PartialEq, Eq, Structural)]
pub enum ActionError {
    InvalidPlayer,
    WrongPhase,
    IllegalAction,
}

#[derive(Debug, Clone, Copy, PartialEq, Eq, Structural)]
pub enum JailResolution {
    Released,
    AttemptDoubles,
}

/// Whether `player` is the current player of the game and still in it.
pub open spec fn is_acting_player<const N: usize>(state: GameState<N>, player: int) -> bool {
    0 <= player < N && !state.is_bankrupt(player) && state.current_player_id == player
}

/// Whether `player` may take `action` in the management `phase`.
pub open spec fn management_action_legal<const N: usize>(
    state: GameState<N>,
    rules: Ruleset,
    player: int,
    phase: ManagementPhase,
    action: ManagementAction,
) -> bool {
    &&& is_acting_player(state, player)
    &&& match (phase, action) {
        (ManagementPhase::Building, ManagementAction::Build(property)) => can_improve_spec(state, rules, player, property as int),
        (ManagementPhase::Unmortgaging, ManagementAction::Unmortgage(tile)) => can_unmortgage_spec(state, player, tile as int),
        _ => false,
    }
}

/// The action of `phase` on the property or tile `id`.
pub open spec fn management_action_for(phase: ManagementPhase, id: u8) -> ManagementAction {
    match phase {
        ManagementPhase::Building => ManagementAction::Build(id),
        ManagementPhase::Unmortgaging => ManagementAction::Unmortgage(id),
    }
}

/// The legal actions of `phase` on the ids `0..count`, in id order.
pub open spec fn legal_management_list<const N: usize>(
    state: GameState<N>,
    rules: Ruleset,
    player: int,
    phase: ManagementPhase,
    count: nat,
) -> Seq<ManagementAction>
    decreases count,
{
    if count == 0 {
        seq![]
    } else {
        let earlier = legal_management_list(state, rules, player, phase, (count - 1) as nat);
        let action = management_action_for(phase, (count - 1) as u8);
        if management_action_legal(state, rules, player, phase, action) {
            earlier.push(action)
        } else {
            earlier
        }
    }
}

/// The number of ids that actions of `phase` range over.
pub open spec fn management_id_count(phase: ManagementPhase) -> nat {
    match phase {
        ManagementPhase::Building => PROPERTY_COUNT as nat,
        ManagementPhase::Unmortgaging => TILE_COUNT as nat,
    }
}

/// The management actions open to one player in one phase of a turn.
pub struct LegalManagementActions<'a, const N: usize> {
    phase: ManagementPhase,
    state: &'a GameState<N>,
    rules: &'a Ruleset,
    player: PlayerId,
}

impl<'a, const N: usize> LegalManagementActions<'a, N> {
    pub closed spec fn phase_spec(&self) -> ManagementPhase {
        self.phase
    }

    pub closed spec fn state_spec(&self) -> GameState<N> {
        *self.state
    }

    pub closed spec fn rules_spec(&self) -> Ruleset {
        *self.rules
    }

    pub closed spec fn player_spec(&self) -> PlayerId {
        self.player
    }

    pub fn phase(&self) -> (phase: ManagementPhase)
        ensures
            phase == self.phase_spec(),
    {
        self.phase
    }

    /// The legal actions in id order.
    pub fn iter(&self) -> (actions: Vec<ManagementAction>)
        requires
            N <= 256,
        ensures
            actions@ == legal_management_list(
                self.state_spec(),
                self.rules_spec(),
                self.player_spec() as int,
                self.phase_spec(),
                management_id_count(self.phase_spec()),
            ),
    {
        let count: u8 = match self.phase {
            ManagementPhase::Building => PROPERTY_COUNT as u8,
            ManagementPhase::Unmortgaging => TILE_COUNT as u8,
        };
        let mut actions: Vec<ManagementAction> = Vec::new();
        let mut id: u8 = 0;
        while id < count
            invariant
                N <= 256,
                id <= count,
                count == management_id_count(self.phase_spec()),
                actions@ == legal_management_list(
                    self.state_spec(),
                    self.rules_spec(),
                    self.player_spec() as int,
                    self.phase_spec(),
                    id as nat,
                ),
            decreases count - id,
        {
            let action = match self.phase {
                ManagementPhase::Building => ManagementAction::Build(id),
                ManagementPhase::Unmortgaging => ManagementAction::Unmortgage(id),
            };
            if self.contains(action) {
                actions.push(action);
            }
            id = id + 1;
        }
        actions
    }

    pub fn contains(&self, action: ManagementAction) -> (legal: bool)
        requires
            N <= 256,
        ensures
            legal == management_action_legal(
                self.state_spec(),
                self.rules_spec(),
                self.player_spec() as int,
                self.phase_spec(),
                action,
            ),
    {
        if self.player as usize >= N || contains_player(self.state.bankrupt_players, self.player)
            || self.state.current_player_id != self.player {
            return false;
        }
        match (self.phase, action) {
            (ManagementPhase::Building, ManagementAction::Build(property)) => can_improve_property(
                self.state,
                self.rules,
                self.player,
                property,
            ),
            (ManagementPhase::Unmortgaging, ManagementAction::Unmortgage(tile)) => can_unmortgage_tile(
                self.state,
                self.player,
                tile,
            ),
            _ => false,
        }
    }
}

pub fn legal_management_actions<'a, const N: usize>(
    state: &'a GameState<N>,
    rules: &'a Ruleset,
    player: PlayerId,
    phase: ManagementPhase,
) -> (legal: LegalManagementActions<'a, N>)
    ensures
        legal.state_spec() == *state,
        legal.rules_spec() == *rules,
        legal.player_spec() == player,
        legal.phase_spec() == phase,
{
    LegalManagementActions { phase, state, rules, player }
}

/// The state after `player` takes the legal management `action`, with the event that
/// reports it.
pub open spec fn managed<const N: usize>(state: GameState<N>, player: int, action: ManagementAction) -> (
    GameState<N>,
    GameEvent,
) {
    match action {
        ManagementAction::Build(property) => {
            let after = improved_state(state, player, property as int);
            (
                after,
                GameEvent::BuildingPurchased {
                    player_id: player as PlayerId,
                    property_id: property,
                    level: after.level(property as int),
                },
            )
        },
        ManagementAction::Unmortgage(tile) => (
            with_mortgage_change(
                state,
                player,
                state.board.mortgaged_tiles & !(1u64 << tile),
                (state.cash(player) - crate::game::tile::lut::UNMORTGAGE_PRICE_BY_TILE_ID@[tile as int]) as Cash,
            ),
            GameEvent::TileUnmortgaged { player_id: player as PlayerId, tile_id: tile },
        ),
    }
}

#[verifier::rlimit(50)]
pub fn execute_management_action<const N: usize>(
    state: &mut GameState<N>,
    rules: &Ruleset,
    player: PlayerId,
    phase: ManagementPhase,
    action: ManagementAction,
) -> (result: Result<GameEvent, ActionError>)
    requires
        N <= 256,
        old(state).levels_bounded(),
        match action {
            ManagementAction::Build(property) => improvement_fits(*old(state), *rules, player as int, property as int),
            ManagementAction::Unmortgage(_) => true,
        },
    ensures
        !is_acting_player(*old(state), player as int) ==> result == Err::<GameEvent, ActionError>(
            ActionError::InvalidPlayer,
        ),
        is_acting_player(*old(state), player as int) && !(match (phase, action) {
            (ManagementPhase::Building, ManagementAction::Build(_)) => true,
            (ManagementPhase::Unmortgaging, ManagementAction::Unmortgage(_)) => true,
            _ => false,
        }) ==> result == Err::<GameEvent, ActionError>(ActionError::WrongPhase),
        result is Ok <==> management_action_legal(*old(state), *rules, player as int, phase, action),
        result is Err ==> *final(state) == *old(state),
        result matches Ok(event) ==> (*final(state), event) == managed(*old(state), player as int, action),
        result is Err && is_acting_player(*old(state), player as int) && (match (phase, action) {
            (ManagementPhase::Building, ManagementAction::Build(_)) => true,
            (ManagementPhase::Unmortgaging, ManagementAction::Unmortgage(_)) => true,
            _ => false,
        }) ==> result == Err::<GameEvent, ActionError>(ActionError::IllegalAction),
        final(state).levels_bounded(),
        old(state).buildings_wf() ==> final(state).buildings_wf(),
        old(state).wf() ==> final(state).wf(),
        result is Ok && phase == ManagementPhase::Unmortgaging ==> tile_count(final(state).board.mortgaged_tiles) < tile_count(
            old(state).board.mortgaged_tiles,
        ),
        result is Ok && phase == ManagementPhase::Building ==> unbuilt_levels(
            final(state).board.improvement_level_by_property_id@,
            PROPERTY_COUNT as nat,
        ) < unbuilt_levels(old(state).board.improvement_level_by_property_id@, PROPERTY_COUNT as nat),
{
    if player as usize >= N || contains_player(state.bankrupt_players, player) || state.current_player_id != player {
        return Err(ActionError::InvalidPlayer);
    }
    match (phase, action) {
        (ManagementPhase::Building, ManagementAction::Build(property_id)) => {
            let ghost before = *state;
            if !improve_property(state, rules, player, property_id) {
                return Err(ActionError::IllegalAction);
            }
            proof {
                lemma_unbuilt_levels_update(
                    before.board.improvement_level_by_property_id@,
                    PROPERTY_COUNT as nat,
                    property_id as int,
                    (before.level(property_id as int) + 1) as u8,
                );
            }
            Ok(
                GameEvent::BuildingPurchased {
                    player_id: player,
                    property_id,
                    level: state.board.improvement_level_by_property_id[property_id as usize],
                },
            )
        },
        (ManagementPhase::Unmortgaging, ManagementAction::Unmortgage(tile_id)) => {
            let ghost before = *state;
            if !unmortgage_tile(state, player, tile_id) {
                return Err(ActionError::IllegalAction);
            }
            proof {
                assert forall|property: int| 0 <= property < PROPERTY_COUNT implies #[trigger] state.level(property)
                    <= crate::game::board::data::HOTEL_IMPROVEMENT_LEVEL by {
                    assert(state.level(property) == before.level(property));
                }
            }
            Ok(GameEvent::TileUnmortgaged { player_id: player, tile_id })
        },
        _ => Err(ActionError::WrongPhase),
    }
}

/// What checking `action` for `player`, who is in jail, gives: the reason it is refused, or
/// nothing.
pub open spec fn jail_action_check<const N: usize>(
    state: GameState<N>,
    rules: Ruleset,
    player: int,
    action: JailAction,
) -> Result<(), ActionError> {
    if !is_acting_player(state, player) {
        Err(ActionError::InvalidPlayer)
    } else if !state.is_jailed(player) {
        Err(ActionError::WrongPhase)
    } else {
        match action {
            JailAction::RollForDoubles => Ok(()),
            JailAction::UseGetOutOfJailFreeCard => if holds_jail_card(state, player) {
                Ok(())
            } else {
                Err(ActionError::IllegalAction)
            },
            JailAction::PayBail => if state.cash(player) >= rules.jail_bail_amount && !(rules.free_parking_jackpot_mode
                == FreeParkingJackpotMode::TaxesAndFees && state.free_parking_jackpot + rules.jail_bail_amount > Cash::MAX) {
                Ok(())
            } else {
                Err(ActionError::IllegalAction)
            },
        }
    }
}

/// Whether `player` holds a Get Out of Jail Free card of either deck.
pub open spec fn holds_jail_card<const N: usize>(state: GameState<N>, player: int) -> bool {
    state.get_out_of_jail_free_card_holder_by_deck_kind@[0] == Some(player as PlayerId)
        || state.get_out_of_jail_free_card_holder_by_deck_kind@[1] == Some(player as PlayerId)
}

pub fn validate_jail_action<const N: usize>(
    state: &GameState<N>,
    rules: &Ruleset,
    player: PlayerId,
    action: JailAction,
) -> (result: Result<(), ActionError>)
    ensures
        result == jail_action_check(*state, *rules, player as int, action),
{
    if player as usize >= N || contains_player(state.bankrupt_players, player) || state.current_player_id != player {
        return Err(ActionError::InvalidPlayer);
    }
    if !contains_player(state.jailed_players, player) {
        return Err(ActionError::WrongPhase);
    }
    match action {
        JailAction::RollForDoubles => Ok(()),
        JailAction::UseGetOutOfJailFreeCard => {
            if state.get_out_of_jail_free_card_holder_by_deck_kind[0] == Some(player)
                || state.get_out_of_jail_free_card_holder_by_deck_kind[1] == Some(player) {
                Ok(())
            } else {
                Err(ActionError::IllegalAction)
            }
        },
        JailAction::PayBail => {
            if state.cash_by_player_id[player as usize] < rules.jail_bail_amount as Cash {
                return Err(ActionError::IllegalAction);
            }
            if rules.free_parking_jackpot_mode == FreeParkingJackpotMode::TaxesAndFees
                && state.free_parking_jackpot.checked_add(rules.jail_bail_amount as Cash).is_none() {
                return Err(ActionError::IllegalAction);
            }
            Ok(())
        },
    }
}

/// The jail actions that pass the check, in the order roll, bail, card.
pub open spec fn legal_jail_list<const N: usize>(state: GameState<N>, rules: Ruleset, player: int) -> Seq<JailAction> {
    let roll = if jail_action_check(state, rules, player, JailAction::RollForDoubles) is Ok {
        seq![JailAction::RollForDoubles]
    } else {
        seq![]
    };
    let bail = if jail_action_check(state, rules, player, JailAction::PayBail) is Ok {
        seq![JailAction::PayBail]
    } else {
        seq![]
    };
    let card = if jail_action_check(state, rules, player, JailAction::UseGetOutOfJailFreeCard) is Ok {
        seq![JailAction::UseGetOutOfJailFreeCard]
    } else {
        seq![]
    };
    roll + bail + card
}

pub fn legal_jail_actions<const N: usize>(state: &GameState<N>, rules: &Ruleset, player: PlayerId) -> (actions: Vec<
    JailAction,
>)
    ensures
        actions@ == legal_jail_list(*state, *rules, player as int),
{
    let mut actions: Vec<JailAction> = Vec::new();
    if validate_jail_action(state, rules, player, JailAction::RollForDoubles).is_ok() {
        actions.push(JailAction::RollForDoubles);
    }
    if validate_jail_action(state, rules, player, JailAction::PayBail).is_ok() {
        actions.push(JailAction::PayBail);
    }
    if validate_jail_action(state, rules, player, JailAction::UseGetOutOfJailFreeCard).is_ok() {
        actions.push(JailAction::UseGetOutOfJailFreeCard);
    }
    assert(actions@ =~= legal_jail_list(*state, *rules, player as int));
    actions
}

/// What checking a purchase of `tile` by `player` gives: the price, or the reason it is
/// refused.
pub open spec fn purchase_check<const N: usize>(state: GameState<N>, player: int, tile: int) -> Result<Cash, ActionError> {
    if !is_acting_player(state, player) {
        Err(ActionError::InvalidPlayer)
    } else if !(0 <= tile < TILE_COUNT) || !tile_in(OWNABLE_TILE_SET_MASK, tile) || state.position_by_player_id@[player]
        != tile || state.board.owner_of(tile) is Some {
        Err(ActionError::IllegalAction)
    } else if state.cash(player) < PURCHASE_PRICE_BY_TILE_ID@[tile] {
        Err(ActionError::IllegalAction)
    } else {
        Ok(PURCHASE_PRICE_BY_TILE_ID@[tile] as Cash)
    }
}

pub fn validate_purchase<const N: usize>(state: &GameState<N>, player: PlayerId, tile: TileId) -> (result: Result<
    Cash,
    ActionError,
>)
    requires
        N <= 256,
    ensures
        result == purchase_check(*state, player as int, tile as int),
{
    if player as usize >= N || contains_player(state.bankrupt_players, player) || state.current_player_id != player {
        return Err(ActionError::InvalidPlayer);
    }
    if tile as usize >= TILE_COUNT || !contains_tile(OWNABLE_TILE_SET_MASK, tile)
        || state.position_by_player_id[player as usize] != tile || state.board.get_tile_owner(tile).is_some() {
        return Err(ActionError::IllegalAction);
    }
    proof {
        lemma_tile_tables(tile as int);
    }
    let price = PURCHASE_PRICE_BY_TILE_ID[tile as usize] as Cash;
    if state.cash_by_player_id[player as usize] < price {
        return Err(ActionError::IllegalAction);
    }
    Ok(price)
}

/// `state` with `tile` bought by `player` for `price`.
pub open spec fn purchased<const N: usize>(state: GameState<N>, player: int, tile: int, price: Cash) -> GameState<N> {
    GameState {
        board: crate::game::board::model::BoardState {
            owned_tiles_by_player_id: vstd::array::spec_array_update(
                state.board.owned_tiles_by_player_id,
                player,
                state.board.owned_tiles_by_player_id@[player] | (1u64 << (tile as u64)),
            ),
            ..state.board
        },
        cash_by_player_id: vstd::array::spec_array_update(state.cash_by_player_id, player, (state.cash(player) - price) as Cash),
        ..state
    }
}

pub fn execute_purchase<const N: usize>(state: &mut GameState<N>, player: PlayerId, tile: TileId) -> (result: Result<
    GameEvent,
    ActionError,
>)
    requires
        N <= 256,
    ensures
        match purchase_check(*old(state), player as int, tile as int) {
            Ok(price) => {
                &&& result == Ok::<GameEvent, ActionError>(
                    GameEvent::PropertyPurchased { player_id: player, tile_id: tile, price, auction: false },
                )
                &&& *final(state) == purchased(*old(state), player as int, tile as int, price)
            },
            Err(error) => {
                &&& result == Err::<GameEvent, ActionError>(error)
                &&& *final(state) == *old(state)
            },
        },
        old(state).wf() ==> final(state).wf(),
{
    let price = match validate_purchase(state, player, tile) {
        Ok(price) => price,
        Err(error) => return Err(error),
    };
    let ghost before = *state;
    state.cash_by_player_id[player as usize] = state.cash_by_player_id[player as usize] - price;
    state.board.owned_tiles_by_player_id[player as usize] = with_tile(state.board.owned_tiles_by_player_id[player as usize], tile);
    proof {
        assert(state.board == purchased(before, player as int, tile as int, price).board);
        if before.wf() {
            lemma_ownership_grant(before, *state, player as int, tile as int);
            lemma_buildings_frame(before, *state);
            lemma_wf_frame(before, *state);
        }
    }
    Ok(GameEvent::PropertyPurchased { player_id: player, tile_id: tile, price, auction: false })
}

/// `state` with the first jail card that `player` holds, in deck order, returned to its deck.
pub open spec fn jail_card_used<const N: usize>(state: GameState<N>, player: int) -> GameState<N> {
    let holders = state.get_out_of_jail_free_card_holder_by_deck_kind;
    let deck = if holders@[0] == Some(player as PlayerId) {
        0
    } else {
        1
    };
    GameState {
        get_out_of_jail_free_card_holder_by_deck_kind: vstd::array::spec_array_update(holders, deck, None),
        ..state
    }
}

/// The deck whose get-out-of-jail-free card `player` gives back: chance where it holds that
/// one, community chest otherwise.
pub open spec fn held_jail_card_deck<const N: usize>(state: GameState<N>, player: int) -> DeckKind {
    if state.get_out_of_jail_free_card_holder_by_deck_kind@[0] == Some(player as PlayerId) {
        DeckKind::Chance
    } else {
        DeckKind::CommunityChest
    }
}

/// What taking the checked jail `action` does to `state`.
pub open spec fn jail_action_outcome<const N: usize>(state: GameState<N>, rules: Ruleset, player: int, action: JailAction) -> (
    GameState<N>,
    JailResolution,
) {
    match action {
        JailAction::RollForDoubles => (state, JailResolution::AttemptDoubles),
        JailAction::UseGetOutOfJailFreeCard => (released(jail_card_used(state, player), player), JailResolution::Released),
        JailAction::PayBail => (
            released(paid(state, player, rules.jail_bail_amount as Cash, fee_creditor(rules)), player),
            JailResolution::Released,
        ),
    }
}

pub fn execute_jail_action<const N: usize, S: PlayerStrategy>(
    state: &mut GameState<N>,
    rules: &Ruleset,
    strategies: &mut [S; N],
    player: PlayerId,
    action: JailAction,
) -> (result: Result<JailResolution, ActionError>)
    requires
        old(state).wf(),
    ensures
        policies_kept(old(strategies)@, final(strategies)@),
        final(state).wf(),
        match jail_action_check(*old(state), *rules, player as int, action) {
            Err(error) => result == Err::<JailResolution, ActionError>(error) && *final(state) == *old(state),
            Ok(_) => {
                let (after, resolution) = jail_action_outcome(*old(state), *rules, player as int, action);
                result == Ok::<JailResolution, ActionError>(resolution) && *final(state) == after
            },
        },
        result is Err || action == JailAction::RollForDoubles ==> final(strategies)@ == old(strategies)@,
        result is Ok && action == JailAction::UseGetOutOfJailFreeCard ==> published_all(
            old(strategies)@,
            player as int,
            seq![
                GameEvent::JailCardUsed { player_id: player, deck: held_jail_card_deck(*old(state), player as int) },
                GameEvent::ReleasedFromJail { player_id: player },
            ],
            final(strategies)@,
        ),
{
    match validate_jail_action(state, rules, player, action) {
        Ok(()) => {},
        Err(error) => return Err(error),
    }
    match action {
        JailAction::RollForDoubles => {
            return Ok(JailResolution::AttemptDoubles);
        },
        JailAction::UseGetOutOfJailFreeCard => {
            let ghost before = *state;
            let deck = if state.get_out_of_jail_free_card_holder_by_deck_kind[0] == Some(player) {
                DeckKind::Chance
            } else {
                DeckKind::CommunityChest
            };
            state.get_out_of_jail_free_card_holder_by_deck_kind[deck.index()] = None;
            proof {
                assert(state.get_out_of_jail_free_card_holder_by_deck_kind =~= jail_card_used(
                    before,
                    player as int,
                ).get_out_of_jail_free_card_holder_by_deck_kind);
                lemma_ownership_frame(before, *state);
                lemma_buildings_frame(before, *state);
                assert forall|deck: int| 0 <= deck < 2 implies match #[trigger] state.get_out_of_jail_free_card_holder_by_deck_kind@[deck] {
                    Some(holder) => holder < N,
                    None => true,
                } by {
                    assert(match before.get_out_of_jail_free_card_holder_by_deck_kind@[deck] {
                        Some(holder) => holder < N,
                        None => true,
                    });
                }
                assert forall|other: int| 0 <= other < N && #[trigger] state.is_bankrupt(other) implies state.board.owned_tiles_by_player_id@[other]
                    == 0 && state.cash(other) == 0 by {
                    assert(before.is_bankrupt(other));
                }
            }
            let ghost strategies_before = strategies@;
            publish_event(strategies, player as usize, GameEvent::JailCardUsed { player_id: player, deck });
            let ghost strategies_middle = strategies@;
            let event = release_player_from_jail(state, player);
            publish_event(strategies, player as usize, event);
            proof {
                let first = GameEvent::JailCardUsed { player_id: player, deck };
                lemma_published_none(strategies_before, player as int);
                lemma_published_then(strategies_before, player as int, seq![], strategies_before, first, strategies_middle);
                lemma_published_then(strategies_before, player as int, seq![first], strategies_middle, event, strategies@);
                assert(seq![first].push(event) =~= seq![first, event]);
                assert(seq![].push(first) =~= seq![first]);
            }
            return Ok(JailResolution::Released);
        },
        JailAction::PayBail => {
            charge_player(state, rules, strategies, player, rules.jail_bail_amount as Cash, select_fee_creditor(rules));
        },
    }
    let event = release_player_from_jail(state, player);
    publish_event(strategies, player as usize, event);
    Ok(JailResolution::Released)
}

} // verus!
