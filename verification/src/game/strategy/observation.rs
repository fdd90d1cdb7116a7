use vstd::prelude::*;

use super::model::{
    JailAction,
    PlayerStrategy,
};
use crate::game::board::model::PlayerId;
use crate::game::engine::action::{
    LegalManagementActions,
    ManagementAction,
    ManagementPhase,
    legal_jail_actions,
};
use crate::game::engine::event::GameEvent;
use crate::game::engine::liquidation::{
    LiquidationAction,
    legal_liquidation_actions,
};
use crate::game::ruleset::model::{
    Ruleset,
    TurnCount,
};
use crate::game::state::model::{
    GameState,
    PlayerSetMask,
};
use crate::game::tile::model::{
    Cash,
    PropertyId,
    TileId,
    TileSetMask,
};
use crate::game::trade::model::TradeOffer;

verus! {

/// What a player can see of a game: everything but the order of the decks and the state of
/// the dice, together with the public events seen so far.
#[derive(Debug, Clone, Copy)]
pub struct PublicObservation<'a> {
    pub rules: &'a Ruleset,
    pub player_id: PlayerId,
    pub owned_tiles_by_player_id: &'a [TileSetMask],
    pub mortgaged_tiles: TileSetMask,
    pub improvement_level_by_property_id: &'a [u8],
    pub bank_house_count: u8,
    pub bank_hotel_count: u8,
    pub cash_by_player_id: &'a [Cash],
    pub position_by_player_id: &'a [TileId],
    pub jail_turn_count_by_player_id: &'a [TurnCount],
    pub jailed_players: PlayerSetMask,
    pub bankrupt_players: PlayerSetMask,
    pub get_out_of_jail_free_card_holder_by_deck_kind: &'a [Option<PlayerId>],
    pub free_parking_jackpot: Cash,
    pub current_player_id: PlayerId,
    pub consecutive_double_count: u8,
    pub history: &'a [GameEvent],
}

impl<'a> PublicObservation<'a> {
    /// Whether the observation shows exactly the public part of `state` to `player`, with
    /// `history` as the events seen so far.
    pub open spec fn observes<const N: usize>(
        self,
        state: GameState<N>,
        rules: Ruleset,
        player: PlayerId,
        history: Seq<GameEvent>,
    ) -> bool {
        &&& *self.rules == rules
        &&& self.player_id == player
        &&& self.owned_tiles_by_player_id@ == state.board.owned_tiles_by_player_id@
        &&& self.mortgaged_tiles == state.board.mortgaged_tiles
        &&& self.improvement_level_by_property_id@ == state.board.improvement_level_by_property_id@
        &&& self.bank_house_count == state.board.bank_house_count
        &&& self.bank_hotel_count == state.board.bank_hotel_count
        &&& self.cash_by_player_id@ == state.cash_by_player_id@
        &&& self.position_by_player_id@ == state.position_by_player_id@
        &&& self.jail_turn_count_by_player_id@ == state.jail_turn_count_by_player_id@
        &&& self.jailed_players == state.jailed_players
        &&& self.bankrupt_players == state.bankrupt_players
        &&& self.get_out_of_jail_free_card_holder_by_deck_kind@
            == state.get_out_of_jail_free_card_holder_by_deck_kind@
        &&& self.free_parking_jackpot == state.free_parking_jackpot
        &&& self.current_player_id == state.current_player_id
        &&& self.consecutive_double_count == state.consecutive_double_count
        &&& self.history@ == history
    }

    pub fn new<const N: usize>(
        state: &'a GameState<N>,
        rules: &'a Ruleset,
        player_id: PlayerId,
        history: &'a [GameEvent],
    ) -> (observation: Self)
        ensures
            observation.observes(*state, *rules, player_id, history@),
    {
        PublicObservation {
            rules,
            player_id,
            owned_tiles_by_player_id: state.board.owned_tiles_by_player_id.as_slice(),
            mortgaged_tiles: state.board.mortgaged_tiles,
            improvement_level_by_property_id: state.board.improvement_level_by_property_id.as_slice(),
            bank_house_count: state.board.bank_house_count,
            bank_hotel_count: state.board.bank_hotel_count,
            cash_by_player_id: state.cash_by_player_id.as_slice(),
            position_by_player_id: state.position_by_player_id.as_slice(),
            jail_turn_count_by_player_id: state.jail_turn_count_by_player_id.as_slice(),
            jailed_players: state.jailed_players,
            bankrupt_players: state.bankrupt_players,
            get_out_of_jail_free_card_holder_by_deck_kind: state.get_out_of_jail_free_card_holder_by_deck_kind.as_slice(),
            free_parking_jackpot: state.free_parking_jackpot,
            current_player_id: state.current_player_id,
            consecutive_double_count: state.consecutive_double_count,
            history,
        }
    }
}

/// The decisions of a player who sees only the public observation of the game. Each choice
/// among legal actions is offered the list of them; the engine checks every answer.
pub trait ObservedPolicy {
    fn should_purchase_property(&mut self, observation: PublicObservation<'_>, tile: TileId) -> (buy: bool)
        default_ensures
            !buy,
    {
        false
    }

    fn choose_max_auction_bid(&mut self, observation: PublicObservation<'_>, tile: TileId) -> (bid: Cash)
        default_ensures
            bid == 0,
    {
        0
    }

    fn propose_trade(&mut self, observation: PublicObservation<'_>) -> (offer: Option<TradeOffer>)
        default_ensures
            offer is None,
    {
        None
    }

    fn should_accept_trade(&mut self, observation: PublicObservation<'_>, offer: &TradeOffer) -> (accept: bool)
        default_ensures
            !accept,
    {
        false
    }

    fn counter_trade_offer(&mut self, observation: PublicObservation<'_>, rejected_offer: &TradeOffer) -> (counteroffer:
        Option<TradeOffer>)
        default_ensures
            counteroffer is None,
    {
        None
    }

    fn should_accept_counteroffer(
        &mut self,
        observation: PublicObservation<'_>,
        original_offer: &TradeOffer,
        counteroffer: &TradeOffer,
    ) -> bool {
        self.should_accept_trade(observation, counteroffer)
    }

    fn choose_jail_action(&mut self, observation: PublicObservation<'_>, legal: &[JailAction]) -> (action: JailAction)
        default_ensures
            action == JailAction::RollForDoubles,
    {
        JailAction::RollForDoubles
    }

    fn choose_management_action(
        &mut self,
        observation: PublicObservation<'_>,
        phase: ManagementPhase,
        legal: &[ManagementAction],
    ) -> (action: Option<ManagementAction>)
        default_ensures
            action is None,
    {
        None
    }

    fn choose_liquidation_action(
        &mut self,
        observation: PublicObservation<'_>,
        required_amount: Cash,
        legal: &[LiquidationAction],
    ) -> (action: Option<LiquidationAction>)
        default_ensures
            action == if legal@.len() > 0 {
                Some(legal@[0])
            } else {
                None::<LiquidationAction>
            },
    {
        if legal.len() > 0 {
            Some(legal[0])
        } else {
            None
        }
    }
}

/// A player strategy that keeps the public events it observes and hands each decision to a
/// policy that sees only the public observation.
#[derive(Debug, Clone)]
pub struct ObservedStrategy<P> {
    pub policy: P,
    history: Vec<GameEvent>,
}

impl<P> ObservedStrategy<P> {
    /// The public events observed so far, oldest first.
    pub closed spec fn observed(&self) -> Seq<GameEvent> {
        self.history@
    }

    /// The policy that takes the decisions.
    pub closed spec fn deciding_policy(&self) -> P {
        self.policy
    }

    pub fn new(policy: P) -> (strategy: Self)
        ensures
            strategy.deciding_policy() == policy,
            strategy.observed() == Seq::<GameEvent>::empty(),
    {
        ObservedStrategy { policy, history: Vec::new() }
    }

    pub fn history(&self) -> (history: &[GameEvent])
        ensures
            history@ == self.observed(),
    {
        self.history.as_slice()
    }
}

impl<P: ObservedPolicy> PlayerStrategy for ObservedStrategy<P> {
    open spec fn observes(self, event: GameEvent, after: Self) -> bool {
        &&& after.observed() == self.observed().push(event)
        &&& after.deciding_policy() == self.deciding_policy()
    }

    open spec fn records(self, event: GameEvent, after: Self) -> bool {
        after == self
    }

    open spec fn chooses_purchase(self, cash: int, price: int, buy: bool, after: Self) -> bool {
        after.observed() == self.observed()
    }

    open spec fn chooses_bid(self, cash: int, price: int, bid: Cash, after: Self) -> bool {
        after.observed() == self.observed()
    }

    open spec fn chooses_jail_action(
        self,
        cash: int,
        holds_jail_card: bool,
        unowned_tile_count: nat,
        rules: Ruleset,
        action: JailAction,
        after: Self,
    ) -> bool {
        after.observed() == self.observed()
    }


    fn record_event(&mut self, event: GameEvent) {
    }

    fn observe_public_event(&mut self, event: GameEvent)
        ensures
            final(self).observed() == old(self).observed().push(event),
            final(self).deciding_policy() == old(self).deciding_policy(),
    {
        self.history.push(event);
    }

    fn should_purchase_property<const N: usize>(
        &mut self,
        state: &GameState<N>,
        rules: &Ruleset,
        player: PlayerId,
        tile: TileId,
    ) -> (buy: bool)
        ensures
            final(self).observed() == old(self).observed(),
    {
        let observation = PublicObservation::new(state, rules, player, self.history.as_slice());
        self.policy.should_purchase_property(observation, tile)
    }

    fn choose_max_auction_bid<const N: usize>(
        &mut self,
        state: &GameState<N>,
        rules: &Ruleset,
        player: PlayerId,
        tile: TileId,
    ) -> (bid: Cash)
        ensures
            final(self).observed() == old(self).observed(),
    {
        let observation = PublicObservation::new(state, rules, player, self.history.as_slice());
        self.policy.choose_max_auction_bid(observation, tile)
    }

    fn propose_trade<const N: usize>(&mut self, state: &GameState<N>, rules: &Ruleset, player: PlayerId) -> (offer: Option<
        TradeOffer,
    >)
        ensures
            final(self).observed() == old(self).observed(),
    {
        let observation = PublicObservation::new(state, rules, player, self.history.as_slice());
        self.policy.propose_trade(observation)
    }

    fn should_accept_trade<const N: usize>(
        &mut self,
        state: &GameState<N>,
        rules: &Ruleset,
        player: PlayerId,
        offer: &TradeOffer,
    ) -> (accept: bool)
        ensures
            final(self).observed() == old(self).observed(),
    {
        let observation = PublicObservation::new(state, rules, player, self.history.as_slice());
        self.policy.should_accept_trade(observation, offer)
    }

    fn counter_trade_offer<const N: usize>(
        &mut self,
        state: &GameState<N>,
        rules: &Ruleset,
        player: PlayerId,
        rejected_offer: &TradeOffer,
    ) -> (counteroffer_answer: Option<TradeOffer>)
        ensures
            final(self).observed() == old(self).observed(),
    {
        let observation = PublicObservation::new(state, rules, player, self.history.as_slice());
        self.policy.counter_trade_offer(observation, rejected_offer)
    }

    fn should_accept_counteroffer<const N: usize>(
        &mut self,
        state: &GameState<N>,
        rules: &Ruleset,
        player: PlayerId,
        original_offer: &TradeOffer,
        counteroffer: &TradeOffer,
    ) -> (accept: bool)
        ensures
            final(self).observed() == old(self).observed(),
    {
        let observation = PublicObservation::new(state, rules, player, self.history.as_slice());
        self.policy.should_accept_counteroffer(observation, original_offer, counteroffer)
    }

    fn choose_jail_action<const N: usize>(&mut self, state: &GameState<N>, rules: &Ruleset, player: PlayerId) -> (action:
        JailAction)
        ensures
            final(self).observed() == old(self).observed(),
    {
        let legal = legal_jail_actions(state, rules, player);
        let observation = PublicObservation::new(state, rules, player, self.history.as_slice());
        self.policy.choose_jail_action(observation, legal.as_slice())
    }

    fn choose_management_action<const N: usize>(
        &mut self,
        state: &GameState<N>,
        rules: &Ruleset,
        player: PlayerId,
        legal: &LegalManagementActions<N>,
    ) -> (action: Option<ManagementAction>)
        ensures
            final(self).observed() == old(self).observed(),
    {
        let actions = legal.iter();
        let observation = PublicObservation::new(state, rules, player, self.history.as_slice());
        self.policy.choose_management_action(observation, legal.phase(), actions.as_slice())
    }

    fn choose_liquidation_action<const N: usize>(
        &mut self,
        state: &GameState<N>,
        rules: &Ruleset,
        player: PlayerId,
        required_amount: Cash,
    ) -> (action: Option<LiquidationAction>)
        ensures
            final(self).observed() == old(self).observed(),
    {
        let legal = legal_liquidation_actions(state, rules, player);
        let observation = PublicObservation::new(state, rules, player, self.history.as_slice());
        self.policy.choose_liquidation_action(observation, required_amount, legal.as_slice())
    }

    fn choose_property_to_improve<const N: usize>(
        &mut self,
        state: &GameState<N>,
        rules: &Ruleset,
        player: PlayerId,
    ) -> (choice: Option<PropertyId>)
        ensures
            choice is None,
            *final(self) == *old(self),
    {
        None
    }

    fn choose_tile_to_unmortgage<const N: usize>(
        &mut self,
        state: &GameState<N>,
        rules: &Ruleset,
        player: PlayerId,
    ) -> (choice: Option<TileId>)
        ensures
            choice is None,
            *final(self) == *old(self),
    {
        None
    }
}

} // verus!
