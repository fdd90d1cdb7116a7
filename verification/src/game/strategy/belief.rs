use vstd::prelude::*;

use super::observation::PublicObservation;
use crate::game::board::data::{
    HOTEL_IMPROVEMENT_LEVEL,
    MAX_PLAYER_COUNT,
    MIN_PLAYER_COUNT,
};
use crate::game::board::model::{
    BoardState,
    PlayerId,
};
use crate::game::card::belief::{
    DeckBelief,
    possible_world,
    public_holder,
    total_weight,
};
use crate::game::card::data::CARD_COUNT_PER_DECK;
use crate::game::card::model::{
    DECK_KIND_COUNT,
    DeckKind,
};
use crate::game::rng::WyRand;
use crate::game::state::model::GameState;
use crate::game::tile::data::{
    PROPERTY_COUNT,
    TILE_COUNT,
};

verus! {

/// Whether the observation has one entry per player for each player table, with two to eight
/// players, one entry per property and one per deck.
pub open spec fn dimensions_supported(observation: PublicObservation) -> bool {
    let count = observation.cash_by_player_id@.len();
    &&& MIN_PLAYER_COUNT <= count <= MAX_PLAYER_COUNT
    &&& observation.owned_tiles_by_player_id@.len() == count
    &&& observation.position_by_player_id@.len() == count
    &&& observation.jail_turn_count_by_player_id@.len() == count
    &&& observation.improvement_level_by_property_id@.len() == PROPERTY_COUNT
    &&& observation.get_out_of_jail_free_card_holder_by_deck_kind@.len() == DECK_KIND_COUNT
}

/// Whether the public history of the observation allows some order of each deck and shows the
/// jail card holders that the observation shows.
pub open spec fn history_consistent(observation: PublicObservation) -> bool {
    let history = observation.history@;
    &&& total_weight(DeckKind::Chance, history, CARD_COUNT_PER_DECK as nat) > 0
    &&& total_weight(DeckKind::CommunityChest, history, CARD_COUNT_PER_DECK as nat) > 0
    &&& public_holder(DeckKind::Chance, history) == observation.get_out_of_jail_free_card_holder_by_deck_kind@[0]
    &&& public_holder(DeckKind::CommunityChest, history)
        == observation.get_out_of_jail_free_card_holder_by_deck_kind@[1]
}

/// What a player believes of the hidden part of a game: the public observation, with what its
/// history tells of the order of each deck. A sample from it is a complete game state that a
/// rollout can play on.
#[derive(Clone)]
pub struct RolloutBelief<'a> {
    observation: PublicObservation<'a>,
    decks: [DeckBelief; DECK_KIND_COUNT],
}

/// `values` copied into an array.
fn copy_into_array<T: Copy, const N: usize>(values: &[T], fill: T) -> (array: [T; N])
    requires
        values@.len() == N,
    ensures
        array@ == values@,
{
    let mut array: [T; N] = vstd::array::array_fill_for_copy_types(fill);
    let mut index: usize = 0;
    while index < N
        invariant
            index <= N,
            values@.len() == N,
            forall|earlier: int| 0 <= earlier < index ==> #[trigger] array@[earlier] == values@[earlier],
        decreases N - index,
    {
        array[index] = values[index];
        index = index + 1;
    }
    assert(array@ =~= values@);
    array
}

impl<'a> RolloutBelief<'a> {
    /// The observation the belief was formed from.
    pub closed spec fn observation_spec(self) -> PublicObservation<'a> {
        self.observation
    }

    /// The beliefs about both decks agree with the history of the observation.
    pub closed spec fn wf(self) -> bool {
        &&& dimensions_supported(self.observation)
        &&& history_consistent(self.observation)
        &&& self.decks@[0].wf()
        &&& self.decks@[0].deck_spec() == DeckKind::Chance
        &&& self.decks@[0].history_spec() == self.observation.history@
        &&& self.decks@[1].wf()
        &&& self.decks@[1].deck_spec() == DeckKind::CommunityChest
        &&& self.decks@[1].history_spec() == self.observation.history@
    }

    /// Forms the belief of the player who made `observation`. Fails when the observation's
    /// dimensions are not those of a game, or its history allows no order of a deck or shows
    /// other jail card holders than the observation.
    pub fn new(observation: PublicObservation<'a>) -> (result: Result<Self, &'static str>)
        ensures
            result is Ok <==> dimensions_supported(observation) && history_consistent(observation),
            result matches Ok(belief) ==> belief.wf() && belief.observation_spec() == observation,
    {
        let count = observation.cash_by_player_id.len();
        if !(MIN_PLAYER_COUNT <= count && count <= MAX_PLAYER_COUNT) || observation.owned_tiles_by_player_id.len() != count
            || observation.position_by_player_id.len() != count || observation.jail_turn_count_by_player_id.len()
            != count || observation.improvement_level_by_property_id.len() != PROPERTY_COUNT
            || observation.get_out_of_jail_free_card_holder_by_deck_kind.len() != DECK_KIND_COUNT {
            return Err("observation has unsupported or inconsistent dimensions");
        }
        let chance = match DeckBelief::from_start_history(DeckKind::Chance, observation.history) {
            Ok(belief) => belief,
            Err(error) => return Err(error),
        };
        let community_chest = match DeckBelief::from_start_history(DeckKind::CommunityChest, observation.history) {
            Ok(belief) => belief,
            Err(error) => return Err(error),
        };
        let holders = observation.get_out_of_jail_free_card_holder_by_deck_kind;
        if !same_holder(chance.holder(), holders[0]) || !same_holder(community_chest.holder(), holders[1]) {
            return Err("public card history does not match observed jail card holders");
        }
        Ok(RolloutBelief { observation, decks: [chance, community_chest] })
    }

    /// Draws a complete game state for `N` players: the public state of the observation, an
    /// order of each deck that its history allows, and dice seeded from `rng`. Fails, leaving
    /// `rng` as it was, when the observation is of another number of players.
    pub fn sample<const N: usize>(&self, rng: &mut WyRand) -> (result: Result<GameState<N>, &'static str>)
        requires
            self.wf(),
        ensures
            result is Err <==> self.observation_spec().cash_by_player_id@.len() != N,
            result is Err ==> *final(rng) == *old(rng),
            result matches Ok(state) ==> {
                let observation = self.observation_spec();
                &&& observation.observes(state, *observation.rules, observation.player_id, observation.history@)
                &&& state.deck_state_by_deck_kind@[0].wf()
                &&& state.deck_state_by_deck_kind@[1].wf()
                &&& possible_world(DeckKind::Chance, observation.history@, state.deck_state_by_deck_kind@[0])
                &&& possible_world(DeckKind::CommunityChest, observation.history@, state.deck_state_by_deck_kind@[1])
            },
    {
        let observation = self.observation;
        if observation.cash_by_player_id.len() != N {
            return Err("rollout player count does not match observation");
        }
        let board = BoardState {
            owned_tiles_by_player_id: copy_into_array(observation.owned_tiles_by_player_id, 0),
            mortgaged_tiles: observation.mortgaged_tiles,
            improvement_level_by_property_id: copy_into_array(observation.improvement_level_by_property_id, 0),
            bank_house_count: observation.bank_house_count,
            bank_hotel_count: observation.bank_hotel_count,
        };
        let chance = self.decks[0].sample(rng);
        let community_chest = self.decks[1].sample(rng);
        let seed = rng.generate_u64();
        let state = GameState {
            board,
            cash_by_player_id: copy_into_array(observation.cash_by_player_id, 0),
            position_by_player_id: copy_into_array(observation.position_by_player_id, 0),
            jail_turn_count_by_player_id: copy_into_array(observation.jail_turn_count_by_player_id, 0),
            jailed_players: observation.jailed_players,
            bankrupt_players: observation.bankrupt_players,
            get_out_of_jail_free_card_holder_by_deck_kind: copy_into_array(
                observation.get_out_of_jail_free_card_holder_by_deck_kind,
                None,
            ),
            deck_state_by_deck_kind: [chance, community_chest],
            free_parking_jackpot: observation.free_parking_jackpot,
            current_player_id: observation.current_player_id,
            consecutive_double_count: observation.consecutive_double_count,
            rng: WyRand::new(seed),
        };
        assert(state.deck_state_by_deck_kind@[0] == chance);
        assert(state.deck_state_by_deck_kind@[1] == community_chest);
        Ok(state)
    }
}

/// Whether `first` and `second` name the same holder.
fn same_holder(first: Option<PlayerId>, second: Option<PlayerId>) -> (same: bool)
    ensures
        same == (first == second),
{
    match (first, second) {
        (Some(first), Some(second)) => first == second,
        (None, None) => true,
        _ => false,
    }
}

/// A sampled world is a valid game state when the observation was taken of one: the two
/// states agree on everything public, and the sampled decks hold each card once.
pub proof fn lemma_sampled_world_wf<const N: usize>(
    source: GameState<N>,
    sample: GameState<N>,
    observation: PublicObservation,
)
    requires
        source.wf(),
        observation.observes(source, *observation.rules, observation.player_id, observation.history@),
        observation.observes(sample, *observation.rules, observation.player_id, observation.history@),
        sample.deck_state_by_deck_kind@[0].wf(),
        sample.deck_state_by_deck_kind@[1].wf(),
    ensures
        sample.wf(),
{
    assert(sample.board.owned_tiles_by_player_id@ == source.board.owned_tiles_by_player_id@);
    assert(sample.board.improvement_level_by_property_id@ == source.board.improvement_level_by_property_id@);
    assert(sample.board == source.board) by {
        assert(sample.board.owned_tiles_by_player_id =~= source.board.owned_tiles_by_player_id);
        assert(sample.board.improvement_level_by_property_id =~= source.board.improvement_level_by_property_id);
    }
    assert(sample.cash_by_player_id@ == source.cash_by_player_id@);
    assert(sample.position_by_player_id@ == source.position_by_player_id@);
    assert(sample.jail_turn_count_by_player_id@ == source.jail_turn_count_by_player_id@);
    assert(sample.get_out_of_jail_free_card_holder_by_deck_kind@ == source.get_out_of_jail_free_card_holder_by_deck_kind@);
    assert forall|deck: int| 0 <= deck < DECK_KIND_COUNT implies (#[trigger] sample.deck_state_by_deck_kind@[deck]).wf() by {
        if deck == 0 {
        } else {
            assert(deck == 1);
        }
    }
    assert(sample.ownership_wf());
    assert forall|property: int| 0 <= property < PROPERTY_COUNT implies #[trigger] sample.level(property)
        <= HOTEL_IMPROVEMENT_LEVEL by {
        assert(source.level(property) <= HOTEL_IMPROVEMENT_LEVEL);
    }
    assert(sample.buildings_wf());
    assert forall|player: int| 0 <= player < N && #[trigger] sample.is_bankrupt(player) implies sample.board.owned_tiles_by_player_id@[
        player] == 0 && sample.cash(player) == 0 by {
        assert(source.is_bankrupt(player));
    }
    assert(forall|player: int| 0 <= player < N ==> #[trigger] sample.position_by_player_id@[player] < TILE_COUNT);
}

} // verus!
