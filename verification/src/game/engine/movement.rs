use vstd::prelude::*;

use super::event::GameEvent;
use crate::game::board::model::PlayerId;
use crate::game::ruleset::model::Ruleset;
use crate::game::state::model::{
    GameState,
    group_player_mask,
    lemma_state_frame,
    with_player,
    without_player,
};
use crate::game::tile::data::{
    GO_TILE_ID,
    JAIL_TILE_ID,
    TILE_COUNT,
};
use crate::game::tile::model::{
    Cash,
    TileId,
    credit,
    credited,
};

verus! {

broadcast use group_player_mask;

/// The salary paid for moving from `current` to `target`: the landing salary on Go, the
/// passing salary when the move wraps past Go, nothing otherwise.
pub open spec fn salary_for_move(ruleset: Ruleset, current: int, target: int) -> Cash {
    if target == GO_TILE_ID {
        ruleset.go_landing_salary as Cash
    } else if target < current {
        ruleset.go_passing_salary as Cash
    } else {
        0
    }
}

pub fn move_player_forward<const PLAYER_COUNT: usize>(
    game_state: &mut GameState<PLAYER_COUNT>,
    ruleset: &Ruleset,
    player_id: PlayerId,
    tile_count: u8,
) -> (event: Option<GameEvent>)
    requires
        (player_id as usize) < PLAYER_COUNT,
    ensures
        ({
            let current = old(game_state).position_by_player_id@[player_id as int];
            let target = ((current + tile_count) % TILE_COUNT as int) as TileId;
            advanced(*old(game_state), *final(game_state), *ruleset, player_id as int, target, event)
        }),
        old(game_state).wf() && !old(game_state).is_bankrupt(player_id as int) ==> final(game_state).wf(),
{
    let current_tile_id = game_state.position_by_player_id[player_id as usize];
    let target_tile_id = ((current_tile_id as usize + tile_count as usize) % TILE_COUNT) as TileId;

    advance_player_to_tile(game_state, ruleset, player_id, target_tile_id)
}

/// `after` is `before` with the player moved to `target` and paid the salary for the move;
/// `event` reports a salary above zero.
pub open spec fn advanced<const N: usize>(
    before: GameState<N>,
    after: GameState<N>,
    ruleset: Ruleset,
    player: int,
    target: TileId,
    event: Option<GameEvent>,
) -> bool {
    let current = before.position_by_player_id@[player];
    let salary = salary_for_move(ruleset, current as int, target as int);
    &&& after == GameState {
        position_by_player_id: after.position_by_player_id,
        cash_by_player_id: after.cash_by_player_id,
        ..before
    }
    &&& after.position_by_player_id@ == before.position_by_player_id@.update(player, target)
    &&& after.cash_by_player_id@ == before.cash_by_player_id@.update(player, credited(before.cash(player), salary))
    &&& event == if salary > 0 {
        Some(GameEvent::SalaryPaid { player_id: player as PlayerId, amount: salary, landed_on_go: target == GO_TILE_ID })
    } else {
        None
    }
}

/// `state` with `player` moved to `target` and paid the salary for the move.
pub open spec fn advanced_state<const N: usize>(state: GameState<N>, ruleset: Ruleset, player: int, target: TileId) -> GameState<N> {
    let salary = salary_for_move(ruleset, state.position_by_player_id@[player] as int, target as int);
    GameState {
        position_by_player_id: vstd::array::spec_array_update(state.position_by_player_id, player, target),
        cash_by_player_id: vstd::array::spec_array_update(
            state.cash_by_player_id,
            player,
            credited(state.cash(player), salary),
        ),
        ..state
    }
}

/// A move of `player` to `target` gives the state `advanced_state` names.
pub proof fn lemma_advanced_state<const N: usize>(
    before: GameState<N>,
    after: GameState<N>,
    ruleset: Ruleset,
    player: int,
    target: TileId,
    event: Option<GameEvent>,
)
    requires
        0 <= player < N,
        advanced(before, after, ruleset, player, target, event),
    ensures
        after == advanced_state(before, ruleset, player, target),
{
    let expected = advanced_state(before, ruleset, player, target);
    assert(after.position_by_player_id =~= expected.position_by_player_id);
    assert(after.cash_by_player_id =~= expected.cash_by_player_id);
}

/// `state` with `player` sent to jail: on the jail tile, jailed with no jail turns, and the
/// doubles count cleared.
pub open spec fn sent_to_jail<const N: usize>(state: GameState<N>, player: int) -> GameState<N> {
    GameState {
        position_by_player_id: vstd::array::spec_array_update(state.position_by_player_id, player, JAIL_TILE_ID),
        jail_turn_count_by_player_id: vstd::array::spec_array_update(state.jail_turn_count_by_player_id, player, 0u8),
        jailed_players: state.jailed_players | (1u8 << (player as u8)),
        consecutive_double_count: 0,
        ..state
    }
}

pub fn advance_player_to_tile<const PLAYER_COUNT: usize>(
    game_state: &mut GameState<PLAYER_COUNT>,
    ruleset: &Ruleset,
    player_id: PlayerId,
    target_tile_id: TileId,
) -> (event: Option<GameEvent>)
    requires
        (player_id as usize) < PLAYER_COUNT,
    ensures
        advanced(*old(game_state), *final(game_state), *ruleset, player_id as int, target_tile_id, event),
        old(game_state).wf() && !old(game_state).is_bankrupt(player_id as int) && target_tile_id < TILE_COUNT
            ==> final(game_state).wf(),
{
    let player_index = player_id as usize;
    let current_tile_id = game_state.position_by_player_id[player_index];

    let salary: Cash = if target_tile_id == GO_TILE_ID {
        ruleset.go_landing_salary as Cash
    } else if target_tile_id < current_tile_id {
        ruleset.go_passing_salary as Cash
    } else {
        0
    };
    let ghost before = *game_state;
    game_state.cash_by_player_id[player_index] = credit(game_state.cash_by_player_id[player_index], salary);
    game_state.position_by_player_id[player_index] = target_tile_id;
    proof {
        if before.wf() && !before.is_bankrupt(player_id as int) && target_tile_id < TILE_COUNT {
            lemma_state_frame(before, *game_state);
        }
    }

    if salary > 0 {
        Some(GameEvent::SalaryPaid { player_id, amount: salary, landed_on_go: target_tile_id == GO_TILE_ID })
    } else {
        None
    }
}

pub fn move_player_backward<const PLAYER_COUNT: usize>(
    game_state: &mut GameState<PLAYER_COUNT>,
    player_id: PlayerId,
    tile_count: u8,
)
    requires
        (player_id as usize) < PLAYER_COUNT,
        old(game_state).position_by_player_id@[player_id as int] < TILE_COUNT,
        tile_count <= TILE_COUNT,
    ensures
        *final(game_state) == (GameState { position_by_player_id: final(game_state).position_by_player_id, ..*old(game_state) }),
        old(game_state).wf() ==> final(game_state).wf(),
        final(game_state).position_by_player_id@ == old(game_state).position_by_player_id@.update(
            player_id as int,
            ((old(game_state).position_by_player_id@[player_id as int] + TILE_COUNT - tile_count) % TILE_COUNT as int) as TileId,
        ),
{
    let player_index = player_id as usize;
    let current_tile_id = game_state.position_by_player_id[player_index] as usize;

    let ghost before = *game_state;
    game_state.position_by_player_id[player_index] = ((current_tile_id + TILE_COUNT - tile_count as usize) % TILE_COUNT) as TileId;
    proof {
        if before.wf() {
            lemma_state_frame(before, *game_state);
        }
    }
}

pub fn send_player_to_jail<const PLAYER_COUNT: usize>(
    game_state: &mut GameState<PLAYER_COUNT>,
    player_id: PlayerId,
) -> (event: GameEvent)
    requires
        (player_id as usize) < PLAYER_COUNT <= 8,
    ensures
        *final(game_state) == (GameState {
            position_by_player_id: final(game_state).position_by_player_id,
            jail_turn_count_by_player_id: final(game_state).jail_turn_count_by_player_id,
            jailed_players: final(game_state).jailed_players,
            consecutive_double_count: 0,
            ..*old(game_state)
        }),
        final(game_state).position_by_player_id@ == old(game_state).position_by_player_id@.update(player_id as int, JAIL_TILE_ID),
        final(game_state).jail_turn_count_by_player_id@ == old(game_state).jail_turn_count_by_player_id@.update(player_id as int, 0),
        forall|player: int| #[trigger] final(game_state).is_jailed(player) == (old(game_state).is_jailed(player) || player == player_id),
        final(game_state).jailed_players == old(game_state).jailed_players | (1u8 << player_id),
        event == (GameEvent::SentToJail { player_id }),
        old(game_state).wf() ==> final(game_state).wf(),
        *final(game_state) == sent_to_jail(*old(game_state), player_id as int),
{
    let ghost before = *game_state;
    let player_index = player_id as usize;

    game_state.position_by_player_id[player_index] = JAIL_TILE_ID;
    game_state.jail_turn_count_by_player_id[player_index] = 0;
    game_state.jailed_players = with_player(game_state.jailed_players, player_id);
    game_state.consecutive_double_count = 0;
    proof {
        let expected = sent_to_jail(before, player_id as int);
        assert(game_state.position_by_player_id =~= expected.position_by_player_id);
        assert(game_state.jail_turn_count_by_player_id =~= expected.jail_turn_count_by_player_id);
        if before.wf() {
            lemma_state_frame(before, *game_state);
        }
    }
    GameEvent::SentToJail { player_id }
}

pub fn release_player_from_jail<const PLAYER_COUNT: usize>(
    game_state: &mut GameState<PLAYER_COUNT>,
    player_id: PlayerId,
) -> (event: GameEvent)
    requires
        (player_id as usize) < PLAYER_COUNT <= 8,
    ensures
        *final(game_state) == (GameState {
            jail_turn_count_by_player_id: final(game_state).jail_turn_count_by_player_id,
            jailed_players: final(game_state).jailed_players,
            ..*old(game_state)
        }),
        final(game_state).jail_turn_count_by_player_id@ == old(game_state).jail_turn_count_by_player_id@.update(player_id as int, 0),
        forall|player: int| #[trigger] final(game_state).is_jailed(player) == (old(game_state).is_jailed(player) && player != player_id),
        *final(game_state) == released(*old(game_state), player_id as int),
        event == (GameEvent::ReleasedFromJail { player_id }),
        old(game_state).wf() ==> final(game_state).wf(),
{
    let ghost before = *game_state;
    game_state.jail_turn_count_by_player_id[player_id as usize] = 0;
    game_state.jailed_players = without_player(game_state.jailed_players, player_id);
    proof {
        assert(game_state.jail_turn_count_by_player_id =~= released(before, player_id as int).jail_turn_count_by_player_id);
        if before.wf() {
            lemma_state_frame(before, *game_state);
        }
    }
    GameEvent::ReleasedFromJail { player_id }
}

/// `state` with `player` out of jail and the player's jail turns reset.
pub open spec fn released<const N: usize>(state: GameState<N>, player: int) -> GameState<N> {
    GameState {
        jail_turn_count_by_player_id: vstd::array::spec_array_update(state.jail_turn_count_by_player_id, player, 0u8),
        jailed_players: state.jailed_players & !(1u8 << (player as u8)),
        ..state
    }
}

} // verus!
