use vstd::prelude::*;

use super::tournament::TournamentConfig;
use crate::game::board::data::{
    MAX_PLAYER_COUNT,
    MIN_PLAYER_COUNT,
};
use crate::game::board::model::PlayerId;
use crate::game::engine::turn::{
    find_sole_active_player,
    game_played,
    game_seated,
    has_sole_active_player,
    play_turn,
    sole_active_player,
    turn_played,
    turn_taken,
};
use crate::game::ruleset::model::Ruleset;
use crate::game::state::model::GameState;
use crate::game::strategy::configurable::ConfigurableStrategy;
use crate::game::tile::data::PROPERTY_COUNT;
use crate::game::tile::lut::{
    TILE_ID_BY_PROPERTY_ID,
    TILE_SET_MASK_BY_OWNERSHIP_GROUP,
};
use crate::game::tile::model::{
    OWNERSHIP_GROUP_COUNT,
    contains_tile,
    tile_in,
};

verus! {

/// Monopoly counts of zero to three, and four or more.
pub const MONOPOLY_COUNT_BUCKET_COUNT: usize = 5;

/// Building counts of none, one to four, five to nine, and ten or more.
pub const DEVELOPMENT_BUCKET_COUNT: usize = 4;

/// The turn after which the monopolies of each player are counted.
pub const MONOPOLY_SNAPSHOT_TURN: u32 = 100;

/// How often a group was the first of its kind to be completed, how often its first owner won,
/// and the turns it took to complete it, summed.
#[derive(Debug, Clone, Copy, PartialEq, Eq, Hash, Structural)]
pub struct GroupEntry {
    pub first_completion_count: u32,
    pub first_completion_win_count: u32,
    pub total_completion_turn: u64,
}

/// How many players fell in a bucket, and how many of them won.
#[derive(Debug, Clone, Copy, PartialEq, Eq, Hash, Structural)]
pub struct MonopolyCountEntry {
    pub player_count: u32,
    pub win_count: u32,
}

/// What games say about monopolies: for each group, its first completions; at the snapshot
/// turn, the players by number of monopolies, by their only monopoly, and by the buildings of
/// those with only one; and for each, how many won.
#[derive(Debug, Clone, Copy, PartialEq, Eq, Hash)]
pub struct MonopolyReport {
    pub game_count: u32,
    pub decisive_game_count: u32,
    pub snapshot_game_count: u32,
    pub group_entries: [GroupEntry; 10],
    pub monopoly_count_entries: [MonopolyCountEntry; 5],
    pub sole_monopoly_entries: [MonopolyCountEntry; 10],
    pub sole_monopoly_development_entries: [MonopolyCountEntry; 4],
}

#[derive(Debug, Clone, Copy, PartialEq, Eq, Hash, Structural)]
pub enum AnalysisError {
    /// The analysis needs at least one game of at least one turn.
    EmptyRun,
    /// The player count lies outside the supported range of two to eight.
    UnsupportedPlayerCount(usize),
}

/// The players counted in `entries`.
pub open spec fn player_total(entries: Seq<MonopolyCountEntry>) -> nat
    decreases entries.len(),
{
    if entries.len() == 0 {
        0
    } else {
        (player_total(entries.drop_last()) + entries.last().player_count) as nat
    }
}

/// The winners counted in `entries`.
pub open spec fn win_total(entries: Seq<MonopolyCountEntry>) -> nat
    decreases entries.len(),
{
    if entries.len() == 0 {
        0
    } else {
        (win_total(entries.drop_last()) + entries.last().win_count) as nat
    }
}

/// No bucket counts more winners than players.
pub open spec fn entries_consistent(entries: Seq<MonopolyCountEntry>) -> bool {
    forall|index: int| 0 <= index < entries.len() ==> #[trigger] entries[index].win_count <= entries[index].player_count
}

/// No bucket counts a player.
pub open spec fn entries_empty(entries: Seq<MonopolyCountEntry>) -> bool {
    forall|index: int| 0 <= index < entries.len() ==> #[trigger] entries[index].player_count == 0
}

/// Whether `report` counts each of its games and each of their `player_count` players once:
/// every player of a game that reached the snapshot in one monopoly count bucket, players
/// with only one monopoly both by group and by buildings, winners only among counted players,
/// and each group completed first at most once a game within `max_turn_count` turns.
pub open spec fn report_consistent(report: MonopolyReport, player_count: int, max_turn_count: int) -> bool {
    &&& report.decisive_game_count <= report.game_count
    &&& report.snapshot_game_count <= report.game_count
    &&& player_total(report.monopoly_count_entries@) == report.snapshot_game_count * player_count
    &&& win_total(report.monopoly_count_entries@) <= report.decisive_game_count
    &&& player_total(report.sole_monopoly_entries@) == player_total(report.sole_monopoly_development_entries@)
    &&& player_total(report.sole_monopoly_entries@) <= report.snapshot_game_count * player_count
    &&& entries_consistent(report.monopoly_count_entries@)
    &&& entries_consistent(report.sole_monopoly_entries@)
    &&& entries_consistent(report.sole_monopoly_development_entries@)
    &&& forall|group: int|
        0 <= group < OWNERSHIP_GROUP_COUNT ==> {
            let entry = #[trigger] report.group_entries@[group];
            &&& entry.first_completion_win_count <= entry.first_completion_count
            &&& entry.first_completion_count <= report.game_count
            &&& entry.total_completion_turn <= entry.first_completion_count * max_turn_count
        }
}

/// Whether `report` counts no player at a snapshot.
pub open spec fn without_snapshot(report: MonopolyReport) -> bool {
    &&& report.snapshot_game_count == 0
    &&& entries_empty(report.monopoly_count_entries@)
    &&& entries_empty(report.sole_monopoly_entries@)
    &&& entries_empty(report.sole_monopoly_development_entries@)
}

proof fn lemma_totals_of_sum(
    first: Seq<MonopolyCountEntry>,
    second: Seq<MonopolyCountEntry>,
    sum: Seq<MonopolyCountEntry>,
)
    requires
        first.len() == second.len() == sum.len(),
        forall|index: int|
            0 <= index < sum.len() ==> #[trigger] sum[index].player_count == first[index].player_count
                + second[index].player_count && sum[index].win_count == first[index].win_count + second[index].win_count,
    ensures
        player_total(sum) == player_total(first) + player_total(second),
        win_total(sum) == win_total(first) + win_total(second),
    decreases sum.len(),
{
    if sum.len() > 0 {
        let last = sum.len() - 1;
        assert(sum[last].player_count == first[last].player_count + second[last].player_count);
        lemma_totals_of_sum(first.drop_last(), second.drop_last(), sum.drop_last());
    }
}

proof fn lemma_entry_within_total(entries: Seq<MonopolyCountEntry>, index: int)
    requires
        0 <= index < entries.len(),
    ensures
        entries[index].player_count <= player_total(entries),
        entries[index].win_count <= win_total(entries),
    decreases entries.len(),
{
    if index < entries.len() - 1 {
        lemma_entry_within_total(entries.drop_last(), index);
    }
}

proof fn lemma_empty_total(entries: Seq<MonopolyCountEntry>)
    requires
        entries_empty(entries),
        entries_consistent(entries),
    ensures
        player_total(entries) == 0,
        win_total(entries) == 0,
    decreases entries.len(),
{
    if entries.len() > 0 {
        assert(entries[entries.len() - 1].player_count == 0);
        lemma_empty_total(entries.drop_last());
    }
}

/// `first` and `second` added bucket by bucket.
fn combine_entries<const M: usize>(first: [MonopolyCountEntry; M], second: [MonopolyCountEntry; M]) -> (sum: [MonopolyCountEntry; M])
    requires
        forall|index: int|
            0 <= index < M ==> #[trigger] first@[index].player_count + second@[index].player_count <= u32::MAX
                && first@[index].win_count + second@[index].win_count <= u32::MAX,
    ensures
        forall|index: int|
            0 <= index < M ==> #[trigger] sum@[index].player_count == first@[index].player_count
                + second@[index].player_count && sum@[index].win_count == first@[index].win_count
                + second@[index].win_count,
{
    let mut sum = first;
    let mut index: usize = 0;
    while index < M
        invariant
            index <= M,
            forall|other: int|
                0 <= other < M ==> #[trigger] first@[other].player_count + second@[other].player_count <= u32::MAX
                    && first@[other].win_count + second@[other].win_count <= u32::MAX,
            forall|other: int| index <= other < M ==> #[trigger] sum@[other] == first@[other],
            forall|other: int|
                0 <= other < index ==> #[trigger] sum@[other].player_count == first@[other].player_count
                    + second@[other].player_count && sum@[other].win_count == first@[other].win_count
                    + second@[other].win_count,
        decreases M - index,
    {
        let entry = MonopolyCountEntry {
            player_count: first[index].player_count + second[index].player_count,
            win_count: first[index].win_count + second[index].win_count,
        };
        let ghost before = sum@;
        sum[index] = entry;
        assert(forall|other: int| 0 <= other < M && other != index ==> #[trigger] sum@[other] == before[other]);
        index = index + 1;
    }
    sum
}

/// `first` and `second` added group by group.
fn combine_groups(first: [GroupEntry; 10], second: [GroupEntry; 10]) -> (sum: [GroupEntry; 10])
    requires
        forall|group: int|
            0 <= group < OWNERSHIP_GROUP_COUNT ==> {
                &&& #[trigger] first@[group].first_completion_count + second@[group].first_completion_count <= u32::MAX
                &&& first@[group].first_completion_win_count + second@[group].first_completion_win_count <= u32::MAX
                &&& first@[group].total_completion_turn + second@[group].total_completion_turn <= u64::MAX
            },
    ensures
        forall|group: int|
            0 <= group < OWNERSHIP_GROUP_COUNT ==> {
                &&& #[trigger] sum@[group].first_completion_count == first@[group].first_completion_count
                    + second@[group].first_completion_count
                &&& sum@[group].first_completion_win_count == first@[group].first_completion_win_count
                    + second@[group].first_completion_win_count
                &&& sum@[group].total_completion_turn == first@[group].total_completion_turn
                    + second@[group].total_completion_turn
            },
{
    let mut sum = first;
    let mut group: usize = 0;
    while group < OWNERSHIP_GROUP_COUNT
        invariant
            group <= OWNERSHIP_GROUP_COUNT,
            forall|other: int|
                0 <= other < OWNERSHIP_GROUP_COUNT ==> {
                    &&& #[trigger] first@[other].first_completion_count + second@[other].first_completion_count
                        <= u32::MAX
                    &&& first@[other].first_completion_win_count + second@[other].first_completion_win_count
                        <= u32::MAX
                    &&& first@[other].total_completion_turn + second@[other].total_completion_turn <= u64::MAX
                },
            forall|other: int| group <= other < OWNERSHIP_GROUP_COUNT ==> #[trigger] sum@[other] == first@[other],
            forall|other: int|
                0 <= other < group ==> {
                    &&& #[trigger] sum@[other].first_completion_count == first@[other].first_completion_count
                        + second@[other].first_completion_count
                    &&& sum@[other].first_completion_win_count == first@[other].first_completion_win_count
                        + second@[other].first_completion_win_count
                    &&& sum@[other].total_completion_turn == first@[other].total_completion_turn
                        + second@[other].total_completion_turn
                },
        decreases OWNERSHIP_GROUP_COUNT - group,
    {
        let entry = GroupEntry {
            first_completion_count: first[group].first_completion_count + second[group].first_completion_count,
            first_completion_win_count: first[group].first_completion_win_count
                + second[group].first_completion_win_count,
            total_completion_turn: first[group].total_completion_turn + second[group].total_completion_turn,
        };
        let ghost before = sum@;
        sum[group] = entry;
        assert(forall|other: int| 0 <= other < OWNERSHIP_GROUP_COUNT && other != group ==> #[trigger] sum@[other]
            == before[other]);
        group = group + 1;
    }
    sum
}

impl MonopolyReport {
    pub fn empty() -> (report: Self)
        ensures
            report.game_count == 0,
            report.decisive_game_count == 0,
            report.snapshot_game_count == 0,
            forall|group: int|
                0 <= group < OWNERSHIP_GROUP_COUNT ==> #[trigger] report.group_entries@[group] == (GroupEntry {
                    first_completion_count: 0,
                    first_completion_win_count: 0,
                    total_completion_turn: 0,
                }),
            forall|bucket: int|
                0 <= bucket < MONOPOLY_COUNT_BUCKET_COUNT ==> #[trigger] report.monopoly_count_entries@[bucket] == (
                MonopolyCountEntry { player_count: 0, win_count: 0 }),
            forall|group: int|
                0 <= group < OWNERSHIP_GROUP_COUNT ==> #[trigger] report.sole_monopoly_entries@[group] == (
                MonopolyCountEntry { player_count: 0, win_count: 0 }),
            forall|bucket: int|
                0 <= bucket < DEVELOPMENT_BUCKET_COUNT ==> #[trigger] report.sole_monopoly_development_entries@[bucket]
                    == (MonopolyCountEntry { player_count: 0, win_count: 0 }),
    {
        let empty_entry = MonopolyCountEntry { player_count: 0, win_count: 0 };
        MonopolyReport {
            game_count: 0,
            decisive_game_count: 0,
            snapshot_game_count: 0,
            group_entries: vstd::array::array_fill_for_copy_types(
                GroupEntry { first_completion_count: 0, first_completion_win_count: 0, total_completion_turn: 0 },
            ),
            monopoly_count_entries: vstd::array::array_fill_for_copy_types(empty_entry),
            sole_monopoly_entries: vstd::array::array_fill_for_copy_types(empty_entry),
            sole_monopoly_development_entries: vstd::array::array_fill_for_copy_types(empty_entry),
        }
    }

    /// The counts of `self` and `other` added together, bucket by bucket.
    pub fn combine(self, other: Self) -> (combined: Self)
        requires
            self.game_count + other.game_count <= u32::MAX,
            self.decisive_game_count + other.decisive_game_count <= u32::MAX,
            self.snapshot_game_count + other.snapshot_game_count <= u32::MAX,
            forall|group: int|
                0 <= group < OWNERSHIP_GROUP_COUNT ==> {
                    &&& #[trigger] self.group_entries@[group].first_completion_count
                        + other.group_entries@[group].first_completion_count <= u32::MAX
                    &&& self.group_entries@[group].first_completion_win_count
                        + other.group_entries@[group].first_completion_win_count <= u32::MAX
                    &&& self.group_entries@[group].total_completion_turn
                        + other.group_entries@[group].total_completion_turn <= u64::MAX
                },
            forall|bucket: int|
                0 <= bucket < MONOPOLY_COUNT_BUCKET_COUNT ==> #[trigger] self.monopoly_count_entries@[bucket].player_count
                    + other.monopoly_count_entries@[bucket].player_count <= u32::MAX
                    && self.monopoly_count_entries@[bucket].win_count + other.monopoly_count_entries@[bucket].win_count
                    <= u32::MAX,
            forall|group: int|
                0 <= group < OWNERSHIP_GROUP_COUNT ==> #[trigger] self.sole_monopoly_entries@[group].player_count
                    + other.sole_monopoly_entries@[group].player_count <= u32::MAX
                    && self.sole_monopoly_entries@[group].win_count + other.sole_monopoly_entries@[group].win_count
                    <= u32::MAX,
            forall|bucket: int|
                0 <= bucket < DEVELOPMENT_BUCKET_COUNT ==> #[trigger] self.sole_monopoly_development_entries@[
                    bucket].player_count + other.sole_monopoly_development_entries@[bucket].player_count <= u32::MAX
                    && self.sole_monopoly_development_entries@[bucket].win_count
                    + other.sole_monopoly_development_entries@[bucket].win_count <= u32::MAX,
        ensures
            combined.game_count == self.game_count + other.game_count,
            combined.decisive_game_count == self.decisive_game_count + other.decisive_game_count,
            combined.snapshot_game_count == self.snapshot_game_count + other.snapshot_game_count,
            forall|group: int|
                0 <= group < OWNERSHIP_GROUP_COUNT ==> {
                    &&& #[trigger] combined.group_entries@[group].first_completion_count
                        == self.group_entries@[group].first_completion_count
                        + other.group_entries@[group].first_completion_count
                    &&& combined.group_entries@[group].first_completion_win_count
                        == self.group_entries@[group].first_completion_win_count
                        + other.group_entries@[group].first_completion_win_count
                    &&& combined.group_entries@[group].total_completion_turn
                        == self.group_entries@[group].total_completion_turn
                        + other.group_entries@[group].total_completion_turn
                },
            forall|bucket: int|
                0 <= bucket < MONOPOLY_COUNT_BUCKET_COUNT ==> #[trigger] combined.monopoly_count_entries@[bucket].player_count
                    == self.monopoly_count_entries@[bucket].player_count + other.monopoly_count_entries@[bucket].player_count
                    && combined.monopoly_count_entries@[bucket].win_count == self.monopoly_count_entries@[bucket].win_count
                    + other.monopoly_count_entries@[bucket].win_count,
            forall|group: int|
                0 <= group < OWNERSHIP_GROUP_COUNT ==> #[trigger] combined.sole_monopoly_entries@[group].player_count
                    == self.sole_monopoly_entries@[group].player_count + other.sole_monopoly_entries@[group].player_count
                    && combined.sole_monopoly_entries@[group].win_count == self.sole_monopoly_entries@[group].win_count
                    + other.sole_monopoly_entries@[group].win_count,
            forall|bucket: int|
                0 <= bucket < DEVELOPMENT_BUCKET_COUNT ==> #[trigger] combined.sole_monopoly_development_entries@[
                    bucket].player_count == self.sole_monopoly_development_entries@[bucket].player_count
                    + other.sole_monopoly_development_entries@[bucket].player_count
                    && combined.sole_monopoly_development_entries@[bucket].win_count
                    == self.sole_monopoly_development_entries@[bucket].win_count
                    + other.sole_monopoly_development_entries@[bucket].win_count,
    {
        MonopolyReport {
            game_count: self.game_count + other.game_count,
            decisive_game_count: self.decisive_game_count + other.decisive_game_count,
            snapshot_game_count: self.snapshot_game_count + other.snapshot_game_count,
            group_entries: combine_groups(self.group_entries, other.group_entries),
            monopoly_count_entries: combine_entries(self.monopoly_count_entries, other.monopoly_count_entries),
            sole_monopoly_entries: combine_entries(self.sole_monopoly_entries, other.sole_monopoly_entries),
            sole_monopoly_development_entries: combine_entries(
                self.sole_monopoly_development_entries,
                other.sole_monopoly_development_entries,
            ),
        }
    }
}


/// Whether `player` owns every tile of `group`.
pub open spec fn owns_group<const N: usize>(state: GameState<N>, player: int, group: int) -> bool {
    forall|tile: int| tile_in(TILE_SET_MASK_BY_OWNERSHIP_GROUP@[group], tile) ==> state.board.owns(player, tile)
}

/// The first of the players below `count` who owns every tile of `group`.
pub open spec fn group_owner_below<const N: usize>(state: GameState<N>, group: int, count: nat) -> Option<PlayerId>
    decreases count,
{
    if count == 0 {
        None
    } else {
        match group_owner_below(state, group, (count - 1) as nat) {
            Some(owner) => Some(owner),
            None => if owns_group(state, count - 1, group) {
                Some((count - 1) as PlayerId)
            } else {
                None
            },
        }
    }
}

/// The number of the first `count` groups that `player` owns whole.
pub open spec fn monopoly_count_below<const N: usize>(state: GameState<N>, player: int, count: nat) -> nat
    decreases count,
{
    if count == 0 {
        0
    } else {
        monopoly_count_below(state, player, (count - 1) as nat) + if owns_group(state, player, count - 1) {
            1nat
        } else {
            0nat
        }
    }
}

/// The buildings on the first `count` properties that `player` owns.
pub open spec fn buildings_below<const N: usize>(state: GameState<N>, player: int, count: nat) -> nat
    decreases count,
{
    if count == 0 {
        0
    } else {
        buildings_below(state, player, (count - 1) as nat) + if state.board.owns(
            player,
            TILE_ID_BY_PROPERTY_ID@[count - 1] as int,
        ) {
            state.level(count - 1) as nat
        } else {
            0nat
        }
    }
}

proof fn lemma_group_owner_bound<const N: usize>(state: GameState<N>, group: int, count: nat)
    requires
        count <= 256,
    ensures
        group_owner_below(state, group, count) matches Some(owner) ==> owner < count && owns_group(
            state,
            owner as int,
            group,
        ),
    decreases count,
{
    if count > 0 {
        lemma_group_owner_bound(state, group, (count - 1) as nat);
    }
}

/// Notes, for each group that nobody had completed yet, the first player who now owns all of
/// it, and the turn.
fn record_completed_groups<const N: usize>(
    state: &GameState<N>,
    first_holder_by_group: &mut [Option<PlayerId>; 10],
    completion_turn_by_group: &mut [u64; 10],
    turn_index: u32,
)
    requires
        N <= MAX_PLAYER_COUNT,
    ensures
        forall|group: int|
            0 <= group < OWNERSHIP_GROUP_COUNT ==> if old(first_holder_by_group)@[group] is Some {
                &&& #[trigger] final(first_holder_by_group)@[group] == old(first_holder_by_group)@[group]
                &&& final(completion_turn_by_group)@[group] == old(completion_turn_by_group)@[group]
            } else {
                &&& final(first_holder_by_group)@[group] == group_owner_below(*state, group, N as nat)
                &&& final(completion_turn_by_group)@[group] == if final(first_holder_by_group)@[group] is Some {
                    turn_index + 1
                } else {
                    old(completion_turn_by_group)@[group] as int
                }
            },
{
    let mut group: usize = 0;
    while group < OWNERSHIP_GROUP_COUNT
        invariant
            N <= MAX_PLAYER_COUNT,
            group <= OWNERSHIP_GROUP_COUNT,
            forall|other: int|
                group <= other < OWNERSHIP_GROUP_COUNT ==> #[trigger] first_holder_by_group@[other] == old(
                    first_holder_by_group,
                )@[other],
            forall|other: int|
                group <= other < OWNERSHIP_GROUP_COUNT ==> #[trigger] completion_turn_by_group@[other] == old(
                    completion_turn_by_group,
                )@[other],
            forall|other: int|
                0 <= other < group ==> if old(first_holder_by_group)@[other] is Some {
                    &&& #[trigger] first_holder_by_group@[other] == old(first_holder_by_group)@[other]
                    &&& completion_turn_by_group@[other] == old(completion_turn_by_group)@[other]
                } else {
                    &&& first_holder_by_group@[other] == group_owner_below(*state, other, N as nat)
                    &&& completion_turn_by_group@[other] == if first_holder_by_group@[other] is Some {
                        turn_index + 1
                    } else {
                        old(completion_turn_by_group)@[other] as int
                    }
                },
        decreases OWNERSHIP_GROUP_COUNT - group,
    {
        if first_holder_by_group[group].is_none() {
            let group_tiles = TILE_SET_MASK_BY_OWNERSHIP_GROUP[group];
            let mut player: usize = 0;
            let mut owner: Option<PlayerId> = None;
            while player < N && owner.is_none()
                invariant
                    N <= MAX_PLAYER_COUNT,
                    player <= N,
                    group < OWNERSHIP_GROUP_COUNT,
                    group_tiles == TILE_SET_MASK_BY_OWNERSHIP_GROUP@[group as int],
                    owner == group_owner_below(*state, group as int, player as nat),
                decreases N - player,
            {
                if state.board.does_player_own_all_tiles(player as PlayerId, group_tiles) {
                    owner = Some(player as PlayerId);
                }
                player = player + 1;
            }
            proof {
                lemma_group_owner_stays(*state, group as int, player as nat, N as nat);
            }
            if owner.is_some() {
                first_holder_by_group[group] = owner;
                completion_turn_by_group[group] = turn_index as u64 + 1;
            }
        }
        group = group + 1;
    }
}

proof fn lemma_group_owner_stays<const N: usize>(state: GameState<N>, group: int, count: nat, later: nat)
    requires
        count <= later,
        group_owner_below(state, group, count) is Some || count == later,
    ensures
        group_owner_below(state, group, later) == group_owner_below(state, group, count),
    decreases later,
{
    if count < later {
        lemma_group_owner_stays(state, group, count, (later - 1) as nat);
    }
}

/// The number of groups that `player` owns whole.
fn count_monopolies<const N: usize>(state: &GameState<N>, player: PlayerId) -> (count: usize)
    requires
        (player as usize) < N,
    ensures
        count == monopoly_count_below(*state, player as int, OWNERSHIP_GROUP_COUNT as nat),
        count <= OWNERSHIP_GROUP_COUNT,
{
    let mut count: usize = 0;
    let mut group: usize = 0;
    while group < OWNERSHIP_GROUP_COUNT
        invariant
            (player as usize) < N,
            group <= OWNERSHIP_GROUP_COUNT,
            count == monopoly_count_below(*state, player as int, group as nat),
            count <= group,
        decreases OWNERSHIP_GROUP_COUNT - group,
    {
        if state.board.does_player_own_all_tiles(player, TILE_SET_MASK_BY_OWNERSHIP_GROUP[group]) {
            count = count + 1;
        }
        group = group + 1;
    }
    count
}

/// The one group that `player` owns whole, if the player owns exactly one.
fn find_sole_monopoly_group<const N: usize>(state: &GameState<N>, player: PlayerId) -> (sole: Option<usize>)
    requires
        (player as usize) < N,
    ensures
        match sole {
            Some(group) => group < OWNERSHIP_GROUP_COUNT && owns_group(*state, player as int, group as int)
                && monopoly_count_below(*state, player as int, OWNERSHIP_GROUP_COUNT as nat) == 1,
            None => monopoly_count_below(*state, player as int, OWNERSHIP_GROUP_COUNT as nat) != 1,
        },
{
    let mut found: Option<usize> = None;
    let mut group: usize = 0;
    while group < OWNERSHIP_GROUP_COUNT
        invariant
            (player as usize) < N,
            group <= OWNERSHIP_GROUP_COUNT,
            match found {
                Some(owned) => owned < group && owns_group(*state, player as int, owned as int)
                    && monopoly_count_below(*state, player as int, group as nat) == 1,
                None => monopoly_count_below(*state, player as int, group as nat) == 0,
            },
        decreases OWNERSHIP_GROUP_COUNT - group,
    {
        if state.board.does_player_own_all_tiles(player, TILE_SET_MASK_BY_OWNERSHIP_GROUP[group]) {
            if found.is_some() {
                proof {
                    lemma_monopoly_count_grows(*state, player as int, (group + 1) as nat, OWNERSHIP_GROUP_COUNT as nat);
                }
                return None;
            }
            found = Some(group);
        }
        group = group + 1;
    }
    found
}

proof fn lemma_monopoly_count_grows<const N: usize>(state: GameState<N>, player: int, count: nat, later: nat)
    requires
        count <= later,
    ensures
        monopoly_count_below(state, player, count) <= monopoly_count_below(state, player, later),
    decreases later,
{
    if count < later {
        lemma_monopoly_count_grows(state, player, count, (later - 1) as nat);
    }
}

/// The houses and hotels, each hotel as five, on the properties that `player` owns.
fn count_buildings<const N: usize>(state: &GameState<N>, player: PlayerId) -> (count: usize)
    requires
        (player as usize) < N,
        state.buildings_wf(),
    ensures
        count == buildings_below(*state, player as int, PROPERTY_COUNT as nat),
{
    let owned_tiles = state.board.owned_tiles_by_player_id[player as usize];
    let mut count: usize = 0;
    let mut property: usize = 0;
    while property < PROPERTY_COUNT
        invariant
            (player as usize) < N,
            state.buildings_wf(),
            owned_tiles == state.board.owned_tiles_by_player_id@[player as int],
            property <= PROPERTY_COUNT,
            count == buildings_below(*state, player as int, property as nat),
            count <= 5 * property,
        decreases PROPERTY_COUNT - property,
    {
        proof {
            crate::game::tile::lut::lemma_property_tables(property as int);
        }
        if contains_tile(owned_tiles, TILE_ID_BY_PROPERTY_ID[property]) {
            assert(state.level(property as int) <= 5);
            count = count + state.board.improvement_level_by_property_id[property] as usize;
        }
        property = property + 1;
    }
    count
}


proof fn lemma_total_update(entries: Seq<MonopolyCountEntry>, index: int, entry: MonopolyCountEntry)
    requires
        0 <= index < entries.len(),
    ensures
        player_total(entries.update(index, entry)) + entries[index].player_count == player_total(entries)
            + entry.player_count,
        win_total(entries.update(index, entry)) + entries[index].win_count == win_total(entries) + entry.win_count,
    decreases entries.len(),
{
    let updated = entries.update(index, entry);
    if index == entries.len() - 1 {
        assert(updated.drop_last() =~= entries.drop_last());
    } else {
        assert(updated.drop_last() =~= entries.drop_last().update(index, entry));
        lemma_total_update(entries.drop_last(), index, entry);
    }
}

proof fn lemma_empty_entries_total(entries: Seq<MonopolyCountEntry>)
    requires
        forall|index: int| 0 <= index < entries.len() ==> #[trigger] entries[index] == (MonopolyCountEntry {
            player_count: 0,
            win_count: 0,
        }),
    ensures
        player_total(entries) == 0,
        win_total(entries) == 0,
        entries_empty(entries),
        entries_consistent(entries),
    decreases entries.len(),
{
    if entries.len() > 0 {
        assert(entries[entries.len() - 1].player_count == 0);
        lemma_empty_entries_total(entries.drop_last());
    }
}

/// `entry` with one more player, who won when `won` is one.
fn count_player(entry: MonopolyCountEntry, won: u32) -> (counted: MonopolyCountEntry)
    requires
        won <= 1,
        entry.player_count < u32::MAX,
        entry.win_count < u32::MAX,
    ensures
        counted.player_count == entry.player_count + 1,
        counted.win_count == entry.win_count + won,
{
    MonopolyCountEntry { player_count: entry.player_count + 1, win_count: entry.win_count + won }
}

/// The development bucket of a player with `building_count` buildings.
fn development_bucket(building_count: usize) -> (bucket: usize)
    ensures
        bucket < DEVELOPMENT_BUCKET_COUNT,
        bucket == development_bucket_of(building_count as int),
        bucket == if building_count == 0 {
            0usize
        } else if building_count <= 4 {
            1usize
        } else if building_count <= 9 {
            2usize
        } else {
            3usize
        },
{
    if building_count == 0 {
        0
    } else if building_count <= 4 {
        1
    } else if building_count <= 9 {
        2
    } else {
        3
    }
}

/// The turn after which some player first held all of `group` in the game `states`, among the
/// first `count` states (the start excluded).
pub open spec fn completion_turn<const N: usize>(states: Seq<GameState<N>>, group: int, count: nat) -> Option<int>
    decreases count,
{
    if count <= 1 {
        None
    } else {
        match completion_turn(states, group, (count - 1) as nat) {
            Some(turn) => Some(turn),
            None => if group_owner_below(states[count - 1], group, N as nat) is Some {
                Some(count - 1)
            } else {
                None
            },
        }
    }
}

/// The turn counts of a game only look at the states they reach.
proof fn lemma_completion_turn_prefix<const N: usize>(
    states: Seq<GameState<N>>,
    state: GameState<N>,
    group: int,
    count: nat,
)
    requires
        count <= states.len(),
    ensures
        completion_turn(states.push(state), group, count) == completion_turn(states, group, count),
    decreases count,
{
    if count > 1 {
        lemma_completion_turn_prefix(states, state, group, (count - 1) as nat);
        assert(states.push(state)[count - 1] == states[count - 1]);
    }
}

/// Whether `report` is the report of the single game `states`: it is decisive when a single
/// player is left after its last turn, it has a snapshot when it lasted the snapshot turn, and
/// each group's entry gives the turn after which the group was first completed and whether its
/// first holder won.
pub open spec fn reports_game<const N: usize>(report: MonopolyReport, states: Seq<GameState<N>>) -> bool {
    let last = states.last();
    let decisive = states.len() > 1 && has_sole_active_player(last);
    &&& report.game_count == 1
    &&& report.decisive_game_count == if decisive {
        1u32
    } else {
        0u32
    }
    &&& report.snapshot_game_count == if states.len() > MONOPOLY_SNAPSHOT_TURN {
        1u32
    } else {
        0u32
    }
    &&& forall|group: int|
        0 <= group < OWNERSHIP_GROUP_COUNT ==> #[trigger] report.group_entries@[group] == group_entry_of(states, group)
}

/// The monopoly bucket of a player with `count` monopolies: the count, with the last bucket
/// taking every larger count.
pub open spec fn monopoly_bucket(count: int) -> int {
    if count < MONOPOLY_COUNT_BUCKET_COUNT - 1 {
        count
    } else {
        MONOPOLY_COUNT_BUCKET_COUNT - 1
    }
}

/// The players among the first `count` whose monopolies in `state` fall in `bucket`.
pub open spec fn bucket_players<const N: usize>(state: GameState<N>, bucket: int, count: nat) -> nat
    decreases count,
{
    if count == 0 {
        0
    } else {
        bucket_players(state, bucket, (count - 1) as nat) + if monopoly_bucket(
            monopoly_count_below(state, count - 1, OWNERSHIP_GROUP_COUNT as nat) as int,
        ) == bucket {
            1nat
        } else {
            0nat
        }
    }
}

/// Whether `player` owns exactly one group whole in `state`, and that group is `group`.
pub open spec fn sole_holder<const N: usize>(state: GameState<N>, player: int, group: int) -> bool {
    &&& monopoly_count_below(state, player, OWNERSHIP_GROUP_COUNT as nat) == 1
    &&& owns_group(state, player, group)
}

/// The development bucket of `building_count` buildings: none, up to four, up to nine, more.
pub open spec fn development_bucket_of(building_count: int) -> int {
    if building_count == 0 {
        0
    } else if building_count <= 4 {
        1
    } else if building_count <= 9 {
        2
    } else {
        3
    }
}

/// The players among the first `count` whose one and only whole group in `state` is `group`.
pub open spec fn sole_group_players<const N: usize>(state: GameState<N>, group: int, count: nat) -> nat
    decreases count,
{
    if count == 0 {
        0
    } else {
        sole_group_players(state, group, (count - 1) as nat) + if sole_holder(state, count - 1, group) {
            1nat
        } else {
            0nat
        }
    }
}

/// The players among the first `count` who own exactly one group whole in `state` and whose
/// buildings fall in the development `bucket`.
pub open spec fn sole_bucket_players<const N: usize>(state: GameState<N>, bucket: int, count: nat) -> nat
    decreases count,
{
    if count == 0 {
        0
    } else {
        sole_bucket_players(state, bucket, (count - 1) as nat) + if monopoly_count_below(
            state,
            count - 1,
            OWNERSHIP_GROUP_COUNT as nat,
        ) == 1 && development_bucket_of(buildings_below(state, count - 1, PROPERTY_COUNT as nat) as int) == bucket {
            1nat
        } else {
            0nat
        }
    }
}

/// Two groups owned whole count twice among the groups below `count`.
proof fn lemma_two_groups_counted<const N: usize>(state: GameState<N>, player: int, count: nat, first: int, second: int)
    requires
        0 <= first < second < count,
        owns_group(state, player, first),
        owns_group(state, player, second),
    ensures
        monopoly_count_below(state, player, count) >= 2,
    decreases count,
{
    if second == count - 1 {
        lemma_group_counted(state, player, (count - 1) as nat, first);
    } else {
        lemma_two_groups_counted(state, player, (count - 1) as nat, first, second);
    }
}

/// A group owned whole counts among the groups below `count`.
proof fn lemma_group_counted<const N: usize>(state: GameState<N>, player: int, count: nat, group: int)
    requires
        0 <= group < count,
        owns_group(state, player, group),
    ensures
        monopoly_count_below(state, player, count) >= 1,
    decreases count,
{
    if group < count - 1 {
        lemma_group_counted(state, player, (count - 1) as nat, group);
    }
}

/// Whether the monopoly counts of `report` are those of the game `states` at the snapshot
/// turn, where it lasted that long: each bucket counts the players whose monopolies then fall
/// in it, each group the players whose only whole group it is, and each development bucket
/// those players whose buildings fall in it.
pub open spec fn reports_snapshot<const N: usize>(report: MonopolyReport, states: Seq<GameState<N>>) -> bool {
    let snapshot = states[MONOPOLY_SNAPSHOT_TURN as int];
    states.len() > MONOPOLY_SNAPSHOT_TURN ==> {
        &&& forall|bucket: int|
            0 <= bucket < MONOPOLY_COUNT_BUCKET_COUNT ==> #[trigger] report.monopoly_count_entries@[bucket].player_count
                == bucket_players(snapshot, bucket, N as nat)
        &&& forall|group: int|
            0 <= group < OWNERSHIP_GROUP_COUNT ==> #[trigger] report.sole_monopoly_entries@[group].player_count
                == sole_group_players(snapshot, group, N as nat)
        &&& forall|bucket: int|
            0 <= bucket < DEVELOPMENT_BUCKET_COUNT ==> #[trigger] report.sole_monopoly_development_entries@[
                bucket].player_count == sole_bucket_players(snapshot, bucket, N as nat)
    }
}

/// The entry of `group` in the report of the single game `states`.
pub open spec fn group_entry_of<const N: usize>(states: Seq<GameState<N>>, group: int) -> GroupEntry {
    let last = states.last();
    match completion_turn(states, group, states.len()) {
        Some(turn) => {
            let holder = group_owner_below(states[turn], group, N as nat).unwrap();
            GroupEntry {
                first_completion_count: 1,
                first_completion_win_count: if states.len() > 1 && sole_active_player(last, holder as int) {
                    1u32
                } else {
                    0u32
                },
                total_completion_turn: turn as u64,
            }
        },
        None => GroupEntry { first_completion_count: 0, first_completion_win_count: 0, total_completion_turn: 0 },
    }
}

/// Plays game `game_index` with every player on `strategy`, watching for the first completion
/// of each group and counting the players' monopolies at the snapshot turn.
pub fn analyze_game<const N: usize>(
    ruleset: &Ruleset,
    strategy: ConfigurableStrategy,
    config: &TournamentConfig,
    game_index: u32,
) -> (report: MonopolyReport)
    requires
        MIN_PLAYER_COUNT <= N <= MAX_PLAYER_COUNT,
    ensures
        report.game_count == 1,
        report_consistent(report, N as int, config.max_turn_count as int),
        report.snapshot_game_count == 0 ==> without_snapshot(report),
        config.max_turn_count < MONOPOLY_SNAPSHOT_TURN ==> report.snapshot_game_count == 0,
        exists|states: Seq<GameState<N>>|
            #![trigger reports_game(report, states)]
            {
                &&& GameState::<N>::is_starting_state(
                    states[0],
                    *ruleset,
                    ((config.seed + game_index) % 0x1_0000_0000_0000_0000) as u64,
                )
                &&& game_played(states[0], states, *ruleset)
                &&& states.len() - 1 == config.max_turn_count || (states.len() > 1 && has_sole_active_player(states.last()))
                &&& reports_game(report, states)
                &&& reports_snapshot(report, states)
                &&& exists|seats: Seq<Seq<ConfigurableStrategy>>|
                    #[trigger] game_seated(states, seats, *ruleset) && seats[0] == Seq::new(
                        N as nat,
                        |seat: int| strategy,
                    )
            },
{
    let mut strategies: [ConfigurableStrategy; N] = vstd::array::array_fill_for_copy_types(strategy);
    assert(strategies@ =~= Seq::new(N as nat, |seat: int| strategy));
    let ghost mut seats: Seq<Seq<ConfigurableStrategy>> = seq![strategies@];
    let mut state = GameState::<N>::create_starting_state(ruleset, config.seed.wrapping_add(game_index as u64));
    let mut first_holder_by_group: [Option<PlayerId>; 10] = [None; 10];
    let mut completion_turn_by_group: [u64; 10] = [0; 10];
    let mut monopoly_count_by_player: [usize; N] = vstd::array::array_fill_for_copy_types(0usize);
    let mut sole_monopoly_group_by_player: [Option<usize>; N] = vstd::array::array_fill_for_copy_types(None);
    let mut building_count_by_player: [usize; N] = vstd::array::array_fill_for_copy_types(0usize);
    let mut snapshot = false;
    let mut winner: Option<PlayerId> = None;
    let mut turn_index: u32 = 0;
    let ghost mut states: Seq<GameState<N>> = seq![state];
    assert(config.seed.wrapping_add(game_index as u64) == ((config.seed + game_index) % 0x1_0000_0000_0000_0000) as u64);
    while turn_index < config.max_turn_count && winner.is_none()
        invariant
            MIN_PLAYER_COUNT <= N <= MAX_PLAYER_COUNT,
            state.wf(),
            turn_index <= config.max_turn_count,
            GameState::<N>::is_starting_state(
                states[0],
                *ruleset,
                ((config.seed + game_index) % 0x1_0000_0000_0000_0000) as u64,
            ),
            game_played(states[0], states, *ruleset),
            game_seated(states, seats, *ruleset),
            seats[0] == Seq::new(N as nat, |seat: int| strategy),
            seats.last() == strategies@,
            states.len() == turn_index + 1,
            states.last() == state,
            winner is None ==> forall|index: int| 0 < index < states.len() ==> !has_sole_active_player(#[trigger] states[index]),
            winner matches Some(player) ==> states.len() > 1 && sole_active_player(state, player as int),
            snapshot == (states.len() > MONOPOLY_SNAPSHOT_TURN),
            forall|group: int|
                0 <= group < OWNERSHIP_GROUP_COUNT ==> match completion_turn(states, group, states.len()) {
                    Some(turn) => #[trigger] first_holder_by_group@[group] == group_owner_below(states[turn], group, N as nat)
                        && first_holder_by_group@[group] is Some && completion_turn_by_group@[group] == turn,
                    None => first_holder_by_group@[group] is None && completion_turn_by_group@[group] == 0,
                },
            forall|group: int|
                0 <= group < OWNERSHIP_GROUP_COUNT ==> match #[trigger] first_holder_by_group@[group] {
                    Some(holder) => holder < N && 1 <= completion_turn_by_group@[group] <= turn_index,
                    None => true,
                },
            winner matches Some(player) ==> player < N,
            snapshot ==> config.max_turn_count >= MONOPOLY_SNAPSHOT_TURN,
            snapshot ==> forall|other: int|
                0 <= other < N ==> #[trigger] monopoly_count_by_player@[other] == monopoly_count_below(
                    states[MONOPOLY_SNAPSHOT_TURN as int],
                    other,
                    OWNERSHIP_GROUP_COUNT as nat,
                ),
            forall|player: int| 0 <= player < N ==> #[trigger] monopoly_count_by_player@[player] <= OWNERSHIP_GROUP_COUNT,
            forall|player: int|
                0 <= player < N ==> match #[trigger] sole_monopoly_group_by_player@[player] {
                    Some(group) => group < OWNERSHIP_GROUP_COUNT,
                    None => true,
                },
            snapshot ==> forall|other: int|
                0 <= other < N ==> match #[trigger] sole_monopoly_group_by_player@[other] {
                    Some(group) => sole_holder(states[MONOPOLY_SNAPSHOT_TURN as int], other, group as int),
                    None => monopoly_count_below(
                        states[MONOPOLY_SNAPSHOT_TURN as int],
                        other,
                        OWNERSHIP_GROUP_COUNT as nat,
                    ) != 1,
                },
            snapshot ==> forall|other: int|
                0 <= other < N ==> #[trigger] building_count_by_player@[other] == buildings_below(
                    states[MONOPOLY_SNAPSHOT_TURN as int],
                    other,
                    PROPERTY_COUNT as nat,
                ),
        decreases config.max_turn_count - turn_index,
    {
        let ghost before = state;
        play_turn(&mut state, ruleset, &mut strategies);
        proof {
            let previous = states;
            let previous_seats = seats;
            states = states.push(state);
            seats = seats.push(strategies@);
            assert forall|index: int| 0 <= index < states.len() - 1 implies #[trigger] turn_taken(
                states[index],
                seats[index],
                states[index + 1],
                seats[index + 1],
                *ruleset,
            ) by {
                if index < states.len() - 2 {
                    assert(states[index] == previous[index] && states[index + 1] == previous[index + 1]);
                    assert(seats[index] == previous_seats[index] && seats[index + 1] == previous_seats[index + 1]);
                }
            }
            assert forall|index: int| 0 <= index < states.len() - 1 implies #[trigger] turn_played(
                states[index],
                states[index + 1],
                *ruleset,
            ) by {
                if index < states.len() - 2 {
                    assert(states[index] == previous[index] && states[index + 1] == previous[index + 1]);
                }
            }
            assert forall|index: int| 0 < index < states.len() - 1 implies !has_sole_active_player(
                #[trigger] states[index],
            ) by {
                assert(states[index] == previous[index]);
            }
            assert forall|group: int| 0 <= group < OWNERSHIP_GROUP_COUNT implies completion_turn(
                states,
                group,
                (states.len() - 1) as nat,
            ) == completion_turn(previous, group, previous.len()) by {
                lemma_completion_turn_prefix(previous, state, group, previous.len());
            }
            if previous.len() > MONOPOLY_SNAPSHOT_TURN {
                assert(states[MONOPOLY_SNAPSHOT_TURN as int] == previous[MONOPOLY_SNAPSHOT_TURN as int]);
            }
        }
        record_completed_groups(&state, &mut first_holder_by_group, &mut completion_turn_by_group, turn_index);
        proof {
            assert forall|group: int| 0 <= group < OWNERSHIP_GROUP_COUNT implies match #[trigger] first_holder_by_group@[group] {
                Some(holder) => holder < N && 1 <= completion_turn_by_group@[group] <= turn_index + 1,
                None => true,
            } by {
                lemma_group_owner_bound(state, group, N as nat);
            }
        }
        if turn_index + 1 == MONOPOLY_SNAPSHOT_TURN {
            snapshot = true;
            let mut player: usize = 0;
            while player < N
                invariant
                    MIN_PLAYER_COUNT <= N <= MAX_PLAYER_COUNT,
                    player <= N,
                    state.wf(),
                    forall|other: int|
                        0 <= other < N ==> #[trigger] monopoly_count_by_player@[other] <= OWNERSHIP_GROUP_COUNT,
                    forall|other: int|
                        0 <= other < player ==> #[trigger] monopoly_count_by_player@[other] == monopoly_count_below(
                            state,
                            other,
                            OWNERSHIP_GROUP_COUNT as nat,
                        ),
                    forall|other: int|
                        0 <= other < N ==> match #[trigger] sole_monopoly_group_by_player@[other] {
                            Some(group) => group < OWNERSHIP_GROUP_COUNT,
                            None => true,
                        },
                    forall|other: int|
                        0 <= other < player ==> match #[trigger] sole_monopoly_group_by_player@[other] {
                            Some(group) => sole_holder(state, other, group as int),
                            None => monopoly_count_below(state, other, OWNERSHIP_GROUP_COUNT as nat) != 1,
                        },
                    forall|other: int|
                        0 <= other < player ==> #[trigger] building_count_by_player@[other] == buildings_below(
                            state,
                            other,
                            PROPERTY_COUNT as nat,
                        ),
                decreases N - player,
            {
                monopoly_count_by_player[player] = count_monopolies(&state, player as PlayerId);
                sole_monopoly_group_by_player[player] = find_sole_monopoly_group(&state, player as PlayerId);
                building_count_by_player[player] = count_buildings(&state, player as PlayerId);
                player = player + 1;
            }
        }
        winner = find_sole_active_player(&state);
        turn_index = turn_index + 1;
        proof {
            if winner is None {
                assert(!has_sole_active_player(state));
            }
        }
    }
    proof {
        if winner is Some {
            assert(has_sole_active_player(states.last()));
        }
    }

    let mut report = MonopolyReport::empty();
    proof {
        lemma_empty_entries_total(report.monopoly_count_entries@);
        lemma_empty_entries_total(report.sole_monopoly_entries@);
        lemma_empty_entries_total(report.sole_monopoly_development_entries@);
    }
    report.game_count = 1;
    if winner.is_some() {
        report.decisive_game_count = 1;
    }
    if snapshot {
        report.snapshot_game_count = 1;
    }
    let ghost empty_report = report;
    let mut group: usize = 0;
    while group < OWNERSHIP_GROUP_COUNT
        invariant
            group <= OWNERSHIP_GROUP_COUNT,
            report.game_count == 1,
            report.decisive_game_count == if winner is Some {
                1u32
            } else {
                0u32
            },
            report.snapshot_game_count == if snapshot {
                1u32
            } else {
                0u32
            },
            report.monopoly_count_entries == empty_report.monopoly_count_entries,
            report.sole_monopoly_entries == empty_report.sole_monopoly_entries,
            report.sole_monopoly_development_entries == empty_report.sole_monopoly_development_entries,
            forall|other: int|
                0 <= other < OWNERSHIP_GROUP_COUNT ==> match #[trigger] first_holder_by_group@[other] {
                    Some(holder) => 1 <= completion_turn_by_group@[other] <= config.max_turn_count,
                    None => true,
                },
            GameState::<N>::is_starting_state(
                states[0],
                *ruleset,
                ((config.seed + game_index) % 0x1_0000_0000_0000_0000) as u64,
            ),
            game_played(states[0], states, *ruleset),
            game_seated(states, seats, *ruleset),
            seats[0] == Seq::new(N as nat, |seat: int| strategy),
            states.len() - 1 == config.max_turn_count || (states.len() > 1 && has_sole_active_player(states.last())),
            snapshot == (states.len() > MONOPOLY_SNAPSHOT_TURN),
            winner is None ==> !(states.len() > 1 && has_sole_active_player(states.last())),
            winner matches Some(player) ==> states.len() > 1 && sole_active_player(states.last(), player as int),
            forall|other: int|
                0 <= other < OWNERSHIP_GROUP_COUNT ==> match completion_turn(states, other, states.len()) {
                    Some(turn) => #[trigger] first_holder_by_group@[other] == group_owner_below(states[turn], other, N as nat)
                        && first_holder_by_group@[other] is Some && completion_turn_by_group@[other] == turn,
                    None => first_holder_by_group@[other] is None && completion_turn_by_group@[other] == 0,
                },
            forall|other: int| 0 <= other < group ==> #[trigger] report.group_entries@[other] == group_entry_of(states, other),
            snapshot ==> forall|other: int|
                0 <= other < N ==> #[trigger] monopoly_count_by_player@[other] == monopoly_count_below(
                    states[MONOPOLY_SNAPSHOT_TURN as int],
                    other,
                    OWNERSHIP_GROUP_COUNT as nat,
                ),
            forall|other: int|
                group <= other < OWNERSHIP_GROUP_COUNT ==> #[trigger] report.group_entries@[other] == (GroupEntry {
                    first_completion_count: 0,
                    first_completion_win_count: 0,
                    total_completion_turn: 0,
                }),
            forall|other: int|
                0 <= other < OWNERSHIP_GROUP_COUNT ==> {
                    let entry = #[trigger] report.group_entries@[other];
                    &&& entry.first_completion_win_count <= entry.first_completion_count
                    &&& entry.first_completion_count <= 1
                    &&& entry.total_completion_turn <= entry.first_completion_count * config.max_turn_count
                },
        decreases OWNERSHIP_GROUP_COUNT - group,
    {
        match first_holder_by_group[group] {
            Some(holder) => {
                let won: u32 = match winner {
                    Some(player) => if player == holder {
                        1
                    } else {
                        0
                    },
                    None => 0,
                };
                proof {
                    let last = states.last();
                    if let Some(player) = winner {
                        if sole_active_player(last, holder as int) && holder != player {
                            assert(last.is_bankrupt(holder as int));
                        }
                    } else {
                        if states.len() > 1 && sole_active_player(last, holder as int) {
                            assert(has_sole_active_player(last));
                        }
                    }
                    assert(group_entry_of(states, group as int).first_completion_win_count == won);
                }
                let ghost before = report.group_entries@;
                report.group_entries[group] = GroupEntry {
                    first_completion_count: 1,
                    first_completion_win_count: won,
                    total_completion_turn: completion_turn_by_group[group],
                };
                assert forall|other: int| 0 <= other < OWNERSHIP_GROUP_COUNT && other != group implies #[trigger] report.group_entries@[
                    other] == before[other] by {}
                assert(report.group_entries@[group as int].total_completion_turn <= 1 * config.max_turn_count);
            },
            None => {},
        }
        group = group + 1;
    }
    proof {
        assert(reports_game(report, states));
    }
    if !snapshot {
        return report;
    }
    let ghost reported = report;

    let mut player: usize = 0;
    let ghost mut sole_count: nat = 0;
    while player < N
        invariant
            MIN_PLAYER_COUNT <= N <= MAX_PLAYER_COUNT,
            player <= N,
            forall|other: int|
                0 <= other < N ==> match #[trigger] sole_monopoly_group_by_player@[other] {
                    Some(group) => group < OWNERSHIP_GROUP_COUNT,
                    None => true,
                },
            player_total(report.sole_monopoly_entries@) == sole_count,
            player_total(report.sole_monopoly_development_entries@) == sole_count,
            sole_count <= player,
            win_total(report.sole_monopoly_entries@) <= sole_count,
            win_total(report.sole_monopoly_development_entries@) <= sole_count,
            entries_consistent(report.sole_monopoly_entries@),
            entries_consistent(report.sole_monopoly_development_entries@),
            GameState::<N>::is_starting_state(
                states[0],
                *ruleset,
                ((config.seed + game_index) % 0x1_0000_0000_0000_0000) as u64,
            ),
            game_played(states[0], states, *ruleset),
            game_seated(states, seats, *ruleset),
            seats[0] == Seq::new(N as nat, |seat: int| strategy),
            states.len() - 1 == config.max_turn_count || (states.len() > 1 && has_sole_active_player(states.last())),
            report.game_count == 1,
            report.snapshot_game_count == 1,
            report.decisive_game_count == reported.decisive_game_count,
            report.group_entries == reported.group_entries,
            reports_game(reported, states),
            states.len() > MONOPOLY_SNAPSHOT_TURN,
            forall|other: int|
                0 <= other < N ==> #[trigger] monopoly_count_by_player@[other] == monopoly_count_below(
                    states[MONOPOLY_SNAPSHOT_TURN as int],
                    other,
                    OWNERSHIP_GROUP_COUNT as nat,
                ),
            forall|bucket: int|
                0 <= bucket < MONOPOLY_COUNT_BUCKET_COUNT ==> #[trigger] report.monopoly_count_entries@[bucket].player_count
                    == 0,
            report.decisive_game_count == if winner is Some {
                1u32
            } else {
                0u32
            },
            forall|other: int|
                0 <= other < OWNERSHIP_GROUP_COUNT ==> {
                    let entry = #[trigger] report.group_entries@[other];
                    &&& entry.first_completion_win_count <= entry.first_completion_count
                    &&& entry.first_completion_count <= 1
                    &&& entry.total_completion_turn <= entry.first_completion_count * config.max_turn_count
                },
            player_total(report.monopoly_count_entries@) == 0,
            win_total(report.monopoly_count_entries@) == 0,
            entries_consistent(report.monopoly_count_entries@),
            forall|other: int|
                0 <= other < N ==> match #[trigger] sole_monopoly_group_by_player@[other] {
                    Some(group) => sole_holder(states[MONOPOLY_SNAPSHOT_TURN as int], other, group as int),
                    None => monopoly_count_below(
                        states[MONOPOLY_SNAPSHOT_TURN as int],
                        other,
                        OWNERSHIP_GROUP_COUNT as nat,
                    ) != 1,
                },
            forall|other: int|
                0 <= other < N ==> #[trigger] building_count_by_player@[other] == buildings_below(
                    states[MONOPOLY_SNAPSHOT_TURN as int],
                    other,
                    PROPERTY_COUNT as nat,
                ),
            forall|group: int|
                0 <= group < OWNERSHIP_GROUP_COUNT ==> #[trigger] report.sole_monopoly_entries@[group].player_count
                    == sole_group_players(states[MONOPOLY_SNAPSHOT_TURN as int], group, player as nat),
            forall|bucket: int|
                0 <= bucket < DEVELOPMENT_BUCKET_COUNT ==> #[trigger] report.sole_monopoly_development_entries@[
                    bucket].player_count == sole_bucket_players(states[MONOPOLY_SNAPSHOT_TURN as int], bucket, player as nat),
        decreases N - player,
    {
        let ghost snap = states[MONOPOLY_SNAPSHOT_TURN as int];
        let ghost sole_before = report.sole_monopoly_entries@;
        let ghost development_before = report.sole_monopoly_development_entries@;
        match sole_monopoly_group_by_player[player] {
            Some(group) => {
                let won: u32 = match winner {
                    Some(winner_id) => if winner_id as usize == player {
                        1
                    } else {
                        0
                    },
                    None => 0,
                };
                let bucket = development_bucket(building_count_by_player[player]);
                let sole_entry = report.sole_monopoly_entries[group];
                let development_entry = report.sole_monopoly_development_entries[bucket];
                proof {
                    lemma_entry_within_total(report.sole_monopoly_entries@, group as int);
                    lemma_entry_within_total(report.sole_monopoly_development_entries@, bucket as int);
                }
                let counted_sole = count_player(sole_entry, won);
                let counted_development = count_player(development_entry, won);
                proof {
                    lemma_total_update(report.sole_monopoly_entries@, group as int, counted_sole);
                    lemma_total_update(report.sole_monopoly_development_entries@, bucket as int, counted_development);
                    sole_count = sole_count + 1;
                }
                report.sole_monopoly_entries[group] = counted_sole;
                report.sole_monopoly_development_entries[bucket] = counted_development;
                proof {
                    assert forall|other: int| 0 <= other < OWNERSHIP_GROUP_COUNT implies #[trigger] report.sole_monopoly_entries@[
                        other].player_count == sole_group_players(snap, other, (player + 1) as nat) by {
                        if other != group as int && owns_group(snap, player as int, other) {
                            if other < group as int {
                                lemma_two_groups_counted(snap, player as int, OWNERSHIP_GROUP_COUNT as nat, other, group as int);
                            } else {
                                lemma_two_groups_counted(snap, player as int, OWNERSHIP_GROUP_COUNT as nat, group as int, other);
                            }
                        }
                    }
                    assert forall|other: int| 0 <= other < DEVELOPMENT_BUCKET_COUNT implies #[trigger] report.sole_monopoly_development_entries@[
                        other].player_count == sole_bucket_players(snap, other, (player + 1) as nat) by {}
                }
            },
            None => {},
        }
        player = player + 1;
    }

    let ghost soled = report;
    let mut player: usize = 0;
    while player < N
        invariant
            MIN_PLAYER_COUNT <= N <= MAX_PLAYER_COUNT,
            player <= N,
            report.sole_monopoly_entries == soled.sole_monopoly_entries,
            report.sole_monopoly_development_entries == soled.sole_monopoly_development_entries,
            forall|group: int|
                0 <= group < OWNERSHIP_GROUP_COUNT ==> #[trigger] soled.sole_monopoly_entries@[group].player_count
                    == sole_group_players(states[MONOPOLY_SNAPSHOT_TURN as int], group, N as nat),
            forall|bucket: int|
                0 <= bucket < DEVELOPMENT_BUCKET_COUNT ==> #[trigger] soled.sole_monopoly_development_entries@[
                    bucket].player_count == sole_bucket_players(states[MONOPOLY_SNAPSHOT_TURN as int], bucket, N as nat),
            forall|other: int| 0 <= other < N ==> #[trigger] monopoly_count_by_player@[other] <= OWNERSHIP_GROUP_COUNT,
            winner matches Some(winner_id) ==> winner_id < N,
            player_total(report.monopoly_count_entries@) == player,
            win_total(report.monopoly_count_entries@) == if winner matches Some(winner_id) && winner_id < player {
                1int
            } else {
                0int
            },
            entries_consistent(report.monopoly_count_entries@),
            GameState::<N>::is_starting_state(
                states[0],
                *ruleset,
                ((config.seed + game_index) % 0x1_0000_0000_0000_0000) as u64,
            ),
            game_played(states[0], states, *ruleset),
            game_seated(states, seats, *ruleset),
            seats[0] == Seq::new(N as nat, |seat: int| strategy),
            states.len() - 1 == config.max_turn_count || (states.len() > 1 && has_sole_active_player(states.last())),
            report.game_count == 1,
            report.snapshot_game_count == 1,
            report.decisive_game_count == reported.decisive_game_count,
            report.group_entries == reported.group_entries,
            reports_game(reported, states),
            states.len() > MONOPOLY_SNAPSHOT_TURN,
            forall|other: int|
                0 <= other < N ==> #[trigger] monopoly_count_by_player@[other] == monopoly_count_below(
                    states[MONOPOLY_SNAPSHOT_TURN as int],
                    other,
                    OWNERSHIP_GROUP_COUNT as nat,
                ),
            forall|bucket: int|
                0 <= bucket < MONOPOLY_COUNT_BUCKET_COUNT ==> #[trigger] report.monopoly_count_entries@[bucket].player_count
                    == bucket_players(states[MONOPOLY_SNAPSHOT_TURN as int], bucket, player as nat),
            report.decisive_game_count == if winner is Some {
                1u32
            } else {
                0u32
            },
            player_total(report.sole_monopoly_entries@) == player_total(report.sole_monopoly_development_entries@),
            player_total(report.sole_monopoly_entries@) <= N,
            entries_consistent(report.sole_monopoly_entries@),
            entries_consistent(report.sole_monopoly_development_entries@),
            forall|other: int|
                0 <= other < OWNERSHIP_GROUP_COUNT ==> {
                    let entry = #[trigger] report.group_entries@[other];
                    &&& entry.first_completion_win_count <= entry.first_completion_count
                    &&& entry.first_completion_count <= 1
                    &&& entry.total_completion_turn <= entry.first_completion_count * config.max_turn_count
                },
        decreases N - player,
    {
        let count = monopoly_count_by_player[player];
        let bucket = if count < MONOPOLY_COUNT_BUCKET_COUNT - 1 {
            count
        } else {
            MONOPOLY_COUNT_BUCKET_COUNT - 1
        };
        let won: u32 = match winner {
            Some(winner_id) => if winner_id as usize == player {
                1
            } else {
                0
            },
            None => 0,
        };
        let entry = report.monopoly_count_entries[bucket];
        proof {
            lemma_entry_within_total(report.monopoly_count_entries@, bucket as int);
        }
        let counted = count_player(entry, won);
        proof {
            lemma_total_update(report.monopoly_count_entries@, bucket as int, counted);
        }
        report.monopoly_count_entries[bucket] = counted;
        player = player + 1;
    }
    proof {
        assert(reports_game(report, states));
    }
    report
}

/// Plays `config.game_count` games with every player on `strategy` and adds up what they say
/// about monopolies. Fails on an empty run or an unsupported player count.
pub fn analyze_monopolies(ruleset: &Ruleset, strategy: ConfigurableStrategy, config: &TournamentConfig) -> (result:
    Result<MonopolyReport, AnalysisError>)
    requires
        config.game_count as int * config.player_count as int <= u32::MAX,
    ensures
        (config.game_count == 0 || config.max_turn_count == 0) ==> result == Err::<MonopolyReport, AnalysisError>(
            AnalysisError::EmptyRun,
        ),
        !(config.game_count == 0 || config.max_turn_count == 0) && !(MIN_PLAYER_COUNT <= config.player_count
            <= MAX_PLAYER_COUNT) ==> result == Err::<MonopolyReport, AnalysisError>(
            AnalysisError::UnsupportedPlayerCount(config.player_count),
        ),
        !(config.game_count == 0 || config.max_turn_count == 0) && MIN_PLAYER_COUNT <= config.player_count
            <= MAX_PLAYER_COUNT ==> (result matches Ok(report) && {
            &&& report.game_count == config.game_count
            &&& report_consistent(report, config.player_count as int, config.max_turn_count as int)
            &&& config.max_turn_count < MONOPOLY_SNAPSHOT_TURN ==> without_snapshot(report)
        }),
{
    if config.game_count == 0 || config.max_turn_count == 0 {
        return Err(AnalysisError::EmptyRun);
    }
    match config.player_count {
        2 => Ok(analyze_games::<2>(ruleset, strategy, config)),
        3 => Ok(analyze_games::<3>(ruleset, strategy, config)),
        4 => Ok(analyze_games::<4>(ruleset, strategy, config)),
        5 => Ok(analyze_games::<5>(ruleset, strategy, config)),
        6 => Ok(analyze_games::<6>(ruleset, strategy, config)),
        7 => Ok(analyze_games::<7>(ruleset, strategy, config)),
        8 => Ok(analyze_games::<8>(ruleset, strategy, config)),
        _ => Err(AnalysisError::UnsupportedPlayerCount(config.player_count)),
    }
}

fn analyze_games<const N: usize>(ruleset: &Ruleset, strategy: ConfigurableStrategy, config: &TournamentConfig) -> (report:
    MonopolyReport)
    requires
        MIN_PLAYER_COUNT <= N <= MAX_PLAYER_COUNT,
        config.game_count as int * N <= u32::MAX,
    ensures
        report.game_count == config.game_count,
        report_consistent(report, N as int, config.max_turn_count as int),
        config.max_turn_count < MONOPOLY_SNAPSHOT_TURN ==> without_snapshot(report),
{
    let mut report = MonopolyReport::empty();
    proof {
        lemma_empty_entries_total(report.monopoly_count_entries@);
        lemma_empty_entries_total(report.sole_monopoly_entries@);
        lemma_empty_entries_total(report.sole_monopoly_development_entries@);
    }
    let mut game_index: u32 = 0;
    while game_index < config.game_count
        invariant
            MIN_PLAYER_COUNT <= N <= MAX_PLAYER_COUNT,
            config.game_count as int * N <= u32::MAX,
            game_index <= config.game_count,
            report.game_count == game_index,
            report_consistent(report, N as int, config.max_turn_count as int),
            config.max_turn_count < MONOPOLY_SNAPSHOT_TURN ==> without_snapshot(report),
        decreases config.game_count - game_index,
    {
        let game = analyze_game::<N>(ruleset, strategy, config, game_index);
        proof {
            lemma_combinable(report, game, N as int, config.max_turn_count as int, config.game_count as int);
        }
        let combined = report.combine(game);
        proof {
            lemma_combined_consistent(report, game, combined, N as int, config.max_turn_count as int);
        }
        report = combined;
        game_index = game_index + 1;
    }
    report
}

/// A consistent report of fewer games than `game_count` and one of a single game can be added
/// up without overflow when `game_count` games of `player_count` players can be counted.
proof fn lemma_combinable(
    report: MonopolyReport,
    game: MonopolyReport,
    player_count: int,
    max_turn_count: int,
    game_count: int,
)
    requires
        2 <= player_count <= 8,
        0 <= max_turn_count <= u32::MAX,
        report.game_count < game_count,
        game_count * player_count <= u32::MAX,
        game.game_count == 1,
        report_consistent(report, player_count, max_turn_count),
        report_consistent(game, player_count, max_turn_count),
    ensures
        report.game_count + game.game_count <= u32::MAX,
        report.decisive_game_count + game.decisive_game_count <= u32::MAX,
        report.snapshot_game_count + game.snapshot_game_count <= u32::MAX,
        forall|group: int|
            0 <= group < OWNERSHIP_GROUP_COUNT ==> {
                &&& #[trigger] report.group_entries@[group].first_completion_count
                    + game.group_entries@[group].first_completion_count <= u32::MAX
                &&& report.group_entries@[group].first_completion_win_count
                    + game.group_entries@[group].first_completion_win_count <= u32::MAX
                &&& report.group_entries@[group].total_completion_turn + game.group_entries@[group].total_completion_turn
                    <= u64::MAX
            },
        forall|bucket: int|
            0 <= bucket < MONOPOLY_COUNT_BUCKET_COUNT ==> #[trigger] report.monopoly_count_entries@[bucket].player_count
                + game.monopoly_count_entries@[bucket].player_count <= u32::MAX
                && report.monopoly_count_entries@[bucket].win_count + game.monopoly_count_entries@[bucket].win_count
                <= u32::MAX,
        forall|group: int|
            0 <= group < OWNERSHIP_GROUP_COUNT ==> #[trigger] report.sole_monopoly_entries@[group].player_count
                + game.sole_monopoly_entries@[group].player_count <= u32::MAX
                && report.sole_monopoly_entries@[group].win_count + game.sole_monopoly_entries@[group].win_count
                <= u32::MAX,
        forall|bucket: int|
            0 <= bucket < DEVELOPMENT_BUCKET_COUNT ==> #[trigger] report.sole_monopoly_development_entries@[bucket].player_count
                + game.sole_monopoly_development_entries@[bucket].player_count <= u32::MAX
                && report.sole_monopoly_development_entries@[bucket].win_count
                + game.sole_monopoly_development_entries@[bucket].win_count <= u32::MAX,
{
    let total_players = (report.game_count + 1) * player_count;
    assert(report.snapshot_game_count * player_count <= report.game_count * player_count) by (nonlinear_arith)
        requires
            report.snapshot_game_count <= report.game_count,
            player_count >= 0,
    ;
    assert(game.snapshot_game_count * player_count <= player_count) by (nonlinear_arith)
        requires
            game.snapshot_game_count <= 1,
            player_count >= 0,
    ;
    assert(total_players <= game_count * player_count) by (nonlinear_arith)
        requires
            report.game_count + 1 <= game_count,
            player_count >= 0,
            total_players == (report.game_count + 1) * player_count,
    ;
    assert(total_players == report.game_count * player_count + player_count) by (nonlinear_arith)
        requires
            total_players == (report.game_count + 1) * player_count,
    ;
    assert forall|group: int| 0 <= group < OWNERSHIP_GROUP_COUNT implies {
        &&& #[trigger] report.group_entries@[group].first_completion_count
            + game.group_entries@[group].first_completion_count <= u32::MAX
        &&& report.group_entries@[group].first_completion_win_count
            + game.group_entries@[group].first_completion_win_count <= u32::MAX
        &&& report.group_entries@[group].total_completion_turn + game.group_entries@[group].total_completion_turn
            <= u64::MAX
    } by {
        let first = report.group_entries@[group];
        let second = game.group_entries@[group];
        assert(first.first_completion_count * max_turn_count <= u32::MAX * u32::MAX) by (nonlinear_arith)
            requires
                first.first_completion_count <= u32::MAX,
                0 <= max_turn_count <= u32::MAX,
        ;
        assert(second.first_completion_count * max_turn_count <= u32::MAX) by (nonlinear_arith)
            requires
                second.first_completion_count <= 1,
                0 <= max_turn_count <= u32::MAX,
        ;
    }
    assert forall|bucket: int| 0 <= bucket < MONOPOLY_COUNT_BUCKET_COUNT implies #[trigger] report.monopoly_count_entries@[
        bucket].player_count + game.monopoly_count_entries@[bucket].player_count <= u32::MAX
        && report.monopoly_count_entries@[bucket].win_count + game.monopoly_count_entries@[bucket].win_count
        <= u32::MAX by {
        lemma_entry_within_total(report.monopoly_count_entries@, bucket);
        lemma_entry_within_total(game.monopoly_count_entries@, bucket);
    }
    assert forall|group: int| 0 <= group < OWNERSHIP_GROUP_COUNT implies #[trigger] report.sole_monopoly_entries@[
        group].player_count + game.sole_monopoly_entries@[group].player_count <= u32::MAX
        && report.sole_monopoly_entries@[group].win_count + game.sole_monopoly_entries@[group].win_count
        <= u32::MAX by {
        lemma_entry_within_total(report.sole_monopoly_entries@, group);
        lemma_entry_within_total(game.sole_monopoly_entries@, group);
    }
    assert forall|bucket: int| 0 <= bucket < DEVELOPMENT_BUCKET_COUNT implies #[trigger] report.sole_monopoly_development_entries@[
        bucket].player_count + game.sole_monopoly_development_entries@[bucket].player_count <= u32::MAX
        && report.sole_monopoly_development_entries@[bucket].win_count
        + game.sole_monopoly_development_entries@[bucket].win_count <= u32::MAX by {
        lemma_entry_within_total(report.sole_monopoly_development_entries@, bucket);
        lemma_entry_within_total(game.sole_monopoly_development_entries@, bucket);
    }
}

/// Adding up two consistent reports gives a consistent report.
#[verifier::spinoff_prover]
proof fn lemma_combined_consistent(
    first: MonopolyReport,
    second: MonopolyReport,
    combined: MonopolyReport,
    player_count: int,
    max_turn_count: int,
)
    requires
        report_consistent(first, player_count, max_turn_count),
        report_consistent(second, player_count, max_turn_count),
        combined.game_count == first.game_count + second.game_count,
        combined.decisive_game_count == first.decisive_game_count + second.decisive_game_count,
        combined.snapshot_game_count == first.snapshot_game_count + second.snapshot_game_count,
        forall|group: int|
            0 <= group < OWNERSHIP_GROUP_COUNT ==> {
                &&& #[trigger] combined.group_entries@[group].first_completion_count
                    == first.group_entries@[group].first_completion_count
                    + second.group_entries@[group].first_completion_count
                &&& combined.group_entries@[group].first_completion_win_count
                    == first.group_entries@[group].first_completion_win_count
                    + second.group_entries@[group].first_completion_win_count
                &&& combined.group_entries@[group].total_completion_turn
                    == first.group_entries@[group].total_completion_turn
                    + second.group_entries@[group].total_completion_turn
            },
        forall|bucket: int|
            0 <= bucket < MONOPOLY_COUNT_BUCKET_COUNT ==> #[trigger] combined.monopoly_count_entries@[bucket].player_count
                == first.monopoly_count_entries@[bucket].player_count + second.monopoly_count_entries@[bucket].player_count
                && combined.monopoly_count_entries@[bucket].win_count == first.monopoly_count_entries@[bucket].win_count
                + second.monopoly_count_entries@[bucket].win_count,
        forall|group: int|
            0 <= group < OWNERSHIP_GROUP_COUNT ==> #[trigger] combined.sole_monopoly_entries@[group].player_count
                == first.sole_monopoly_entries@[group].player_count + second.sole_monopoly_entries@[group].player_count
                && combined.sole_monopoly_entries@[group].win_count == first.sole_monopoly_entries@[group].win_count
                + second.sole_monopoly_entries@[group].win_count,
        forall|bucket: int|
            0 <= bucket < DEVELOPMENT_BUCKET_COUNT ==> #[trigger] combined.sole_monopoly_development_entries@[
                bucket].player_count == first.sole_monopoly_development_entries@[bucket].player_count
                + second.sole_monopoly_development_entries@[bucket].player_count
                && combined.sole_monopoly_development_entries@[bucket].win_count
                == first.sole_monopoly_development_entries@[bucket].win_count
                + second.sole_monopoly_development_entries@[bucket].win_count,
    ensures
        report_consistent(combined, player_count, max_turn_count),
        without_snapshot(first) && without_snapshot(second) ==> without_snapshot(combined),
{
    lemma_totals_of_sum(first.monopoly_count_entries@, second.monopoly_count_entries@, combined.monopoly_count_entries@);
    lemma_totals_of_sum(first.sole_monopoly_entries@, second.sole_monopoly_entries@, combined.sole_monopoly_entries@);
    lemma_totals_of_sum(
        first.sole_monopoly_development_entries@,
        second.sole_monopoly_development_entries@,
        combined.sole_monopoly_development_entries@,
    );
    assert(combined.snapshot_game_count * player_count == first.snapshot_game_count * player_count
        + second.snapshot_game_count * player_count) by (nonlinear_arith)
        requires
            combined.snapshot_game_count == first.snapshot_game_count + second.snapshot_game_count,
    ;
    assert forall|group: int| 0 <= group < OWNERSHIP_GROUP_COUNT implies {
        let entry = #[trigger] combined.group_entries@[group];
        &&& entry.first_completion_win_count <= entry.first_completion_count
        &&& entry.first_completion_count <= combined.game_count
        &&& entry.total_completion_turn <= entry.first_completion_count * max_turn_count
    } by {
        let one = first.group_entries@[group];
        let two = second.group_entries@[group];
        let entry = combined.group_entries@[group];
        assert(entry.first_completion_count * max_turn_count == one.first_completion_count * max_turn_count
            + two.first_completion_count * max_turn_count) by (nonlinear_arith)
            requires
                entry.first_completion_count == one.first_completion_count + two.first_completion_count,
        ;
    }
}

} // verus!
