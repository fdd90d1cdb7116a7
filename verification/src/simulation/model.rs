use vstd::prelude::*;

use crate::game::board::data::MAX_PLAYER_COUNT;
use crate::game::ruleset::data::{
    dex_ruleset,
    dex_ruleset_spec,
    official_ruleset,
};
use crate::game::ruleset::model::{
    Ruleset,
    official_ruleset_spec,
};
use crate::game::strategy::any::AnyStrategy;
use crate::game::strategy::cautious::CautiousStrategy;
use crate::game::strategy::greedy::GreedyStrategy;
use crate::game::tile::model::Cash;

verus! {

#[derive(Debug, Clone, Copy, PartialEq, Eq, Hash, Structural)]
pub enum RulesetKind {
    Official,
    Dex,
}

impl RulesetKind {
    /// The ruleset that the kind names.
    pub open spec fn ruleset_spec(self) -> Ruleset {
        match self {
            RulesetKind::Official => official_ruleset_spec(),
            RulesetKind::Dex => dex_ruleset_spec(),
        }
    }

    pub fn to_ruleset(self) -> (ruleset: Ruleset)
        ensures
            ruleset == self.ruleset_spec(),
    {
        match self {
            RulesetKind::Official => official_ruleset(),
            RulesetKind::Dex => dex_ruleset(),
        }
    }
}

#[derive(Debug, Clone, Copy, PartialEq, Eq, Hash, Structural)]
pub enum StrategyKind {
    Greedy,
    Cautious,
}

impl StrategyKind {
    /// The strategy of this kind that keeps `cash_reserve` in hand.
    pub open spec fn strategy_spec(self, cash_reserve: Cash) -> AnyStrategy {
        match self {
            StrategyKind::Greedy => AnyStrategy::Greedy(GreedyStrategy { cash_reserve }),
            StrategyKind::Cautious => AnyStrategy::Cautious(CautiousStrategy { cash_reserve }),
        }
    }

    pub fn create_strategy(self, cash_reserve: Cash) -> (strategy: AnyStrategy)
        ensures
            strategy == self.strategy_spec(cash_reserve),
    {
        match self {
            StrategyKind::Greedy => AnyStrategy::Greedy(GreedyStrategy { cash_reserve }),
            StrategyKind::Cautious => AnyStrategy::Cautious(CautiousStrategy { cash_reserve }),
        }
    }
}

#[derive(Debug, Clone, PartialEq, Eq, Hash)]
pub struct SimulationConfig {
    pub game_count: u32,
    pub max_turn_count: u32,
    pub seed: u64,
    pub cash_reserve: Cash,
    pub strategy_kinds: Vec<StrategyKind>,
}

#[derive(Debug, Clone, PartialEq, Eq)]
pub struct SimulationSummary {
    pub game_count: u32,
    pub win_count_by_player_id: Vec<u32>,
    pub turn_limit_reached_count: u32,
    pub total_turn_count: u64,
}

/// The sum of `counts`.
pub open spec fn count_sum(counts: Seq<u32>) -> int
    decreases counts.len(),
{
    if counts.len() == 0 {
        0
    } else {
        count_sum(counts.drop_last()) + counts.last()
    }
}

/// Adding one to an entry adds one to the sum.
pub proof fn lemma_count_sum_increment(counts: Seq<u32>, index: int)
    requires
        0 <= index < counts.len(),
        counts[index] < u32::MAX,
    ensures
        count_sum(counts.update(index, (counts[index] + 1) as u32)) == count_sum(counts) + 1,
    decreases counts.len(),
{
    let updated = counts.update(index, (counts[index] + 1) as u32);
    if index == counts.len() - 1 {
        assert(updated.drop_last() =~= counts.drop_last());
    } else {
        assert(updated.drop_last() =~= counts.drop_last().update(index, (counts[index] + 1) as u32));
        lemma_count_sum_increment(counts.drop_last(), index);
    }
}

/// A sum of counts is never negative.
pub proof fn lemma_count_sum_nonnegative(counts: Seq<u32>)
    ensures
        count_sum(counts) >= 0,
    decreases counts.len(),
{
    if counts.len() > 0 {
        lemma_count_sum_nonnegative(counts.drop_last());
    }
}

/// A sum of zeros is zero.
pub proof fn lemma_count_sum_zeros(counts: Seq<u32>)
    requires
        forall|index: int| 0 <= index < counts.len() ==> counts[index] == 0,
    ensures
        count_sum(counts) == 0,
    decreases counts.len(),
{
    if counts.len() > 0 {
        lemma_count_sum_zeros(counts.drop_last());
    }
}

impl SimulationSummary {
    /// The summary before any game, with a win count for each of at most eight players.
    pub fn new(player_count: usize) -> (summary: Self)
        ensures
            summary.game_count == 0,
            summary.win_count_by_player_id@.len() == if player_count < MAX_PLAYER_COUNT {
                player_count
            } else {
                MAX_PLAYER_COUNT
            },
            forall|player: int|
                0 <= player < summary.win_count_by_player_id@.len() ==> #[trigger] summary.win_count_by_player_id@[player]
                    == 0,
            count_sum(summary.win_count_by_player_id@) == 0,
            summary.turn_limit_reached_count == 0,
            summary.total_turn_count == 0,
    {
        let count = if player_count < MAX_PLAYER_COUNT {
            player_count
        } else {
            MAX_PLAYER_COUNT
        };
        let mut win_count_by_player_id: Vec<u32> = Vec::new();
        while win_count_by_player_id.len() < count
            invariant
                win_count_by_player_id@.len() <= count,
                forall|player: int|
                    0 <= player < win_count_by_player_id@.len() ==> #[trigger] win_count_by_player_id@[player] == 0,
            decreases count - win_count_by_player_id@.len(),
        {
            win_count_by_player_id.push(0);
        }
        proof {
            lemma_count_sum_zeros(win_count_by_player_id@);
        }
        SimulationSummary { game_count: 0, win_count_by_player_id, turn_limit_reached_count: 0, total_turn_count: 0 }
    }
}

} // verus!
