use vstd::prelude::*;

use super::tournament::{
    TournamentConfig,
    TournamentError,
    TournamentResult,
    counts_games,
    run_pool_tournament,
};
use crate::game::board::data::{
    MAX_PLAYER_COUNT,
    MIN_PLAYER_COUNT,
};
use crate::game::ruleset::model::Ruleset;
use crate::game::strategy::configurable::{
    ConfigurableStrategy,
    baseline_spec,
};
use crate::game::tile::model::Cash;

verus! {

/// The parameters that tuning varies, in the order it tries them.
pub const TUNED_STRATEGY_PARAMETERS: [StrategyParameter; 8] = [
    StrategyParameter::CashReserve,
    StrategyParameter::PurchaseCashPercent,
    StrategyParameter::AuctionBidPercent,
    StrategyParameter::ImprovementCashPercent,
    StrategyParameter::UnmortgageCashPercent,
    StrategyParameter::TradeOfferPercent,
    StrategyParameter::TradeAcceptPercent,
    StrategyParameter::PaysBailWhenAffordable,
];

#[derive(Debug, Clone, Copy, PartialEq, Eq, Hash, Structural)]
pub enum StrategyParameter {
    CashReserve,
    PurchaseCashPercent,
    AuctionBidPercent,
    ImprovementCashPercent,
    UnmortgageCashPercent,
    TradeOfferPercent,
    TradeAcceptPercent,
    PaysBailWhenAffordable,
}

impl StrategyParameter {
    /// The values that tuning tries for the parameter, in increasing order.
    pub open spec fn candidate_values_spec(self) -> Seq<Cash> {
        match self {
            StrategyParameter::CashReserve => seq![0, 25, 50, 100, 200, 300, 500, 800],
            StrategyParameter::PurchaseCashPercent => seq![100, 110, 125, 150, 200, 300],
            StrategyParameter::AuctionBidPercent => seq![50, 75, 100, 125, 150, 200, 250, 300, 400, 500],
            StrategyParameter::ImprovementCashPercent => seq![100, 125, 150, 200, 300, 500],
            StrategyParameter::UnmortgageCashPercent => seq![100, 150, 200, 300, 500, 1000],
            StrategyParameter::TradeOfferPercent => seq![0, 75, 100, 125, 150, 200, 250, 300, 400, 500, 700],
            StrategyParameter::TradeAcceptPercent => seq![50, 100, 150, 200, 250, 300, 400, 600, 1000],
            StrategyParameter::PaysBailWhenAffordable => seq![0, 1],
        }
    }

    /// `strategy` with the parameter set to `value`; a nonzero value turns a yes-or-no
    /// parameter on.
    pub open spec fn apply_spec(self, strategy: ConfigurableStrategy, value: Cash) -> ConfigurableStrategy {
        match self {
            StrategyParameter::CashReserve => ConfigurableStrategy { cash_reserve: value, ..strategy },
            StrategyParameter::PurchaseCashPercent => ConfigurableStrategy { purchase_cash_percent: value, ..strategy },
            StrategyParameter::AuctionBidPercent => ConfigurableStrategy { auction_bid_percent: value, ..strategy },
            StrategyParameter::ImprovementCashPercent => ConfigurableStrategy { improvement_cash_percent: value, ..strategy },
            StrategyParameter::UnmortgageCashPercent => ConfigurableStrategy { unmortgage_cash_percent: value, ..strategy },
            StrategyParameter::TradeOfferPercent => ConfigurableStrategy { trade_offer_percent: value, ..strategy },
            StrategyParameter::TradeAcceptPercent => ConfigurableStrategy { trade_accept_percent: value, ..strategy },
            StrategyParameter::PaysBailWhenAffordable => ConfigurableStrategy {
                pays_bail_when_affordable: value != 0,
                ..strategy
            },
        }
    }

    /// The name of the field of the strategy that the parameter sets.
    pub fn name(self) -> (name: &'static str)
        ensures
            name@ == match self {
                StrategyParameter::CashReserve => "cash_reserve"@,
                StrategyParameter::PurchaseCashPercent => "purchase_cash_percent"@,
                StrategyParameter::AuctionBidPercent => "auction_bid_percent"@,
                StrategyParameter::ImprovementCashPercent => "improvement_cash_percent"@,
                StrategyParameter::UnmortgageCashPercent => "unmortgage_cash_percent"@,
                StrategyParameter::TradeOfferPercent => "trade_offer_percent"@,
                StrategyParameter::TradeAcceptPercent => "trade_accept_percent"@,
                StrategyParameter::PaysBailWhenAffordable => "pays_bail_when_affordable"@,
            },
    {
        match self {
            StrategyParameter::CashReserve => "cash_reserve",
            StrategyParameter::PurchaseCashPercent => "purchase_cash_percent",
            StrategyParameter::AuctionBidPercent => "auction_bid_percent",
            StrategyParameter::ImprovementCashPercent => "improvement_cash_percent",
            StrategyParameter::UnmortgageCashPercent => "unmortgage_cash_percent",
            StrategyParameter::TradeOfferPercent => "trade_offer_percent",
            StrategyParameter::TradeAcceptPercent => "trade_accept_percent",
            StrategyParameter::PaysBailWhenAffordable => "pays_bail_when_affordable",
        }
    }

    pub fn candidate_values(self) -> (values: Vec<Cash>)
        ensures
            values@ == self.candidate_values_spec(),
    {
        match self {
            StrategyParameter::CashReserve => vec![0, 25, 50, 100, 200, 300, 500, 800],
            StrategyParameter::PurchaseCashPercent => vec![100, 110, 125, 150, 200, 300],
            StrategyParameter::AuctionBidPercent => vec![50, 75, 100, 125, 150, 200, 250, 300, 400, 500],
            StrategyParameter::ImprovementCashPercent => vec![100, 125, 150, 200, 300, 500],
            StrategyParameter::UnmortgageCashPercent => vec![100, 150, 200, 300, 500, 1000],
            StrategyParameter::TradeOfferPercent => vec![0, 75, 100, 125, 150, 200, 250, 300, 400, 500, 700],
            StrategyParameter::TradeAcceptPercent => vec![50, 100, 150, 200, 250, 300, 400, 600, 1000],
            StrategyParameter::PaysBailWhenAffordable => vec![0, 1],
        }
    }

    pub fn apply(self, strategy: ConfigurableStrategy, value: Cash) -> (tuned_strategy: ConfigurableStrategy)
        ensures
            tuned_strategy == self.apply_spec(strategy, value),
    {
        let mut tuned_strategy = strategy;
        match self {
            StrategyParameter::CashReserve => tuned_strategy.cash_reserve = value,
            StrategyParameter::PurchaseCashPercent => tuned_strategy.purchase_cash_percent = value,
            StrategyParameter::AuctionBidPercent => tuned_strategy.auction_bid_percent = value,
            StrategyParameter::ImprovementCashPercent => tuned_strategy.improvement_cash_percent = value,
            StrategyParameter::UnmortgageCashPercent => tuned_strategy.unmortgage_cash_percent = value,
            StrategyParameter::TradeOfferPercent => tuned_strategy.trade_offer_percent = value,
            StrategyParameter::TradeAcceptPercent => tuned_strategy.trade_accept_percent = value,
            StrategyParameter::PaysBailWhenAffordable => tuned_strategy.pays_bail_when_affordable = value != 0,
        }
        tuned_strategy
    }
}

/// One strategy tried while tuning: the parameter set and its value, the strategy's tournament,
/// and whether it beat the best strategy so far.
#[derive(Debug, Clone, Copy, PartialEq, Eq, Structural)]
pub struct TuningStep {
    pub parameter: StrategyParameter,
    pub value: Cash,
    pub result: TournamentResult,
    pub is_improvement: bool,
}

/// A strategy and what a sweep of its parameters found.
#[derive(Debug, Clone, PartialEq, Eq)]
pub struct SweepReport {
    pub strategy: ConfigurableStrategy,
    pub steps: Vec<TuningStep>,
}

/// The strategy tuning started from and the one it found, each with its tournament, the games
/// played, and every strategy tried.
#[derive(Debug, Clone, PartialEq, Eq)]
pub struct TuningReport {
    pub baseline_strategy: ConfigurableStrategy,
    pub best_strategy: ConfigurableStrategy,
    pub best: TournamentResult,
    pub baseline: TournamentResult,
    pub evaluated_game_count: u64,
    pub steps: Vec<TuningStep>,
}

#[derive(Debug, Clone, Copy, PartialEq, Eq, Structural)]
pub enum TuningError {
    /// There is no strategy to tune.
    EmptyOpponentPool,
    /// The pool is empty, or a generation, round, game or turn count is zero.
    InvalidSession,
    /// A tournament could not be played.
    Tournament(TournamentError),
}

/// Whether `candidate` won a larger share of its games than `best` did by more than one game
/// in 500, the share of a tournament without games being zero. The shares are compared
/// exactly.
pub open spec fn improves(candidate: TournamentResult, best: TournamentResult) -> bool {
    let best_wins: int = if best.game_count == 0 {
        0
    } else {
        best.candidate_win_count as int
    };
    let best_games: int = if best.game_count == 0 {
        1
    } else {
        best.game_count as int
    };
    &&& candidate.game_count > 0
    &&& 500 * candidate.candidate_win_count * best_games > 500 * best_wins * candidate.game_count
        + candidate.game_count * best_games
}

/// The best strategy and its tournament once `step` is taken from `best`.
pub open spec fn after_step(best: (ConfigurableStrategy, TournamentResult), step: TuningStep) -> (
    ConfigurableStrategy,
    TournamentResult,
) {
    if step.is_improvement {
        (step.parameter.apply_spec(best.0, step.value), step.result)
    } else {
        best
    }
}

/// The best strategy and its tournament after `steps`, starting from `start`.
pub open spec fn best_after(steps: Seq<TuningStep>, start: (ConfigurableStrategy, TournamentResult)) -> (
    ConfigurableStrategy,
    TournamentResult,
)
    decreases steps.len(),
{
    if steps.len() == 0 {
        start
    } else {
        after_step(best_after(steps.drop_last(), start), steps.last())
    }
}

/// Whether `step` tried, from the best strategy `best`, a candidate value of its parameter that
/// changes the strategy, played it in a tournament of `game_count` games of at most
/// `max_turn_count` turns, and marked it an improvement exactly when it beat `best`.
pub open spec fn tried_from(
    step: TuningStep,
    best: (ConfigurableStrategy, TournamentResult),
    game_count: int,
    max_turn_count: int,
) -> bool {
    &&& step.parameter.candidate_values_spec().contains(step.value)
    &&& step.parameter.apply_spec(best.0, step.value) != best.0
    &&& counts_games(step.result, game_count, max_turn_count)
    &&& step.is_improvement == improves(step.result, best.1)
}

/// `count`, or `u64::MAX` when it is larger.
pub open spec fn capped(count: int) -> int {
    if count > u64::MAX {
        u64::MAX as int
    } else {
        count
    }
}

/// Whether `candidate` won a larger share of its games than `best` by more than one game in
/// 500.
pub fn improves_on(candidate: TournamentResult, best: TournamentResult) -> (improvement: bool)
    ensures
        improvement == improves(candidate, best),
{
    if candidate.game_count == 0 {
        return false;
    }
    let (best_wins, best_games): (u128, u128) = if best.game_count == 0 {
        (0, 1)
    } else {
        (best.candidate_win_count as u128, best.game_count as u128)
    };
    let wins = candidate.candidate_win_count as u128;
    let games = candidate.game_count as u128;
    assert(500 * wins * best_games <= 500 * 0xffff_ffffu128 * 0xffff_ffffu128) by (nonlinear_arith)
        requires
            wins <= 0xffff_ffff,
            best_games <= 0xffff_ffff,
    ;
    assert(500 * best_wins * games <= 500 * 0xffff_ffffu128 * 0xffff_ffffu128) by (nonlinear_arith)
        requires
            best_wins <= 0xffff_ffff,
            games <= 0xffff_ffff,
    ;
    assert(games * best_games <= 0xffff_ffffu128 * 0xffff_ffffu128) by (nonlinear_arith)
        requires
            best_games <= 0xffff_ffff,
            games <= 0xffff_ffff,
    ;
    500 * wins * best_games > 500 * best_wins * games + games * best_games
}

/// Tunes the last strategy of `opponent_pool` against the pool: for up to `round_count`
/// rounds, tries each candidate value of each tuned parameter on the best strategy so far,
/// keeping a change when it improves the strategy's share of wins by more than one game in
/// 500, and stops after a round without an improvement. The games played are counted up to
/// `u64::MAX`.
pub fn tune_strategy(
    ruleset: &Ruleset,
    config: &TournamentConfig,
    round_count: u32,
    opponent_pool: &[ConfigurableStrategy],
) -> (result: Result<TuningReport, TuningError>)
    ensures
        opponent_pool@.len() == 0 ==> result == Err::<TuningReport, TuningError>(TuningError::EmptyOpponentPool),
        opponent_pool@.len() > 0 && !(MIN_PLAYER_COUNT <= config.player_count <= MAX_PLAYER_COUNT) ==> result == Err::<
            TuningReport,
            TuningError,
        >(TuningError::Tournament(TournamentError::UnsupportedPlayerCount(config.player_count))),
        opponent_pool@.len() > 0 && MIN_PLAYER_COUNT <= config.player_count <= MAX_PLAYER_COUNT ==> (result matches Ok(
            report,
        ) && {
            let start = (report.baseline_strategy, report.baseline);
            &&& report.baseline_strategy == opponent_pool@.last()
            &&& counts_games(report.baseline, config.game_count as int, config.max_turn_count as int)
            &&& forall|index: int|
                0 <= index < report.steps@.len() ==> tried_from(
                    #[trigger] report.steps@[index],
                    best_after(report.steps@.take(index), start),
                    config.game_count as int,
                    config.max_turn_count as int,
                )
            &&& (report.best_strategy, report.best) == best_after(report.steps@, start)
            &&& report.evaluated_game_count == capped(config.game_count * (report.steps@.len() + 1))
        }),
{
    if opponent_pool.len() == 0 {
        return Err(TuningError::EmptyOpponentPool);
    }
    let baseline_strategy = opponent_pool[opponent_pool.len() - 1];
    let baseline = match run_pool_tournament(ruleset, baseline_strategy, opponent_pool, config) {
        Ok(result) => result,
        Err(error) => return Err(TuningError::Tournament(error)),
    };
    let ghost start = (baseline_strategy, baseline);
    let game_count = config.game_count as u64;
    let mut best_strategy = baseline_strategy;
    let mut best = baseline;
    let mut evaluated_game_count: u64 = game_count;
    let mut steps: Vec<TuningStep> = Vec::new();
    let mut round: u32 = 0;
    assert(steps@.len() == 0);
    assert(config.game_count * (steps@.len() + 1) == config.game_count) by (nonlinear_arith)
        requires
            steps@.len() == 0,
    ;
    while round < round_count
        invariant
            opponent_pool@.len() > 0,
            MIN_PLAYER_COUNT <= config.player_count <= MAX_PLAYER_COUNT,
            game_count == config.game_count,
            forall|index: int|
                0 <= index < steps@.len() ==> tried_from(
                    #[trigger] steps@[index],
                    best_after(steps@.take(index), start),
                    config.game_count as int,
                    config.max_turn_count as int,
                ),
            (best_strategy, best) == best_after(steps@, start),
            evaluated_game_count == capped(config.game_count * (steps@.len() + 1)),
        decreases round_count - round,
    {
        let mut has_improved = false;
        let mut parameter_index: usize = 0;
        while parameter_index < TUNED_STRATEGY_PARAMETERS.len()
            invariant
                opponent_pool@.len() > 0,
                MIN_PLAYER_COUNT <= config.player_count <= MAX_PLAYER_COUNT,
                game_count == config.game_count,
                parameter_index <= TUNED_STRATEGY_PARAMETERS.len(),
                forall|index: int|
                    0 <= index < steps@.len() ==> tried_from(
                        #[trigger] steps@[index],
                        best_after(steps@.take(index), start),
                        config.game_count as int,
                        config.max_turn_count as int,
                    ),
                (best_strategy, best) == best_after(steps@, start),
                evaluated_game_count == capped(config.game_count * (steps@.len() + 1)),
            decreases TUNED_STRATEGY_PARAMETERS.len() - parameter_index,
        {
            let parameter = TUNED_STRATEGY_PARAMETERS[parameter_index];
            let values = parameter.candidate_values();
            let mut value_index: usize = 0;
            while value_index < values.len()
                invariant
                    opponent_pool@.len() > 0,
                    MIN_PLAYER_COUNT <= config.player_count <= MAX_PLAYER_COUNT,
                    game_count == config.game_count,
                    values@ == parameter.candidate_values_spec(),
                    value_index <= values@.len(),
                    forall|index: int|
                        0 <= index < steps@.len() ==> tried_from(
                            #[trigger] steps@[index],
                            best_after(steps@.take(index), start),
                            config.game_count as int,
                            config.max_turn_count as int,
                        ),
                    (best_strategy, best) == best_after(steps@, start),
                    evaluated_game_count == capped(config.game_count * (steps@.len() + 1)),
                decreases values@.len() - value_index,
            {
                let value = values[value_index];
                let candidate_strategy = parameter.apply(best_strategy, value);
                if candidate_strategy != best_strategy {
                    let result = match run_pool_tournament(ruleset, candidate_strategy, opponent_pool, config) {
                        Ok(result) => result,
                        Err(error) => return Err(TuningError::Tournament(error)),
                    };
                    let is_improvement = improves_on(result, best);
                    let step = TuningStep { parameter, value, result, is_improvement };
                    proof {
                        assert(values@[value_index as int] == value);
                        assert(parameter.candidate_values_spec().contains(value));
                        let count = config.game_count * (steps@.len() + 1);
                        assert(config.game_count * (steps@.len() + 2) == count + config.game_count) by (nonlinear_arith)
                            requires
                                count == config.game_count * (steps@.len() + 1),
                        ;
                        assert(count >= 0) by (nonlinear_arith)
                            requires
                                count == config.game_count * (steps@.len() + 1),
                        ;
                    }
                    let ghost before = steps@;
                    steps.push(step);
                    proof {
                        assert(steps@.drop_last() =~= before);
                        assert forall|index: int| 0 <= index < steps@.len() implies tried_from(
                            #[trigger] steps@[index],
                            best_after(steps@.take(index), start),
                            config.game_count as int,
                            config.max_turn_count as int,
                        ) by {
                            if index < before.len() {
                                assert(steps@.take(index) =~= before.take(index));
                            } else {
                                assert(steps@.take(index) =~= before);
                            }
                        }
                    }
                    evaluated_game_count = evaluated_game_count.saturating_add(game_count);
                    if is_improvement {
                        best_strategy = candidate_strategy;
                        best = result;
                        has_improved = true;
                    }
                }
                value_index = value_index + 1;
            }
            parameter_index = parameter_index + 1;
        }
        if !has_improved {
            break;
        }
        round = round + 1;
    }
    Ok(TuningReport { baseline_strategy, best_strategy, best, baseline, evaluated_game_count, steps })
}

/// Each candidate value of `parameter`, paired with it.
pub open spec fn value_pairs(parameter: StrategyParameter, values: Seq<Cash>) -> Seq<(StrategyParameter, Cash)> {
    values.map_values(|value: Cash| (parameter, value))
}

/// The parameters and values that a sweep tries, for the first `count` tuned parameters, in
/// order.
pub open spec fn sweep_order(count: nat) -> Seq<(StrategyParameter, Cash)>
    decreases count,
{
    if count == 0 {
        seq![]
    } else {
        let parameter = TUNED_STRATEGY_PARAMETERS@[count - 1];
        sweep_order((count - 1) as nat) + value_pairs(parameter, parameter.candidate_values_spec())
    }
}

/// The parameter and value of `step`.
pub open spec fn step_setting(step: TuningStep) -> (StrategyParameter, Cash) {
    (step.parameter, step.value)
}

/// Plays a tournament for each candidate value of each tuned parameter set on `strategy`, in
/// the order of the tuned parameters and of their values; no step is marked an improvement.
pub fn sweep_parameters(
    ruleset: &Ruleset,
    strategy: ConfigurableStrategy,
    opponent_pool: &[ConfigurableStrategy],
    config: &TournamentConfig,
) -> (result: Result<Vec<TuningStep>, TournamentError>)
    ensures
        opponent_pool@.len() == 0 ==> result == Err::<Vec<TuningStep>, TournamentError>(
            TournamentError::EmptyOpponentPool,
        ),
        opponent_pool@.len() > 0 && !(MIN_PLAYER_COUNT <= config.player_count <= MAX_PLAYER_COUNT) ==> result == Err::<
            Vec<TuningStep>,
            TournamentError,
        >(TournamentError::UnsupportedPlayerCount(config.player_count)),
        opponent_pool@.len() > 0 && MIN_PLAYER_COUNT <= config.player_count <= MAX_PLAYER_COUNT ==> (result matches Ok(
            steps,
        ) && {
            &&& steps@.map_values(|step: TuningStep| step_setting(step)) == sweep_order(
                TUNED_STRATEGY_PARAMETERS@.len(),
            )
            &&& forall|index: int|
                0 <= index < steps@.len() ==> !(#[trigger] steps@[index]).is_improvement && counts_games(
                    steps@[index].result,
                    config.game_count as int,
                    config.max_turn_count as int,
                )
        }),
{
    let mut steps: Vec<TuningStep> = Vec::new();
    let mut parameter_index: usize = 0;
    while parameter_index < TUNED_STRATEGY_PARAMETERS.len()
        invariant
            parameter_index <= TUNED_STRATEGY_PARAMETERS@.len(),
            opponent_pool@.len() == 0 ==> parameter_index == 0,
            parameter_index > 0 ==> MIN_PLAYER_COUNT <= config.player_count <= MAX_PLAYER_COUNT,
            steps@.map_values(|step: TuningStep| step_setting(step)) == sweep_order(parameter_index as nat),
            forall|index: int|
                0 <= index < steps@.len() ==> !(#[trigger] steps@[index]).is_improvement && counts_games(
                    steps@[index].result,
                    config.game_count as int,
                    config.max_turn_count as int,
                ),
        decreases TUNED_STRATEGY_PARAMETERS@.len() - parameter_index,
    {
        let parameter = TUNED_STRATEGY_PARAMETERS[parameter_index];
        let values = parameter.candidate_values();
        let ghost before = steps@.map_values(|step: TuningStep| step_setting(step));
        let mut value_index: usize = 0;
        while value_index < values.len()
            invariant
                parameter_index < TUNED_STRATEGY_PARAMETERS@.len(),
                parameter == TUNED_STRATEGY_PARAMETERS@[parameter_index as int],
                opponent_pool@.len() == 0 ==> parameter_index == 0 && value_index == 0,
                parameter_index > 0 || value_index > 0 ==> MIN_PLAYER_COUNT <= config.player_count <= MAX_PLAYER_COUNT,
                values@ == parameter.candidate_values_spec(),
                value_index <= values@.len(),
                before == sweep_order(parameter_index as nat),
                steps@.map_values(|step: TuningStep| step_setting(step)) == before + value_pairs(
                    parameter,
                    values@.take(value_index as int),
                ),
                forall|index: int|
                    0 <= index < steps@.len() ==> !(#[trigger] steps@[index]).is_improvement && counts_games(
                        steps@[index].result,
                        config.game_count as int,
                        config.max_turn_count as int,
                    ),
            decreases values@.len() - value_index,
        {
            let value = values[value_index];
            let result = match run_pool_tournament(ruleset, parameter.apply(strategy, value), opponent_pool, config) {
                Ok(result) => result,
                Err(error) => return Err(error),
            };
            let ghost settings = steps@.map_values(|step: TuningStep| step_setting(step));
            steps.push(TuningStep { parameter, value, result, is_improvement: false });
            proof {
                assert(steps@.map_values(|step: TuningStep| step_setting(step)) =~= settings.push((parameter, value)));
                assert(values@.take(value_index as int + 1) =~= values@.take(value_index as int).push(value));
                assert(value_pairs(parameter, values@.take(value_index as int + 1)) =~= value_pairs(
                    parameter,
                    values@.take(value_index as int),
                ).push((parameter, value)));
                assert(before + value_pairs(parameter, values@.take(value_index as int + 1)) =~= (before + value_pairs(
                    parameter,
                    values@.take(value_index as int),
                )).push((parameter, value)));
            }
            value_index = value_index + 1;
        }
        assert(values@.take(values@.len() as int) =~= values@);
        parameter_index = parameter_index + 1;
    }
    Ok(steps)
}

/// A strategy of a league and its tournament against the whole league.
#[derive(Debug, Clone, Copy, PartialEq, Eq, Structural)]
pub struct LeagueEntry {
    pub strategy: ConfigurableStrategy,
    pub result: TournamentResult,
}

/// The strategy of `entry`.
pub open spec fn entry_strategy(entry: LeagueEntry) -> ConfigurableStrategy {
    entry.strategy
}

/// Whether `entries` go from the most games won to the fewest.
pub open spec fn ranked(entries: Seq<LeagueEntry>) -> bool {
    forall|first: int, second: int|
        0 <= first < second < entries.len() ==> (#[trigger] entries[first]).result.candidate_win_count
            >= (#[trigger] entries[second]).result.candidate_win_count
}

/// Plays each strategy of `strategies` in a tournament against all of them, and ranks them by
/// games won, strategies with as many wins keeping their order. (All tournaments have the
/// same number of games, so this is the order of their shares of wins.)
pub fn run_league(ruleset: &Ruleset, strategies: &[ConfigurableStrategy], config: &TournamentConfig) -> (result:
    Result<Vec<LeagueEntry>, TournamentError>)
    ensures
        strategies@.len() > 0 && !(MIN_PLAYER_COUNT <= config.player_count <= MAX_PLAYER_COUNT) ==> result == Err::<
            Vec<LeagueEntry>,
            TournamentError,
        >(TournamentError::UnsupportedPlayerCount(config.player_count)),
        strategies@.len() == 0 || MIN_PLAYER_COUNT <= config.player_count <= MAX_PLAYER_COUNT ==> (result matches Ok(
            entries,
        ) && {
            &&& ranked(entries@)
            &&& entries@.map_values(|entry: LeagueEntry| entry_strategy(entry)).to_multiset()
                == strategies@.to_multiset()
            &&& forall|index: int|
                0 <= index < entries@.len() ==> counts_games(
                    (#[trigger] entries@[index]).result,
                    config.game_count as int,
                    config.max_turn_count as int,
                )
        }),
{
    broadcast use vstd::seq_lib::group_to_multiset_ensures;

    let mut entries: Vec<LeagueEntry> = Vec::new();
    let mut index: usize = 0;
    while index < strategies.len()
        invariant
            index <= strategies@.len(),
            index > 0 ==> MIN_PLAYER_COUNT <= config.player_count <= MAX_PLAYER_COUNT,
            ranked(entries@),
            entries@.map_values(|entry: LeagueEntry| entry_strategy(entry)).to_multiset()
                == strategies@.take(index as int).to_multiset(),
            forall|earlier: int|
                0 <= earlier < entries@.len() ==> counts_games(
                    (#[trigger] entries@[earlier]).result,
                    config.game_count as int,
                    config.max_turn_count as int,
                ),
        decreases strategies@.len() - index,
    {
        let strategy = strategies[index];
        let result = match run_pool_tournament(ruleset, strategy, strategies, config) {
            Ok(result) => result,
            Err(error) => return Err(error),
        };
        let entry = LeagueEntry { strategy, result };
        let mut position: usize = 0;
        while position < entries.len() && entries[position].result.candidate_win_count >= result.candidate_win_count
            invariant
                position <= entries@.len(),
                forall|earlier: int|
                    0 <= earlier < position ==> (#[trigger] entries@[earlier]).result.candidate_win_count
                        >= result.candidate_win_count,
            decreases entries@.len() - position,
        {
            position = position + 1;
        }
        let ghost before = entries@;
        entries.insert(position, entry);
        proof {
            assert forall|first: int, second: int| 0 <= first < second < entries@.len() implies (
            #[trigger] entries@[first]).result.candidate_win_count
                >= (#[trigger] entries@[second]).result.candidate_win_count by {
                if second == position {
                    assert(entries@[first] == before[first]);
                } else if first == position {
                    assert(entries@[second] == before[second - 1]);
                    assert(before[position as int].result.candidate_win_count < result.candidate_win_count);
                    if second - 1 > position {
                        assert(before[position as int].result.candidate_win_count >= before[second
                            - 1].result.candidate_win_count);
                    }
                } else {
                    let old_first = if first < position {
                        first
                    } else {
                        first - 1
                    };
                    let old_second = if second < position {
                        second
                    } else {
                        second - 1
                    };
                    assert(entries@[first] == before[old_first]);
                    assert(entries@[second] == before[old_second]);
                }
            }
            assert(entries@.map_values(|entry: LeagueEntry| entry_strategy(entry)) =~= before.map_values(
                |entry: LeagueEntry| entry_strategy(entry),
            ).insert(position as int, strategy));
            vstd::seq_lib::to_multiset_insert(
                before.map_values(|entry: LeagueEntry| entry_strategy(entry)),
                position as int,
                strategy,
            );
            assert(strategies@.take(index as int + 1) =~= strategies@.take(index as int).push(strategy));
            vstd::seq_lib::to_multiset_build(strategies@.take(index as int), strategy);
            assert forall|earlier: int| 0 <= earlier < entries@.len() implies counts_games(
                (#[trigger] entries@[earlier]).result,
                config.game_count as int,
                config.max_turn_count as int,
            ) by {
                if earlier < position {
                    assert(entries@[earlier] == before[earlier]);
                } else if earlier > position {
                    assert(entries@[earlier] == before[earlier - 1]);
                }
            }
        }
        index = index + 1;
    }
    assert(strategies@.take(strategies@.len() as int) =~= strategies@);
    Ok(entries)
}

/// The champion of a tuning session and the strategy it started from, played on fresh seeds
/// against the same pool.
#[derive(Debug, Clone, PartialEq, Eq)]
pub struct ValidationReport {
    pub config: TournamentConfig,
    pub opponent_pool: Vec<ConfigurableStrategy>,
    pub baseline_strategy: ConfigurableStrategy,
    pub champion_strategy: ConfigurableStrategy,
    pub baseline: TournamentResult,
    pub champion: TournamentResult,
}

/// Generations of tuning, each tuning the best strategy so far against a pool that every
/// generation's champion joins, and the validation of the last champion.
#[derive(Debug, Clone, PartialEq, Eq)]
pub struct TuningSession {
    pub schema_version: u32,
    pub ruleset: Ruleset,
    pub training_config: TournamentConfig,
    pub round_count: u32,
    pub generation_count: u32,
    pub starting_pool: Vec<ConfigurableStrategy>,
    pub reports: Vec<TuningReport>,
    pub opponent_pool: Vec<ConfigurableStrategy>,
    pub validation: ValidationReport,
}

/// The best strategy of `report`.
pub open spec fn report_champion(report: TuningReport) -> ConfigurableStrategy {
    report.best_strategy
}

impl TuningSession {
    /// The best strategy of the last generation, or the baseline strategy when there is none.
    pub fn champion(&self) -> (champion: ConfigurableStrategy)
        ensures
            champion == if self.reports@.len() == 0 {
                baseline_spec()
            } else {
                self.reports@.last().best_strategy
            },
    {
        if self.reports.len() == 0 {
            ConfigurableStrategy::new()
        } else {
            self.reports[self.reports.len() - 1].best_strategy
        }
    }
}

/// Whether `reports` tuned, generation after generation, the last strategy of a pool that
/// starts as `starting_pool` and takes in each generation's best strategy.
pub open spec fn tunes_generations(
    reports: Seq<TuningReport>,
    starting_pool: Seq<ConfigurableStrategy>,
    config: TournamentConfig,
) -> bool {
    forall|generation: int|
        0 <= generation < reports.len() ==> {
            let report = #[trigger] reports[generation];
            let start = (report.baseline_strategy, report.baseline);
            &&& report.baseline_strategy == (starting_pool + reports.take(generation).map_values(
                |report: TuningReport| report_champion(report),
            )).last()
            &&& counts_games(report.baseline, config.game_count as int, config.max_turn_count as int)
            &&& forall|index: int|
                0 <= index < report.steps@.len() ==> tried_from(
                    #[trigger] report.steps@[index],
                    best_after(report.steps@.take(index), start),
                    config.game_count as int,
                    config.max_turn_count as int,
                )
            &&& (report.best_strategy, report.best) == best_after(report.steps@, start)
        }
}

/// Tunes `generation_count` generations of `round_count` rounds each, starting with the pool
/// `starting_pool`, then plays the last champion and the last strategy of the starting pool
/// against the pool without that champion, on the seeds that follow the training seeds.
pub fn tune_strategy_over_generations(
    ruleset: &Ruleset,
    config: &TournamentConfig,
    round_count: u32,
    generation_count: u32,
    starting_pool: &[ConfigurableStrategy],
) -> (result: Result<TuningSession, TuningError>)
    ensures
        ({
            let invalid = starting_pool@.len() == 0 || generation_count == 0 || round_count == 0 || config.game_count
                == 0 || config.max_turn_count == 0;
            &&& invalid ==> result == Err::<TuningSession, TuningError>(TuningError::InvalidSession)
            &&& !invalid && !(MIN_PLAYER_COUNT <= config.player_count <= MAX_PLAYER_COUNT) ==> result == Err::<
                TuningSession,
                TuningError,
            >(TuningError::Tournament(TournamentError::UnsupportedPlayerCount(config.player_count)))
            &&& !invalid && MIN_PLAYER_COUNT <= config.player_count <= MAX_PLAYER_COUNT ==> (result matches Ok(
                session,
            ) && {
                let validation = session.validation;
                &&& session.schema_version == 1
                &&& session.ruleset == *ruleset
                &&& session.training_config == *config
                &&& session.round_count == round_count
                &&& session.generation_count == generation_count
                &&& session.starting_pool@ == starting_pool@
                &&& session.reports@.len() == generation_count
                &&& tunes_generations(session.reports@, starting_pool@, *config)
                &&& session.opponent_pool@ == starting_pool@ + session.reports@.map_values(
                    |report: TuningReport| report_champion(report),
                )
                &&& validation.config == TournamentConfig {
                    seed: config.seed.wrapping_add(config.game_count as u64),
                    ..*config
                }
                &&& validation.opponent_pool@ == session.opponent_pool@.drop_last()
                &&& validation.baseline_strategy == starting_pool@.last()
                &&& validation.champion_strategy == session.reports@.last().best_strategy
                &&& counts_games(validation.baseline, config.game_count as int, config.max_turn_count as int)
                &&& counts_games(validation.champion, config.game_count as int, config.max_turn_count as int)
            })
        }),
{
    if starting_pool.len() == 0 || generation_count == 0 || round_count == 0 || config.game_count == 0
        || config.max_turn_count == 0 {
        return Err(TuningError::InvalidSession);
    }
    let mut opponent_pool: Vec<ConfigurableStrategy> = Vec::new();
    let mut index: usize = 0;
    while index < starting_pool.len()
        invariant
            index <= starting_pool@.len(),
            opponent_pool@ == starting_pool@.take(index as int),
        decreases starting_pool@.len() - index,
    {
        opponent_pool.push(starting_pool[index]);
        index = index + 1;
        assert(opponent_pool@ =~= starting_pool@.take(index as int));
    }
    assert(opponent_pool@ =~= starting_pool@);
    let starting = opponent_pool.clone();
    let mut reports: Vec<TuningReport> = Vec::new();
    let mut generation: u32 = 0;
    while generation < generation_count
        invariant
            starting_pool@.len() > 0,
            generation_count > 0 && round_count > 0 && config.game_count > 0 && config.max_turn_count > 0,
            starting@ == starting_pool@,
            generation <= generation_count,
            reports@.len() == generation,
            generation > 0 ==> MIN_PLAYER_COUNT <= config.player_count <= MAX_PLAYER_COUNT,
            opponent_pool@ == starting_pool@ + reports@.map_values(|report: TuningReport| report_champion(report)),
            tunes_generations(reports@, starting_pool@, *config),
        decreases generation_count - generation,
    {
        let report = match tune_strategy(ruleset, config, round_count, opponent_pool.as_slice()) {
            Ok(report) => report,
            Err(error) => return Err(error),
        };
        let ghost before = reports@;
        opponent_pool.push(report.best_strategy);
        reports.push(report);
        proof {
            assert(reports@.map_values(|report: TuningReport| report_champion(report)) =~= before.map_values(
                |report: TuningReport| report_champion(report),
            ).push(report_champion(report)));
            assert(reports@.take(before.len() as int) =~= before);
        }
        generation = generation + 1;
    }
    let champion_strategy = reports[reports.len() - 1].best_strategy;
    let baseline_strategy = starting_pool[starting_pool.len() - 1];
    let validation_config = TournamentConfig { seed: config.seed.wrapping_add(config.game_count as u64), ..*config };
    let mut validation_pool = opponent_pool.clone();
    validation_pool.pop();
    let baseline = match run_pool_tournament(ruleset, baseline_strategy, validation_pool.as_slice(), &validation_config) {
        Ok(result) => result,
        Err(error) => return Err(TuningError::Tournament(error)),
    };
    let champion = match run_pool_tournament(ruleset, champion_strategy, validation_pool.as_slice(), &validation_config) {
        Ok(result) => result,
        Err(error) => return Err(TuningError::Tournament(error)),
    };
    let validation = ValidationReport {
        config: validation_config,
        opponent_pool: validation_pool,
        baseline_strategy,
        champion_strategy,
        baseline,
        champion,
    };
    Ok(TuningSession {
        schema_version: 1,
        ruleset: *ruleset,
        training_config: *config,
        round_count,
        generation_count,
        starting_pool: starting,
        reports,
        opponent_pool,
        validation,
    })
}

/// The validation of a tuning session plays on seeds that training never used: the seeds
/// `seed + index` of the `game_count` training games and the seeds that follow them,
/// `seed + game_count + index`, differ (all wrapping at `u64::MAX`).
pub proof fn lemma_validation_seeds_disjoint(seed: u64, game_count: u32, training: u32, validation: u32)
    requires
        training < game_count,
        validation < game_count,
    ensures
        seed.wrapping_add(training as u64) != seed.wrapping_add(game_count as u64).wrapping_add(validation as u64),
{
}

} // verus!
