use vstd::prelude::*;

use super::tournament::{
    TournamentConfig,
    TournamentError,
    TournamentResult,
    counts_games,
    run_pool_tournament,
};
use crate::game::board::data::{
    MAX_PLAYER_COUNT,
    MIN_PLAYER_COUNT,
};
use crate::game::ruleset::model::Ruleset;
use crate::game::strategy::configurable::{
    BuildingAllocation,
    ConfigurableStrategy,
    DevelopmentCeiling,
};
use crate::game::tile::model::Cash;

verus! {

/// A setting of a strategy that a grid can vary.
#[derive(Debug, Clone, Copy, PartialEq, Eq, Hash, Structural)]
pub enum StrategyField {
    CashReserve,
    PurchaseCashPercent,
    AuctionBidPercent,
    ImprovementCashPercent,
    UnmortgageCashPercent,
    TradeOfferPercent,
    TradeAcceptPercent,
    PaysBailWhenAffordable,
    MortgagesBeforeSellingBuildings,
    JailCampingUnownedTileThreshold,
    BuildingAllocation,
    DevelopmentCeiling,
    OffersPropertySwaps,
    PropertySwapOfferPercent,
    MonopolyTradePremiumPercent,
    MakesTradeCounteroffers,
    TradeCounterofferLimitPercent,
}

/// A setting of a strategy together with a value for it.
#[derive(Debug, Clone, Copy, PartialEq, Eq, Hash, Structural)]
pub enum StrategySetting {
    CashReserve(Cash),
    PurchaseCashPercent(Cash),
    AuctionBidPercent(Cash),
    ImprovementCashPercent(Cash),
    UnmortgageCashPercent(Cash),
    TradeOfferPercent(Cash),
    TradeAcceptPercent(Cash),
    PaysBailWhenAffordable(bool),
    MortgagesBeforeSellingBuildings(bool),
    JailCampingUnownedTileThreshold(Option<u8>),
    BuildingAllocation(BuildingAllocation),
    DevelopmentCeiling(DevelopmentCeiling),
    OffersPropertySwaps(bool),
    PropertySwapOfferPercent(Option<Cash>),
    MonopolyTradePremiumPercent(Cash),
    MakesTradeCounteroffers(bool),
    TradeCounterofferLimitPercent(Option<Cash>),
}

impl StrategySetting {
    /// The setting that the value is for.
    pub open spec fn field_spec(self) -> StrategyField {
        match self {
            StrategySetting::CashReserve(_) => StrategyField::CashReserve,
            StrategySetting::PurchaseCashPercent(_) => StrategyField::PurchaseCashPercent,
            StrategySetting::AuctionBidPercent(_) => StrategyField::AuctionBidPercent,
            StrategySetting::ImprovementCashPercent(_) => StrategyField::ImprovementCashPercent,
            StrategySetting::UnmortgageCashPercent(_) => StrategyField::UnmortgageCashPercent,
            StrategySetting::TradeOfferPercent(_) => StrategyField::TradeOfferPercent,
            StrategySetting::TradeAcceptPercent(_) => StrategyField::TradeAcceptPercent,
            StrategySetting::PaysBailWhenAffordable(_) => StrategyField::PaysBailWhenAffordable,
            StrategySetting::MortgagesBeforeSellingBuildings(_) => StrategyField::MortgagesBeforeSellingBuildings,
            StrategySetting::JailCampingUnownedTileThreshold(_) => StrategyField::JailCampingUnownedTileThreshold,
            StrategySetting::BuildingAllocation(_) => StrategyField::BuildingAllocation,
            StrategySetting::DevelopmentCeiling(_) => StrategyField::DevelopmentCeiling,
            StrategySetting::OffersPropertySwaps(_) => StrategyField::OffersPropertySwaps,
            StrategySetting::PropertySwapOfferPercent(_) => StrategyField::PropertySwapOfferPercent,
            StrategySetting::MonopolyTradePremiumPercent(_) => StrategyField::MonopolyTradePremiumPercent,
            StrategySetting::MakesTradeCounteroffers(_) => StrategyField::MakesTradeCounteroffers,
            StrategySetting::TradeCounterofferLimitPercent(_) => StrategyField::TradeCounterofferLimitPercent,
        }
    }

    /// `strategy` with the setting changed to the value.
    pub open spec fn apply_spec(self, strategy: ConfigurableStrategy) -> ConfigurableStrategy {
        match self {
            StrategySetting::CashReserve(value) => ConfigurableStrategy { cash_reserve: value, ..strategy },
            StrategySetting::PurchaseCashPercent(value) => ConfigurableStrategy { purchase_cash_percent: value, ..strategy },
            StrategySetting::AuctionBidPercent(value) => ConfigurableStrategy { auction_bid_percent: value, ..strategy },
            StrategySetting::ImprovementCashPercent(value) => ConfigurableStrategy { improvement_cash_percent: value, ..strategy },
            StrategySetting::UnmortgageCashPercent(value) => ConfigurableStrategy { unmortgage_cash_percent: value, ..strategy },
            StrategySetting::TradeOfferPercent(value) => ConfigurableStrategy { trade_offer_percent: value, ..strategy },
            StrategySetting::TradeAcceptPercent(value) => ConfigurableStrategy { trade_accept_percent: value, ..strategy },
            StrategySetting::PaysBailWhenAffordable(value) => ConfigurableStrategy { pays_bail_when_affordable: value, ..strategy },
            StrategySetting::MortgagesBeforeSellingBuildings(value) => ConfigurableStrategy { mortgages_before_selling_buildings: value, ..strategy },
            StrategySetting::JailCampingUnownedTileThreshold(value) => ConfigurableStrategy { jail_camping_unowned_tile_threshold: value, ..strategy },
            StrategySetting::BuildingAllocation(value) => ConfigurableStrategy { building_allocation: value, ..strategy },
            StrategySetting::DevelopmentCeiling(value) => ConfigurableStrategy { development_ceiling: value, ..strategy },
            StrategySetting::OffersPropertySwaps(value) => ConfigurableStrategy { offers_property_swaps: value, ..strategy },
            StrategySetting::PropertySwapOfferPercent(value) => ConfigurableStrategy { property_swap_offer_percent: value, ..strategy },
            StrategySetting::MonopolyTradePremiumPercent(value) => ConfigurableStrategy { monopoly_trade_premium_percent: value, ..strategy },
            StrategySetting::MakesTradeCounteroffers(value) => ConfigurableStrategy { makes_trade_counteroffers: value, ..strategy },
            StrategySetting::TradeCounterofferLimitPercent(value) => ConfigurableStrategy { trade_counteroffer_limit_percent: value, ..strategy },
        }
    }

    pub fn field(self) -> (field: StrategyField)
        ensures
            field == self.field_spec(),
    {
        match self {
            StrategySetting::CashReserve(_) => StrategyField::CashReserve,
            StrategySetting::PurchaseCashPercent(_) => StrategyField::PurchaseCashPercent,
            StrategySetting::AuctionBidPercent(_) => StrategyField::AuctionBidPercent,
            StrategySetting::ImprovementCashPercent(_) => StrategyField::ImprovementCashPercent,
            StrategySetting::UnmortgageCashPercent(_) => StrategyField::UnmortgageCashPercent,
            StrategySetting::TradeOfferPercent(_) => StrategyField::TradeOfferPercent,
            StrategySetting::TradeAcceptPercent(_) => StrategyField::TradeAcceptPercent,
            StrategySetting::PaysBailWhenAffordable(_) => StrategyField::PaysBailWhenAffordable,
            StrategySetting::MortgagesBeforeSellingBuildings(_) => StrategyField::MortgagesBeforeSellingBuildings,
            StrategySetting::JailCampingUnownedTileThreshold(_) => StrategyField::JailCampingUnownedTileThreshold,
            StrategySetting::BuildingAllocation(_) => StrategyField::BuildingAllocation,
            StrategySetting::DevelopmentCeiling(_) => StrategyField::DevelopmentCeiling,
            StrategySetting::OffersPropertySwaps(_) => StrategyField::OffersPropertySwaps,
            StrategySetting::PropertySwapOfferPercent(_) => StrategyField::PropertySwapOfferPercent,
            StrategySetting::MonopolyTradePremiumPercent(_) => StrategyField::MonopolyTradePremiumPercent,
            StrategySetting::MakesTradeCounteroffers(_) => StrategyField::MakesTradeCounteroffers,
            StrategySetting::TradeCounterofferLimitPercent(_) => StrategyField::TradeCounterofferLimitPercent,
        }
    }

    pub fn apply(self, strategy: ConfigurableStrategy) -> (changed: ConfigurableStrategy)
        ensures
            changed == self.apply_spec(strategy),
    {
        let mut changed = strategy;
        match self {
            StrategySetting::CashReserve(value) => changed.cash_reserve = value,
            StrategySetting::PurchaseCashPercent(value) => changed.purchase_cash_percent = value,
            StrategySetting::AuctionBidPercent(value) => changed.auction_bid_percent = value,
            StrategySetting::ImprovementCashPercent(value) => changed.improvement_cash_percent = value,
            StrategySetting::UnmortgageCashPercent(value) => changed.unmortgage_cash_percent = value,
            StrategySetting::TradeOfferPercent(value) => changed.trade_offer_percent = value,
            StrategySetting::TradeAcceptPercent(value) => changed.trade_accept_percent = value,
            StrategySetting::PaysBailWhenAffordable(value) => changed.pays_bail_when_affordable = value,
            StrategySetting::MortgagesBeforeSellingBuildings(value) => changed.mortgages_before_selling_buildings = value,
            StrategySetting::JailCampingUnownedTileThreshold(value) => changed.jail_camping_unowned_tile_threshold = value,
            StrategySetting::BuildingAllocation(value) => changed.building_allocation = value,
            StrategySetting::DevelopmentCeiling(value) => changed.development_ceiling = value,
            StrategySetting::OffersPropertySwaps(value) => changed.offers_property_swaps = value,
            StrategySetting::PropertySwapOfferPercent(value) => changed.property_swap_offer_percent = value,
            StrategySetting::MonopolyTradePremiumPercent(value) => changed.monopoly_trade_premium_percent = value,
            StrategySetting::MakesTradeCounteroffers(value) => changed.makes_trade_counteroffers = value,
            StrategySetting::TradeCounterofferLimitPercent(value) => changed.trade_counteroffer_limit_percent = value,
        }
        changed
    }
}

/// The value that `strategy` has for `field`.
pub open spec fn setting_of(strategy: ConfigurableStrategy, field: StrategyField) -> StrategySetting {
    match field {
        StrategyField::CashReserve => StrategySetting::CashReserve(strategy.cash_reserve),
        StrategyField::PurchaseCashPercent => StrategySetting::PurchaseCashPercent(strategy.purchase_cash_percent),
        StrategyField::AuctionBidPercent => StrategySetting::AuctionBidPercent(strategy.auction_bid_percent),
        StrategyField::ImprovementCashPercent => StrategySetting::ImprovementCashPercent(strategy.improvement_cash_percent),
        StrategyField::UnmortgageCashPercent => StrategySetting::UnmortgageCashPercent(strategy.unmortgage_cash_percent),
        StrategyField::TradeOfferPercent => StrategySetting::TradeOfferPercent(strategy.trade_offer_percent),
        StrategyField::TradeAcceptPercent => StrategySetting::TradeAcceptPercent(strategy.trade_accept_percent),
        StrategyField::PaysBailWhenAffordable => StrategySetting::PaysBailWhenAffordable(strategy.pays_bail_when_affordable),
        StrategyField::MortgagesBeforeSellingBuildings => StrategySetting::MortgagesBeforeSellingBuildings(strategy.mortgages_before_selling_buildings),
        StrategyField::JailCampingUnownedTileThreshold => StrategySetting::JailCampingUnownedTileThreshold(strategy.jail_camping_unowned_tile_threshold),
        StrategyField::BuildingAllocation => StrategySetting::BuildingAllocation(strategy.building_allocation),
        StrategyField::DevelopmentCeiling => StrategySetting::DevelopmentCeiling(strategy.development_ceiling),
        StrategyField::OffersPropertySwaps => StrategySetting::OffersPropertySwaps(strategy.offers_property_swaps),
        StrategyField::PropertySwapOfferPercent => StrategySetting::PropertySwapOfferPercent(strategy.property_swap_offer_percent),
        StrategyField::MonopolyTradePremiumPercent => StrategySetting::MonopolyTradePremiumPercent(strategy.monopoly_trade_premium_percent),
        StrategyField::MakesTradeCounteroffers => StrategySetting::MakesTradeCounteroffers(strategy.makes_trade_counteroffers),
        StrategyField::TradeCounterofferLimitPercent => StrategySetting::TradeCounterofferLimitPercent(strategy.trade_counteroffer_limit_percent),
    }
}

/// One setting that a grid varies, and the values it takes, in order.
#[derive(Debug, Clone, PartialEq, Eq)]
pub struct StrategyAxis {
    pub field: StrategyField,
    pub values: Vec<StrategySetting>,
}

/// Whether `axis` has a value, every value is for its setting, and no value occurs twice.
pub open spec fn valid_axis(axis: StrategyAxis) -> bool {
    &&& axis.values@.len() > 0
    &&& forall|index: int| 0 <= index < axis.values@.len() ==> (#[trigger] axis.values@[index]).field_spec() == axis.field
    &&& forall|first: int, second: int|
        0 <= first < second < axis.values@.len() ==> #[trigger] axis.values@[first] != #[trigger] axis.values@[second]
}

/// Whether every axis of `axes` is valid and no two of them vary the same setting.
pub open spec fn valid_axes(axes: Seq<StrategyAxis>) -> bool {
    &&& forall|index: int| 0 <= index < axes.len() ==> valid_axis(#[trigger] axes[index])
    &&& forall|first: int, second: int|
        0 <= first < second < axes.len() ==> (#[trigger] axes[first]).field != (#[trigger] axes[second]).field
}

/// The number of combinations of the values of `axes`.
pub open spec fn combination_count(axes: Seq<StrategyAxis>) -> nat
    decreases axes.len(),
{
    if axes.len() == 0 {
        1
    } else {
        combination_count(axes.drop_last()) * axes.last().values@.len()
    }
}

/// `strategy` with the first `count` axes set by `remainder`, read as a number whose last
/// digit, the one that changes fastest, is the value of axis `count - 1`.
pub open spec fn assigned(strategy: ConfigurableStrategy, axes: Seq<StrategyAxis>, remainder: nat, count: nat) -> ConfigurableStrategy
    decreases count,
{
    if count == 0 || count > axes.len() {
        strategy
    } else {
        let values = axes[count - 1].values@;
        let value = values[(remainder % values.len()) as int];
        assigned(value.apply_spec(strategy), axes, remainder / values.len(), (count - 1) as nat)
    }
}

/// With every axis holding a value, the combinations of the first `count` axes are no more
/// than those of all of them.
proof fn lemma_prefix_count_bounded(axes: Seq<StrategyAxis>, count: int)
    requires
        0 <= count <= axes.len(),
        forall|index: int| 0 <= index < axes.len() ==> (#[trigger] axes[index]).values@.len() > 0,
    ensures
        combination_count(axes.take(count)) <= combination_count(axes),
    decreases axes.len() - count,
{
    if count < axes.len() {
        lemma_prefix_count_bounded(axes, count + 1);
        let longer = axes.take(count + 1);
        assert(longer.drop_last() =~= axes.take(count));
        let length = longer.last().values@.len();
        assert(length > 0);
        let shorter = combination_count(axes.take(count));
        assert(shorter <= shorter * length) by (nonlinear_arith)
            requires
                length > 0,
        ;
    } else {
        assert(axes.take(count) =~= axes);
    }
}

#[derive(Debug, Clone, Copy, PartialEq, Eq, Structural)]
pub enum GridError {
    /// Two axes vary this setting.
    DuplicateAxis(StrategyField),
    /// The axis of this setting has no value.
    EmptyAxis(StrategyField),
    /// A value of the axis of this setting is for another setting.
    MismatchedValue(StrategyField),
    /// A value occurs twice in the axis of this setting.
    DuplicateValue(StrategyField),
    /// There are more combinations than `u64::MAX`.
    CountOverflow,
    /// The configuration id is not below the number of combinations.
    OutsideGrid,
    /// A range of no configurations was asked for.
    EmptyRange,
    /// The end of the range is above `u64::MAX`.
    RangeOverflow,
    /// The range ends after the last of this many configurations.
    RangeExceedsGrid(u64),
    /// A game or turn count is zero.
    NonPositiveCount,
    /// A tournament could not be played.
    Tournament(TournamentError),
}

/// Every combination of the values of some settings of a strategy, each numbered.
pub struct StrategyGrid {
    baseline: ConfigurableStrategy,
    axes: Vec<StrategyAxis>,
    configuration_count: u64,
}

/// A configuration of a grid, its strategy, and its tournament.
#[derive(Debug, Clone, Copy, PartialEq, Eq, Structural)]
pub struct GridEntry {
    pub configuration_id: u64,
    pub strategy: ConfigurableStrategy,
    pub result: TournamentResult,
}

impl StrategyGrid {
    /// The strategy whose other settings every configuration keeps.
    pub closed spec fn grid_baseline(&self) -> ConfigurableStrategy {
        self.baseline
    }

    /// The settings varied, in order.
    pub closed spec fn grid_axes(&self) -> Seq<StrategyAxis> {
        self.axes@
    }

    pub closed spec fn wf(&self) -> bool {
        &&& valid_axes(self.axes@)
        &&& self.configuration_count == combination_count(self.axes@)
    }

    /// The strategy of configuration `configuration_id`.
    pub open spec fn strategy_spec(&self, configuration_id: nat) -> ConfigurableStrategy {
        assigned(self.grid_baseline(), self.grid_axes(), configuration_id, self.grid_axes().len())
    }

    pub fn new(baseline: ConfigurableStrategy, axes: Vec<StrategyAxis>) -> (result: Result<Self, GridError>)
        ensures
            result is Ok <==> valid_axes(axes@) && combination_count(axes@) <= u64::MAX,
            result matches Ok(grid) ==> {
                &&& grid.wf()
                &&& grid.grid_baseline() == baseline
                &&& grid.grid_axes() == axes@
            },
            result matches Err(error) ==> match error {
                GridError::DuplicateAxis(field) => exists|first: int, second: int|
                    0 <= first < second < axes@.len() && (#[trigger] axes@[first]).field == field && (
                    #[trigger] axes@[second]).field == field,
                GridError::EmptyAxis(field) => exists|index: int|
                    0 <= index < axes@.len() && (#[trigger] axes@[index]).field == field && axes@[index].values@.len()
                        == 0,
                GridError::MismatchedValue(field) => exists|index: int|
                    0 <= index < axes@.len() && (#[trigger] axes@[index]).field == field && exists|value: int|
                        0 <= value < axes@[index].values@.len() && (#[trigger] axes@[index].values@[value]).field_spec()
                            != field,
                GridError::DuplicateValue(field) => exists|index: int|
                    0 <= index < axes@.len() && (#[trigger] axes@[index]).field == field && !valid_axis(axes@[index]),
                GridError::CountOverflow => combination_count(axes@) > u64::MAX || !valid_axes(axes@),
                _ => false,
            },
    {
        let mut configuration_count: u64 = 1;
        let mut index: usize = 0;
        while index < axes.len()
            invariant
                index <= axes@.len(),
                valid_axes(axes@.take(index as int)),
                configuration_count == combination_count(axes@.take(index as int)),
            decreases axes@.len() - index,
        {
            let axis = &axes[index];
            let mut earlier: usize = 0;
            while earlier < index
                invariant
                    index < axes@.len(),
                    *axis == axes@[index as int],
                    earlier <= index,
                    forall|other: int| 0 <= other < earlier ==> (#[trigger] axes@[other]).field != axes@[index as int].field,
                decreases index - earlier,
            {
                if axes[earlier].field == axis.field {
                    assert(axes@[earlier as int].field == axes@[index as int].field);
                    return Err(GridError::DuplicateAxis(axis.field));
                }
                earlier = earlier + 1;
            }
            if axis.values.len() == 0 {
                assert(!valid_axis(axes@[index as int]));
                return Err(GridError::EmptyAxis(axis.field));
            }
            let mut value: usize = 0;
            while value < axis.values.len()
                invariant
                    index < axes@.len(),
                    *axis == axes@[index as int],
                    value <= axis.values@.len(),
                    forall|checked: int| 0 <= checked < value ==> (#[trigger] axis.values@[checked]).field_spec() == axis.field,
                    forall|first: int, second: int|
                        0 <= first < second < value ==> #[trigger] axis.values@[first] != #[trigger] axis.values@[second],
                decreases axis.values@.len() - value,
            {
                if axis.values[value].field() != axis.field {
                    assert(!valid_axis(axes@[index as int]));
                    return Err(GridError::MismatchedValue(axis.field));
                }
                let mut other: usize = 0;
                while other < value
                    invariant
                        index < axes@.len(),
                        *axis == axes@[index as int],
                        value < axis.values@.len(),
                        other <= value,
                        forall|checked: int| 0 <= checked < other ==> #[trigger] axis.values@[checked] != axis.values@[value as int],
                    decreases value - other,
                {
                    if axis.values[other] == axis.values[value] {
                        assert(axis.values@[other as int] == axis.values@[value as int]);
                        assert(!valid_axis(axes@[index as int]));
                        return Err(GridError::DuplicateValue(axis.field));
                    }
                    other = other + 1;
                }
                value = value + 1;
            }
            let ghost before = axes@.take(index as int);
            assert(axes@.take(index as int + 1).drop_last() =~= before);
            configuration_count = match configuration_count.checked_mul(axis.values.len() as u64) {
                Some(count) => count,
                None => {
                    proof {
                        if valid_axes(axes@) {
                            lemma_prefix_count_bounded(axes@, index as int + 1);
                        }
                    }
                    return Err(GridError::CountOverflow);
                },
            };
            proof {
                let taken = axes@.take(index as int + 1);
                assert forall|first: int, second: int| 0 <= first < second < taken.len() implies (#[trigger] taken[first]).field
                    != (#[trigger] taken[second]).field by {
                    if second < index {
                        assert(taken[first] == before[first] && taken[second] == before[second]);
                    }
                }
                assert forall|checked: int| 0 <= checked < taken.len() implies valid_axis(#[trigger] taken[checked]) by {
                    if checked < index {
                        assert(taken[checked] == before[checked]);
                    }
                }
            }
            index = index + 1;
        }
        assert(axes@.take(axes@.len() as int) =~= axes@);
        Ok(StrategyGrid { baseline, axes, configuration_count })
    }

    pub fn configuration_count(&self) -> (count: u64)
        requires
            self.wf(),
        ensures
            count == combination_count(self.grid_axes()),
    {
        self.configuration_count
    }

    /// The strategy of configuration `configuration_id`: the baseline with the value of each
    /// axis given by a digit of the id, the last axis changing fastest.
    pub fn strategy_at(&self, configuration_id: u64) -> (result: Result<ConfigurableStrategy, GridError>)
        requires
            self.wf(),
        ensures
            configuration_id >= combination_count(self.grid_axes()) ==> result == Err::<
                ConfigurableStrategy,
                GridError,
            >(GridError::OutsideGrid),
            configuration_id < combination_count(self.grid_axes()) ==> result == Ok::<ConfigurableStrategy, GridError>(
                self.strategy_spec(configuration_id as nat),
            ),
    {
        if configuration_id >= self.configuration_count {
            return Err(GridError::OutsideGrid);
        }
        let mut remainder = configuration_id;
        let mut candidate = self.baseline;
        let mut count: usize = self.axes.len();
        while count > 0
            invariant
                valid_axes(self.axes@),
                count <= self.axes@.len(),
                assigned(candidate, self.axes@, remainder as nat, count as nat) == self.strategy_spec(configuration_id as nat),
            decreases count,
        {
            let values = &self.axes[count - 1].values;
            assert(valid_axis(self.axes@[count - 1]));
            let length = values.len() as u64;
            candidate = values[(remainder % length) as usize].apply(candidate);
            remainder = remainder / length;
            count = count - 1;
        }
        Ok(candidate)
    }

    /// Plays a tournament for each of the `count` configurations from `start` on.
    pub fn run_range(
        &self,
        rules: &Ruleset,
        opponents: &[ConfigurableStrategy],
        config: &TournamentConfig,
        start: u64,
        count: u64,
    ) -> (result: Result<Vec<GridEntry>, GridError>)
        requires
            self.wf(),
        ensures
            count == 0 ==> result == Err::<Vec<GridEntry>, GridError>(GridError::EmptyRange),
            count > 0 && start + count > u64::MAX ==> result == Err::<Vec<GridEntry>, GridError>(GridError::RangeOverflow),
            count > 0 && start + count <= u64::MAX && start + count > combination_count(self.grid_axes()) ==> result
                == Err::<Vec<GridEntry>, GridError>(
                GridError::RangeExceedsGrid(combination_count(self.grid_axes()) as u64),
            ),
            count > 0 && start + count <= combination_count(self.grid_axes()) && (config.game_count == 0
                || config.max_turn_count == 0) ==> result == Err::<Vec<GridEntry>, GridError>(GridError::NonPositiveCount),
            count > 0 && start + count <= combination_count(self.grid_axes()) && config.game_count > 0
                && config.max_turn_count > 0 && opponents@.len() == 0 ==> result == Err::<Vec<GridEntry>, GridError>(
                GridError::Tournament(TournamentError::EmptyOpponentPool),
            ),
            count > 0 && start + count <= combination_count(self.grid_axes()) && config.game_count > 0
                && config.max_turn_count > 0 && opponents@.len() > 0 && !(MIN_PLAYER_COUNT <= config.player_count
                <= MAX_PLAYER_COUNT) ==> result == Err::<Vec<GridEntry>, GridError>(
                GridError::Tournament(TournamentError::UnsupportedPlayerCount(config.player_count)),
            ),
            count > 0 && start + count <= combination_count(self.grid_axes()) && config.game_count > 0
                && config.max_turn_count > 0 && opponents@.len() > 0 && MIN_PLAYER_COUNT <= config.player_count
                <= MAX_PLAYER_COUNT ==> (result matches Ok(entries) && entries@.len() == count && forall|index: int|
                0 <= index < count ==> {
                    let entry = #[trigger] entries@[index];
                    &&& entry.configuration_id == start + index
                    &&& entry.strategy == self.strategy_spec((start + index) as nat)
                    &&& counts_games(entry.result, config.game_count as int, config.max_turn_count as int)
                }),
    {
        if count == 0 {
            return Err(GridError::EmptyRange);
        }
        let end = match start.checked_add(count) {
            Some(end) => end,
            None => return Err(GridError::RangeOverflow),
        };
        if end > self.configuration_count {
            return Err(GridError::RangeExceedsGrid(self.configuration_count));
        }
        if config.game_count == 0 || config.max_turn_count == 0 {
            return Err(GridError::NonPositiveCount);
        }
        let mut entries: Vec<GridEntry> = Vec::new();
        let mut configuration_id = start;
        while configuration_id < end
            invariant
                self.wf(),
                start <= configuration_id <= end,
                end == start + count,
                count > 0 && config.game_count > 0 && config.max_turn_count > 0,
                end <= combination_count(self.grid_axes()),
                configuration_id > start ==> opponents@.len() > 0 && MIN_PLAYER_COUNT <= config.player_count
                    <= MAX_PLAYER_COUNT,
                entries@.len() == configuration_id - start,
                forall|index: int|
                    0 <= index < entries@.len() ==> {
                        let entry = #[trigger] entries@[index];
                        &&& entry.configuration_id == start + index
                        &&& entry.strategy == self.strategy_spec((start + index) as nat)
                        &&& counts_games(entry.result, config.game_count as int, config.max_turn_count as int)
                    },
            decreases end - configuration_id,
        {
            let strategy = match self.strategy_at(configuration_id) {
                Ok(strategy) => strategy,
                Err(error) => return Err(error),
            };
            let result = match run_pool_tournament(rules, strategy, opponents, config) {
                Ok(result) => result,
                Err(error) => return Err(GridError::Tournament(error)),
            };
            entries.push(GridEntry { configuration_id, strategy, result });
            configuration_id = configuration_id + 1;
        }
        Ok(entries)
    }
}

/// The index of the value that `remainder` picks for axis `index` among the first `count`
/// axes: the digit of `remainder` for that axis, the last axis's digit being the lowest.
pub open spec fn digit(axes: Seq<StrategyAxis>, remainder: nat, index: int, count: nat) -> nat
    decreases count,
{
    if count == 0 || count > axes.len() {
        0
    } else {
        let length = axes[count - 1].values@.len();
        if index == count - 1 {
            remainder % length
        } else {
            digit(axes, remainder / length, index, (count - 1) as nat)
        }
    }
}

/// Setting a value changes its own setting to it, and no other.
proof fn lemma_apply_sets_one_field(setting: StrategySetting, strategy: ConfigurableStrategy, field: StrategyField)
    ensures
        setting_of(setting.apply_spec(strategy), setting.field_spec()) == setting,
        field != setting.field_spec() ==> setting_of(setting.apply_spec(strategy), field) == setting_of(strategy, field),
{
}

/// A setting that none of the first `count` axes varies keeps its value.
proof fn lemma_assigned_keeps(
    strategy: ConfigurableStrategy,
    axes: Seq<StrategyAxis>,
    remainder: nat,
    count: nat,
    field: StrategyField,
)
    requires
        valid_axes(axes),
        count <= axes.len(),
        forall|index: int| 0 <= index < count ==> (#[trigger] axes[index]).field != field,
    ensures
        setting_of(assigned(strategy, axes, remainder, count), field) == setting_of(strategy, field),
    decreases count,
{
    if count > 0 {
        let values = axes[count - 1].values@;
        assert(valid_axis(axes[count - 1]));
        let value = values[(remainder % values.len()) as int];
        lemma_apply_sets_one_field(value, strategy, field);
        lemma_assigned_keeps(value.apply_spec(strategy), axes, remainder / values.len(), (count - 1) as nat, field);
    }
}

/// Each of the first `count` axes sets its setting to the value that its digit picks.
proof fn lemma_assigned_sets(strategy: ConfigurableStrategy, axes: Seq<StrategyAxis>, remainder: nat, count: nat, index: int)
    requires
        valid_axes(axes),
        0 <= index < count <= axes.len(),
    ensures
        digit(axes, remainder, index, count) < axes[index].values@.len(),
        setting_of(assigned(strategy, axes, remainder, count), axes[index].field) == axes[index].values@[digit(
            axes,
            remainder,
            index,
            count,
        ) as int],
    decreases count,
{
    let values = axes[count - 1].values@;
    assert(valid_axis(axes[count - 1]));
    let value = values[(remainder % values.len()) as int];
    let changed = value.apply_spec(strategy);
    if index == count - 1 {
        assert(value.field_spec() == axes[index].field);
        lemma_apply_sets_one_field(value, strategy, axes[index].field);
        assert forall|other: int| 0 <= other < count - 1 implies (#[trigger] axes[other]).field != axes[index].field by {}
        lemma_assigned_keeps(changed, axes, remainder / values.len(), (count - 1) as nat, axes[index].field);
    } else {
        lemma_assigned_sets(changed, axes, remainder / values.len(), (count - 1) as nat, index);
    }
}

/// Numbers below the count of combinations of the first `count` axes that have the same
/// digits are equal.
proof fn lemma_digits_determine(axes: Seq<StrategyAxis>, first: nat, second: nat, count: nat)
    requires
        valid_axes(axes),
        count <= axes.len(),
        first < combination_count(axes.take(count as int)),
        second < combination_count(axes.take(count as int)),
        forall|index: int| 0 <= index < count ==> digit(axes, first, index, count) == #[trigger] digit(axes, second, index, count),
    ensures
        first == second,
    decreases count,
{
    if count > 0 {
        let length = axes[count - 1].values@.len();
        assert(valid_axis(axes[count - 1]));
        let shorter = axes.take(count - 1);
        assert(axes.take(count as int).drop_last() =~= shorter);
        let prefix_count = combination_count(shorter);
        assert(combination_count(axes.take(count as int)) == prefix_count * length);
        assert(first / length < prefix_count && second / length < prefix_count) by (nonlinear_arith)
            requires
                first < prefix_count * length,
                second < prefix_count * length,
                length > 0,
        ;
        assert forall|index: int| 0 <= index < count - 1 implies digit(axes, first / length, index, (count - 1) as nat)
            == #[trigger] digit(axes, second / length, index, (count - 1) as nat) by {
            assert(digit(axes, first, index, count) == digit(axes, second, index, count));
        }
        lemma_digits_determine(axes, first / length, second / length, (count - 1) as nat);
        assert(digit(axes, first, count - 1, count) == digit(axes, second, count - 1, count));
        vstd::arithmetic::div_mod::lemma_fundamental_div_mod(first as int, length as int);
        vstd::arithmetic::div_mod::lemma_fundamental_div_mod(second as int, length as int);
    } else {
        assert(axes.take(0) =~= Seq::<StrategyAxis>::empty());
    }
}

/// Every configuration of a grid sets each setting that the grid varies to one of the values
/// of its axis, and keeps the baseline's value of every other setting.
pub proof fn lemma_configuration_settings(grid: &StrategyGrid, configuration_id: nat, field: StrategyField)
    requires
        grid.wf(),
    ensures
        (forall|index: int| 0 <= index < grid.grid_axes().len() ==> (#[trigger] grid.grid_axes()[index]).field != field)
            ==> setting_of(grid.strategy_spec(configuration_id), field) == setting_of(grid.grid_baseline(), field),
        forall|index: int|
            0 <= index < grid.grid_axes().len() ==> (#[trigger] grid.grid_axes()[index]).values@.contains(
                setting_of(grid.strategy_spec(configuration_id), grid.grid_axes()[index].field),
            ),
{
    let axes = grid.grid_axes();
    if forall|index: int| 0 <= index < axes.len() ==> (#[trigger] axes[index]).field != field {
        lemma_assigned_keeps(grid.grid_baseline(), axes, configuration_id, axes.len(), field);
    }
    assert forall|index: int| 0 <= index < axes.len() implies (#[trigger] axes[index]).values@.contains(
        setting_of(grid.strategy_spec(configuration_id), axes[index].field),
    ) by {
        lemma_assigned_sets(grid.grid_baseline(), axes, configuration_id, axes.len(), index);
    }
}

/// A grid enumerates every combination once: distinct configuration ids below the number of
/// configurations give distinct strategies.
pub proof fn lemma_configurations_distinct(grid: &StrategyGrid, first: nat, second: nat)
    requires
        grid.wf(),
        first < combination_count(grid.grid_axes()),
        second < combination_count(grid.grid_axes()),
        first != second,
    ensures
        grid.strategy_spec(first) != grid.strategy_spec(second),
{
    let axes = grid.grid_axes();
    let count = axes.len();
    if grid.strategy_spec(first) == grid.strategy_spec(second) {
        assert forall|index: int| 0 <= index < count implies digit(axes, first, index, count) == #[trigger] digit(
            axes,
            second,
            index,
            count,
        ) by {
            lemma_assigned_sets(grid.grid_baseline(), axes, first, count, index);
            lemma_assigned_sets(grid.grid_baseline(), axes, second, count, index);
            assert(valid_axis(axes[index]));
            let first_digit = digit(axes, first, index, count) as int;
            let second_digit = digit(axes, second, index, count) as int;
            if first_digit < second_digit {
                assert(axes[index].values@[first_digit] != axes[index].values@[second_digit]);
            } else if second_digit < first_digit {
                assert(axes[index].values@[second_digit] != axes[index].values@[first_digit]);
            }
        }
        assert(axes.take(count as int) =~= axes);
        lemma_digits_determine(axes, first, second, count);
    }
}

} // verus!
