use std::collections::HashSet;

use monopolez::game::ruleset::data::dex_ruleset;
use monopolez::game::strategy::configurable::{BuildingAllocation, ConfigurableStrategy, DevelopmentCeiling};
use monopolez::simulation::grid::{GridError, StrategyAxis, StrategyField, StrategyGrid, StrategySetting};
use monopolez::simulation::tournament::{TournamentConfig, run_pool_tournament};

fn axes() -> Vec<StrategyAxis> {
    vec![
        StrategyAxis {
            field: StrategyField::BuildingAllocation,
            values: vec![
                StrategySetting::BuildingAllocation(BuildingAllocation::Spread),
                StrategySetting::BuildingAllocation(BuildingAllocation::Concentrate),
            ],
        },
        StrategyAxis {
            field: StrategyField::DevelopmentCeiling,
            values: vec![
                StrategySetting::DevelopmentCeiling(DevelopmentCeiling::ThreeHouses),
                StrategySetting::DevelopmentCeiling(DevelopmentCeiling::FourHouses),
                StrategySetting::DevelopmentCeiling(DevelopmentCeiling::Hotel),
            ],
        },
        StrategyAxis {
            field: StrategyField::JailCampingUnownedTileThreshold,
            values: vec![
                StrategySetting::JailCampingUnownedTileThreshold(None),
                StrategySetting::JailCampingUnownedTileThreshold(Some(4)),
            ],
        },
        StrategyAxis {
            field: StrategyField::MortgagesBeforeSellingBuildings,
            values: vec![
                StrategySetting::MortgagesBeforeSellingBuildings(false),
                StrategySetting::MortgagesBeforeSellingBuildings(true),
            ],
        },
    ]
}

#[test]
fn enumerates_every_combination_once_without_changing_other_settings() {
    let baseline = ConfigurableStrategy { cash_reserve: 123, ..ConfigurableStrategy::new() };
    let grid = StrategyGrid::new(baseline, axes()).unwrap();
    assert_eq!(grid.configuration_count(), 24);
    let strategies: HashSet<_> = (0..24).map(|id| grid.strategy_at(id).unwrap()).collect();
    assert_eq!(strategies.len(), 24);
    assert!(strategies.iter().all(|strategy| strategy.cash_reserve == 123));
    assert_eq!(grid.strategy_at(0).unwrap().building_allocation, BuildingAllocation::Spread);
    let last = grid.strategy_at(23).unwrap();
    assert_eq!(last.building_allocation, BuildingAllocation::Concentrate);
    assert_eq!(last.development_ceiling, DevelopmentCeiling::Hotel);
    assert_eq!(last.jail_camping_unowned_tile_threshold, Some(4));
    assert!(last.mortgages_before_selling_buildings);
    assert!(grid.strategy_at(24).is_err());
    let single = StrategyGrid::new(baseline, Vec::new()).unwrap();
    assert_eq!(single.configuration_count(), 1);
    assert_eq!(single.strategy_at(0).unwrap(), baseline);
}

#[test]
fn rejects_unknown_empty_duplicate_and_mistyped_axes() {
    let cash = |values: Vec<StrategySetting>| vec![StrategyAxis { field: StrategyField::CashReserve, values }];
    for (axes, error) in [
        (cash(vec![]), GridError::EmptyAxis(StrategyField::CashReserve)),
        (
            cash(vec![StrategySetting::CashReserve(1), StrategySetting::CashReserve(1)]),
            GridError::DuplicateValue(StrategyField::CashReserve),
        ),
        (
            cash(vec![StrategySetting::PaysBailWhenAffordable(true)]),
            GridError::MismatchedValue(StrategyField::CashReserve),
        ),
        (
            [cash(vec![StrategySetting::CashReserve(1)]), cash(vec![StrategySetting::CashReserve(2)])].concat(),
            GridError::DuplicateAxis(StrategyField::CashReserve),
        ),
    ] {
        assert_eq!(StrategyGrid::new(ConfigurableStrategy::new(), axes).err(), Some(error));
    }
}

#[test]
fn partitioned_runs_equal_the_complete_grid() {
    let rules = dex_ruleset();
    let baseline = ConfigurableStrategy::new();
    let grid = StrategyGrid::new(baseline, axes()).unwrap();
    let config = TournamentConfig {
        game_count: 4,
        max_turn_count: 30,
        seed: 11,
        player_count: 4,
    };
    let all = grid.run_range(&rules, &[baseline], &config, 0, 24).unwrap();
    let mut parts = grid.run_range(&rules, &[baseline], &config, 0, 7).unwrap();
    parts.extend(grid.run_range(&rules, &[baseline], &config, 7, 17).unwrap());
    assert_eq!(all, parts);
    for entry in all {
        assert_eq!(entry.result, run_pool_tournament(&rules, entry.strategy, &[baseline], &config).unwrap());
    }
    assert_eq!(grid.run_range(&rules, &[baseline], &config, 24, 1), Err(GridError::RangeExceedsGrid(24)));
    assert_eq!(grid.run_range(&rules, &[baseline], &config, u64::MAX, 1), Err(GridError::RangeOverflow));
    assert_eq!(grid.run_range(&rules, &[baseline], &config, 0, 0), Err(GridError::EmptyRange));
}

#[test]
fn the_last_axis_changes_fastest_and_overflowing_grids_are_refused() {
    let baseline = ConfigurableStrategy::new();
    let grid = StrategyGrid::new(baseline, axes()).unwrap();
    assert!(grid.strategy_at(1).unwrap().mortgages_before_selling_buildings);
    assert_eq!(grid.strategy_at(1).unwrap().building_allocation, BuildingAllocation::Spread);
    assert_eq!(grid.strategy_at(12).unwrap().building_allocation, BuildingAllocation::Concentrate);
    let fields = [
        StrategyField::CashReserve,
        StrategyField::PurchaseCashPercent,
        StrategyField::AuctionBidPercent,
        StrategyField::ImprovementCashPercent,
        StrategyField::UnmortgageCashPercent,
        StrategyField::TradeOfferPercent,
        StrategyField::TradeAcceptPercent,
        StrategyField::MonopolyTradePremiumPercent,
    ];
    let make = |field: StrategyField, value: u32| match field {
        StrategyField::CashReserve => StrategySetting::CashReserve(value),
        StrategyField::PurchaseCashPercent => StrategySetting::PurchaseCashPercent(value),
        StrategyField::AuctionBidPercent => StrategySetting::AuctionBidPercent(value),
        StrategyField::ImprovementCashPercent => StrategySetting::ImprovementCashPercent(value),
        StrategyField::UnmortgageCashPercent => StrategySetting::UnmortgageCashPercent(value),
        StrategyField::TradeOfferPercent => StrategySetting::TradeOfferPercent(value),
        StrategyField::TradeAcceptPercent => StrategySetting::TradeAcceptPercent(value),
        _ => StrategySetting::MonopolyTradePremiumPercent(value),
    };
    let axes: Vec<StrategyAxis> = fields
        .iter()
        .map(|field| StrategyAxis { field: *field, values: (0..256).map(|value| make(*field, value)).collect() })
        .collect();
    assert_eq!(StrategyGrid::new(baseline, axes.clone()).err(), Some(GridError::CountOverflow));
    let seven = StrategyGrid::new(baseline, axes[..7].to_vec()).unwrap();
    assert_eq!(seven.configuration_count(), 1 << 56);
    let last = seven.strategy_at((1 << 56) - 1).unwrap();
    assert_eq!((last.cash_reserve, last.trade_accept_percent, last.monopoly_trade_premium_percent), (255, 255, 0));
    let config = TournamentConfig { game_count: 0, max_turn_count: 30, seed: 1, player_count: 2 };
    assert_eq!(grid.run_range(&dex_ruleset(), &[baseline], &config, 0, 1), Err(GridError::NonPositiveCount));
    let config = TournamentConfig { game_count: 1, ..config };
    assert_eq!(
        grid.run_range(&dex_ruleset(), &[], &config, 0, 1),
        Err(GridError::Tournament(monopolez::simulation::tournament::TournamentError::EmptyOpponentPool))
    );
    assert_eq!(grid.strategy_at(24), Err(GridError::OutsideGrid));
}
