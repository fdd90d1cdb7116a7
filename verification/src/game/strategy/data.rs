use vstd::prelude::*;

use super::configurable::{
    ConfigurableStrategy,
    baseline_spec,
};

verus! {

/// The baseline strategy: the default settings.
pub fn baseline_strategy() -> (strategy: ConfigurableStrategy)
    ensures
        strategy == baseline_spec(),
{
    ConfigurableStrategy::new()
}

/// Settings tuned against mixed fields on the dex ruleset.
pub fn dex_optimal_strategy() -> (strategy: ConfigurableStrategy)
    ensures
        strategy == (ConfigurableStrategy {
            auction_bid_percent: 200,
            unmortgage_cash_percent: 1000,
            trade_offer_percent: 400,
            trade_accept_percent: 300,
            pays_bail_when_affordable: true,
            ..baseline_spec()
        }),
{
    ConfigurableStrategy {
        auction_bid_percent: 200,
        unmortgage_cash_percent: 1000,
        trade_offer_percent: 400,
        trade_accept_percent: 300,
        pays_bail_when_affordable: true,
        ..ConfigurableStrategy::new()
    }
}

/// Settings for a game of two: with no third player to outbid, a monopoly premium only funds
/// the opponent.
pub fn dex_duel_strategy() -> (strategy: ConfigurableStrategy)
    ensures
        strategy == baseline_spec(),
{
    ConfigurableStrategy::new()
}

/// A strategy that never offers a trade and accepts only very good ones.
pub fn never_trading_strategy() -> (strategy: ConfigurableStrategy)
    ensures
        strategy == (ConfigurableStrategy { trade_offer_percent: 0, trade_accept_percent: 1000, ..baseline_spec() }),
{
    ConfigurableStrategy { trade_offer_percent: 0, trade_accept_percent: 1000, ..ConfigurableStrategy::new() }
}

} // verus!
