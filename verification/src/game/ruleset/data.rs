use vstd::prelude::*;

use super::model::{
    AuctionEligibility,
    BARTER_AT_START_OF_TURN,
    BARTER_BEFORE_PURCHASE,
    BARTER_DURING_PAYMENT,
    BARTER_GET_OUT_OF_JAIL_FREE_CARDS,
    BARTER_MODIFIED_RENT_PAYMENTS,
    BARTER_MONEY,
    BARTER_MORTGAGED_PROPERTIES,
    BARTER_REVENUE_SHARING,
    BARTER_UNMORTGAGED_PROPERTIES,
    FreeParkingJackpotMode,
    PermittedBarterTacticsMask,
    PermittedBarterTimesMask,
    PropertyImprovementDistribution,
    PropertyPurchaseDeclineMode,
    Ruleset,
    RulesetBuilder,
    TurnCount,
    official_ruleset_spec,
};
use crate::game::tile::model::Money;

verus! {

pub const OFFICIAL_STARTING_PLAYER_MONEY: Money = 1500;

pub const OFFICIAL_GO_PASSING_SALARY: Money = 200;
pub const OFFICIAL_GO_LANDING_SALARY: Money = 200;

pub const OFFICIAL_PROPERTY_PURCHASE_DECLINE_MODE: PropertyPurchaseDeclineMode = PropertyPurchaseDeclineMode::Auction;
pub const OFFICIAL_AUCTION_ELIGIBILITY: AuctionEligibility = AuctionEligibility::AllPlayers;

pub const OFFICIAL_PERMITTED_BARTER_TACTICS: PermittedBarterTacticsMask = BARTER_MONEY
    | BARTER_UNMORTGAGED_PROPERTIES | BARTER_MORTGAGED_PROPERTIES | BARTER_GET_OUT_OF_JAIL_FREE_CARDS;

pub const OFFICIAL_PERMITTED_BARTER_TIMES: PermittedBarterTimesMask = BARTER_AT_START_OF_TURN
    | BARTER_BEFORE_PURCHASE | BARTER_DURING_PAYMENT;

pub const OFFICIAL_PROPERTY_IMPROVEMENT_DISTRIBUTION: PropertyImprovementDistribution = PropertyImprovementDistribution::Even;

pub const OFFICIAL_FREE_PARKING_JACKPOT_MODE: FreeParkingJackpotMode = FreeParkingJackpotMode::Disabled;

pub const OFFICIAL_JAIL_BAIL_AMOUNT: Money = 50;
pub const OFFICIAL_MAX_JAIL_TURN_COUNT: TurnCount = 3;

pub const DEX_PERMITTED_BARTER_TACTICS: PermittedBarterTacticsMask = BARTER_MONEY
    | BARTER_UNMORTGAGED_PROPERTIES | BARTER_MORTGAGED_PROPERTIES | BARTER_GET_OUT_OF_JAIL_FREE_CARDS
    | BARTER_REVENUE_SHARING | BARTER_MODIFIED_RENT_PAYMENTS;

/// The house rules played under the name "dex".
pub open spec fn dex_ruleset_spec() -> Ruleset {
    Ruleset {
        starting_player_money: 1800,
        free_parking_jackpot_mode: FreeParkingJackpotMode::TaxesAndFees,
        go_landing_salary: 0,
        go_passing_salary: 200,
        permitted_barter_tactics: DEX_PERMITTED_BARTER_TACTICS,
        permitted_barter_times: BARTER_AT_START_OF_TURN,
        property_improvement_distribution: PropertyImprovementDistribution::Arbitrary,
        jail_bail_amount: 100,
        ..official_ruleset_spec()
    }
}

/// The official rules of the game.
pub fn official_ruleset() -> (ruleset: Ruleset)
    ensures
        ruleset == official_ruleset_spec(),
{
    RulesetBuilder::new().build()
}

/// The house rules played under the name "dex".
pub fn dex_ruleset() -> (ruleset: Ruleset)
    ensures
        ruleset == dex_ruleset_spec(),
{
    RulesetBuilder::new()
        .with_starting_player_money(1800)
        .with_free_parking_jackpot_mode(FreeParkingJackpotMode::TaxesAndFees)
        .with_go_landing_salary(0)
        .with_go_passing_salary(200)
        .with_permitted_barter_tactics(DEX_PERMITTED_BARTER_TACTICS)
        .with_permitted_barter_times(BARTER_AT_START_OF_TURN)
        .with_property_improvement_distribution(PropertyImprovementDistribution::Arbitrary)
        .with_jail_bail_amount(100)
        .build()
}

} // verus!
