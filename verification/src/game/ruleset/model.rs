use vstd::prelude::*;

use super::data::{
    OFFICIAL_AUCTION_ELIGIBILITY,
    OFFICIAL_FREE_PARKING_JACKPOT_MODE,
    OFFICIAL_GO_LANDING_SALARY,
    OFFICIAL_GO_PASSING_SALARY,
    OFFICIAL_JAIL_BAIL_AMOUNT,
    OFFICIAL_MAX_JAIL_TURN_COUNT,
    OFFICIAL_PERMITTED_BARTER_TACTICS,
    OFFICIAL_PERMITTED_BARTER_TIMES,
    OFFICIAL_PROPERTY_IMPROVEMENT_DISTRIBUTION,
    OFFICIAL_PROPERTY_PURCHASE_DECLINE_MODE,
    OFFICIAL_STARTING_PLAYER_MONEY,
};
use crate::game::tile::model::Money;

verus! {

// official max jail turns (3) < 255
pub type TurnCount = u8;

/// The permitted barter tactics, one bit each:
/// money, unmortgaged properties, mortgaged properties, get out of jail free cards,
/// modified rent payments, IOUs and loans, revenue sharing.
pub type PermittedBarterTacticsMask = u8;

pub const BARTER_MONEY: PermittedBarterTacticsMask = 1;
pub const BARTER_UNMORTGAGED_PROPERTIES: PermittedBarterTacticsMask = 2;
pub const BARTER_MORTGAGED_PROPERTIES: PermittedBarterTacticsMask = 4;
pub const BARTER_GET_OUT_OF_JAIL_FREE_CARDS: PermittedBarterTacticsMask = 8;
pub const BARTER_MODIFIED_RENT_PAYMENTS: PermittedBarterTacticsMask = 16;
pub const BARTER_IOUS_AND_LOANS: PermittedBarterTacticsMask = 32;
pub const BARTER_REVENUE_SHARING: PermittedBarterTacticsMask = 64;

/// The permitted times at which a player may start a barter, one bit each:
/// start of turn, before purchase, during payment.
pub type PermittedBarterTimesMask = u8;

pub const BARTER_AT_START_OF_TURN: PermittedBarterTimesMask = 1;
pub const BARTER_BEFORE_PURCHASE: PermittedBarterTimesMask = 2;
pub const BARTER_DURING_PAYMENT: PermittedBarterTimesMask = 4;

/// Whether every flag of `flags` is set in `mask`.
pub open spec fn mask_contains_spec(mask: u8, flags: u8) -> bool {
    mask & flags == flags
}

/// Whether every flag of `flags` is set in `mask`.
pub fn mask_contains(mask: u8, flags: u8) -> (result: bool)
    ensures
        result == mask_contains_spec(mask, flags),
{
    mask & flags == flags
}

#[derive(Debug, Clone, Copy, PartialEq, Eq, Hash, Structural)]
pub struct Ruleset {
    pub starting_player_money: Money,
    pub go_passing_salary: Money,
    pub go_landing_salary: Money,
    pub property_purchase_decline_mode: PropertyPurchaseDeclineMode,
    pub auction_eligibility: AuctionEligibility,
    pub permitted_barter_tactics: PermittedBarterTacticsMask,
    pub permitted_barter_times: PermittedBarterTimesMask,
    pub property_improvement_distribution: PropertyImprovementDistribution,
    pub free_parking_jackpot_mode: FreeParkingJackpotMode,
    pub jail_bail_amount: Money,
    pub max_jail_turn_count: TurnCount,
}

/// The official rules of the game.
pub open spec fn official_ruleset_spec() -> Ruleset {
    Ruleset {
        starting_player_money: OFFICIAL_STARTING_PLAYER_MONEY,
        go_passing_salary: OFFICIAL_GO_PASSING_SALARY,
        go_landing_salary: OFFICIAL_GO_LANDING_SALARY,
        property_purchase_decline_mode: OFFICIAL_PROPERTY_PURCHASE_DECLINE_MODE,
        auction_eligibility: OFFICIAL_AUCTION_ELIGIBILITY,
        permitted_barter_tactics: OFFICIAL_PERMITTED_BARTER_TACTICS,
        permitted_barter_times: OFFICIAL_PERMITTED_BARTER_TIMES,
        property_improvement_distribution: OFFICIAL_PROPERTY_IMPROVEMENT_DISTRIBUTION,
        free_parking_jackpot_mode: OFFICIAL_FREE_PARKING_JACKPOT_MODE,
        jail_bail_amount: OFFICIAL_JAIL_BAIL_AMOUNT,
        max_jail_turn_count: OFFICIAL_MAX_JAIL_TURN_COUNT,
    }
}

impl Ruleset {
    pub fn builder() -> (builder: RulesetBuilder)
        ensures
            builder.ruleset() == official_ruleset_spec(),
    {
        RulesetBuilder::new()
    }
}

impl Default for Ruleset {
    fn default() -> (ruleset: Self)
        ensures
            ruleset == official_ruleset_spec(),
    {
        RulesetBuilder::new().build()
    }
}

#[derive(Debug, Clone, Copy, PartialEq, Eq, Hash)]
pub struct RulesetBuilder {
    ruleset: Ruleset,
}

impl RulesetBuilder {
    /// The ruleset that the builder would build now.
    pub closed spec fn ruleset(self) -> Ruleset {
        self.ruleset
    }

    pub fn new() -> (builder: Self)
        ensures
            builder.ruleset() == official_ruleset_spec(),
    {
        RulesetBuilder {
            ruleset: Ruleset {
                starting_player_money: OFFICIAL_STARTING_PLAYER_MONEY,
                go_passing_salary: OFFICIAL_GO_PASSING_SALARY,
                go_landing_salary: OFFICIAL_GO_LANDING_SALARY,
                property_purchase_decline_mode: OFFICIAL_PROPERTY_PURCHASE_DECLINE_MODE,
                auction_eligibility: OFFICIAL_AUCTION_ELIGIBILITY,
                permitted_barter_tactics: OFFICIAL_PERMITTED_BARTER_TACTICS,
                permitted_barter_times: OFFICIAL_PERMITTED_BARTER_TIMES,
                property_improvement_distribution: OFFICIAL_PROPERTY_IMPROVEMENT_DISTRIBUTION,
                free_parking_jackpot_mode: OFFICIAL_FREE_PARKING_JACKPOT_MODE,
                jail_bail_amount: OFFICIAL_JAIL_BAIL_AMOUNT,
                max_jail_turn_count: OFFICIAL_MAX_JAIL_TURN_COUNT,
            },
        }
    }

    pub fn with_starting_player_money(self, starting_player_money: Money) -> (builder: Self)
        ensures
            builder.ruleset() == (Ruleset { starting_player_money, ..self.ruleset() }),
    {
        RulesetBuilder { ruleset: Ruleset { starting_player_money, ..self.ruleset } }
    }

    pub fn with_go_passing_salary(self, go_passing_salary: Money) -> (builder: Self)
        ensures
            builder.ruleset() == (Ruleset { go_passing_salary, ..self.ruleset() }),
    {
        RulesetBuilder { ruleset: Ruleset { go_passing_salary, ..self.ruleset } }
    }

    pub fn with_go_landing_salary(self, go_landing_salary: Money) -> (builder: Self)
        ensures
            builder.ruleset() == (Ruleset { go_landing_salary, ..self.ruleset() }),
    {
        RulesetBuilder { ruleset: Ruleset { go_landing_salary, ..self.ruleset } }
    }

    pub fn with_property_purchase_decline_mode(
        self,
        property_purchase_decline_mode: PropertyPurchaseDeclineMode,
    ) -> (builder: Self)
        ensures
            builder.ruleset() == (Ruleset { property_purchase_decline_mode, ..self.ruleset() }),
    {
        RulesetBuilder { ruleset: Ruleset { property_purchase_decline_mode, ..self.ruleset } }
    }

    pub fn with_auction_eligibility(self, auction_eligibility: AuctionEligibility) -> (builder: Self)
        ensures
            builder.ruleset() == (Ruleset { auction_eligibility, ..self.ruleset() }),
    {
        RulesetBuilder { ruleset: Ruleset { auction_eligibility, ..self.ruleset } }
    }

    pub fn with_permitted_barter_tactics(
        self,
        permitted_barter_tactics: PermittedBarterTacticsMask,
    ) -> (builder: Self)
        ensures
            builder.ruleset() == (Ruleset { permitted_barter_tactics, ..self.ruleset() }),
    {
        RulesetBuilder { ruleset: Ruleset { permitted_barter_tactics, ..self.ruleset } }
    }

    pub fn with_permitted_barter_times(self, permitted_barter_times: PermittedBarterTimesMask) -> (builder: Self)
        ensures
            builder.ruleset() == (Ruleset { permitted_barter_times, ..self.ruleset() }),
    {
        RulesetBuilder { ruleset: Ruleset { permitted_barter_times, ..self.ruleset } }
    }

    pub fn with_property_improvement_distribution(
        self,
        property_improvement_distribution: PropertyImprovementDistribution,
    ) -> (builder: Self)
        ensures
            builder.ruleset() == (Ruleset { property_improvement_distribution, ..self.ruleset() }),
    {
        RulesetBuilder { ruleset: Ruleset { property_improvement_distribution, ..self.ruleset } }
    }

    pub fn with_free_parking_jackpot_mode(self, free_parking_jackpot_mode: FreeParkingJackpotMode) -> (builder: Self)
        ensures
            builder.ruleset() == (Ruleset { free_parking_jackpot_mode, ..self.ruleset() }),
    {
        RulesetBuilder { ruleset: Ruleset { free_parking_jackpot_mode, ..self.ruleset } }
    }

    pub fn with_jail_bail_amount(self, jail_bail_amount: Money) -> (builder: Self)
        ensures
            builder.ruleset() == (Ruleset { jail_bail_amount, ..self.ruleset() }),
    {
        RulesetBuilder { ruleset: Ruleset { jail_bail_amount, ..self.ruleset } }
    }

    pub fn with_max_jail_turn_count(self, max_jail_turn_count: TurnCount) -> (builder: Self)
        ensures
            builder.ruleset() == (Ruleset { max_jail_turn_count, ..self.ruleset() }),
    {
        RulesetBuilder { ruleset: Ruleset { max_jail_turn_count, ..self.ruleset } }
    }

    pub fn build(self) -> (ruleset: Ruleset)
        ensures
            ruleset == self.ruleset(),
    {
        self.ruleset
    }
}

impl Default for RulesetBuilder {
    fn default() -> (builder: Self)
        ensures
            builder.ruleset() == official_ruleset_spec(),
    {
        RulesetBuilder::new()
    }
}

#[derive(Debug, Clone, Copy, PartialEq, Eq, Hash, Structural)]
pub enum PropertyPurchaseDeclineMode {
    Auction,
    RemainsUnowned,
}

#[derive(Debug, Clone, Copy, PartialEq, Eq, Hash, Structural)]
pub enum AuctionEligibility {
    AllPlayers,
    ExcludingDecliningPlayer,
}

#[derive(Debug, Clone, Copy, PartialEq, Eq, Hash, Structural)]
pub enum PropertyImprovementDistribution {
    Even,
    Arbitrary,
}

#[derive(Debug, Clone, Copy, PartialEq, Eq, Hash, Structural)]
pub enum FreeParkingJackpotMode {
    Disabled,
    TaxesAndFees,
}

} // verus!
