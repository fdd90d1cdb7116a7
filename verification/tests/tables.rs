use monopolez::game::board::data::{
    BANK_STARTING_HOTEL_COUNT,
    BANK_STARTING_HOUSE_COUNT,
    MAX_PLAYER_COUNT,
    MIN_PLAYER_COUNT,
};
use monopolez::game::board::model::BoardState;
use monopolez::game::rng::{DIE_FACE_COUNT, WyRand};
use monopolez::game::ruleset::model::{
    AuctionEligibility,
    BARTER_IOUS_AND_LOANS,
    BARTER_MORTGAGED_PROPERTIES,
    FreeParkingJackpotMode,
    PropertyImprovementDistribution,
    PropertyPurchaseDeclineMode,
    Ruleset,
    mask_contains,
};
use monopolez::game::tile::lut::{
    HOUSE_PURCHASE_PRICE_BY_TILE_ID,
    MORTGAGE_VALUE_BY_TILE_ID,
    OWNABLE_TILE_SET_MASK,
    PURCHASE_PRICE_BY_TILE_ID,
    RAILROAD_TILE_SET_MASK,
    RENT_BY_TILE_ID_BY_RENT_LEVEL,
    TAX_AMOUNT_BY_TILE_ID,
    TILE_KIND_BY_TILE_ID,
    TILE_SET_MASK_BY_OWNERSHIP_GROUP,
    UNIMPROVED_MONOPOLY_RENT_LEVEL,
    UNMORTGAGE_PRICE_BY_TILE_ID,
    UTILITY_TILE_SET_MASK,
    ownership_group_by_tile_id,
};
use monopolez::game::tile::model::{OwnershipGroup, TileKind, count_tiles};

const BALTIC_AVENUE_TILE_ID: usize = 3;
const READING_RAILROAD_TILE_ID: usize = 5;
const ELECTRIC_COMPANY_TILE_ID: usize = 12;
const PARK_PLACE_TILE_ID: usize = 37;
const LUXURY_TAX_TILE_ID: usize = 38;
const BOARDWALK_TILE_ID: usize = 39;

#[test]
fn builds_starting_state_for_supported_player_counts() {
    let two_player_board_state = BoardState::<MIN_PLAYER_COUNT>::starting_state();
    let eight_player_board_state = BoardState::<MAX_PLAYER_COUNT>::starting_state();

    assert_eq!(two_player_board_state.owned_tiles_by_player_id, [0; MIN_PLAYER_COUNT]);
    assert_eq!(eight_player_board_state.bank_house_count, BANK_STARTING_HOUSE_COUNT);
    assert_eq!(eight_player_board_state.bank_hotel_count, BANK_STARTING_HOTEL_COUNT);
}

#[test]
fn derives_property_tables() {
    assert_eq!(TILE_KIND_BY_TILE_ID[BOARDWALK_TILE_ID], TileKind::Property);
    assert_eq!(ownership_group_by_tile_id(BOARDWALK_TILE_ID as u8), Some(OwnershipGroup::DarkBlue));
    assert_eq!(PURCHASE_PRICE_BY_TILE_ID[BOARDWALK_TILE_ID], 400);
    assert_eq!(HOUSE_PURCHASE_PRICE_BY_TILE_ID[BOARDWALK_TILE_ID], 200);
    assert_eq!(RENT_BY_TILE_ID_BY_RENT_LEVEL[BOARDWALK_TILE_ID], [50, 100, 200, 600, 1400, 1700, 2000, 0]);
    assert_eq!(
        RENT_BY_TILE_ID_BY_RENT_LEVEL[BALTIC_AVENUE_TILE_ID][UNIMPROVED_MONOPOLY_RENT_LEVEL as usize],
        8
    );
}

#[test]
fn rounds_unmortgage_interest_up() {
    assert_eq!(MORTGAGE_VALUE_BY_TILE_ID[PARK_PLACE_TILE_ID], 175);
    assert_eq!(UNMORTGAGE_PRICE_BY_TILE_ID[PARK_PLACE_TILE_ID], 193);
    assert_eq!(UNMORTGAGE_PRICE_BY_TILE_ID[BOARDWALK_TILE_ID], 220);
    assert_eq!(UNMORTGAGE_PRICE_BY_TILE_ID[ELECTRIC_COMPANY_TILE_ID], 83);
}

#[test]
fn derives_non_property_tables() {
    assert_eq!(RENT_BY_TILE_ID_BY_RENT_LEVEL[READING_RAILROAD_TILE_ID][..4], [25, 50, 100, 200]);
    assert_eq!(RENT_BY_TILE_ID_BY_RENT_LEVEL[ELECTRIC_COMPANY_TILE_ID][..2], [4, 10]);
    assert_eq!(TAX_AMOUNT_BY_TILE_ID[LUXURY_TAX_TILE_ID], 100);
    assert_eq!(PURCHASE_PRICE_BY_TILE_ID[LUXURY_TAX_TILE_ID], 0);
    assert_eq!(ownership_group_by_tile_id(LUXURY_TAX_TILE_ID as u8), None);
}

#[test]
fn derives_tiles() {
    assert_eq!(TILE_SET_MASK_BY_OWNERSHIP_GROUP[OwnershipGroup::Brown.index()], 1 << 1 | 1 << 3);
    assert_eq!(RAILROAD_TILE_SET_MASK, 1 << 5 | 1 << 15 | 1 << 25 | 1 << 35);
    assert_eq!(UTILITY_TILE_SET_MASK, 1 << 12 | 1 << 28);
    assert_eq!(OWNABLE_TILE_SET_MASK.count_ones(), 28);
    assert_eq!(count_tiles(OWNABLE_TILE_SET_MASK), 28);
}

#[test]
fn repeats_sequence_for_same_seed() {
    let mut first_rng = WyRand::new(42);
    let mut second_rng = WyRand::new(42);

    for _ in 0..100 {
        assert_eq!(first_rng.generate_u64(), second_rng.generate_u64());
    }
}

#[test]
fn rolls_every_face_within_range() {
    let mut rng = WyRand::new(7);
    let mut seen_faces = [false; DIE_FACE_COUNT as usize];

    for _ in 0..10_000 {
        let dice_roll = rng.roll_dice();
        assert!((1..=6).contains(&dice_roll.first_die));
        assert!((1..=6).contains(&dice_roll.second_die));
        seen_faces[dice_roll.first_die as usize - 1] = true;
        seen_faces[dice_roll.second_die as usize - 1] = true;
    }

    assert!(seen_faces.iter().all(|seen| *seen));
}

#[test]
fn shuffles_into_a_permutation() {
    let mut rng = WyRand::new(3);
    let mut values: [u8; 16] = core::array::from_fn(|index| index as u8);
    rng.shuffle(&mut values);

    let mut sorted_values = values;
    sorted_values.sort_unstable();
    assert_eq!(sorted_values, core::array::from_fn(|index| index as u8));
}

#[test]
fn generator_matches_the_wyrand_reference_step() {
    // The first output for seed 0: state 0xa0761d478bd642f7 times itself mixed with the constant.
    let mut rng = WyRand::new(0);
    let state: u64 = 0xa076_1d47_8bd6_42f7;
    let product = (state as u128) * ((state ^ 0xe703_7ed1_a0b4_28db) as u128);
    assert_eq!(rng.generate_u64(), ((product >> 64) ^ product) as u64);
    let mut bounded = WyRand::new(0);
    assert!(bounded.generate_below(6) < 6);
}

#[test]
fn defaults_to_official_rules() {
    let ruleset = Ruleset::default();

    assert_eq!(ruleset.starting_player_money, 1500);
    assert_eq!(ruleset.go_passing_salary, 200);
    assert_eq!(ruleset.go_landing_salary, 200);
    assert_eq!(ruleset.property_purchase_decline_mode, PropertyPurchaseDeclineMode::Auction);
    assert_eq!(ruleset.auction_eligibility, AuctionEligibility::AllPlayers);
    assert!(mask_contains(ruleset.permitted_barter_tactics, BARTER_MORTGAGED_PROPERTIES));
    assert!(!mask_contains(ruleset.permitted_barter_tactics, BARTER_IOUS_AND_LOANS));
    assert_eq!(ruleset.property_improvement_distribution, PropertyImprovementDistribution::Even);
    assert_eq!(ruleset.free_parking_jackpot_mode, FreeParkingJackpotMode::Disabled);
    assert_eq!(ruleset.jail_bail_amount, 50);
    assert_eq!(ruleset.max_jail_turn_count, 3);
}

#[test]
fn overrides_only_set_fields() {
    let ruleset = Ruleset::builder()
        .with_starting_player_money(2000)
        .with_property_purchase_decline_mode(PropertyPurchaseDeclineMode::RemainsUnowned)
        .build();

    assert_eq!(ruleset.starting_player_money, 2000);
    assert_eq!(ruleset.property_purchase_decline_mode, PropertyPurchaseDeclineMode::RemainsUnowned);
    assert_eq!(ruleset.permitted_barter_times, Ruleset::default().permitted_barter_times);
}

#[test]
fn applies_common_house_rules() {
    let ruleset = Ruleset::builder()
        .with_go_landing_salary(400)
        .with_free_parking_jackpot_mode(FreeParkingJackpotMode::TaxesAndFees)
        .with_auction_eligibility(AuctionEligibility::ExcludingDecliningPlayer)
        .build();

    assert_eq!(ruleset.go_passing_salary, 200);
    assert_eq!(ruleset.go_landing_salary, 400);
    assert_eq!(ruleset.free_parking_jackpot_mode, FreeParkingJackpotMode::TaxesAndFees);
    assert_eq!(ruleset.auction_eligibility, AuctionEligibility::ExcludingDecliningPlayer);
}
