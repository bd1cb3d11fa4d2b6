use pack_odds::calculator::{
    calculate_probability_of_new_card, calculate_probability_of_new_card_from_unowned,
};
use pack_odds::card::Card;
use pack_odds::rarity::Rarity;
use pack_odds::{EngineError, OfferingRates, RATE_SCALE};

fn card(number: usize, rarity: Rarity) -> Card {
    Card { name: format!("card {number}"), number, rarity, packs: Vec::new() }
}

fn scenario_rates() -> OfferingRates {
    let fourth = vec![(Rarity::OneDiamond, 900_000u64), (Rarity::TwoDiamonds, 100_000u64)];
    let fifth = vec![(Rarity::OneDiamond, 600_000u64), (Rarity::TwoDiamonds, 400_000u64)];
    OfferingRates::new(&fourth, &fifth).unwrap()
}

#[test]
fn three_card_scenario() {
    // Pool of three cards, one of the two commons owned: the owned fractions
    // are one half and zero, so the duplicate chances are 0.125, 0.45 and
    // 0.3, and the probability of something new is 1 - 0.016875.
    let pool = vec![
        card(1, Rarity::OneDiamond),
        card(2, Rarity::OneDiamond),
        card(3, Rarity::TwoDiamonds),
    ];
    let rates = scenario_rates();
    let owned = vec![1usize];
    assert_eq!(calculate_probability_of_new_card(&pool, &rates, &owned).unwrap(), 983_125);
}

#[test]
fn three_card_scenario_from_unowned() {
    let pool = vec![
        card(1, Rarity::OneDiamond),
        card(2, Rarity::OneDiamond),
        card(3, Rarity::TwoDiamonds),
    ];
    let rates = scenario_rates();
    let unowned = vec![2usize, 3usize];
    assert_eq!(calculate_probability_of_new_card_from_unowned(&pool, &rates, &unowned).unwrap(), 983_125);
}

#[test]
fn fully_owned_pool_yields_nothing() {
    let pool = vec![
        card(1, Rarity::OneDiamond),
        card(2, Rarity::OneDiamond),
        card(3, Rarity::TwoDiamonds),
    ];
    let rates = scenario_rates();
    let owned = vec![1usize, 2, 3];
    assert_eq!(calculate_probability_of_new_card(&pool, &rates, &owned).unwrap(), 0);
}

#[test]
fn empty_collection_yields_something_certainly() {
    let pool = vec![
        card(1, Rarity::OneDiamond),
        card(2, Rarity::OneDiamond),
        card(3, Rarity::TwoDiamonds),
    ];
    let rates = scenario_rates();
    let owned = Vec::new();
    assert_eq!(calculate_probability_of_new_card(&pool, &rates, &owned).unwrap(), RATE_SCALE);
}

#[test]
fn empty_pool_is_an_error() {
    let pool = Vec::new();
    let rates = scenario_rates();
    let owned = vec![1usize];
    assert!(matches!(
        calculate_probability_of_new_card(&pool, &rates, &owned),
        Err(EngineError::EmptyCardPool)
    ));
}

#[test]
fn calculator_is_idempotent() {
    let pool = vec![
        card(1, Rarity::OneDiamond),
        card(2, Rarity::OneDiamond),
        card(3, Rarity::TwoDiamonds),
    ];
    let rates = scenario_rates();
    let owned = vec![1usize];
    let first = calculate_probability_of_new_card(&pool, &rates, &owned).unwrap();
    let second = calculate_probability_of_new_card(&pool, &rates, &owned).unwrap();
    assert_eq!(first, second);
}

#[test]
fn owning_a_card_twice_changes_nothing() {
    let pool = vec![
        card(1, Rarity::OneDiamond),
        card(2, Rarity::OneDiamond),
        card(3, Rarity::TwoDiamonds),
    ];
    let rates = scenario_rates();
    let once = calculate_probability_of_new_card(&pool, &rates, &vec![1usize]).unwrap();
    let twice = calculate_probability_of_new_card(&pool, &rates, &vec![1usize, 1usize]).unwrap();
    assert_eq!(once, twice);
}

#[test]
fn removing_an_owned_number_does_not_lower_the_odds() {
    let pool = vec![
        card(1, Rarity::OneDiamond),
        card(2, Rarity::OneDiamond),
        card(3, Rarity::TwoDiamonds),
    ];
    let rates = scenario_rates();
    let more = calculate_probability_of_new_card(&pool, &rates, &vec![1usize, 3usize]).unwrap();
    let fewer = calculate_probability_of_new_card(&pool, &rates, &vec![3usize]).unwrap();
    assert!(fewer >= more);
}

#[test]
fn rate_of_an_absent_rarity_is_irrelevant() {
    let pool = vec![card(1, Rarity::OneDiamond), card(2, Rarity::OneDiamond)];
    let owned = vec![1usize];
    let bare = OfferingRates::new(
        &vec![(Rarity::OneDiamond, 500_000u64)],
        &vec![(Rarity::OneDiamond, 500_000u64)],
    )
    .unwrap();
    let with_absent = OfferingRates::new(
        &vec![(Rarity::OneDiamond, 500_000u64), (Rarity::Crown, 400_000u64)],
        &vec![(Rarity::OneDiamond, 500_000u64), (Rarity::Crown, 300_000u64)],
    )
    .unwrap();
    assert_eq!(
        calculate_probability_of_new_card(&pool, &bare, &owned).unwrap(),
        calculate_probability_of_new_card(&pool, &with_absent, &owned).unwrap()
    );
}

#[test]
fn pool_without_commons_yields_something_certainly() {
    // Without lowest-tier cards the first three slots are never guaranteed
    // duplicates, so the whole pack cannot be all duplicates.
    let pool = vec![card(7, Rarity::Crown), card(8, Rarity::OneStar)];
    let rates = OfferingRates::new(
        &vec![(Rarity::Crown, 500_000u64), (Rarity::OneStar, 500_000u64)],
        &vec![(Rarity::Crown, 500_000u64), (Rarity::OneStar, 500_000u64)],
    )
    .unwrap();
    let owned = vec![7usize, 8];
    assert_eq!(calculate_probability_of_new_card(&pool, &rates, &owned).unwrap(), RATE_SCALE);
}
