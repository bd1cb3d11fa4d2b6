use pack_odds::rarity::Rarity;
use pack_odds::{EngineError, OfferingRates, RATE_SCALE};

#[test]
fn configured_rates_are_returned() {
    let fourth = vec![(Rarity::TwoDiamonds, 900_000u64), (Rarity::ThreeDiamonds, 100_000u64)];
    let fifth = vec![(Rarity::TwoDiamonds, 600_000u64), (Rarity::ThreeDiamonds, 400_000u64)];
    let table = OfferingRates::new(&fourth, &fifth).unwrap();
    assert_eq!(table.fourth_card_offering_rate(&Rarity::TwoDiamonds), 900_000);
    assert_eq!(table.fourth_card_offering_rate(&Rarity::ThreeDiamonds), 100_000);
    assert_eq!(table.fifth_card_offering_rate(&Rarity::TwoDiamonds), 600_000);
    assert_eq!(table.fifth_card_offering_rate(&Rarity::ThreeDiamonds), 400_000);
}

#[test]
fn absent_rarity_has_rate_zero() {
    let fourth = vec![(Rarity::TwoDiamonds, 900_000u64)];
    let fifth = vec![(Rarity::TwoDiamonds, 600_000u64)];
    let table = OfferingRates::new(&fourth, &fifth).unwrap();
    assert_eq!(table.fourth_card_offering_rate(&Rarity::Crown), 0);
    assert_eq!(table.fifth_card_offering_rate(&Rarity::OneDiamond), 0);
}

#[test]
fn later_entry_replaces_earlier() {
    let fourth = vec![(Rarity::TwoDiamonds, 900_000u64), (Rarity::TwoDiamonds, 250_000u64)];
    let fifth = vec![];
    let table = OfferingRates::new(&fourth, &fifth).unwrap();
    assert_eq!(table.fourth_card_offering_rate(&Rarity::TwoDiamonds), 250_000);
}

#[test]
fn excessive_fourth_slot_mass_is_rejected() {
    let fourth = vec![(Rarity::TwoDiamonds, 900_000u64), (Rarity::ThreeDiamonds, 200_000u64)];
    let fifth = vec![];
    assert!(matches!(
        OfferingRates::new(&fourth, &fifth),
        Err(EngineError::RateMassTooLarge)
    ));
}

#[test]
fn excessive_fifth_slot_mass_is_rejected() {
    let fourth = vec![];
    let fifth = vec![(Rarity::Crown, RATE_SCALE), (Rarity::OneStar, 1u64)];
    assert!(matches!(
        OfferingRates::new(&fourth, &fifth),
        Err(EngineError::RateMassTooLarge)
    ));
}

#[test]
fn whole_mass_on_one_rarity_is_accepted() {
    let fourth = vec![(Rarity::TwoDiamonds, RATE_SCALE)];
    let fifth = vec![(Rarity::TwoDiamonds, RATE_SCALE)];
    let table = OfferingRates::new(&fourth, &fifth).unwrap();
    assert_eq!(table.fourth_card_offering_rate(&Rarity::TwoDiamonds), RATE_SCALE);
}

#[test]
fn base_rates_match_the_game() {
    assert_eq!(Rarity::TwoDiamonds.fourth_card_offering_rate(), 900_000);
    assert_eq!(Rarity::FourDiamonds.fourth_card_offering_rate(), 16_660);
    assert_eq!(Rarity::Crown.fourth_card_offering_rate(), 400);
    assert_eq!(Rarity::TwoDiamonds.fifth_card_offering_rate(), 600_000);
    assert_eq!(Rarity::OneStar.fifth_card_offering_rate(), 102_880);
    assert_eq!(Rarity::Crown.fifth_card_offering_rate(), 1_600);
}

#[test]
fn base_rates_sum_to_one_whole_unit_per_slot() {
    let all = [
        Rarity::OneDiamond,
        Rarity::TwoDiamonds,
        Rarity::ThreeDiamonds,
        Rarity::FourDiamonds,
        Rarity::OneStar,
        Rarity::TwoStars,
        Rarity::ThreeStars,
        Rarity::Crown,
    ];
    let fourth: u64 = all.iter().map(|r| r.fourth_card_offering_rate()).sum();
    let fifth: u64 = all.iter().map(|r| r.fifth_card_offering_rate()).sum();
    assert_eq!(fourth, RATE_SCALE);
    assert_eq!(fifth, RATE_SCALE);
}
