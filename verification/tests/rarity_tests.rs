use pack_odds::rarity::Rarity;
use pack_odds::EngineError;

const ALL: [Rarity; 8] = [
    Rarity::OneDiamond,
    Rarity::TwoDiamonds,
    Rarity::ThreeDiamonds,
    Rarity::FourDiamonds,
    Rarity::OneStar,
    Rarity::TwoStars,
    Rarity::ThreeStars,
    Rarity::Crown,
];

#[test]
fn literal_round_trip() {
    for rarity in ALL {
        let literal = rarity.to_literal();
        match Rarity::from_literal(literal) {
            Ok(parsed) => assert_eq!(parsed, rarity),
            Err(_) => panic!("literal of a known rarity failed to parse"),
        }
    }
}

#[test]
fn expected_literals() {
    assert_eq!(Rarity::OneDiamond.to_literal(), "\u{2662}");
    assert_eq!(Rarity::FourDiamonds.to_literal(), "\u{2662}\u{2662}\u{2662}\u{2662}");
    assert_eq!(Rarity::OneStar.to_literal(), "\u{2606}");
    assert_eq!(Rarity::ThreeStars.to_literal(), "\u{2606}\u{2606}\u{2606}");
    assert_eq!(Rarity::Crown.to_literal(), "\u{2655}");
}

#[test]
fn unknown_rarity_reports_literal_and_accepted_set() {
    match Rarity::from_literal("?") {
        Err(EngineError::UnknownRarity { literal, accepted }) => {
            assert_eq!(literal, "?");
            assert_eq!(accepted.len(), 8);
            assert_eq!(accepted[0], "\u{2662}");
            assert_eq!(accepted[7], "\u{2655}");
            for rarity in ALL {
                assert!(accepted.iter().any(|a| a == rarity.to_literal()));
            }
        }
        _ => panic!("an unknown literal must be rejected as UnknownRarity"),
    }
}

#[test]
fn empty_literal_is_unknown() {
    assert!(matches!(
        Rarity::from_literal(""),
        Err(EngineError::UnknownRarity { .. })
    ));
}

#[test]
fn tiers_are_ordered_common_to_rare() {
    for window in ALL.windows(2) {
        assert!(window[0] < window[1]);
    }
    assert!(Rarity::OneDiamond < Rarity::Crown);
}

#[test]
fn index_round_trip() {
    for (i, rarity) in ALL.iter().enumerate() {
        assert_eq!(rarity.index(), i);
        assert_eq!(Rarity::from_index(i), *rarity);
    }
}
