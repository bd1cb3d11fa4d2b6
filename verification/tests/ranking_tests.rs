use pack_odds::card::Card;
use pack_odds::collection::{Collection, CollectionEntry};
use pack_odds::expansion::Expansion;
use pack_odds::ranking::rank_new_card_probabilities;
use pack_odds::rarity::Rarity;
use pack_odds::{EngineError, OfferingRates, RATE_SCALE};

fn card(number: usize, rarity: Rarity, packs: &[&str]) -> Card {
    Card {
        name: format!("card {number}"),
        number,
        rarity,
        packs: packs.iter().map(|p| p.to_string()).collect(),
    }
}

fn even_rates() -> (String, OfferingRates) {
    let fourth = vec![(Rarity::OneDiamond, 900_000u64), (Rarity::TwoDiamonds, 100_000u64)];
    let fifth = vec![(Rarity::OneDiamond, 600_000u64), (Rarity::TwoDiamonds, 400_000u64)];
    ("standard".to_string(), OfferingRates::new(&fourth, &fifth).unwrap())
}

fn sample_expansion(id: &str, name: &str, packs: &[&str], cards: Vec<Card>) -> Expansion {
    Expansion {
        id: id.to_string(),
        name: name.to_string(),
        packs: packs.iter().map(|p| p.to_string()).collect(),
        cards,
        offering_rate_table: "standard".to_string(),
    }
}

#[test]
fn ranks_packs_in_descending_order() {
    // Two single-common packs, one owned and one untouched. The owned pack
    // can still yield a new card through the rare slots' mass on the absent
    // tier: its duplicate chance is 1 * 0.9 * 0.6, so it scores 0.46 and
    // ranks after the untouched pack's certain 1.
    let cards = vec![
        card(1, Rarity::OneDiamond, &["Alpha"]),
        card(2, Rarity::OneDiamond, &["Beta"]),
    ];
    let expansions = vec![sample_expansion("a1", "First Light", &["Alpha", "Beta"], cards)];
    let tables = vec![even_rates()];
    let collection = Collection(vec![CollectionEntry {
        expansion_id: "a1".to_string(),
        card_numbers: vec![1],
    }]);
    let rankings = rank_new_card_probabilities(&expansions, &tables, &collection).unwrap();
    assert_eq!(rankings.len(), 2);
    assert_eq!(rankings[0].pack_name.as_deref(), Some("Beta"));
    assert_eq!(rankings[0].probability_ppm, RATE_SCALE);
    assert_eq!(rankings[1].pack_name.as_deref(), Some("Alpha"));
    assert_eq!(rankings[1].probability_ppm, 460_000);
    assert!(rankings[0].probability_ppm >= rankings[1].probability_ppm);
}

#[test]
fn expansion_without_packs_is_one_implicit_pack() {
    let cards = vec![card(1, Rarity::OneDiamond, &[]), card(2, Rarity::OneDiamond, &[])];
    let expansions = vec![sample_expansion("a1", "First Light", &[], cards)];
    let tables = vec![even_rates()];
    let collection = Collection(vec![CollectionEntry {
        expansion_id: "a1".to_string(),
        card_numbers: vec![],
    }]);
    let rankings = rank_new_card_probabilities(&expansions, &tables, &collection).unwrap();
    assert_eq!(rankings.len(), 1);
    assert_eq!(rankings[0].expansion_name, "First Light");
    assert_eq!(rankings[0].pack_name, None);
    assert_eq!(rankings[0].probability_ppm, RATE_SCALE);
}

#[test]
fn unrecorded_expansion_is_skipped() {
    let cards = vec![card(1, Rarity::OneDiamond, &[])];
    let expansions = vec![sample_expansion("a1", "First Light", &[], cards)];
    let tables = vec![even_rates()];
    let collection = Collection(vec![CollectionEntry {
        expansion_id: "other".to_string(),
        card_numbers: vec![],
    }]);
    let rankings = rank_new_card_probabilities(&expansions, &tables, &collection).unwrap();
    assert!(rankings.is_empty());
}

#[test]
fn unresolved_offering_table_is_an_error() {
    // The expansion references a table name that is not among the loaded
    // tables: the run must stop with that name, not default silently.
    let cards = vec![card(1, Rarity::OneDiamond, &[])];
    let mut expansion = sample_expansion("a1", "First Light", &[], cards);
    expansion.offering_rate_table = "missing".to_string();
    let expansions = vec![expansion];
    let tables = vec![even_rates()];
    let collection = Collection(vec![CollectionEntry {
        expansion_id: "a1".to_string(),
        card_numbers: vec![],
    }]);
    match rank_new_card_probabilities(&expansions, &tables, &collection) {
        Err(EngineError::UnresolvedOfferingTable { table_name }) => {
            assert_eq!(table_name, "missing");
        }
        _ => panic!("a missing offering-rate table must be reported"),
    }
}

#[test]
fn empty_pack_pool_is_an_error() {
    // A named pack that no card belongs to has an empty pool.
    let cards = vec![card(1, Rarity::OneDiamond, &["Alpha"])];
    let expansions = vec![sample_expansion("a1", "First Light", &["Alpha", "Ghost"], cards)];
    let tables = vec![even_rates()];
    let collection = Collection(vec![CollectionEntry {
        expansion_id: "a1".to_string(),
        card_numbers: vec![],
    }]);
    assert!(matches!(
        rank_new_card_probabilities(&expansions, &tables, &collection),
        Err(EngineError::EmptyCardPool)
    ));
}

#[test]
fn ranking_is_deterministic() {
    let cards = vec![
        card(1, Rarity::OneDiamond, &["Alpha"]),
        card(2, Rarity::OneDiamond, &["Beta"]),
        card(3, Rarity::TwoDiamonds, &["Alpha", "Beta"]),
    ];
    let expansions = vec![sample_expansion("a1", "First Light", &["Alpha", "Beta"], cards)];
    let tables = vec![even_rates()];
    let collection = Collection(vec![CollectionEntry {
        expansion_id: "a1".to_string(),
        card_numbers: vec![2, 3],
    }]);
    let first = rank_new_card_probabilities(&expansions, &tables, &collection).unwrap();
    let second = rank_new_card_probabilities(&expansions, &tables, &collection).unwrap();
    assert_eq!(first.len(), second.len());
    for (a, b) in first.iter().zip(second.iter()) {
        assert_eq!(a.expansion_name, b.expansion_name);
        assert_eq!(a.pack_name, b.pack_name);
        assert_eq!(a.probability_ppm, b.probability_ppm);
    }
}

#[test]
fn ranks_across_expansions() {
    let first_cards = vec![card(1, Rarity::OneDiamond, &[])];
    let second_cards = vec![card(1, Rarity::OneDiamond, &[]), card(2, Rarity::OneDiamond, &[])];
    let third_cards = vec![card(1, Rarity::OneDiamond, &[])];
    let expansions = vec![
        sample_expansion("a1", "First Light", &[], first_cards),
        sample_expansion("a2", "Second Dawn", &[], second_cards),
        sample_expansion("a3", "Third Noon", &[], third_cards),
    ];
    let tables = vec![even_rates()];
    // The third expansion is not recorded at all and must be skipped; the
    // first is fully owned, the second half owned.
    let collection = Collection(vec![
        CollectionEntry { expansion_id: "a1".to_string(), card_numbers: vec![1] },
        CollectionEntry { expansion_id: "a2".to_string(), card_numbers: vec![1] },
    ]);
    let rankings = rank_new_card_probabilities(&expansions, &tables, &collection).unwrap();
    assert_eq!(rankings.len(), 2);
    assert_eq!(rankings[0].expansion_name, "Second Dawn");
    assert_eq!(rankings[1].expansion_name, "First Light");
    assert!(rankings[0].probability_ppm >= rankings[1].probability_ppm);
}

#[test]
fn first_collection_entry_for_an_id_wins() {
    let cards = vec![card(1, Rarity::OneDiamond, &[])];
    let expansions = vec![sample_expansion("a1", "First Light", &[], cards)];
    let tables = vec![even_rates()];
    let collection = Collection(vec![
        CollectionEntry { expansion_id: "a1".to_string(), card_numbers: vec![] },
        CollectionEntry { expansion_id: "a1".to_string(), card_numbers: vec![1] },
    ]);
    let rankings = rank_new_card_probabilities(&expansions, &tables, &collection).unwrap();
    assert_eq!(rankings.len(), 1);
    assert_eq!(rankings[0].probability_ppm, RATE_SCALE);
}

#[test]
fn cards_in_filters_by_pack() {
    let cards = vec![
        card(1, Rarity::OneDiamond, &["Alpha"]),
        card(2, Rarity::OneDiamond, &["Beta"]),
        card(3, Rarity::TwoDiamonds, &["Alpha", "Beta"]),
    ];
    let expansion = sample_expansion("a1", "First Light", &["Alpha", "Beta"], cards);
    let alpha = expansion.cards_in(Some("Alpha"));
    assert_eq!(alpha.iter().map(|c| c.number).collect::<Vec<_>>(), vec![1, 3]);
    let whole = expansion.cards_in(None);
    assert_eq!(whole.len(), 3);
}
