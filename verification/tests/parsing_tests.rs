use pack_odds::card::parse_card_packs;
use pack_odds::packs::Packs;
use pack_odds::text::split_on;

#[test]
fn empty_pack_literal_means_no_packs() {
    // A card outside every named sub-pack has an empty membership literal.
    let packs = parse_card_packs("");
    assert!(packs.is_empty());
}

#[test]
fn single_pack_literal() {
    let packs = parse_card_packs("Mewtwo");
    assert_eq!(packs, vec!["Mewtwo".to_string()]);
}

#[test]
fn pipe_joined_pack_literal() {
    let packs = parse_card_packs("Charizard|Pikachu");
    assert_eq!(packs, vec!["Charizard".to_string(), "Pikachu".to_string()]);
}

#[test]
fn consecutive_separators_keep_empty_parts() {
    let packs = parse_card_packs("a||b");
    assert_eq!(packs, vec!["a".to_string(), String::new(), "b".to_string()]);
}

#[test]
fn colon_joined_collection_packs() {
    let packs = Packs::from_literal("Charizard:Pikachu:Mewtwo");
    assert_eq!(
        packs.0,
        vec!["Charizard".to_string(), "Pikachu".to_string(), "Mewtwo".to_string()]
    );
}

#[test]
fn empty_collection_pack_literal() {
    let packs = Packs::from_literal("");
    assert!(packs.0.is_empty());
}

#[test]
fn split_keeps_every_character() {
    let parts = split_on("one,two,three", ',');
    assert_eq!(parts.join(","), "one,two,three");
    assert_eq!(parts.len(), 3);
}

#[test]
fn split_without_separator_returns_whole() {
    let parts = split_on("solo", '|');
    assert_eq!(parts, vec!["solo".to_string()]);
}

#[test]
fn split_handles_non_ascii_names() {
    let parts = split_on("pack \u{2662}|pack \u{2606}", '|');
    assert_eq!(parts, vec!["pack \u{2662}".to_string(), "pack \u{2606}".to_string()]);
}
