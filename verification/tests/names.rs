use balatro_seed_engine::draws::{
    edition_name, pack_contents_contains, pack_has_item, rarity_name, seal_name, shop_kind_name,
    Edition, PackContents, Rarity, Seal, ShopItemType, StandardCard,
};
use balatro_seed_engine::filter::Filter;
use balatro_seed_engine::json::json_escape;
use balatro_seed_engine::state::{deck_from_idx, stake_from_idx, Deck, Stake};
use balatro_seed_engine::text::{
    eq_ignore_ascii_case, push_decimal, same_text, to_ascii_lowercase, trim_end_matches,
};

fn card(base: &str) -> StandardCard {
    StandardCard {
        base: base.to_string(),
        enhancement: None,
        edition: Edition::NoEdition,
        seal: Seal::NoSeal,
    }
}

fn names(list: &[&str]) -> Vec<String> {
    list.iter().map(|s| s.to_string()).collect()
}

#[test]
fn decks_and_stakes_by_index() {
    let decks = [
        Deck::Red,
        Deck::Blue,
        Deck::Yellow,
        Deck::Green,
        Deck::Black,
        Deck::Magic,
        Deck::Nebula,
        Deck::GhostDeck,
        Deck::Abandoned,
        Deck::Checkered,
        Deck::Zodiac,
        Deck::Painted,
        Deck::Anaglyph,
        Deck::Plasma,
        Deck::Erratic,
    ];
    for (i, deck) in decks.iter().enumerate() {
        assert_eq!(deck_from_idx(i as u8), *deck);
    }
    assert_eq!(deck_from_idx(15), Deck::Erratic);
    assert_eq!(deck_from_idx(255), Deck::Erratic);
    let stakes = [
        Stake::White,
        Stake::Red,
        Stake::Green,
        Stake::Black,
        Stake::Blue,
        Stake::Purple,
        Stake::Orange,
        Stake::Gold,
    ];
    for (i, stake) in stakes.iter().enumerate() {
        assert_eq!(stake_from_idx(i as u8), *stake);
    }
    assert_eq!(stake_from_idx(8), Stake::Gold);
    assert_eq!(stake_from_idx(255), Stake::Gold);
}

#[test]
fn names_of_kinds() {
    assert_eq!(shop_kind_name(ShopItemType::Joker), "Joker");
    assert_eq!(shop_kind_name(ShopItemType::Tarot), "Tarot");
    assert_eq!(shop_kind_name(ShopItemType::Planet), "Planet");
    assert_eq!(shop_kind_name(ShopItemType::PlayingCard), "Playing Card");
    assert_eq!(shop_kind_name(ShopItemType::Spectral), "Spectral");
    assert_eq!(rarity_name(Rarity::Common), "Common");
    assert_eq!(rarity_name(Rarity::Uncommon), "Uncommon");
    assert_eq!(rarity_name(Rarity::Rare), "Rare");
    assert_eq!(rarity_name(Rarity::Legendary), "Legendary");
    assert_eq!(edition_name(Edition::NoEdition), "");
    assert_eq!(edition_name(Edition::Foil), "Foil");
    assert_eq!(edition_name(Edition::Holographic), "Holographic");
    assert_eq!(edition_name(Edition::Polychrome), "Polychrome");
    assert_eq!(edition_name(Edition::Negative), "Negative");
    assert_eq!(seal_name(Seal::NoSeal), "");
    assert_eq!(seal_name(Seal::Red), "red");
    assert_eq!(seal_name(Seal::Blue), "blue");
    assert_eq!(seal_name(Seal::Gold), "gold");
    assert_eq!(seal_name(Seal::Purple), "purple");
}

#[test]
fn packs_and_what_they_hold() {
    let tarots = PackContents::Tarots(names(&["The Fool", "Death"]));
    assert!(pack_contents_contains(&tarots, "Death"));
    assert!(pack_has_item(&tarots, "Death"));
    assert!(!pack_contents_contains(&tarots, "death"));
    assert!(!pack_has_item(&tarots, "Judgement"));
    for pack in [
        PackContents::Planets(names(&["X"])),
        PackContents::Spectrals(names(&["X"])),
        PackContents::Jokers(names(&["X"])),
    ] {
        assert!(pack_contents_contains(&pack, "X"));
        assert!(pack_has_item(&pack, "X"));
    }
    let cards = PackContents::StandardCards(vec![card("H_A"), card("S_K")]);
    assert!(pack_contents_contains(&cards, "S_K"));
    assert!(!pack_has_item(&cards, "S_K"));
    for pack in [PackContents::Standard, PackContents::Unknown] {
        assert!(!pack_contents_contains(&pack, ""));
        assert!(!pack_has_item(&pack, ""));
    }
}

#[test]
fn escapes() {
    assert_eq!(json_escape("plain · →"), "plain · →");
    assert_eq!(json_escape("a\"b\\c"), "a\\\"b\\\\c");
    assert_eq!(json_escape("\n\r\t"), "\\n\\r\\t");
    assert_eq!(json_escape("\u{0}\u{8}\u{c}\u{1b}\u{1f}"), "\\u0000\\u0008\\u000c\\u001b\\u001f");
    assert_eq!(json_escape("\u{20}\u{7f}"), "\u{20}\u{7f}");
    assert_eq!(json_escape(""), "");
}

#[test]
fn escapes_read_back() {
    let all: String = (0u32..0x180).filter_map(char::from_u32).collect();
    let quoted = format!("\"{}\"", json_escape(&all));
    let back: String = serde_json::from_str(&quoted).unwrap();
    assert_eq!(back, all);
}

#[test]
fn decimals() {
    for n in [0, 7, 10, 99, 100, 1009, u64::MAX] {
        let mut out = String::from("#");
        push_decimal(&mut out, n);
        assert_eq!(out, format!("#{}", n));
    }
}

#[test]
fn ascii_case() {
    assert_eq!(to_ascii_lowercase("AZaz[@É9"), "azaz[@É9");
    assert!(eq_ignore_ascii_case("fOiL", "Foil"));
    assert!(!eq_ignore_ascii_case("foil", "Foil "));
    assert!(!eq_ignore_ascii_case("É", "é"));
    assert!(same_text("", ""));
    assert!(same_text("→", "→"));
    assert!(!same_text("a", "A"));
    assert!(!same_text("a", "ab"));
}

#[test]
fn suffixes() {
    assert_eq!(trim_end_matches("red seal", " seal"), "red");
    assert_eq!(trim_end_matches("red seal seal", " seal"), "red");
    assert_eq!(trim_end_matches("red", " seal"), "red");
    assert_eq!(trim_end_matches(" seal", " seal"), "");
    assert_eq!(trim_end_matches("seal", " seal"), "seal");
    assert_eq!(trim_end_matches("é seal", " seal"), "é");
    assert_eq!(trim_end_matches("abc", ""), "abc");
}

#[test]
fn the_default_filter_is_empty() {
    assert_eq!(Filter::default().clauses.len(), 0);
}
