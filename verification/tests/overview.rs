use balatro_seed_engine::analyze::{write_pack, write_shop_slot};
use balatro_seed_engine::analyze_seed_basic;
use balatro_seed_engine::dialogue::{Reply, Request, Stop};
use balatro_seed_engine::draws::{
    Edition, PackContents, Rarity, Seal, ShopItemType, ShopSlot, StandardCard, Stickers,
};
use balatro_seed_engine::state::{Deck, Stake};

fn slot(item: &str) -> ShopSlot {
    ShopSlot {
        kind: ShopItemType::PlayingCard,
        item: item.to_string(),
        edition: Edition::NoEdition,
        rarity: None,
        stickers: Stickers { eternal: false, perishable: false, rental: false },
    }
}

/// Answers requests with what they ask for, counted.
struct Counter {
    asked: usize,
    instances: usize,
}

impl Counter {
    fn answer(&mut self, request: Request) -> Reply {
        self.asked += 1;
        let tagged = |what: &str, ante: i32, n: usize| format!("{}{}.{}", what, ante, n);
        match request {
            Request::FreshInstance { seed, deck, stake } => {
                assert_eq!(seed, "SEED");
                assert_eq!(deck, Deck::Blue);
                assert_eq!(stake, Stake::Green);
                self.instances += 1;
                Reply::Ready
            }
            Request::NextBoss { ante } => Reply::Name(tagged("boss", ante, self.asked)),
            Request::NextVoucher { ante } => Reply::Name(tagged("voucher", ante, self.asked)),
            Request::NextTag { ante } => Reply::Name(tagged("tag", ante, self.asked)),
            Request::NextPack { ante } => Reply::Name(tagged("pack", ante, self.asked)),
            Request::NextShopItem { ante } => Reply::Slot(slot(&tagged("item", ante, self.asked))),
            Request::OpenPackDetailed { pack, ante } => {
                Reply::Contents(PackContents::Jokers(vec![pack, tagged("in", ante, self.asked)]))
            }
            other => panic!("{:?}", other),
        }
    }
}

fn overview(max_ante: u8) -> (String, Counter) {
    let mut counter = Counter { asked: 0, instances: 0 };
    let mut replies = vec![];
    loop {
        match analyze_seed_basic("SEED", max_ante, 1, 2, &replies) {
            Ok(text) => return (text, counter),
            Err(Stop::Need(request)) => {
                let reply = counter.answer(request);
                replies.push(reply);
            }
            Err(other) => panic!("{:?}", other),
        }
    }
}

#[test]
fn one_ante() {
    let item = |n: usize| {
        let mut s = String::from("{\"type\":\"Playing Card\",\"item\":\"item1.");
        s.push_str(&n.to_string());
        s.push_str("\",\"edition\":\"\",\"rarity\":\"\",\"eternal\":false,");
        s.push_str("\"perishable\":false,\"rental\":false}");
        s
    };
    let pack = |n: usize| {
        let next = n + 1;
        let mut s = String::from("{\"name\":\"pack1.");
        s.push_str(&n.to_string());
        s.push_str("\",\"contents\":[\"pack1.");
        s.push_str(&n.to_string());
        s.push_str("\",\"in1.");
        s.push_str(&next.to_string());
        s.push_str("\"]}");
        s
    };
    let mut expected = String::from("{\"ok\":true,\"seed\":\"SEED\",\"antes\":[{\"ante\":1,");
    expected.push_str("\"boss\":\"boss1.2\",\"voucher\":\"voucher1.4\",");
    expected.push_str("\"small_tag\":\"tag1.6\",\"big_tag\":\"tag1.7\",\"shop\":[");
    let items: Vec<String> = (9..15).map(item).collect();
    expected.push_str(&items.join(","));
    expected.push_str("],\"packs\":[");
    let packs: Vec<String> = [16, 18, 20, 22].iter().map(|n| pack(*n)).collect();
    expected.push_str(&packs.join(","));
    expected.push_str("]}]}");
    let (text, counter) = overview(1);
    assert_eq!(text, expected);
    assert_eq!(counter.asked, 23);
    assert_eq!(counter.instances, 5);
}

#[test]
fn antes_are_at_least_one_and_at_most_sixteen() {
    for (max_ante, antes) in [(0, 1), (1, 1), (3, 3), (16, 16), (17, 16), (255, 16)] {
        let (text, counter) = overview(max_ante);
        let value: serde_json::Value = serde_json::from_str(&text).unwrap();
        let list = value["antes"].as_array().unwrap();
        assert_eq!(list.len(), antes);
        assert_eq!(counter.asked, 23 * antes);
        for (i, ante) in list.iter().enumerate() {
            assert_eq!(ante["ante"], i + 1);
            assert_eq!(ante["shop"].as_array().unwrap().len(), 6);
            assert_eq!(ante["packs"].as_array().unwrap().len(), 4);
        }
    }
}

#[test]
fn a_slot_of_the_shop() {
    let mut out = String::from("<");
    write_shop_slot(
        &mut out,
        &ShopSlot {
            kind: ShopItemType::Joker,
            item: "Mr. \"Bones\"".to_string(),
            edition: Edition::Holographic,
            rarity: Some(Rarity::Uncommon),
            stickers: Stickers { eternal: true, perishable: false, rental: true },
        },
    );
    let mut expected = String::from("<{\"type\":\"Joker\",\"item\":\"Mr. \\\"Bones\\\"\",");
    expected.push_str("\"edition\":\"Holographic\",\"rarity\":\"Uncommon\",");
    expected.push_str("\"eternal\":true,\"perishable\":false,\"rental\":true}");
    assert_eq!(out, expected);
}

#[test]
fn packs_of_all_kinds() {
    let written = |contents: PackContents| {
        let mut out = String::new();
        write_pack(&mut out, "P\t", &contents);
        out
    };
    let two = || vec!["a".to_string(), "b\"".to_string()];
    let both = "{\"name\":\"P\\t\",\"contents\":[\"a\",\"b\\\"\"]}";
    assert_eq!(written(PackContents::Tarots(two())), both);
    assert_eq!(written(PackContents::Planets(two())), both);
    assert_eq!(written(PackContents::Spectrals(two())), both);
    assert_eq!(written(PackContents::Jokers(two())), both);
    let none = "{\"name\":\"P\\t\",\"contents\":[]}";
    assert_eq!(written(PackContents::Jokers(vec![])), none);
    assert_eq!(written(PackContents::Standard), none);
    assert_eq!(written(PackContents::Unknown), none);
    let card = StandardCard {
        base: "H_A".to_string(),
        enhancement: Some("Glass".to_string()),
        edition: Edition::Foil,
        seal: Seal::Gold,
    };
    assert_eq!(
        written(PackContents::StandardCards(vec![card])),
        "{\"name\":\"P\\t\",\"contents\":[\"H_A\"]}"
    );
}

#[test]
fn a_wrong_reply_stops_the_overview() {
    assert!(matches!(
        analyze_seed_basic("SEED", 1, 1, 2, &vec![Reply::Ready, Reply::Ready]),
        Err(Stop::Mismatch(1))
    ));
}
