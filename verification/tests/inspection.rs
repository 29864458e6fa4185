use balatro_seed_engine::dialogue::{Reply, Request, Stop, Tape};
use balatro_seed_engine::draws::{
    Edition, PackContents, Rarity, Seal, ShopItemType, ShopSlot, StandardCard, Stickers,
};
use balatro_seed_engine::filter::{Clause, Filter};
use balatro_seed_engine::inspect::inspect_clause;
use balatro_seed_engine::inspect_seed;
use balatro_seed_engine::state::{Deck, Stake};

fn name(s: &str) -> Reply {
    Reply::Name(s.to_string())
}

fn names(list: &[&str]) -> Vec<String> {
    list.iter().map(|s| s.to_string()).collect()
}

fn stickers(eternal: bool, perishable: bool, rental: bool) -> Stickers {
    Stickers { eternal, perishable, rental }
}

fn shop(kind: ShopItemType, item: &str, edition: Edition, stickers: Stickers) -> Reply {
    Reply::Slot(ShopSlot {
        kind,
        item: item.to_string(),
        edition,
        rarity: Some(Rarity::Common),
        stickers,
    })
}

fn joker(item: &str) -> Reply {
    shop(ShopItemType::Joker, item, Edition::NoEdition, stickers(false, false, false))
}

fn card(base: &str, enhancement: Option<&str>, edition: Edition, seal: Seal) -> StandardCard {
    StandardCard {
        base: base.to_string(),
        enhancement: enhancement.map(|s| s.to_string()),
        edition,
        seal,
    }
}

fn spectrals(list: &[&str]) -> Reply {
    Reply::Contents(PackContents::Spectrals(names(list)))
}

fn run(clause: &Clause, replies: &Vec<Reply>) -> Result<(bool, String), Stop> {
    let mut tape = Tape { replies, used: 0 };
    inspect_clause(clause, "SEED", 0, 0, &mut tape)
}

fn verdict(clause: &Clause, replies: Vec<Reply>) -> (bool, String) {
    let mut tape = Tape { replies: &replies, used: 0 };
    let res = inspect_clause(clause, "SEED", 0, 0, &mut tape).unwrap();
    assert_eq!(tape.used, replies.len());
    res
}

fn shop_clause(slot: u8, edition: Option<&str>, sticker: Option<&str>) -> Clause {
    Clause::AnteShopHasJoker {
        ante: 2,
        slot,
        joker: "Blueprint".to_string(),
        edition: edition.map(|s| s.to_string()),
        sticker: sticker.map(|s| s.to_string()),
    }
}

fn met(detail: &str) -> (bool, String) {
    (true, detail.to_string())
}

fn not_met(detail: &str) -> (bool, String) {
    (false, detail.to_string())
}

#[test]
fn the_first_slot_with_the_joker_decides() {
    assert_eq!(
        verdict(&shop_clause(3, None, None), vec![Reply::Ready, joker("Joker"), joker("Blueprint")]),
        met("ante 2 · shop slot 1")
    );
}

#[test]
fn the_kind_counts() {
    let tarot = shop(
        ShopItemType::Tarot,
        "Blueprint",
        Edition::NoEdition,
        stickers(false, false, false),
    );
    assert_eq!(
        verdict(&shop_clause(1, None, None), vec![Reply::Ready, tarot, joker("Joker")]),
        not_met("no match in ante 2 shop slots 0..1")
    );
}

#[test]
fn all_slots_are_sixteen() {
    let mut replies = vec![Reply::Ready];
    for _ in 0..16 {
        replies.push(joker("Joker"));
    }
    assert_eq!(
        verdict(&shop_clause(255, None, None), replies),
        not_met("no match in ante 2 shop slots 0..15")
    );
    let mut replies = vec![Reply::Ready];
    for _ in 0..255 {
        replies.push(joker("Joker"));
    }
    assert_eq!(
        verdict(&shop_clause(254, None, None), replies),
        not_met("no match in ante 2 shop slots 0..254")
    );
}

#[test]
fn editions_and_stickers() {
    let fancy = |e: Edition, s: Stickers| shop(ShopItemType::Joker, "Blueprint", e, s);
    assert_eq!(
        verdict(
            &shop_clause(5, Some("FOIL"), Some("Eternal")),
            vec![
                Reply::Ready,
                fancy(Edition::Negative, stickers(true, false, false)),
                fancy(Edition::Foil, stickers(false, true, true)),
                fancy(Edition::Foil, stickers(true, false, true)),
            ]
        ),
        met("ante 2 · shop slot 2 [Foil] [Eternal] [Rental]")
    );
    assert_eq!(
        verdict(
            &shop_clause(0, None, Some("PERISHABLE")),
            vec![Reply::Ready, fancy(Edition::NoEdition, stickers(false, true, false))]
        ),
        met("ante 2 · shop slot 0 [Perishable]")
    );
    assert_eq!(
        verdict(
            &shop_clause(0, None, Some("rental")),
            vec![Reply::Ready, fancy(Edition::NoEdition, stickers(true, true, false))]
        ),
        not_met("no match in ante 2 shop slots 0..0")
    );
    assert_eq!(
        verdict(
            &shop_clause(0, Some(""), Some("sparkly")),
            vec![Reply::Ready, fancy(Edition::NoEdition, stickers(false, false, false))]
        ),
        met("ante 2 · shop slot 0")
    );
}

#[test]
fn tags() {
    let clause = |position: u8| Clause::AnteTagIs {
        ante: 1,
        position,
        tag: "Charm Tag".to_string(),
    };
    assert_eq!(
        verdict(&clause(0), vec![Reply::Ready, name("Charm Tag")]),
        met("ante 1 · small blind tag = Charm Tag")
    );
    assert_eq!(
        verdict(&clause(1), vec![Reply::Ready, name("Charm Tag"), name("Top-up Tag")]),
        not_met("ante 1 · big blind tag = Top-up Tag (wanted Charm Tag)")
    );
    assert_eq!(
        verdict(&clause(2), vec![Reply::Ready, name("A"), name("B"), name("Charm Tag")]),
        met("ante 1 · big blind tag = Charm Tag")
    );
}

#[test]
fn bosses_and_vouchers() {
    let boss = Clause::AnteBossIs { ante: 8, boss: "The Hook".to_string() };
    assert_eq!(
        verdict(&boss, vec![Reply::Ready, name("The Hook")]),
        met("ante 8 boss = The Hook")
    );
    assert_eq!(
        verdict(&boss, vec![Reply::Ready, name("The Wall")]),
        not_met("ante 8 boss = The Wall (wanted The Hook)")
    );
    let voucher = Clause::VoucherIs { ante: 3, voucher: "Telescope".to_string() };
    assert_eq!(
        verdict(&voucher, vec![Reply::Ready, name("Telescope")]),
        met("ante 3 voucher = Telescope")
    );
    assert_eq!(
        verdict(&voucher, vec![Reply::Ready, name("Hone")]),
        not_met("ante 3 voucher = Hone (wanted Telescope)")
    );
}

#[test]
fn one_pack() {
    let clause = Clause::AntePackContains { ante: 1, pack_index: 1, card: "Death".to_string() };
    assert_eq!(
        verdict(
            &clause,
            vec![
                Reply::Ready,
                name("Buffoon Pack"),
                name("Arcana Pack"),
                Reply::Contents(PackContents::Tarots(names(&["The Fool", "Death"]))),
            ]
        ),
        met("ante 1 pack #1 (Arcana Pack) contains Death")
    );
    assert_eq!(
        verdict(
            &clause,
            vec![
                Reply::Ready,
                name("A"),
                name("Standard Pack"),
                Reply::Contents(PackContents::Unknown),
            ]
        ),
        not_met("ante 1 pack #1 (Standard Pack) does not contain Death")
    );
}

#[test]
fn any_pack() {
    let clause =
        Clause::AnteAnyPackContains { ante: 4, max_packs: 2, card: "H_A".to_string() };
    let ace = PackContents::StandardCards(vec![card("H_A", None, Edition::NoEdition, Seal::NoSeal)]);
    assert_eq!(
        verdict(
            &clause,
            vec![Reply::Ready, name("P"), spectrals(&[]), name("Q"), Reply::Contents(ace)]
        ),
        met("ante 4 pack #1 (Q) contains H_A")
    );
    assert_eq!(
        verdict(
            &clause,
            vec![Reply::Ready, name("P"), spectrals(&[]), name("Q"), spectrals(&["X"])]
        ),
        not_met("ante 4 · no pack in first 2 contained H_A")
    );
    let none = Clause::AnteAnyPackContains { ante: 4, max_packs: 0, card: "X".to_string() };
    assert_eq!(
        verdict(&none, vec![Reply::Ready]),
        not_met("ante 4 · no pack in first 0 contained X")
    );
}

#[test]
fn souls_and_wraiths() {
    let soul = Clause::AnteSoulIs { ante: 1, max_packs: 2, joker: "Perkeo".to_string() };
    assert_eq!(
        verdict(
            &soul,
            vec![
                Reply::Ready,
                name("P"),
                spectrals(&["Wraith"]),
                name("Q"),
                spectrals(&["Aura", "The Soul"]),
                name("Perkeo"),
            ]
        ),
        met("ante 1 pack #1 (Q) · Soul → Perkeo")
    );
    assert_eq!(
        verdict(&soul, vec![Reply::Ready, name("P"), spectrals(&["The Soul"]), name("Yorick")]),
        not_met("ante 1 pack #0 (P) · Soul → Yorick (wanted Perkeo)")
    );
    assert_eq!(
        verdict(
            &soul,
            vec![Reply::Ready, name("P"), spectrals(&["Soul"]), name("Q"), spectrals(&[])]
        ),
        not_met("ante 1 · no Soul in first 2 packs")
    );
    let wraith = Clause::AnteWraithIs { ante: 6, max_packs: 1, joker: "Baron".to_string() };
    assert_eq!(
        verdict(&wraith, vec![Reply::Ready, name("P"), spectrals(&["Wraith"]), name("Baron")]),
        met("ante 6 pack #0 (P) · Wraith → Baron")
    );
    assert_eq!(
        verdict(&wraith, vec![Reply::Ready, name("P"), spectrals(&["Wraith"]), name("Stuntman")]),
        not_met("ante 6 pack #0 (P) · Wraith → Stuntman (wanted Baron)")
    );
    assert_eq!(
        verdict(&wraith, vec![Reply::Ready, name("P"), spectrals(&["The Soul"])]),
        not_met("ante 6 · no Wraith in first 1 packs")
    );
}

fn card_clause(
    base: &str,
    enhancement: Option<&str>,
    edition: Option<&str>,
    seal: Option<&str>,
) -> Clause {
    Clause::AnteStandardCardIs {
        ante: 1,
        max_packs: 1,
        base: base.to_string(),
        enhancement: enhancement.map(|s| s.to_string()),
        edition: edition.map(|s| s.to_string()),
        seal: seal.map(|s| s.to_string()),
    }
}

fn pack_of_cards() -> Vec<Reply> {
    vec![
        Reply::Ready,
        name("Standard Pack"),
        Reply::Contents(PackContents::StandardCards(vec![
            card("H_2", None, Edition::NoEdition, Seal::NoSeal),
            card("S_A", Some("Glass"), Edition::Foil, Seal::Red),
            card("S_A", Some("Lucky"), Edition::Polychrome, Seal::Purple),
        ])),
    ]
}

#[test]
fn playing_cards() {
    let hit = |ci: usize, base: &str| {
        met(&format!("ante 1 pack #0 (Standard Pack) · card {} = {}", ci, base))
    };
    let miss = || not_met("ante 1 · no matching standard card in first 1 packs");
    let ask = |c: Clause| verdict(&c, pack_of_cards());
    assert_eq!(ask(card_clause("", None, None, None)), hit(0, "H_2"));
    assert_eq!(ask(card_clause("S_A", None, None, None)), hit(1, "S_A"));
    assert_eq!(ask(card_clause("s_a", None, None, None)), miss());
    assert_eq!(ask(card_clause("", Some("lucky"), None, None)), hit(2, "S_A"));
    assert_eq!(ask(card_clause("H_2", Some("Glass"), None, None)), miss());
    assert_eq!(ask(card_clause("", None, Some("POLYCHROME"), None)), hit(2, "S_A"));
    assert_eq!(ask(card_clause("S_A", None, Some(""), None)), miss());
    assert_eq!(ask(card_clause("", None, None, Some("Purple"))), hit(2, "S_A"));
    assert_eq!(ask(card_clause("", None, None, Some("RED Seal"))), hit(1, "S_A"));
    assert_eq!(ask(card_clause("", None, None, Some("red seal seal"))), hit(1, "S_A"));
    assert_eq!(ask(card_clause("", None, None, Some(" seal"))), hit(0, "H_2"));
    assert_eq!(ask(card_clause("", None, None, Some("Blue"))), miss());
    assert_eq!(ask(card_clause("", None, None, Some("Gold Seal"))), miss());
    assert_eq!(
        verdict(
            &card_clause("", None, None, None),
            vec![Reply::Ready, name("P"), Reply::Contents(PackContents::Standard)]
        ),
        miss()
    );
}

#[test]
fn any_of() {
    let boss = |b: &str| Clause::AnteBossIs { ante: 1, boss: b.to_string() };
    let clause = Clause::AnyOf { clauses: vec![boss("A"), boss("B"), boss("C")] };
    assert_eq!(
        verdict(&clause, vec![Reply::Ready, name("B"), Reply::Ready, name("B")]),
        met("any_of[1]: ante 1 boss = B")
    );
    assert_eq!(
        verdict(
            &clause,
            vec![Reply::Ready, name("X"), Reply::Ready, name("X"), Reply::Ready, name("X")]
        ),
        not_met("no sub-clause matched")
    );
    assert_eq!(
        verdict(&Clause::AnyOf { clauses: vec![] }, vec![]),
        not_met("no sub-clause matched")
    );
    let nested = Clause::AnyOf {
        clauses: vec![boss("A"), Clause::AnyOf { clauses: vec![boss("A"), boss("B")] }],
    };
    assert_eq!(
        verdict(
            &nested,
            vec![Reply::Ready, name("B"), Reply::Ready, name("B"), Reply::Ready, name("B")]
        ),
        met("any_of[1]: any_of[1]: ante 1 boss = B")
    );
}

#[test]
fn requests_come_in_order() {
    let soul = Clause::AnteSoulIs { ante: 7, max_packs: 1, joker: "Perkeo".to_string() };
    let mut replies = vec![];
    match run(&soul, &replies) {
        Err(Stop::Need(Request::FreshInstance { seed, deck, stake })) => {
            assert_eq!(seed, "SEED");
            assert_eq!(deck, Deck::Red);
            assert_eq!(stake, Stake::White);
        }
        other => panic!("{:?}", other),
    }
    replies.push(Reply::Ready);
    assert!(matches!(run(&soul, &replies), Err(Stop::Need(Request::NextPack { ante: 7 }))));
    replies.push(name("Spectral Pack"));
    match run(&soul, &replies) {
        Err(Stop::Need(Request::OpenPack { pack, ante: 7 })) => assert_eq!(pack, "Spectral Pack"),
        other => panic!("{:?}", other),
    }
    replies.push(spectrals(&["The Soul"]));
    assert!(matches!(
        run(&soul, &replies),
        Err(Stop::Need(Request::ResolveSoulLegendary { ante: 7 }))
    ));
    replies.push(name("Perkeo"));
    assert!(run(&soul, &replies).unwrap().0);
    replies.push(Reply::Ready);
    assert!(run(&soul, &replies).unwrap().0);
}

#[test]
fn every_clause_asks_for_its_own_draw() {
    let wraith = Clause::AnteWraithIs { ante: 1, max_packs: 1, joker: String::new() };
    assert!(matches!(
        run(&wraith, &vec![Reply::Ready, name("P"), spectrals(&["Wraith"])]),
        Err(Stop::Need(Request::ResolveWraithRare { ante: 1 }))
    ));
    let ready = vec![Reply::Ready];
    assert!(matches!(
        run(&shop_clause(0, None, None), &ready),
        Err(Stop::Need(Request::NextShopItem { ante: 2 }))
    ));
    let tag = Clause::AnteTagIs { ante: 3, position: 0, tag: String::new() };
    assert!(matches!(run(&tag, &ready), Err(Stop::Need(Request::NextTag { ante: 3 }))));
    let boss = Clause::AnteBossIs { ante: 4, boss: String::new() };
    assert!(matches!(run(&boss, &ready), Err(Stop::Need(Request::NextBoss { ante: 4 }))));
    let voucher = Clause::VoucherIs { ante: 5, voucher: String::new() };
    assert!(matches!(run(&voucher, &ready), Err(Stop::Need(Request::NextVoucher { ante: 5 }))));
    let pack = Clause::AntePackContains { ante: 6, pack_index: 0, card: String::new() };
    assert!(matches!(
        run(&pack, &vec![Reply::Ready, name("P")]),
        Err(Stop::Need(Request::OpenPackDetailed { ante: 6, .. }))
    ));
}

#[test]
fn a_wrong_reply_is_named_by_its_index() {
    let boss = Clause::AnteBossIs { ante: 4, boss: String::new() };
    assert!(matches!(run(&boss, &vec![name("X")]), Err(Stop::Mismatch(0))));
    assert!(matches!(run(&boss, &vec![Reply::Ready, Reply::Ready]), Err(Stop::Mismatch(1))));
    assert!(matches!(
        run(&shop_clause(0, None, None), &vec![Reply::Ready, name("X")]),
        Err(Stop::Mismatch(1))
    ));
}

#[test]
fn the_report() {
    let filter = Ok(Filter {
        clauses: vec![
            Clause::AnteBossIs { ante: 1, boss: "The \"Hook\"".to_string() },
            Clause::VoucherIs { ante: 1, voucher: "Hone".to_string() },
        ],
    });
    let replies = vec![Reply::Ready, name("The \"Hook\""), Reply::Ready, name("Grabber")];
    assert_eq!(
        inspect_seed(&filter, "S\\1", 0, 0, &replies).unwrap(),
        concat_all(&[
            "{\"ok\":true,\"seed\":\"S\\\\1\",\"clauses\":[",
            "{\"index\":0,\"matched\":true,\"detail\":\"ante 1 boss = The \\\"Hook\\\"\"},",
            "{\"index\":1,\"matched\":false,",
            "\"detail\":\"ante 1 voucher = Grabber (wanted Hone)\"}",
            "],\"matched\":1,\"total\":2}",
        ])
    );
}

fn concat_all(parts: &[&str]) -> String {
    parts.concat()
}

#[test]
fn the_report_without_clauses() {
    let filter = Ok(Filter { clauses: vec![] });
    assert_eq!(
        inspect_seed(&filter, "", 0, 0, &vec![]).unwrap(),
        "{\"ok\":true,\"seed\":\"\",\"clauses\":[],\"matched\":0,\"total\":0}"
    );
}

#[test]
fn the_report_on_an_unreadable_filter() {
    let filter = Err("expected `,` or `}` at line 1 column \"2\"".to_string());
    assert_eq!(
        inspect_seed(&filter, "S", 0, 0, &vec![]).unwrap(),
        "{\"ok\":false,\"error\":\"expected `,` or `}` at line 1 column \\\"2\\\"\"}"
    );
}

#[test]
fn the_report_is_json() {
    let filter = Ok(Filter {
        clauses: vec![Clause::AnteBossIs { ante: 1, boss: "tab\tquote\"".to_string() }],
    });
    let text = inspect_seed(&filter, "\u{1}", 3, 4, &vec![Reply::Ready, name("\\\n")]).unwrap();
    let value: serde_json::Value = serde_json::from_str(&text).unwrap();
    assert_eq!(value["ok"], true);
    assert_eq!(value["seed"], "\u{1}");
    assert_eq!(value["matched"], 0);
    assert_eq!(value["total"], 1);
    assert_eq!(value["clauses"][0]["index"], 0);
    assert_eq!(
        value["clauses"][0]["detail"],
        "ante 1 boss = \\\n (wanted tab\tquote\")"
    );
}

#[test]
fn the_report_asks_on() {
    let filter = Ok(Filter {
        clauses: vec![
            Clause::AnteBossIs { ante: 1, boss: "A".to_string() },
            Clause::AnteBossIs { ante: 2, boss: "B".to_string() },
        ],
    });
    let replies = vec![Reply::Ready, name("A"), Reply::Ready];
    assert!(matches!(
        inspect_seed(&filter, "S", 0, 0, &replies),
        Err(Stop::Need(Request::NextBoss { ante: 2 }))
    ));
    let replies = vec![Reply::Ready, name("A")];
    match inspect_seed(&filter, "S", 13, 6, &replies) {
        Err(Stop::Need(Request::FreshInstance { seed, deck, stake })) => {
            assert_eq!(seed, "S");
            assert_eq!(deck, Deck::Plasma);
            assert_eq!(stake, Stake::Orange);
        }
        other => panic!("{:?}", other),
    }
}
