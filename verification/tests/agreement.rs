use balatro_seed_engine::dialogue::{Reply, Request, Stop};
use balatro_seed_engine::draws::{Edition, PackContents, Rarity, ShopItemType, ShopSlot, Stickers};
use balatro_seed_engine::filter::{Clause, Filter};
use balatro_seed_engine::{analyze_seed_basic, inspect_seed};

/// A game whose draws depend on the instance's draws so far, and on nothing else.
struct Game {
    drawn: usize,
}

impl Game {
    fn name(&mut self, what: &str, ante: i32) -> String {
        self.drawn += 1;
        format!("{} {}-{}", what, ante, self.drawn)
    }

    fn answer(&mut self, request: Request) -> Reply {
        match request {
            Request::FreshInstance { .. } => {
                self.drawn = 0;
                Reply::Ready
            }
            Request::NextBoss { ante } => Reply::Name(self.name("boss", ante)),
            Request::NextVoucher { ante } => Reply::Name(self.name("voucher", ante)),
            Request::NextTag { ante } => Reply::Name(self.name("tag", ante)),
            Request::NextPack { ante } => Reply::Name(self.name("pack", ante)),
            Request::NextShopItem { ante } => Reply::Slot(ShopSlot {
                kind: ShopItemType::Joker,
                item: self.name("joker", ante),
                edition: Edition::NoEdition,
                rarity: Some(Rarity::Rare),
                stickers: Stickers { eternal: false, perishable: false, rental: false },
            }),
            Request::OpenPackDetailed { pack, ante } => {
                let item = self.name("card", ante);
                Reply::Contents(PackContents::Tarots(vec![format!("{} of {}", item, pack)]))
            }
            other => panic!("{:?}", other),
        }
    }
}

fn converse(run: &dyn Fn(&Vec<Reply>) -> Result<String, Stop>) -> serde_json::Value {
    let mut game = Game { drawn: 0 };
    let mut replies = vec![];
    let text = loop {
        match run(&replies) {
            Ok(text) => break text,
            Err(Stop::Need(request)) => {
                let reply = game.answer(request);
                replies.push(reply);
            }
            Err(other) => panic!("{:?}", other),
        }
    };
    replies.push(Reply::Ready);
    assert_eq!(run(&replies).unwrap(), text);
    serde_json::from_str(&text).unwrap()
}

fn overview() -> serde_json::Value {
    converse(&|replies| analyze_seed_basic("S", 2, 0, 0, replies))
}

fn inspect(clause: &dyn Fn() -> Clause) -> serde_json::Value {
    converse(&|replies| {
        let filter = Ok(Filter { clauses: vec![clause()] });
        inspect_seed(&filter, "S", 0, 0, replies)
    })
}

fn text(value: &serde_json::Value) -> String {
    value.as_str().unwrap().to_string()
}

#[test]
fn clauses_judge_what_the_overview_shows() {
    let seen = overview();
    let ante = &seen["antes"][1];
    let boss = text(&ante["boss"]);
    let voucher = text(&ante["voucher"]);
    let small = text(&ante["small_tag"]);
    let big = text(&ante["big_tag"]);
    let joker = text(&ante["shop"][5]["item"]);
    let card = text(&ante["packs"][3]["contents"][0]);
    let reports = [
        inspect(&|| Clause::AnteBossIs { ante: 2, boss: boss.clone() }),
        inspect(&|| Clause::VoucherIs { ante: 2, voucher: voucher.clone() }),
        inspect(&|| Clause::AnteTagIs { ante: 2, position: 0, tag: small.clone() }),
        inspect(&|| Clause::AnteTagIs { ante: 2, position: 1, tag: big.clone() }),
        inspect(&|| Clause::AnteShopHasJoker {
            ante: 2,
            slot: 5,
            joker: joker.clone(),
            edition: None,
            sticker: None,
        }),
        inspect(&|| Clause::AnteAnyPackContains { ante: 2, max_packs: 4, card: card.clone() }),
    ];
    for report in reports {
        assert_eq!(report["matched"], 1);
        assert_eq!(report["clauses"][0]["matched"], true);
    }
    let short = inspect(&|| Clause::AnteShopHasJoker {
        ante: 2,
        slot: 4,
        joker: joker.clone(),
        edition: None,
        sticker: None,
    });
    assert_eq!(short["matched"], 0);
    let few =
        inspect(&|| Clause::AnteAnyPackContains { ante: 2, max_packs: 3, card: card.clone() });
    assert_eq!(few["matched"], 0);
    let swapped = inspect(&|| Clause::AnteTagIs { ante: 2, position: 0, tag: big.clone() });
    assert_eq!(swapped["matched"], 0);
}

#[test]
fn all_clauses_are_met_where_the_numbers_agree() {
    let report = converse(&|replies| {
        let filter = Ok(Filter {
            clauses: vec![
                Clause::AnteBossIs { ante: 1, boss: "boss 1-1".to_string() },
                Clause::VoucherIs { ante: 1, voucher: "voucher 1-1".to_string() },
            ],
        });
        inspect_seed(&filter, "S", 0, 0, replies)
    });
    assert_eq!(report["matched"], 2);
    assert_eq!(report["total"], 2);
}
