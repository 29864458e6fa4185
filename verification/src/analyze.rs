//! The overview of a seed: what every ante offers, as a JSON document.
use vstd::prelude::*;

use crate::dialogue;
use crate::dialogue::Ask;
use crate::dialogue::Game;
use crate::dialogue::Reply;
use crate::dialogue::Request;
use crate::dialogue::Run;
use crate::dialogue::Stop;
use crate::dialogue::Tape;
use crate::draws;
use crate::draws::PackContents;
use crate::draws::ShopSlot;
use crate::draws::StandardCard;
use crate::json;
use crate::json::Json;
use crate::report;
use crate::showing;
use crate::state;

verus! {

/// How many slots of the shop the overview shows.
pub const SHOP_SLOTS: usize = 6;

/// How many booster packs the overview shows.
pub const PACKS: usize = 4;

/// How many antes the overview shows at most.
pub const MAX_ANTES: u8 = 16;

/// What an ante offers.
pub struct AnteDraws {
    pub boss: Seq<char>,
    pub voucher: Seq<char>,
    pub small_tag: Seq<char>,
    pub big_tag: Seq<char>,
    pub shop: Seq<ShopSlot>,
    pub packs: Seq<(Seq<char>, PackContents)>,
}

// ---------------------------------------------------------------------------
// The documents
// ---------------------------------------------------------------------------

/// A slot of the shop. The rarity is empty where there is none.
pub open spec fn slot_doc(slot: ShopSlot) -> Json {
    Json::Obj(
        seq![
            ("type"@, Json::Str(draws::shop_kind_label(slot.kind))),
            ("item"@, Json::Str(slot.item@)),
            ("edition"@, Json::Str(draws::edition_label(slot.edition))),
            (
                "rarity"@,
                Json::Str(
                    match slot.rarity {
                        Some(rarity) => draws::rarity_label(rarity),
                        None => ""@,
                    },
                ),
            ),
            ("eternal"@, Json::Bool(slot.stickers.eternal)),
            ("perishable"@, Json::Bool(slot.stickers.perishable)),
            ("rental"@, Json::Bool(slot.stickers.rental)),
        ],
    )
}

/// An array of strings.
pub open spec fn strings(list: Seq<Seq<char>>) -> Seq<Json> {
    list.map_values(|s: Seq<char>| Json::Str(s))
}

/// A booster pack with all that it shows.
pub open spec fn pack_doc(name: Seq<char>, contents: PackContents) -> Json {
    Json::Obj(
        seq![("name"@, Json::Str(name)), ("contents"@, Json::Arr(strings(draws::shown(contents))))],
    )
}

/// All slots of the shop.
pub open spec fn slot_docs(slots: Seq<ShopSlot>) -> Seq<Json> {
    slots.map_values(|slot: ShopSlot| slot_doc(slot))
}

/// All booster packs.
pub open spec fn pack_docs(packs: Seq<(Seq<char>, PackContents)>) -> Seq<Json> {
    packs.map_values(|pack: (Seq<char>, PackContents)| pack_doc(pack.0, pack.1))
}

/// An ante.
pub open spec fn ante_doc(ante: nat, offer: AnteDraws) -> Json {
    Json::Obj(
        seq![
            ("ante"@, Json::Num(ante)),
            ("boss"@, Json::Str(offer.boss)),
            ("voucher"@, Json::Str(offer.voucher)),
            ("small_tag"@, Json::Str(offer.small_tag)),
            ("big_tag"@, Json::Str(offer.big_tag)),
            ("shop"@, Json::Arr(slot_docs(offer.shop))),
            ("packs"@, Json::Arr(pack_docs(offer.packs))),
        ],
    )
}

/// All antes, numbered from 1.
pub open spec fn ante_docs(offers: Seq<AnteDraws>) -> Seq<Json> {
    Seq::new(offers.len(), |i: int| ante_doc((i + 1) as nat, offers[i]))
}

/// The overview of a seed.
pub open spec fn overview_doc(seed: Seq<char>, offers: Seq<AnteDraws>) -> Json {
    Json::Obj(
        seq![
            ("ok"@, Json::Bool(true)),
            ("seed"@, Json::Str(seed)),
            ("antes"@, Json::Arr(ante_docs(offers))),
        ],
    )
}

/// Appends a slot of the shop.
pub fn write_shop_slot(out: &mut String, slot: &ShopSlot)
    ensures
        final(out)@ == old(out)@ + json::render(slot_doc(*slot)),
{
    let kind = draws::shop_kind_name(slot.kind);
    let edition = draws::edition_name(slot.edition);
    let rarity = match slot.rarity {
        Some(rarity) => draws::rarity_name(rarity),
        None => "",
    };
    let ghost base = out@;
    let ghost m0 = Seq::<(Seq<char>, Json)>::empty();
    let ghost m1 = m0.push(("type"@, Json::Str(kind@)));
    let ghost m2 = m1.push(("item"@, Json::Str(slot.item@)));
    let ghost m3 = m2.push(("edition"@, Json::Str(edition@)));
    let ghost m4 = m3.push(("rarity"@, Json::Str(rarity@)));
    let ghost m5 = m4.push(("eternal"@, Json::Bool(slot.stickers.eternal)));
    let ghost m6 = m5.push(("perishable"@, Json::Bool(slot.stickers.perishable)));
    let ghost m7 = m6.push(("rental"@, Json::Bool(slot.stickers.rental)));
    out.push('{');
    assert(out@ =~= json::open_object(base, m0));
    json::push_str_member(out, 0, "type", kind, Ghost(base), Ghost(m0));
    json::push_str_member(out, 1, "item", slot.item.as_str(), Ghost(base), Ghost(m1));
    json::push_str_member(out, 2, "edition", edition, Ghost(base), Ghost(m2));
    json::push_str_member(out, 3, "rarity", rarity, Ghost(base), Ghost(m3));
    json::push_bool_member(out, 4, "eternal", slot.stickers.eternal, Ghost(base), Ghost(m4));
    json::push_bool_member(
        out,
        5,
        "perishable",
        slot.stickers.perishable,
        Ghost(base),
        Ghost(m5),
    );
    json::push_bool_member(out, 6, "rental", slot.stickers.rental, Ghost(base), Ghost(m6));
    out.push('}');
    proof {
        json::lemma_close_object(base, m7);
        assert(slot_doc(*slot)->Obj_0 =~= m7);
    }
}

/// Appends an array of names.
fn write_names(out: &mut String, list: &Vec<String>)
    ensures
        final(out)@ == old(out)@ + json::render(Json::Arr(strings(draws::names(list@)))),
{
    let ghost base = out@;
    let ghost all = strings(draws::names(list@));
    out.push('[');
    assert(all.take(0) =~= Seq::empty());
    assert(out@ =~= json::open_array(base, all.take(0)));
    let mut i: usize = 0;
    while i < list.len()
        invariant
            i <= list.len(),
            all == strings(draws::names(list@)),
            out@ == json::open_array(base, all.take(i as int)),
        decreases list.len() - i,
    {
        json::push_separator(out, i);
        json::push_quoted(out, list[i].as_str());
        proof {
            json::lemma_next_item(base, all.take(i as int), all[i as int]);
            assert(all.take(i + 1) =~= all.take(i as int).push(all[i as int]));
        }
        i += 1;
    }
    out.push(']');
    proof {
        assert(all.take(i as int) =~= all);
        json::lemma_close_array(base, all);
    }
}

/// Appends an array of base cards.
fn write_bases(out: &mut String, list: &Vec<StandardCard>)
    ensures
        final(out)@ == old(out)@ + json::render(Json::Arr(strings(draws::bases(list@)))),
{
    let ghost base = out@;
    let ghost all = strings(draws::bases(list@));
    out.push('[');
    assert(all.take(0) =~= Seq::empty());
    assert(out@ =~= json::open_array(base, all.take(0)));
    let mut i: usize = 0;
    while i < list.len()
        invariant
            i <= list.len(),
            all == strings(draws::bases(list@)),
            out@ == json::open_array(base, all.take(i as int)),
        decreases list.len() - i,
    {
        json::push_separator(out, i);
        json::push_quoted(out, list[i].base.as_str());
        proof {
            json::lemma_next_item(base, all.take(i as int), all[i as int]);
            assert(all.take(i + 1) =~= all.take(i as int).push(all[i as int]));
        }
        i += 1;
    }
    out.push(']');
    proof {
        assert(all.take(i as int) =~= all);
        json::lemma_close_array(base, all);
    }
}

/// Appends an empty array.
fn write_nothing(out: &mut String)
    ensures
        final(out)@ == old(out)@ + json::render(Json::Arr(Seq::empty())),
{
    let ghost base = out@;
    out.push('[');
    out.push(']');
    proof {
        json::lemma_close_array(base, Seq::empty());
        assert(out@ =~= json::open_array(base, Seq::empty()).push(']'));
    }
}

/// Appends all that a booster pack shows.
fn write_contents(out: &mut String, contents: &PackContents)
    ensures
        final(out)@ == old(out)@ + json::render(Json::Arr(strings(draws::shown(*contents)))),
{
    proof {
        let none = Seq::<Seq<char>>::empty();
        assert(draws::item_names(*contents) + none =~= draws::item_names(*contents));
        assert(none + draws::base_cards(*contents) =~= draws::base_cards(*contents));
        assert(strings(none) =~= Seq::empty());
    }
    match contents {
        PackContents::Tarots(items) => write_names(out, items),
        PackContents::Planets(items) => write_names(out, items),
        PackContents::Spectrals(items) => write_names(out, items),
        PackContents::Jokers(items) => write_names(out, items),
        PackContents::StandardCards(cards) => write_bases(out, cards),
        PackContents::Standard => write_nothing(out),
        PackContents::Unknown => write_nothing(out),
    }
}

/// Appends a booster pack with all that it shows.
pub fn write_pack(out: &mut String, pack_name: &str, contents: &PackContents)
    ensures
        final(out)@ == old(out)@ + json::render(pack_doc(pack_name@, *contents)),
{
    let ghost base = out@;
    let ghost list = Json::Arr(strings(draws::shown(*contents)));
    let ghost m0 = Seq::<(Seq<char>, Json)>::empty();
    let ghost m1 = m0.push(("name"@, Json::Str(pack_name@)));
    let ghost m2 = m1.push(("contents"@, list));
    out.push('{');
    assert(out@ =~= json::open_object(base, m0));
    json::push_str_member(out, 0, "name", pack_name, Ghost(base), Ghost(m0));
    json::push_key(out, 1, "contents");
    write_contents(out, contents);
    proof {
        json::lemma_next_member(base, m1, "contents"@, list);
    }
    out.push('}');
    proof {
        json::lemma_close_object(base, m2);
        assert(pack_doc(pack_name@, *contents)->Obj_0 =~= m2);
    }
}

// ---------------------------------------------------------------------------
// The draws
// ---------------------------------------------------------------------------

/// The run of one request for a name, on a fresh instance of the game.
pub open spec fn fresh_name_at(ask: Ask, game: Game, tape: Seq<Reply>, used: nat) -> Run<
    Seq<char>,
> {
    match dialogue::fresh_at(game, tape, used) {
        Run::Halted(halt) => Run::Halted(halt),
        Run::Done(_, n) => dialogue::name_at(ask, tape, n),
    }
}

/// The run of the requests for the tags of the small and the big blind, on a fresh instance of
/// the game.
pub open spec fn tags_at(ante: u8, game: Game, tape: Seq<Reply>, used: nat) -> Run<
    (Seq<char>, Seq<char>),
> {
    let ask = Ask::NextTag { ante: ante as i32 };
    match fresh_name_at(ask, game, tape, used) {
        Run::Halted(halt) => Run::Halted(halt),
        Run::Done(small, n) => match dialogue::name_at(ask, tape, n) {
            Run::Halted(halt) => Run::Halted(halt),
            Run::Done(big, m) => Run::Done((small, big), m),
        },
    }
}

/// The run of the requests for the slots of the shop, with the slots so far before those to
/// come.
pub open spec fn slots_from(ante: u8, slots: Seq<ShopSlot>, tape: Seq<Reply>, used: nat) -> Run<
    Seq<ShopSlot>,
>
    decreases SHOP_SLOTS - slots.len(),
{
    if slots.len() >= SHOP_SLOTS {
        Run::Done(slots, used)
    } else {
        match dialogue::slot_at(Ask::NextShopItem { ante: ante as i32 }, tape, used) {
            Run::Halted(halt) => Run::Halted(halt),
            Run::Done(slot, n) => slots_from(ante, slots.push(slot), tape, n),
        }
    }
}

/// The run of the requests for the slots of the shop, on a fresh instance of the game.
pub open spec fn shop_at(ante: u8, game: Game, tape: Seq<Reply>, used: nat) -> Run<Seq<ShopSlot>> {
    match dialogue::fresh_at(game, tape, used) {
        Run::Halted(halt) => Run::Halted(halt),
        Run::Done(_, n) => slots_from(ante, Seq::empty(), tape, n),
    }
}

/// The run of the requests for the booster packs, each opened as it is drawn, with the packs so
/// far before those to come.
pub open spec fn packs_from(
    ante: u8,
    packs: Seq<(Seq<char>, PackContents)>,
    tape: Seq<Reply>,
    used: nat,
) -> Run<Seq<(Seq<char>, PackContents)>>
    decreases PACKS - packs.len(),
{
    if packs.len() >= PACKS {
        Run::Done(packs, used)
    } else {
        match dialogue::name_at(Ask::NextPack { ante: ante as i32 }, tape, used) {
            Run::Halted(halt) => Run::Halted(halt),
            Run::Done(pack, n) => match dialogue::contents_at(
                Ask::OpenPackDetailed { pack, ante: ante as i32 },
                tape,
                n,
            ) {
                Run::Halted(halt) => Run::Halted(halt),
                Run::Done(contents, m) => packs_from(ante, packs.push((pack, contents)), tape, m),
            },
        }
    }
}

/// The run of the requests for the booster packs, on a fresh instance of the game.
pub open spec fn packs_at(ante: u8, game: Game, tape: Seq<Reply>, used: nat) -> Run<
    Seq<(Seq<char>, PackContents)>,
> {
    match dialogue::fresh_at(game, tape, used) {
        Run::Halted(halt) => Run::Halted(halt),
        Run::Done(_, n) => packs_from(ante, Seq::empty(), tape, n),
    }
}

/// The run of an ante: the boss, the voucher, the tags, the shop and the booster packs.
pub open spec fn ante_run(ante: u8, game: Game, tape: Seq<Reply>, used: nat) -> Run<AnteDraws> {
    match fresh_name_at(Ask::NextBoss { ante: ante as i32 }, game, tape, used) {
        Run::Halted(halt) => Run::Halted(halt),
        Run::Done(boss, n) => match fresh_name_at(
            Ask::NextVoucher { ante: ante as i32 },
            game,
            tape,
            n,
        ) {
            Run::Halted(halt) => Run::Halted(halt),
            Run::Done(voucher, m) => match tags_at(ante, game, tape, m) {
                Run::Halted(halt) => Run::Halted(halt),
                Run::Done(tags, k) => match shop_at(ante, game, tape, k) {
                    Run::Halted(halt) => Run::Halted(halt),
                    Run::Done(shop, l) => match packs_at(ante, game, tape, l) {
                        Run::Halted(halt) => Run::Halted(halt),
                        Run::Done(packs, end) => Run::Done(
                            AnteDraws {
                                boss,
                                voucher,
                                small_tag: tags.0,
                                big_tag: tags.1,
                                shop,
                                packs,
                            },
                            end,
                        ),
                    },
                },
            },
        },
    }
}

/// The run over the antes up to `last`, with the antes so far before those to come.
pub open spec fn antes_from(
    last: u8,
    offers: Seq<AnteDraws>,
    game: Game,
    tape: Seq<Reply>,
    used: nat,
) -> Run<Seq<AnteDraws>>
    decreases last - offers.len(),
{
    if offers.len() >= last {
        Run::Done(offers, used)
    } else {
        match ante_run((offers.len() + 1) as u8, game, tape, used) {
            Run::Halted(halt) => Run::Halted(halt),
            Run::Done(offer, n) => antes_from(last, offers.push(offer), game, tape, n),
        }
    }
}

/// The last ante of the overview: `max_ante`, but at least the first and at most the sixteenth.
pub open spec fn last_ante(max_ante: u8) -> u8 {
    if max_ante < 1 {
        1
    } else if max_ante > MAX_ANTES {
        MAX_ANTES
    } else {
        max_ante
    }
}

/// The run of an overview.
pub open spec fn overview_run(
    seed: Seq<char>,
    max_ante: u8,
    deck_idx: u8,
    stake_idx: u8,
    tape: Seq<Reply>,
) -> Run<Json> {
    match antes_from(
        last_ante(max_ante),
        Seq::empty(),
        dialogue::game(seed, deck_idx, stake_idx),
        tape,
        0,
    ) {
        Run::Halted(halt) => Run::Halted(halt),
        Run::Done(offers, n) => Run::Done(overview_doc(seed, offers), n),
    }
}

/// What an ante offers, out of the replies.
pub struct Offer<'a> {
    pub boss: &'a str,
    pub voucher: &'a str,
    pub small_tag: &'a str,
    pub big_tag: &'a str,
    pub shop: Vec<&'a ShopSlot>,
    pub packs: Vec<(&'a str, &'a PackContents)>,
}

/// The slots themselves.
pub open spec fn slots_of(slots: Seq<&ShopSlot>) -> Seq<ShopSlot> {
    slots.map_values(|slot: &ShopSlot| *slot)
}

/// The packs themselves.
pub open spec fn packs_of(packs: Seq<(&str, &PackContents)>) -> Seq<(Seq<char>, PackContents)> {
    packs.map_values(|pack: (&str, &PackContents)| (pack.0@, *pack.1))
}

impl<'a> View for Offer<'a> {
    type V = AnteDraws;

    open spec fn view(&self) -> AnteDraws {
        AnteDraws {
            boss: self.boss@,
            voucher: self.voucher@,
            small_tag: self.small_tag@,
            big_tag: self.big_tag@,
            shop: slots_of(self.shop@),
            packs: packs_of(self.packs@),
        }
    }
}

/// Draws the slots of the shop.
fn draw_shop<'a>(
    ante: u8,
    seed: &str,
    deck_idx: u8,
    stake_idx: u8,
    tape: &mut Tape<'a>,
) -> (res: Result<Vec<&'a ShopSlot>, Stop>)
    ensures
        final(tape).replies == old(tape).replies,
        match shop_at(
            ante,
            dialogue::game(seed@, deck_idx, stake_idx),
            old(tape).replies@,
            old(tape).used as nat,
        ) {
            Run::Done(slots, n) => {
                &&& res matches Ok(found)
                &&& slots_of(found@) == slots
                &&& final(tape).used == n
            },
            Run::Halted(halt) => res matches Err(stop) && stop@ == halt,
        },
{
    dialogue::fresh_instance(tape, seed, deck_idx, stake_idx)?;
    let mut slots: Vec<&'a ShopSlot> = Vec::new();
    let ghost start = tape.used as nat;
    assert(slots_of(slots@) =~= Seq::empty());
    #[verifier::loop_isolation(false)]
    while slots.len() < SHOP_SLOTS
        invariant
            slots.len() <= SHOP_SLOTS,
            tape.replies == old(tape).replies,
            slots_from(ante, Seq::empty(), tape.replies@, start) == slots_from(
                ante,
                slots_of(slots@),
                tape.replies@,
                tape.used as nat,
            ),
        decreases SHOP_SLOTS - slots.len(),
    {
        let slot = tape.slot(Request::NextShopItem { ante: ante as i32 })?;
        assert(slots_of(slots@.push(slot)) =~= slots_of(slots@).push(*slot));
        slots.push(slot);
    }
    Ok(slots)
}

/// Draws the booster packs and opens each.
fn draw_packs<'a>(
    ante: u8,
    seed: &str,
    deck_idx: u8,
    stake_idx: u8,
    tape: &mut Tape<'a>,
) -> (res: Result<Vec<(&'a str, &'a PackContents)>, Stop>)
    ensures
        final(tape).replies == old(tape).replies,
        match packs_at(
            ante,
            dialogue::game(seed@, deck_idx, stake_idx),
            old(tape).replies@,
            old(tape).used as nat,
        ) {
            Run::Done(packs, n) => {
                &&& res matches Ok(found)
                &&& packs_of(found@) == packs
                &&& final(tape).used == n
            },
            Run::Halted(halt) => res matches Err(stop) && stop@ == halt,
        },
{
    dialogue::fresh_instance(tape, seed, deck_idx, stake_idx)?;
    let mut packs: Vec<(&'a str, &'a PackContents)> = Vec::new();
    let ghost start = tape.used as nat;
    assert(packs_of(packs@) =~= Seq::empty());
    #[verifier::loop_isolation(false)]
    while packs.len() < PACKS
        invariant
            packs.len() <= PACKS,
            tape.replies == old(tape).replies,
            packs_from(ante, Seq::empty(), tape.replies@, start) == packs_from(
                ante,
                packs_of(packs@),
                tape.replies@,
                tape.used as nat,
            ),
        decreases PACKS - packs.len(),
    {
        let pack = tape.name(Request::NextPack { ante: ante as i32 })?;
        let contents = tape.contents(
            Request::OpenPackDetailed { pack: pack.to_owned(), ante: ante as i32 },
        )?;
        assert(packs_of(packs@.push((pack, contents))) =~= packs_of(packs@).push(
            (pack@, *contents),
        ));
        packs.push((pack, contents));
    }
    Ok(packs)
}

/// Draws what an ante offers. Each kind of draw starts with a fresh instance of the game.
fn draw_ante<'a>(
    ante: u8,
    seed: &str,
    deck_idx: u8,
    stake_idx: u8,
    tape: &mut Tape<'a>,
) -> (res: Result<Offer<'a>, Stop>)
    ensures
        final(tape).replies == old(tape).replies,
        match ante_run(
            ante,
            dialogue::game(seed@, deck_idx, stake_idx),
            old(tape).replies@,
            old(tape).used as nat,
        ) {
            Run::Done(offer, n) => {
                &&& res matches Ok(found)
                &&& found@ == offer
                &&& final(tape).used == n
            },
            Run::Halted(halt) => res matches Err(stop) && stop@ == halt,
        },
{
    dialogue::fresh_instance(tape, seed, deck_idx, stake_idx)?;
    let boss = tape.name(Request::NextBoss { ante: ante as i32 })?;
    dialogue::fresh_instance(tape, seed, deck_idx, stake_idx)?;
    let voucher = tape.name(Request::NextVoucher { ante: ante as i32 })?;
    dialogue::fresh_instance(tape, seed, deck_idx, stake_idx)?;
    let small_tag = tape.name(Request::NextTag { ante: ante as i32 })?;
    let big_tag = tape.name(Request::NextTag { ante: ante as i32 })?;
    let shop = draw_shop(ante, seed, deck_idx, stake_idx, tape)?;
    let packs = draw_packs(ante, seed, deck_idx, stake_idx, tape)?;
    Ok(Offer { boss, voucher, small_tag, big_tag, shop, packs })
}

/// Appends all slots of the shop.
fn write_shop(out: &mut String, slots: &Vec<&ShopSlot>)
    ensures
        final(out)@ == old(out)@ + json::render(Json::Arr(slot_docs(slots_of(slots@)))),
{
    let ghost base = out@;
    let ghost all = slot_docs(slots_of(slots@));
    out.push('[');
    assert(all.take(0) =~= Seq::empty());
    assert(out@ =~= json::open_array(base, all.take(0)));
    let mut i: usize = 0;
    while i < slots.len()
        invariant
            i <= slots.len(),
            all == slot_docs(slots_of(slots@)),
            out@ == json::open_array(base, all.take(i as int)),
        decreases slots.len() - i,
    {
        json::push_separator(out, i);
        write_shop_slot(out, slots[i]);
        proof {
            json::lemma_next_item(base, all.take(i as int), all[i as int]);
            assert(all.take(i + 1) =~= all.take(i as int).push(all[i as int]));
        }
        i += 1;
    }
    out.push(']');
    proof {
        assert(all.take(i as int) =~= all);
        json::lemma_close_array(base, all);
    }
}

/// Appends all booster packs.
fn write_packs(out: &mut String, packs: &Vec<(&str, &PackContents)>)
    ensures
        final(out)@ == old(out)@ + json::render(Json::Arr(pack_docs(packs_of(packs@)))),
{
    let ghost base = out@;
    let ghost all = pack_docs(packs_of(packs@));
    out.push('[');
    assert(all.take(0) =~= Seq::empty());
    assert(out@ =~= json::open_array(base, all.take(0)));
    let mut i: usize = 0;
    while i < packs.len()
        invariant
            i <= packs.len(),
            all == pack_docs(packs_of(packs@)),
            out@ == json::open_array(base, all.take(i as int)),
        decreases packs.len() - i,
    {
        json::push_separator(out, i);
        let (pack, contents) = packs[i];
        write_pack(out, pack, contents);
        proof {
            json::lemma_next_item(base, all.take(i as int), all[i as int]);
            assert(all.take(i + 1) =~= all.take(i as int).push(all[i as int]));
        }
        i += 1;
    }
    out.push(']');
    proof {
        assert(all.take(i as int) =~= all);
        json::lemma_close_array(base, all);
    }
}

/// Appends an ante.
fn write_ante<'a>(out: &mut String, ante: u8, offer: &Offer<'a>)
    ensures
        final(out)@ == old(out)@ + json::render(ante_doc(ante as nat, offer@)),
{
    let ghost base = out@;
    let ghost shop = Json::Arr(slot_docs(offer@.shop));
    let ghost packs = Json::Arr(pack_docs(offer@.packs));
    let ghost m0 = Seq::<(Seq<char>, Json)>::empty();
    let ghost m1 = m0.push(("ante"@, Json::Num(ante as nat)));
    let ghost m2 = m1.push(("boss"@, Json::Str(offer@.boss)));
    let ghost m3 = m2.push(("voucher"@, Json::Str(offer@.voucher)));
    let ghost m4 = m3.push(("small_tag"@, Json::Str(offer@.small_tag)));
    let ghost m5 = m4.push(("big_tag"@, Json::Str(offer@.big_tag)));
    let ghost m6 = m5.push(("shop"@, shop));
    let ghost m7 = m6.push(("packs"@, packs));
    out.push('{');
    assert(out@ =~= json::open_object(base, m0));
    json::push_num_member(out, 0, "ante", ante as u64, Ghost(base), Ghost(m0));
    json::push_str_member(out, 1, "boss", offer.boss, Ghost(base), Ghost(m1));
    json::push_str_member(out, 2, "voucher", offer.voucher, Ghost(base), Ghost(m2));
    json::push_str_member(out, 3, "small_tag", offer.small_tag, Ghost(base), Ghost(m3));
    json::push_str_member(out, 4, "big_tag", offer.big_tag, Ghost(base), Ghost(m4));
    json::push_key(out, 5, "shop");
    write_shop(out, &offer.shop);
    proof {
        json::lemma_next_member(base, m5, "shop"@, shop);
    }
    json::push_key(out, 6, "packs");
    write_packs(out, &offer.packs);
    proof {
        json::lemma_next_member(base, m6, "packs"@, packs);
    }
    out.push('}');
    proof {
        json::lemma_close_object(base, m7);
        assert(ante_doc(ante as nat, offer@)->Obj_0 =~= m7);
    }
}

/// Draws the antes one by one and appends them, as an array.
fn push_antes<'a>(
    out: &mut String,
    last: u8,
    seed: &str,
    deck_idx: u8,
    stake_idx: u8,
    replies: &'a Vec<Reply>,
) -> (res: Result<(), Stop>)
    ensures
        match antes_from(
            last,
            Seq::empty(),
            dialogue::game(seed@, deck_idx, stake_idx),
            replies@,
            0,
        ) {
            Run::Done(offers, _) => {
                &&& res is Ok
                &&& final(out)@ == old(out)@ + json::render(Json::Arr(ante_docs(offers)))
            },
            Run::Halted(halt) => res matches Err(stop) && stop@ == halt,
        },
{
    let ghost game = dialogue::game(seed@, deck_idx, stake_idx);
    let mut tape = Tape { replies, used: 0 };
    let ghost base = out@;
    let ghost mut offers = Seq::<AnteDraws>::empty();
    out.push('[');
    proof {
        assert(ante_docs(offers) =~= Seq::empty());
        assert(out@ =~= json::open_array(base, ante_docs(offers)));
    }
    let mut done: u8 = 0;
    while done < last
        invariant
            done <= last,
            tape.replies == replies,
            offers.len() == done,
            game == dialogue::game(seed@, deck_idx, stake_idx),
            out@ == json::open_array(base, ante_docs(offers)),
            antes_from(last, Seq::empty(), game, replies@, 0) == antes_from(
                last,
                offers,
                game,
                replies@,
                tape.used as nat,
            ),
        decreases last - done,
    {
        let offer = draw_ante(done + 1, seed, deck_idx, stake_idx, &mut tape)?;
        json::push_separator(out, done as usize);
        write_ante(out, done + 1, &offer);
        proof {
            let doc = ante_doc((done + 1) as nat, offer@);
            json::lemma_next_item(base, ante_docs(offers), doc);
            assert(ante_docs(offers.push(offer@)) =~= ante_docs(offers).push(doc));
            offers = offers.push(offer@);
        }
        done += 1;
    }
    out.push(']');
    proof {
        json::lemma_close_array(base, ante_docs(offers));
    }
    Ok(())
}

/// The overview of a seed: for every ante up to `max_ante`, of which there are at least one and
/// at most sixteen, the boss, the voucher, both tags, the first slots of the shop and the first
/// booster packs.
pub fn analyze_seed_basic(
    seed: &str,
    max_ante: u8,
    deck_idx: u8,
    stake_idx: u8,
    replies: &Vec<Reply>,
) -> (res: Result<String, Stop>)
    ensures
        report::written(res, overview_run(seed@, max_ante, deck_idx, stake_idx, replies@)),
        replies@.len() == 0 ==> (res matches Err(Stop::Need(
            Request::FreshInstance { seed: asked, deck, stake },
        )) && {
            &&& asked@ == seed@
            &&& state::deck_index(deck) == if deck_idx < 14 {
                deck_idx as int
            } else {
                14
            }
            &&& state::stake_index(stake) == if stake_idx < 7 {
                stake_idx as int
            } else {
                7
            }
        }),
        res is Ok ==> replies@.len() >= 23 * if max_ante == 0 {
            1
        } else if max_ante > 16 {
            16
        } else {
            max_ante as int
        },
{
    proof {
        state::law_decks(state::deck_at(deck_idx as int), deck_idx);
        state::law_stakes(state::stake_at(stake_idx as int), stake_idx);
        let game = dialogue::game(seed@, deck_idx, stake_idx);
        showing::law_antes(last_ante(max_ante), Seq::empty(), game, replies@);
    }
    let last: u8 = if max_ante < 1 {
        1
    } else if max_ante > MAX_ANTES {
        MAX_ANTES
    } else {
        max_ante
    };
    let mut out = String::new();
    let ghost base = out@;
    let ghost m0 = Seq::<(Seq<char>, Json)>::empty();
    let ghost m1 = m0.push(("ok"@, Json::Bool(true)));
    let ghost m2 = m1.push(("seed"@, Json::Str(seed@)));
    out.push('{');
    assert(out@ =~= json::open_object(base, m0));
    json::push_bool_member(&mut out, 0, "ok", true, Ghost(base), Ghost(m0));
    json::push_str_member(&mut out, 1, "seed", seed, Ghost(base), Ghost(m1));
    json::push_key(&mut out, 2, "antes");
    push_antes(&mut out, last, seed, deck_idx, stake_idx, replies)?;
    let ghost offers = antes_from(
        last,
        Seq::empty(),
        dialogue::game(seed@, deck_idx, stake_idx),
        replies@,
        0,
    )->Done_0;
    let ghost list = Json::Arr(ante_docs(offers));
    let ghost m3 = m2.push(("antes"@, list));
    proof {
        json::lemma_next_member(base, m2, "antes"@, list);
    }
    out.push('}');
    proof {
        json::lemma_close_object(base, m3);
        assert(overview_doc(seed@, offers)->Obj_0 =~= m3);
        assert(base + json::render(Json::Obj(m3)) =~= json::render(Json::Obj(m3)));
    }
    Ok(out)
}

} // verus!
