//! "Verify a seed": which clauses of a filter a seed meets, and where.
use vstd::prelude::*;

use crate::dialogue;
use crate::dialogue::Ask;
use crate::dialogue::Game;
use crate::dialogue::Reply;
use crate::dialogue::Request;
use crate::dialogue::Run;
use crate::dialogue::Stop;
use crate::dialogue::Tape;
use crate::draws;
use crate::draws::Edition;
use crate::draws::PackContents;
use crate::draws::ShopItemType;
use crate::draws::ShopSlot;
use crate::draws::StandardCard;
use crate::draws::Stickers;
use crate::filter::Clause;
use crate::state;
use crate::text;

verus! {

/// The verdict on a clause: whether the seed meets it, and the detail that says where.
pub type Verdict = (bool, Seq<char>);

/// Whether what a function returned, with `used` replies used, is what the run gives.
pub open spec fn judged(
    res: Result<(bool, String), Stop>,
    used: usize,
    run: Run<Verdict>,
) -> bool {
    match run {
        Run::Done(verdict, n) => {
            &&& res matches Ok(found)
            &&& found.0 == verdict.0
            &&& found.1@ == verdict.1
            &&& used == n
        },
        Run::Halted(halt) => res matches Err(stop) && stop@ == halt,
    }
}

/// "ante" and its number.
pub open spec fn ante_text(ante: u8) -> Seq<char> {
    "ante "@ + text::decimal(ante as nat)
}

fn new_ante_text(ante: u8) -> (res: String)
    ensures
        res@ == ante_text(ante),
{
    let mut out = String::from_str("ante ");
    text::push_decimal(&mut out, ante as u64);
    out
}

/// What is added where `drawn` was drawn and `wanted` was wanted: nothing if they are the same.
pub open spec fn wanted_text(drawn: Seq<char>, wanted: Seq<char>) -> Seq<char> {
    if drawn == wanted {
        Seq::empty()
    } else {
        " (wanted "@ + wanted + ")"@
    }
}

/// Appends what was wanted, unless it was drawn, and says whether it was.
fn push_wanted(out: &mut String, drawn: &str, wanted: &str) -> (res: bool)
    ensures
        res == (drawn@ == wanted@),
        final(out)@ == old(out)@ + wanted_text(drawn@, wanted@),
{
    let ok = text::same_text(drawn, wanted);
    if !ok {
        out.append(" (wanted ");
        out.append(wanted);
        out.append(")");
    }
    assert(out@ =~= old(out)@ + wanted_text(drawn@, wanted@));
    ok
}

// ---------------------------------------------------------------------------
// The shop
// ---------------------------------------------------------------------------

/// How many slots of the shop are looked at.
pub open spec fn scan_end(slot: u8) -> nat {
    if slot == 255 {
        16
    } else {
        slot as nat + 1
    }
}

/// Whether a joker has a wanted sticker; an unknown sticker is on every joker.
pub open spec fn sticker_met(wanted: Seq<char>, stickers: Stickers) -> bool {
    let name = text::lower(wanted);
    if name == "eternal"@ {
        stickers.eternal
    } else if name == "perishable"@ {
        stickers.perishable
    } else if name == "rental"@ {
        stickers.rental
    } else {
        true
    }
}

/// Whether a slot of the shop offers the joker that is wanted.
pub open spec fn slot_meets(
    slot: ShopSlot,
    joker: Seq<char>,
    edition: Option<String>,
    sticker: Option<String>,
) -> bool {
    &&& slot.kind == ShopItemType::Joker
    &&& slot.item@ == joker
    &&& edition matches Some(e) ==> text::lower(e@) == text::lower(
        draws::edition_label(slot.edition),
    )
    &&& sticker matches Some(s) ==> sticker_met(s@, slot.stickers)
}

/// The edition and the stickers of a joker, each in brackets.
pub open spec fn extras_text(slot: ShopSlot) -> Seq<char> {
    (if slot.edition == Edition::NoEdition {
        Seq::empty()
    } else {
        " ["@ + draws::edition_label(slot.edition) + "]"@
    }) + (if slot.stickers.eternal {
        " [Eternal]"@
    } else {
        Seq::empty()
    }) + (if slot.stickers.perishable {
        " [Perishable]"@
    } else {
        Seq::empty()
    }) + (if slot.stickers.rental {
        " [Rental]"@
    } else {
        Seq::empty()
    })
}

/// The detail where slot `s` offers the joker.
pub open spec fn shop_hit_text(ante: u8, s: nat, slot: ShopSlot) -> Seq<char> {
    ante_text(ante) + " · shop slot "@ + text::decimal(s) + extras_text(slot)
}

/// The detail where none of the first `end` slots offers the joker.
pub open spec fn shop_miss_text(ante: u8, end: nat) -> Seq<char> {
    "no match in ante "@ + text::decimal(ante as nat) + " shop slots 0.."@ + text::decimal(
        (end - 1) as nat,
    )
}

/// The run over the slots of the shop from slot `s` on.
pub open spec fn shop_from(
    ante: u8,
    joker: Seq<char>,
    edition: Option<String>,
    sticker: Option<String>,
    s: nat,
    end: nat,
    tape: Seq<Reply>,
    used: nat,
) -> Run<Verdict>
    decreases end - s,
{
    if s >= end {
        Run::Done((false, shop_miss_text(ante, end)), used)
    } else {
        match dialogue::slot_at(Ask::NextShopItem { ante: ante as i32 }, tape, used) {
            Run::Halted(halt) => Run::Halted(halt),
            Run::Done(slot, n) => if slot_meets(slot, joker, edition, sticker) {
                Run::Done((true, shop_hit_text(ante, s, slot)), n)
            } else {
                shop_from(ante, joker, edition, sticker, s + 1, end, tape, n)
            },
        }
    }
}

/// The run of a clause on the shop: the first slot that offers the joker decides.
pub open spec fn shop_run(
    ante: u8,
    slot: u8,
    joker: Seq<char>,
    edition: Option<String>,
    sticker: Option<String>,
    game: Game,
    tape: Seq<Reply>,
    used: nat,
) -> Run<Verdict> {
    match dialogue::fresh_at(game, tape, used) {
        Run::Halted(halt) => Run::Halted(halt),
        Run::Done(_, n) => shop_from(ante, joker, edition, sticker, 0, scan_end(slot), tape, n),
    }
}

/// Whether a joker has a wanted sticker; an unknown sticker is on every joker.
fn has_sticker(wanted: &str, stickers: Stickers) -> (res: bool)
    ensures
        res == sticker_met(wanted@, stickers),
{
    let name = text::to_ascii_lowercase(wanted);
    if text::same_text(name.as_str(), "eternal") {
        stickers.eternal
    } else if text::same_text(name.as_str(), "perishable") {
        stickers.perishable
    } else if text::same_text(name.as_str(), "rental") {
        stickers.rental
    } else {
        true
    }
}

/// Whether a slot of the shop offers the joker that is wanted.
fn slot_offers(
    slot: &ShopSlot,
    joker: &str,
    edition: &Option<String>,
    sticker: &Option<String>,
) -> (res: bool)
    ensures
        res == slot_meets(*slot, joker@, *edition, *sticker),
{
    if slot.kind != ShopItemType::Joker {
        return false;
    }
    if !text::same_text(slot.item.as_str(), joker) {
        return false;
    }
    if let Some(e) = edition {
        if !text::eq_ignore_ascii_case(e.as_str(), draws::edition_name(slot.edition)) {
            return false;
        }
    }
    if let Some(s) = sticker {
        if !has_sticker(s.as_str(), slot.stickers) {
            return false;
        }
    }
    true
}

/// Appends the edition and the stickers of a joker, each in brackets.
fn push_extras(out: &mut String, slot: &ShopSlot)
    ensures
        final(out)@ == old(out)@ + extras_text(*slot),
{
    if slot.edition != Edition::NoEdition {
        out.append(" [");
        out.append(draws::edition_name(slot.edition));
        out.append("]");
    }
    if slot.stickers.eternal {
        out.append(" [Eternal]");
    }
    if slot.stickers.perishable {
        out.append(" [Perishable]");
    }
    if slot.stickers.rental {
        out.append(" [Rental]");
    }
    assert(out@ =~= old(out)@ + extras_text(*slot));
}

/// Inspects a clause on the shop.
fn inspect_shop<'a>(
    ante: u8,
    slot: u8,
    joker: &str,
    edition: &Option<String>,
    sticker: &Option<String>,
    seed: &str,
    deck_idx: u8,
    stake_idx: u8,
    tape: &mut Tape<'a>,
) -> (res: Result<(bool, String), Stop>)
    ensures
        final(tape).replies == old(tape).replies,
        judged(
            res,
            final(tape).used,
            shop_run(
                ante,
                slot,
                joker@,
                *edition,
                *sticker,
                dialogue::game(seed@, deck_idx, stake_idx),
                old(tape).replies@,
                old(tape).used as nat,
            ),
        ),
{
    let end: usize = if slot == 255 {
        16
    } else {
        slot as usize + 1
    };
    dialogue::fresh_instance(tape, seed, deck_idx, stake_idx)?;
    let ghost start = tape.used as nat;
    let mut s: usize = 0;
    #[verifier::loop_isolation(false)]
    while s < end
        invariant
            s <= end,
            tape.replies == old(tape).replies,
            shop_from(ante, joker@, *edition, *sticker, 0, end as nat, tape.replies@, start)
                == shop_from(
                ante,
                joker@,
                *edition,
                *sticker,
                s as nat,
                end as nat,
                tape.replies@,
                tape.used as nat,
            ),
        decreases end - s,
    {
        let found = tape.slot(Request::NextShopItem { ante: ante as i32 })?;
        if slot_offers(found, joker, edition, sticker) {
            let mut detail = new_ante_text(ante);
            detail.append(" · shop slot ");
            text::push_decimal(&mut detail, s as u64);
            push_extras(&mut detail, found);
            return Ok((true, detail));
        }
        s += 1;
    }
    let mut detail = String::from_str("no match in ante ");
    text::push_decimal(&mut detail, ante as u64);
    detail.append(" shop slots 0..");
    text::push_decimal(&mut detail, (end - 1) as u64);
    Ok((false, detail))
}

// ---------------------------------------------------------------------------
// Tags, bosses and vouchers
// ---------------------------------------------------------------------------

/// The run of `n` requests of the same kind for a name: the last name, or `last` if there are
/// none.
pub open spec fn last_name(
    ask: Ask,
    n: nat,
    last: Seq<char>,
    tape: Seq<Reply>,
    used: nat,
) -> Run<Seq<char>>
    decreases n,
{
    if n == 0 {
        Run::Done(last, used)
    } else {
        match dialogue::name_at(ask, tape, used) {
            Run::Halted(halt) => Run::Halted(halt),
            Run::Done(name, m) => last_name(ask, (n - 1) as nat, name, tape, m),
        }
    }
}

/// The name of a blind's position.
pub open spec fn blind_label(position: u8) -> Seq<char> {
    if position == 0 {
        "small blind"@
    } else {
        "big blind"@
    }
}

/// The detail of a clause on a tag.
pub open spec fn tag_text(ante: u8, position: u8, drawn: Seq<char>, tag: Seq<char>) -> Seq<char> {
    ante_text(ante) + " · "@ + blind_label(position) + " tag = "@ + drawn + wanted_text(drawn, tag)
}

/// The run of a clause on a tag: the tag at the position, counted from 0, decides.
pub open spec fn tag_run(
    ante: u8,
    position: u8,
    tag: Seq<char>,
    game: Game,
    tape: Seq<Reply>,
    used: nat,
) -> Run<Verdict> {
    match dialogue::fresh_at(game, tape, used) {
        Run::Halted(halt) => Run::Halted(halt),
        Run::Done(_, n) => match last_name(
            Ask::NextTag { ante: ante as i32 },
            position as nat + 1,
            ""@,
            tape,
            n,
        ) {
            Run::Halted(halt) => Run::Halted(halt),
            Run::Done(drawn, m) => Run::Done(
                (drawn == tag, tag_text(ante, position, drawn, tag)),
                m,
            ),
        },
    }
}

/// The detail of a clause on a boss.
pub open spec fn boss_text(ante: u8, drawn: Seq<char>, boss: Seq<char>) -> Seq<char> {
    ante_text(ante) + " boss = "@ + drawn + wanted_text(drawn, boss)
}

/// The run of a clause on a boss.
pub open spec fn boss_run(
    ante: u8,
    boss: Seq<char>,
    game: Game,
    tape: Seq<Reply>,
    used: nat,
) -> Run<Verdict> {
    match dialogue::fresh_at(game, tape, used) {
        Run::Halted(halt) => Run::Halted(halt),
        Run::Done(_, n) => match dialogue::name_at(
            Ask::NextBoss { ante: ante as i32 },
            tape,
            n,
        ) {
            Run::Halted(halt) => Run::Halted(halt),
            Run::Done(drawn, m) => Run::Done((drawn == boss, boss_text(ante, drawn, boss)), m),
        },
    }
}

/// The detail of a clause on a voucher.
pub open spec fn voucher_text(ante: u8, drawn: Seq<char>, voucher: Seq<char>) -> Seq<char> {
    ante_text(ante) + " voucher = "@ + drawn + wanted_text(drawn, voucher)
}

/// The run of a clause on a voucher.
pub open spec fn voucher_run(
    ante: u8,
    voucher: Seq<char>,
    game: Game,
    tape: Seq<Reply>,
    used: nat,
) -> Run<Verdict> {
    match dialogue::fresh_at(game, tape, used) {
        Run::Halted(halt) => Run::Halted(halt),
        Run::Done(_, n) => match dialogue::name_at(
            Ask::NextVoucher { ante: ante as i32 },
            tape,
            n,
        ) {
            Run::Halted(halt) => Run::Halted(halt),
            Run::Done(drawn, m) => Run::Done(
                (drawn == voucher, voucher_text(ante, drawn, voucher)),
                m,
            ),
        },
    }
}

/// Inspects a clause on a tag.
fn inspect_tag<'a>(
    ante: u8,
    position: u8,
    tag: &str,
    seed: &str,
    deck_idx: u8,
    stake_idx: u8,
    tape: &mut Tape<'a>,
) -> (res: Result<(bool, String), Stop>)
    ensures
        final(tape).replies == old(tape).replies,
        judged(
            res,
            final(tape).used,
            tag_run(
                ante,
                position,
                tag@,
                dialogue::game(seed@, deck_idx, stake_idx),
                old(tape).replies@,
                old(tape).used as nat,
            ),
        ),
{
    dialogue::fresh_instance(tape, seed, deck_idx, stake_idx)?;
    let mut drawn: &str = "";
    let end: usize = position as usize + 1;
    let mut i: usize = 0;
    let ghost ask = Ask::NextTag { ante: ante as i32 };
    let ghost start = tape.used as nat;
    #[verifier::loop_isolation(false)]
    while i < end
        invariant
            i <= end,
            tape.replies == old(tape).replies,
            last_name(ask, end as nat, ""@, tape.replies@, start) == last_name(
                ask,
                (end - i) as nat,
                drawn@,
                tape.replies@,
                tape.used as nat,
            ),
        decreases end - i,
    {
        drawn = tape.name(Request::NextTag { ante: ante as i32 })?;
        i += 1;
    }
    let mut detail = new_ante_text(ante);
    detail.append(" · ");
    detail.append(
        if position == 0 {
            "small blind"
        } else {
            "big blind"
        },
    );
    detail.append(" tag = ");
    detail.append(drawn);
    let ok = push_wanted(&mut detail, drawn, tag);
    Ok((ok, detail))
}

/// Inspects a clause on a boss.
fn inspect_boss<'a>(
    ante: u8,
    boss: &str,
    seed: &str,
    deck_idx: u8,
    stake_idx: u8,
    tape: &mut Tape<'a>,
) -> (res: Result<(bool, String), Stop>)
    ensures
        final(tape).replies == old(tape).replies,
        judged(
            res,
            final(tape).used,
            boss_run(
                ante,
                boss@,
                dialogue::game(seed@, deck_idx, stake_idx),
                old(tape).replies@,
                old(tape).used as nat,
            ),
        ),
{
    dialogue::fresh_instance(tape, seed, deck_idx, stake_idx)?;
    let drawn = tape.name(Request::NextBoss { ante: ante as i32 })?;
    let mut detail = new_ante_text(ante);
    detail.append(" boss = ");
    detail.append(drawn);
    let ok = push_wanted(&mut detail, drawn, boss);
    Ok((ok, detail))
}

/// Inspects a clause on a voucher.
fn inspect_voucher<'a>(
    ante: u8,
    voucher: &str,
    seed: &str,
    deck_idx: u8,
    stake_idx: u8,
    tape: &mut Tape<'a>,
) -> (res: Result<(bool, String), Stop>)
    ensures
        final(tape).replies == old(tape).replies,
        judged(
            res,
            final(tape).used,
            voucher_run(
                ante,
                voucher@,
                dialogue::game(seed@, deck_idx, stake_idx),
                old(tape).replies@,
                old(tape).used as nat,
            ),
        ),
{
    dialogue::fresh_instance(tape, seed, deck_idx, stake_idx)?;
    let drawn = tape.name(Request::NextVoucher { ante: ante as i32 })?;
    let mut detail = new_ante_text(ante);
    detail.append(" voucher = ");
    detail.append(drawn);
    let ok = push_wanted(&mut detail, drawn, voucher);
    Ok((ok, detail))
}

// ---------------------------------------------------------------------------
// Booster packs
// ---------------------------------------------------------------------------

/// "ante", its number, and which of its booster packs.
pub open spec fn pack_text(ante: u8, i: nat, pack: Seq<char>) -> Seq<char> {
    ante_text(ante) + " pack #"@ + text::decimal(i) + " ("@ + pack + ")"@
}

fn new_pack_text(ante: u8, i: u8, pack: &str) -> (res: String)
    ensures
        res@ == pack_text(ante, i as nat, pack@),
{
    let mut out = new_ante_text(ante);
    out.append(" pack #");
    text::push_decimal(&mut out, i as u64);
    out.append(" (");
    out.append(pack);
    out.append(")");
    out
}

/// The detail where a booster pack shows a card or does not.
pub open spec fn contains_text(
    ante: u8,
    i: nat,
    pack: Seq<char>,
    card: Seq<char>,
    hit: bool,
) -> Seq<char> {
    pack_text(ante, i, pack) + (if hit {
        " contains "@
    } else {
        " does not contain "@
    }) + card
}

/// The run of a clause on one booster pack: the packs before it are drawn and left unopened.
pub open spec fn pack_run(
    ante: u8,
    pack_index: u8,
    card: Seq<char>,
    game: Game,
    tape: Seq<Reply>,
    used: nat,
) -> Run<Verdict> {
    match dialogue::fresh_at(game, tape, used) {
        Run::Halted(halt) => Run::Halted(halt),
        Run::Done(_, n) => match last_name(
            Ask::NextPack { ante: ante as i32 },
            pack_index as nat + 1,
            ""@,
            tape,
            n,
        ) {
            Run::Halted(halt) => Run::Halted(halt),
            Run::Done(pack, m) => match dialogue::contents_at(
                Ask::OpenPackDetailed { pack, ante: ante as i32 },
                tape,
                m,
            ) {
                Run::Halted(halt) => Run::Halted(halt),
                Run::Done(contents, k) => {
                    let hit = draws::shown(contents).contains(card);
                    Run::Done((hit, contains_text(ante, pack_index as nat, pack, card, hit)), k)
                },
            },
        },
    }
}

/// The detail where none of the first booster packs shows a card.
pub open spec fn no_pack_text(ante: u8, max_packs: u8, card: Seq<char>) -> Seq<char> {
    ante_text(ante) + " · no pack in first "@ + text::decimal(max_packs as nat) + " contained "@
        + card
}

/// The run over the booster packs from pack `i` on.
pub open spec fn any_pack_from(
    ante: u8,
    max_packs: u8,
    card: Seq<char>,
    i: nat,
    tape: Seq<Reply>,
    used: nat,
) -> Run<Verdict>
    decreases max_packs - i,
{
    if i >= max_packs {
        Run::Done((false, no_pack_text(ante, max_packs, card)), used)
    } else {
        match dialogue::name_at(Ask::NextPack { ante: ante as i32 }, tape, used) {
            Run::Halted(halt) => Run::Halted(halt),
            Run::Done(pack, n) => match dialogue::contents_at(
                Ask::OpenPackDetailed { pack, ante: ante as i32 },
                tape,
                n,
            ) {
                Run::Halted(halt) => Run::Halted(halt),
                Run::Done(contents, m) => if draws::shown(contents).contains(card) {
                    Run::Done((true, contains_text(ante, i, pack, card, true)), m)
                } else {
                    any_pack_from(ante, max_packs, card, i + 1, tape, m)
                },
            },
        }
    }
}

/// The run of a clause on any booster pack: the first that shows the card decides.
pub open spec fn any_pack_run(
    ante: u8,
    max_packs: u8,
    card: Seq<char>,
    game: Game,
    tape: Seq<Reply>,
    used: nat,
) -> Run<Verdict> {
    match dialogue::fresh_at(game, tape, used) {
        Run::Halted(halt) => Run::Halted(halt),
        Run::Done(_, n) => any_pack_from(ante, max_packs, card, 0, tape, n),
    }
}

/// Inspects a clause on one booster pack.
fn inspect_pack<'a>(
    ante: u8,
    pack_index: u8,
    card: &str,
    seed: &str,
    deck_idx: u8,
    stake_idx: u8,
    tape: &mut Tape<'a>,
) -> (res: Result<(bool, String), Stop>)
    ensures
        final(tape).replies == old(tape).replies,
        judged(
            res,
            final(tape).used,
            pack_run(
                ante,
                pack_index,
                card@,
                dialogue::game(seed@, deck_idx, stake_idx),
                old(tape).replies@,
                old(tape).used as nat,
            ),
        ),
{
    dialogue::fresh_instance(tape, seed, deck_idx, stake_idx)?;
    let mut pack: &str = "";
    let end: usize = pack_index as usize + 1;
    let mut i: usize = 0;
    let ghost ask = Ask::NextPack { ante: ante as i32 };
    let ghost start = tape.used as nat;
    #[verifier::loop_isolation(false)]
    while i < end
        invariant
            i <= end,
            tape.replies == old(tape).replies,
            last_name(ask, end as nat, ""@, tape.replies@, start) == last_name(
                ask,
                (end - i) as nat,
                pack@,
                tape.replies@,
                tape.used as nat,
            ),
        decreases end - i,
    {
        pack = tape.name(Request::NextPack { ante: ante as i32 })?;
        i += 1;
    }
    let contents = tape.contents(
        Request::OpenPackDetailed { pack: pack.to_owned(), ante: ante as i32 },
    )?;
    let hit = draws::pack_contents_contains(contents, card);
    let mut detail = new_pack_text(ante, pack_index, pack);
    detail.append(
        if hit {
            " contains "
        } else {
            " does not contain "
        },
    );
    detail.append(card);
    Ok((hit, detail))
}

/// Inspects a clause on any booster pack.
fn inspect_any_pack<'a>(
    ante: u8,
    max_packs: u8,
    card: &str,
    seed: &str,
    deck_idx: u8,
    stake_idx: u8,
    tape: &mut Tape<'a>,
) -> (res: Result<(bool, String), Stop>)
    ensures
        final(tape).replies == old(tape).replies,
        judged(
            res,
            final(tape).used,
            any_pack_run(
                ante,
                max_packs,
                card@,
                dialogue::game(seed@, deck_idx, stake_idx),
                old(tape).replies@,
                old(tape).used as nat,
            ),
        ),
{
    dialogue::fresh_instance(tape, seed, deck_idx, stake_idx)?;
    let mut i: u8 = 0;
    let ghost start = tape.used as nat;
    #[verifier::loop_isolation(false)]
    while i < max_packs
        invariant
            i <= max_packs,
            tape.replies == old(tape).replies,
            any_pack_from(ante, max_packs, card@, 0, tape.replies@, start) == any_pack_from(
                ante,
                max_packs,
                card@,
                i as nat,
                tape.replies@,
                tape.used as nat,
            ),
        decreases max_packs - i,
    {
        let pack = tape.name(Request::NextPack { ante: ante as i32 })?;
        let contents = tape.contents(
            Request::OpenPackDetailed { pack: pack.to_owned(), ante: ante as i32 },
        )?;
        if draws::pack_contents_contains(contents, card) {
            let mut detail = new_pack_text(ante, i, pack);
            detail.append(" contains ");
            detail.append(card);
            return Ok((true, detail));
        }
        i += 1;
    }
    let mut detail = new_ante_text(ante);
    detail.append(" · no pack in first ");
    text::push_decimal(&mut detail, max_packs as u64);
    detail.append(" contained ");
    detail.append(card);
    Ok((false, detail))
}

// ---------------------------------------------------------------------------
// Souls and Wraiths
// ---------------------------------------------------------------------------

/// A spectral card that makes a joker.
#[derive(Clone, Copy, Debug, PartialEq, Eq, Structural)]
pub enum Maker {
    Soul,
    Wraith,
}

/// The card's name in a booster pack.
pub open spec fn maker_item(maker: Maker) -> Seq<char> {
    match maker {
        Maker::Soul => "The Soul"@,
        Maker::Wraith => "Wraith"@,
    }
}

/// The card's name in a detail.
pub open spec fn maker_label(maker: Maker) -> Seq<char> {
    match maker {
        Maker::Soul => "Soul"@,
        Maker::Wraith => "Wraith"@,
    }
}

/// The request for the joker that the card makes.
pub open spec fn maker_ask(maker: Maker, ante: u8) -> Ask {
    match maker {
        Maker::Soul => Ask::ResolveSoulLegendary { ante: ante as i32 },
        Maker::Wraith => Ask::ResolveWraithRare { ante: ante as i32 },
    }
}

/// The detail where pack `i` holds the card.
pub open spec fn made_text(
    maker: Maker,
    ante: u8,
    i: nat,
    pack: Seq<char>,
    made: Seq<char>,
    joker: Seq<char>,
) -> Seq<char> {
    pack_text(ante, i, pack) + " · "@ + maker_label(maker) + " → "@ + made + wanted_text(
        made,
        joker,
    )
}

/// The detail where none of the first booster packs holds the card.
pub open spec fn none_made_text(maker: Maker, ante: u8, max_packs: u8) -> Seq<char> {
    ante_text(ante) + " · no "@ + maker_label(maker) + " in first "@ + text::decimal(
        max_packs as nat,
    ) + " packs"@
}

/// The run over the booster packs from pack `i` on.
pub open spec fn made_from(
    maker: Maker,
    ante: u8,
    max_packs: u8,
    joker: Seq<char>,
    i: nat,
    tape: Seq<Reply>,
    used: nat,
) -> Run<Verdict>
    decreases max_packs - i,
{
    if i >= max_packs {
        Run::Done((false, none_made_text(maker, ante, max_packs)), used)
    } else {
        match dialogue::name_at(Ask::NextPack { ante: ante as i32 }, tape, used) {
            Run::Halted(halt) => Run::Halted(halt),
            Run::Done(pack, n) => match dialogue::contents_at(
                Ask::OpenPack { pack, ante: ante as i32 },
                tape,
                n,
            ) {
                Run::Halted(halt) => Run::Halted(halt),
                Run::Done(contents, m) => if draws::item_names(contents).contains(
                    maker_item(maker),
                ) {
                    match dialogue::name_at(maker_ask(maker, ante), tape, m) {
                        Run::Halted(halt) => Run::Halted(halt),
                        Run::Done(made, k) => Run::Done(
                            (made == joker, made_text(maker, ante, i, pack, made, joker)),
                            k,
                        ),
                    }
                } else {
                    made_from(maker, ante, max_packs, joker, i + 1, tape, m)
                },
            },
        }
    }
}

/// The run of a clause on a card that makes a joker: the first such card decides.
pub open spec fn made_run(
    maker: Maker,
    ante: u8,
    max_packs: u8,
    joker: Seq<char>,
    game: Game,
    tape: Seq<Reply>,
    used: nat,
) -> Run<Verdict> {
    match dialogue::fresh_at(game, tape, used) {
        Run::Halted(halt) => Run::Halted(halt),
        Run::Done(_, n) => made_from(maker, ante, max_packs, joker, 0, tape, n),
    }
}

/// The card's name in a detail.
fn maker_name(maker: Maker) -> (res: &'static str)
    ensures
        res@ == maker_label(maker),
{
    match maker {
        Maker::Soul => "Soul",
        Maker::Wraith => "Wraith",
    }
}

/// Inspects a clause on a card that makes a joker.
fn inspect_made<'a>(
    maker: Maker,
    ante: u8,
    max_packs: u8,
    joker: &str,
    seed: &str,
    deck_idx: u8,
    stake_idx: u8,
    tape: &mut Tape<'a>,
) -> (res: Result<(bool, String), Stop>)
    ensures
        final(tape).replies == old(tape).replies,
        judged(
            res,
            final(tape).used,
            made_run(
                maker,
                ante,
                max_packs,
                joker@,
                dialogue::game(seed@, deck_idx, stake_idx),
                old(tape).replies@,
                old(tape).used as nat,
            ),
        ),
{
    let item = match maker {
        Maker::Soul => "The Soul",
        Maker::Wraith => "Wraith",
    };
    dialogue::fresh_instance(tape, seed, deck_idx, stake_idx)?;
    let mut i: u8 = 0;
    let ghost start = tape.used as nat;
    #[verifier::loop_isolation(false)]
    while i < max_packs
        invariant
            i <= max_packs,
            tape.replies == old(tape).replies,
            made_from(maker, ante, max_packs, joker@, 0, tape.replies@, start) == made_from(
                maker,
                ante,
                max_packs,
                joker@,
                i as nat,
                tape.replies@,
                tape.used as nat,
            ),
        decreases max_packs - i,
    {
        let pack = tape.name(Request::NextPack { ante: ante as i32 })?;
        let contents = tape.contents(
            Request::OpenPack { pack: pack.to_owned(), ante: ante as i32 },
        )?;
        if draws::pack_has_item(contents, item) {
            let made = tape.name(
                match maker {
                    Maker::Soul => Request::ResolveSoulLegendary { ante: ante as i32 },
                    Maker::Wraith => Request::ResolveWraithRare { ante: ante as i32 },
                },
            )?;
            let mut detail = new_pack_text(ante, i, pack);
            detail.append(" · ");
            detail.append(maker_name(maker));
            detail.append(" → ");
            detail.append(made);
            let ok = push_wanted(&mut detail, made, joker);
            return Ok((ok, detail));
        }
        i += 1;
    }
    let mut detail = new_ante_text(ante);
    detail.append(" · no ");
    detail.append(maker_name(maker));
    detail.append(" in first ");
    text::push_decimal(&mut detail, max_packs as u64);
    detail.append(" packs");
    Ok((false, detail))
}

// ---------------------------------------------------------------------------
// Playing cards
// ---------------------------------------------------------------------------

/// The playing card that is wanted.
pub struct Wish {
    pub base: Seq<char>,
    pub enhancement: Option<String>,
    pub edition: Option<String>,
    pub seal: Option<String>,
}

/// Whether a playing card is what is wanted. An empty base stands for every base, and a seal
/// may be named with or without the word "seal" behind it.
pub open spec fn card_meets(card: StandardCard, wish: Wish) -> bool {
    &&& wish.base.len() == 0 || card.base@ == wish.base
    &&& wish.enhancement matches Some(wanted) ==> {
        &&& card.enhancement matches Some(found)
        &&& text::lower(found@) == text::lower(wanted@)
    }
    &&& wish.edition matches Some(wanted) ==> text::lower(wanted@) == text::lower(
        draws::edition_label(card.edition),
    )
    &&& wish.seal matches Some(wanted) ==> draws::seal_label(card.seal) == text::trimmed(
        text::lower(wanted@),
        " seal"@,
    )
}

/// The index of the first card that is wanted, from card `ci` on.
pub open spec fn first_card(cards: Seq<StandardCard>, wish: Wish, ci: nat) -> Option<nat>
    decreases cards.len() - ci,
{
    if ci >= cards.len() {
        None
    } else if card_meets(cards[ci as int], wish) {
        Some(ci)
    } else {
        first_card(cards, wish, ci + 1)
    }
}

/// The index of the first card in a booster pack that is wanted.
pub open spec fn first_in_pack(contents: PackContents, wish: Wish) -> Option<nat> {
    match contents {
        PackContents::StandardCards(cards) => first_card(cards@, wish, 0),
        _ => None,
    }
}

/// The base of a card in a booster pack.
pub open spec fn base_in_pack(contents: PackContents, ci: nat) -> Seq<char> {
    draws::base_cards(contents)[ci as int]
}

/// The detail where card `ci` of pack `i` is what is wanted.
pub open spec fn card_text(
    ante: u8,
    i: nat,
    pack: Seq<char>,
    ci: nat,
    base: Seq<char>,
) -> Seq<char> {
    pack_text(ante, i, pack) + " · card "@ + text::decimal(ci) + " = "@ + base
}

/// The detail where none of the first booster packs holds what is wanted.
pub open spec fn no_card_text(ante: u8, max_packs: u8) -> Seq<char> {
    ante_text(ante) + " · no matching standard card in first "@ + text::decimal(max_packs as nat)
        + " packs"@
}

/// The run over the booster packs from pack `i` on.
pub open spec fn card_from(
    ante: u8,
    max_packs: u8,
    wish: Wish,
    i: nat,
    tape: Seq<Reply>,
    used: nat,
) -> Run<Verdict>
    decreases max_packs - i,
{
    if i >= max_packs {
        Run::Done((false, no_card_text(ante, max_packs)), used)
    } else {
        match dialogue::name_at(Ask::NextPack { ante: ante as i32 }, tape, used) {
            Run::Halted(halt) => Run::Halted(halt),
            Run::Done(pack, n) => match dialogue::contents_at(
                Ask::OpenPackDetailed { pack, ante: ante as i32 },
                tape,
                n,
            ) {
                Run::Halted(halt) => Run::Halted(halt),
                Run::Done(contents, m) => match first_in_pack(contents, wish) {
                    Some(ci) => Run::Done(
                        (true, card_text(ante, i, pack, ci, base_in_pack(contents, ci))),
                        m,
                    ),
                    None => card_from(ante, max_packs, wish, i + 1, tape, m),
                },
            },
        }
    }
}

/// The run of a clause on a playing card: the first card that is wanted decides.
pub open spec fn card_run(
    ante: u8,
    max_packs: u8,
    wish: Wish,
    game: Game,
    tape: Seq<Reply>,
    used: nat,
) -> Run<Verdict> {
    match dialogue::fresh_at(game, tape, used) {
        Run::Halted(halt) => Run::Halted(halt),
        Run::Done(_, n) => card_from(ante, max_packs, wish, 0, tape, n),
    }
}

/// Whether a playing card is what is wanted.
fn card_is(
    card: &StandardCard,
    base: &str,
    enhancement: &Option<String>,
    edition: &Option<String>,
    seal: &Option<String>,
) -> (res: bool)
    ensures
        res == card_meets(
            *card,
            (Wish { base: base@, enhancement: *enhancement, edition: *edition, seal: *seal }),
        ),
{
    if !base.is_empty() && !text::same_text(card.base.as_str(), base) {
        return false;
    }
    if let Some(wanted) = enhancement {
        match &card.enhancement {
            Some(found) => {
                if !text::eq_ignore_ascii_case(found.as_str(), wanted.as_str()) {
                    return false;
                }
            },
            None => {
                return false;
            },
        }
    }
    if let Some(wanted) = edition {
        if !text::eq_ignore_ascii_case(wanted.as_str(), draws::edition_name(card.edition)) {
            return false;
        }
    }
    if let Some(wanted) = seal {
        let name = text::to_ascii_lowercase(wanted.as_str());
        let short = text::trim_end_matches(name.as_str(), " seal");
        if !text::same_text(draws::seal_name(card.seal), short) {
            return false;
        }
    }
    true
}

/// The index of the first card in a booster pack that is wanted, and its base.
fn find_card<'a>(
    contents: &'a PackContents,
    base: &str,
    enhancement: &Option<String>,
    edition: &Option<String>,
    seal: &Option<String>,
) -> (res: Option<(usize, &'a str)>)
    ensures
        match first_in_pack(
            *contents,
            (Wish { base: base@, enhancement: *enhancement, edition: *edition, seal: *seal }),
        ) {
            Some(ci) => {
                &&& res matches Some(found)
                &&& found.0 == ci
                &&& found.1@ == base_in_pack(*contents, ci)
            },
            None => res is None,
        },
{
    let ghost wish = Wish {
        base: base@,
        enhancement: *enhancement,
        edition: *edition,
        seal: *seal,
    };
    if let PackContents::StandardCards(cards) = contents {
        let mut ci: usize = 0;
        while ci < cards.len()
            invariant
                ci <= cards.len(),
                *contents == PackContents::StandardCards(*cards),
                wish == (Wish {
                    base: base@,
                    enhancement: *enhancement,
                    edition: *edition,
                    seal: *seal,
                }),
                first_in_pack(*contents, wish) == first_card(cards@, wish, ci as nat),
            decreases cards.len() - ci,
        {
            if card_is(&cards[ci], base, enhancement, edition, seal) {
                assert(draws::bases(cards@)[ci as int] == cards@[ci as int].base@);
                return Some((ci, cards[ci].base.as_str()));
            }
            ci += 1;
        }
    }
    None
}

/// Inspects a clause on a playing card.
fn inspect_card<'a>(
    ante: u8,
    max_packs: u8,
    base: &str,
    enhancement: &Option<String>,
    edition: &Option<String>,
    seal: &Option<String>,
    seed: &str,
    deck_idx: u8,
    stake_idx: u8,
    tape: &mut Tape<'a>,
) -> (res: Result<(bool, String), Stop>)
    ensures
        final(tape).replies == old(tape).replies,
        judged(
            res,
            final(tape).used,
            card_run(
                ante,
                max_packs,
                (Wish { base: base@, enhancement: *enhancement, edition: *edition, seal: *seal }),
                dialogue::game(seed@, deck_idx, stake_idx),
                old(tape).replies@,
                old(tape).used as nat,
            ),
        ),
{
    let ghost wish = Wish {
        base: base@,
        enhancement: *enhancement,
        edition: *edition,
        seal: *seal,
    };
    dialogue::fresh_instance(tape, seed, deck_idx, stake_idx)?;
    let mut i: u8 = 0;
    let ghost start = tape.used as nat;
    #[verifier::loop_isolation(false)]
    while i < max_packs
        invariant
            i <= max_packs,
            tape.replies == old(tape).replies,
            card_from(ante, max_packs, wish, 0, tape.replies@, start) == card_from(
                ante,
                max_packs,
                wish,
                i as nat,
                tape.replies@,
                tape.used as nat,
            ),
        decreases max_packs - i,
    {
        let pack = tape.name(Request::NextPack { ante: ante as i32 })?;
        let contents = tape.contents(
            Request::OpenPackDetailed { pack: pack.to_owned(), ante: ante as i32 },
        )?;
        if let Some((ci, found)) = find_card(contents, base, enhancement, edition, seal) {
            let mut detail = new_pack_text(ante, i, pack);
            detail.append(" · card ");
            text::push_decimal(&mut detail, ci as u64);
            detail.append(" = ");
            detail.append(found);
            return Ok((true, detail));
        }
        i += 1;
    }
    let mut detail = new_ante_text(ante);
    detail.append(" · no matching standard card in first ");
    text::push_decimal(&mut detail, max_packs as u64);
    detail.append(" packs");
    Ok((false, detail))
}

// ---------------------------------------------------------------------------
// Clauses
// ---------------------------------------------------------------------------

/// The run of a clause. Every clause but "any of" starts with a fresh instance of the game.
pub open spec fn clause_run(c: Clause, game: Game, tape: Seq<Reply>, used: nat) -> Run<Verdict>
    decreases c, 0nat,
{
    match c {
        Clause::AnteShopHasJoker { ante, slot, joker, edition, sticker } => shop_run(
            ante,
            slot,
            joker@,
            edition,
            sticker,
            game,
            tape,
            used,
        ),
        Clause::AnteTagIs { ante, position, tag } => tag_run(
            ante,
            position,
            tag@,
            game,
            tape,
            used,
        ),
        Clause::AnteBossIs { ante, boss } => boss_run(ante, boss@, game, tape, used),
        Clause::VoucherIs { ante, voucher } => voucher_run(ante, voucher@, game, tape, used),
        Clause::AntePackContains { ante, pack_index, card } => pack_run(
            ante,
            pack_index,
            card@,
            game,
            tape,
            used,
        ),
        Clause::AnteAnyPackContains { ante, max_packs, card } => any_pack_run(
            ante,
            max_packs,
            card@,
            game,
            tape,
            used,
        ),
        Clause::AnteSoulIs { ante, max_packs, joker } => made_run(
            Maker::Soul,
            ante,
            max_packs,
            joker@,
            game,
            tape,
            used,
        ),
        Clause::AnteWraithIs { ante, max_packs, joker } => made_run(
            Maker::Wraith,
            ante,
            max_packs,
            joker@,
            game,
            tape,
            used,
        ),
        Clause::AnteStandardCardIs { ante, max_packs, base, enhancement, edition, seal } => card_run(
            ante,
            max_packs,
            Wish { base: base@, enhancement, edition, seal },
            game,
            tape,
            used,
        ),
        Clause::AnyOf { clauses } => any_of_from(clauses@, 0, game, tape, used),
    }
}

/// The detail where the sub-clause with index `i` is met.
pub open spec fn any_of_text(i: nat, detail: Seq<char>) -> Seq<char> {
    "any_of["@ + text::decimal(i) + "]: "@ + detail
}

/// The run over the sub-clauses from clause `i` on: the first that is met decides.
pub open spec fn any_of_from(
    clauses: Seq<Clause>,
    i: nat,
    game: Game,
    tape: Seq<Reply>,
    used: nat,
) -> Run<Verdict>
    decreases clauses, clauses.len() - i,
{
    if i >= clauses.len() {
        Run::Done((false, "no sub-clause matched"@), used)
    } else {
        match clause_run(clauses[i as int], game, tape, used) {
            Run::Halted(halt) => Run::Halted(halt),
            Run::Done(verdict, n) => if verdict.0 {
                Run::Done((true, any_of_text(i, verdict.1)), n)
            } else {
                any_of_from(clauses, i + 1, game, tape, n)
            },
        }
    }
}

/// Inspects a clause: whether the seed meets it, and where.
pub fn inspect_clause<'a>(
    c: &Clause,
    seed: &str,
    deck_idx: u8,
    stake_idx: u8,
    tape: &mut Tape<'a>,
) -> (res: Result<(bool, String), Stop>)
    ensures
        final(tape).replies == old(tape).replies,
        judged(
            res,
            final(tape).used,
            clause_run(
                *c,
                dialogue::game(seed@, deck_idx, stake_idx),
                old(tape).replies@,
                old(tape).used as nat,
            ),
        ),
        c !is AnyOf && old(tape).used == old(tape).replies@.len() ==> (res matches Err(Stop::Need(
            Request::FreshInstance { seed: asked, deck, stake },
        )) && {
            &&& asked@ == seed@
            &&& state::deck_index(deck) == if deck_idx < 14 {
                deck_idx as int
            } else {
                14
            }
            &&& state::stake_index(stake) == if stake_idx < 7 {
                stake_idx as int
            } else {
                7
            }
        }),
    decreases *c,
{
    proof {
        state::law_decks(state::deck_at(deck_idx as int), deck_idx);
        state::law_stakes(state::stake_at(stake_idx as int), stake_idx);
    }
    match c {
        Clause::AnteShopHasJoker { ante, slot, joker, edition, sticker } => inspect_shop(
            *ante,
            *slot,
            joker.as_str(),
            edition,
            sticker,
            seed,
            deck_idx,
            stake_idx,
            tape,
        ),
        Clause::AnteTagIs { ante, position, tag } => inspect_tag(
            *ante,
            *position,
            tag.as_str(),
            seed,
            deck_idx,
            stake_idx,
            tape,
        ),
        Clause::AnteBossIs { ante, boss } => inspect_boss(
            *ante,
            boss.as_str(),
            seed,
            deck_idx,
            stake_idx,
            tape,
        ),
        Clause::VoucherIs { ante, voucher } => inspect_voucher(
            *ante,
            voucher.as_str(),
            seed,
            deck_idx,
            stake_idx,
            tape,
        ),
        Clause::AntePackContains { ante, pack_index, card } => inspect_pack(
            *ante,
            *pack_index,
            card.as_str(),
            seed,
            deck_idx,
            stake_idx,
            tape,
        ),
        Clause::AnteAnyPackContains { ante, max_packs, card } => inspect_any_pack(
            *ante,
            *max_packs,
            card.as_str(),
            seed,
            deck_idx,
            stake_idx,
            tape,
        ),
        Clause::AnteSoulIs { ante, max_packs, joker } => inspect_made(
            Maker::Soul,
            *ante,
            *max_packs,
            joker.as_str(),
            seed,
            deck_idx,
            stake_idx,
            tape,
        ),
        Clause::AnteWraithIs { ante, max_packs, joker } => inspect_made(
            Maker::Wraith,
            *ante,
            *max_packs,
            joker.as_str(),
            seed,
            deck_idx,
            stake_idx,
            tape,
        ),
        Clause::AnteStandardCardIs { ante, max_packs, base, enhancement, edition, seal } =>
            inspect_card(
            *ante,
            *max_packs,
            base.as_str(),
            enhancement,
            edition,
            seal,
            seed,
            deck_idx,
            stake_idx,
            tape,
        ),
        Clause::AnyOf { clauses } => {
            let mut i: usize = 0;
            let ghost game = dialogue::game(seed@, deck_idx, stake_idx);
            let ghost start = tape.used as nat;
            #[verifier::loop_isolation(false)]
            while i < clauses.len()
                invariant
                    i <= clauses.len(),
                    tape.replies == old(tape).replies,
                    any_of_from(clauses@, 0, game, tape.replies@, start) == any_of_from(
                        clauses@,
                        i as nat,
                        game,
                        tape.replies@,
                        tape.used as nat,
                    ),
                decreases clauses.len() - i,
            {
                let (ok, found) = inspect_clause(&clauses[i], seed, deck_idx, stake_idx, tape)?;
                if ok {
                    let mut detail = String::from_str("any_of[");
                    text::push_decimal(&mut detail, i as u64);
                    detail.append("]: ");
                    detail.append(found.as_str());
                    return Ok((true, detail));
                }
                i += 1;
            }
            Ok((false, String::from_str("no sub-clause matched")))
        },
    }
}

} // verus!
