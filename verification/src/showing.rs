//! What the reports show: the text that comes out, read back as JSON, in terms of the replies.
use vstd::prelude::*;

use crate::analyze;
use crate::analyze::AnteDraws;
use crate::dialogue;
use crate::dialogue::Ask;
use crate::dialogue::Game;
use crate::dialogue::Halt;
use crate::dialogue::Reply;
use crate::dialogue::Run;
use crate::dialogue::Stop;
use crate::draws;
use crate::draws::PackContents;
use crate::draws::Rarity;
use crate::draws::ShopSlot;
use crate::filter::Clause;
use crate::filter::Filter;
use crate::inspect;
use crate::inspect::Verdict;
use crate::json::Json;
use crate::judging;
use crate::reading;
use crate::report;
use crate::state;

verus! {

// ---------------------------------------------------------------------------
// The report on a seed
// ---------------------------------------------------------------------------

/// The verdicts that say that a clause is met.
pub open spec fn hits(verdicts: Seq<Verdict>) -> Seq<Verdict> {
    verdicts.filter(|verdict: Verdict| verdict.0)
}

/// A clause that is met counts for one, wherever it stands, and one that is not met for nothing.
pub proof fn law_met_grows(verdicts: Seq<Verdict>, verdict: Verdict)
    ensures
        report::met(Seq::empty()) == 0,
        verdict.0 ==> report::met(verdicts.push(verdict)) == report::met(verdicts) + 1,
        !verdict.0 ==> report::met(verdicts.push(verdict)) == report::met(verdicts),
{
    assert(verdicts.push(verdict).drop_last() =~= verdicts);
}

/// As many clauses are met as there are verdicts that say so.
pub proof fn law_met_counts(verdicts: Seq<Verdict>)
    ensures
        report::met(verdicts) == hits(verdicts).len(),
    decreases verdicts.len(),
{
    reveal(Seq::filter);
    if verdicts.len() > 0 {
        law_met_counts(verdicts.drop_last());
    }
}

/// Without clauses there are no verdicts, and nothing is asked for.
pub proof fn law_no_verdicts(game: Game, tape: Seq<Reply>)
    ensures
        report::verdicts_run(Seq::empty(), game, tape) == Run::Done(Seq::<Verdict>::empty(), 0),
{
}

proof fn lemma_verdicts_grow(
    clauses: Seq<Clause>,
    c: Clause,
    i: nat,
    verdicts: Seq<Verdict>,
    game: Game,
    tape: Seq<Reply>,
    used: nat,
)
    requires
        i <= clauses.len(),
    ensures
        goes_on(
            report::verdicts_from(clauses, i, verdicts, game, tape, used),
            report::verdicts_from(clauses.push(c), i, verdicts, game, tape, used),
            c,
            game,
            tape,
        ),
    decreases clauses.len() - i,
{
    let more = clauses.push(c);
    if i < clauses.len() {
        assert(more[i as int] == clauses[i as int]);
        if let Run::Done(verdict, n) = inspect::clause_run(clauses[i as int], game, tape, used) {
            lemma_verdicts_grow(clauses, c, i + 1, verdicts.push(verdict), game, tape, n);
        }
    } else {
        assert(more[i as int] == c);
        if let Run::Done(verdict, n) = inspect::clause_run(c, game, tape, used) {
            let all = verdicts.push(verdict);
            assert(report::verdicts_from(more, i + 1, all, game, tape, n) == Run::Done(all, n));
        }
    }
}

/// How the run over some clauses and the run over these and one more belong together: the last
/// clause is judged on the replies behind those of the others.
pub open spec fn goes_on(
    short: Run<Seq<Verdict>>,
    long: Run<Seq<Verdict>>,
    c: Clause,
    game: Game,
    tape: Seq<Reply>,
) -> bool {
    match short {
        Run::Done(verdicts, n) => match inspect::clause_run(c, game, tape, n) {
            Run::Done(verdict, m) => long == Run::Done(verdicts.push(verdict), m),
            Run::Halted(halt) => long == Run::<Seq<Verdict>>::Halted(halt),
        },
        Run::Halted(_) => long == short,
    }
}

/// One more clause at the end of a filter is judged on the replies behind those of the others,
/// and its verdict stands behind theirs, which it does not change.
pub proof fn law_verdicts_grow(clauses: Seq<Clause>, c: Clause, game: Game, tape: Seq<Reply>)
    ensures
        goes_on(
            report::verdicts_run(clauses, game, tape),
            report::verdicts_run(clauses.push(c), game, tape),
            c,
            game,
            tape,
        ),
{
    lemma_verdicts_grow(clauses, c, 0, Seq::empty(), game, tape, 0);
}

/// Whether a document says of the clause with index `k` what its verdict is.
pub open spec fn clause_shown(doc: Json, k: int, verdict: Verdict) -> bool {
    &&& doc matches Json::Obj(members)
    &&& members.len() == 3
    &&& members[0] == ("index"@, Json::Num(k as nat))
    &&& members[1] == ("matched"@, Json::Bool(verdict.0))
    &&& members[2] == ("detail"@, Json::Str(verdict.1))
}

/// Whether a document reports the verdicts on a seed: each of them, how many are met, and how
/// many there are.
pub open spec fn verdicts_shown(doc: Json, seed: Seq<char>, verdicts: Seq<Verdict>) -> bool {
    &&& doc matches Json::Obj(members)
    &&& members.len() == 5
    &&& members[0] == ("ok"@, Json::Bool(true))
    &&& members[1] == ("seed"@, Json::Str(seed))
    &&& members[2].0 == "clauses"@
    &&& members[2].1 matches Json::Arr(items)
    &&& items.len() == verdicts.len()
    &&& forall|k: int| 0 <= k < items.len() ==> clause_shown(#[trigger] items[k], k, verdicts[k])
    &&& members[3] == ("matched"@, Json::Num(hits(verdicts).len()))
    &&& members[4] == ("total"@, Json::Num(verdicts.len()))
}

/// The game of a seed, with the deck and the stake at the given indices.
pub open spec fn played(seed: Seq<char>, deck_idx: u8, stake_idx: u8) -> Game {
    Game { seed, deck: state::deck_at(deck_idx as int), stake: state::stake_at(stake_idx as int) }
}

/// The report on a seed is a JSON text that tells the verdict on every clause of the filter, in
/// the filter's order, how many are met and how many there are. It stops where the run over the
/// clauses does.
pub proof fn law_report(
    filter: Filter,
    seed: Seq<char>,
    deck_idx: u8,
    stake_idx: u8,
    tape: Seq<Reply>,
    res: Result<String, Stop>,
)
    requires
        report::written(res, report::inspect_run(Ok(filter), seed, deck_idx, stake_idx, tape)),
    ensures
        match report::verdicts_run(filter.clauses@, played(seed, deck_idx, stake_idx), tape) {
            Run::Done(verdicts, _) => res matches Ok(out) && exists|doc: Json|
                #[trigger] reading::is_document(out@, doc) && verdicts_shown(doc, seed, verdicts),
            Run::Halted(halt) => res matches Err(stop) && stop@ == halt,
        },
{
    let game = played(seed, deck_idx, stake_idx);
    if let Run::Done(verdicts, _) = report::verdicts_run(filter.clauses@, game, tape) {
        let doc = report::report_doc(seed, verdicts);
        reading::law_render_is_document(doc);
        law_met_counts(verdicts);
        assert(verdicts_shown(doc, seed, verdicts));
    }
}

/// A filter that could not be read is reported at once, whatever the replies: the report says
/// that it is no report on a seed, and why.
pub proof fn law_error_report(
    message: String,
    seed: Seq<char>,
    deck_idx: u8,
    stake_idx: u8,
    tape: Seq<Reply>,
    res: Result<String, Stop>,
)
    requires
        report::written(res, report::inspect_run(Err(message), seed, deck_idx, stake_idx, tape)),
    ensures
        res matches Ok(out) && exists|doc: Json|
            {
                &&& #[trigger] reading::is_document(out@, doc)
                &&& doc matches Json::Obj(members)
                &&& members.len() == 2
                &&& members[0] == ("ok"@, Json::Bool(false))
                &&& members[1] == ("error"@, Json::Str(message@))
            },
{
    reading::law_render_is_document(report::error_doc(message@));
}

// ---------------------------------------------------------------------------
// Slots and packs
// ---------------------------------------------------------------------------

/// Whether a document shows a slot of the shop: its kind, its item, its edition, its rarity and
/// its stickers.
pub open spec fn slot_shown(doc: Json, slot: ShopSlot) -> bool {
    &&& doc matches Json::Obj(members)
    &&& members.len() == 7
    &&& members[0].0 == "type"@
    &&& members[0].1 matches Json::Str(kind)
    &&& slot.kind is Joker ==> kind == "Joker"@
    &&& slot.kind is Tarot ==> kind == "Tarot"@
    &&& slot.kind is Planet ==> kind == "Planet"@
    &&& slot.kind is PlayingCard ==> kind == "Playing Card"@
    &&& slot.kind is Spectral ==> kind == "Spectral"@
    &&& members[1] == ("item"@, Json::Str(slot.item@))
    &&& members[2].0 == "edition"@
    &&& members[2].1 matches Json::Str(edition)
    &&& slot.edition is NoEdition ==> edition.len() == 0
    &&& slot.edition is Foil ==> edition == "Foil"@
    &&& slot.edition is Holographic ==> edition == "Holographic"@
    &&& slot.edition is Polychrome ==> edition == "Polychrome"@
    &&& slot.edition is Negative ==> edition == "Negative"@
    &&& members[3].0 == "rarity"@
    &&& members[3].1 matches Json::Str(rarity)
    &&& slot.rarity is None ==> rarity.len() == 0
    &&& slot.rarity == Some(Rarity::Common) ==> rarity == "Common"@
    &&& slot.rarity == Some(Rarity::Uncommon) ==> rarity == "Uncommon"@
    &&& slot.rarity == Some(Rarity::Rare) ==> rarity == "Rare"@
    &&& slot.rarity == Some(Rarity::Legendary) ==> rarity == "Legendary"@
    &&& members[4] == ("eternal"@, Json::Bool(slot.stickers.eternal))
    &&& members[5] == ("perishable"@, Json::Bool(slot.stickers.perishable))
    &&& members[6] == ("rental"@, Json::Bool(slot.stickers.rental))
}

/// The document of a slot shows its kind, its item, its edition, its rarity and its stickers.
pub proof fn law_slot_shown(slot: ShopSlot)
    ensures
        slot_shown(analyze::slot_doc(slot), slot),
{
    reveal_strlit("");
    draws::law_kind_named(slot.kind);
    draws::law_edition_named(slot.edition);
    if let Some(rarity) = slot.rarity {
        draws::law_rarity_named(rarity);
    }
}

/// The document of a slot determines the slot: two slots that are shown alike are of the same
/// kind, edition and rarity, with the same item and the same stickers.
pub proof fn law_slot_determined(a: ShopSlot, b: ShopSlot)
    requires
        analyze::slot_doc(a) == analyze::slot_doc(b),
    ensures
        a.kind == b.kind,
        a.item@ == b.item@,
        a.edition == b.edition,
        a.rarity == b.rarity,
        a.stickers == b.stickers,
{
    law_slot_shown(a);
    law_slot_shown(b);
    let shown = analyze::slot_doc(a)->Obj_0;
    assert(shown[0].1 == analyze::slot_doc(b)->Obj_0[0].1);
    reveal_strlit("");
    draws::law_kind_named(a.kind);
    draws::law_kind_named(b.kind);
    draws::law_edition_named(a.edition);
    draws::law_edition_named(b.edition);
    if let Some(rarity) = a.rarity {
        draws::law_rarity_named(rarity);
    }
    if let Some(rarity) = b.rarity {
        draws::law_rarity_named(rarity);
    }
}

/// Whether a document shows a booster pack: its name, and the items or the bases of the cards in
/// it, in their order.
pub open spec fn pack_shown(doc: Json, name: Seq<char>, contents: PackContents) -> bool {
    &&& doc matches Json::Obj(members)
    &&& members.len() == 2
    &&& members[0] == ("name"@, Json::Str(name))
    &&& members[1].0 == "contents"@
    &&& members[1].1 matches Json::Arr(items)
    &&& match contents {
        PackContents::Tarots(v) => strings_shown(items, v@),
        PackContents::Planets(v) => strings_shown(items, v@),
        PackContents::Spectrals(v) => strings_shown(items, v@),
        PackContents::Jokers(v) => strings_shown(items, v@),
        PackContents::StandardCards(cards) => {
            &&& items.len() == cards@.len()
            &&& forall|i: int|
                0 <= i < items.len() ==> #[trigger] items[i] == Json::Str(cards@[i].base@)
        },
        PackContents::Standard => items.len() == 0,
        PackContents::Unknown => items.len() == 0,
    }
}

/// Whether the items of an array are strings, one for one.
pub open spec fn strings_shown(items: Seq<Json>, v: Seq<String>) -> bool {
    &&& items.len() == v.len()
    &&& forall|i: int| 0 <= i < items.len() ==> #[trigger] items[i] == Json::Str(v[i]@)
}

/// The document of a booster pack shows its name and what is in it.
pub proof fn law_pack_shown(name: Seq<char>, contents: PackContents)
    ensures
        pack_shown(analyze::pack_doc(name, contents), name, contents),
{
    draws::law_shown(contents);
}

// ---------------------------------------------------------------------------
// The draws of an ante
// ---------------------------------------------------------------------------

/// Whether the reply with index `j` of an ante, whose replies start at `at`, is of its kind. An
/// ante takes 23 replies: a fresh instance and the boss; one and the voucher; one and both tags;
/// one and six slots of the shop; one and four packs, for each a name and the contents.
pub open spec fn in_kind(tape: Seq<Reply>, at: nat, j: nat) -> bool {
    let reply = tape[at + j as int];
    if j == 0 || j == 2 || j == 4 || j == 7 || j == 14 {
        reply is Ready
    } else if j < 7 {
        reply is Name
    } else if j < 14 {
        reply is Slot
    } else if j % 2 == 1 {
        reply is Name
    } else {
        reply is Contents
    }
}

/// Whether the first `m` replies of an ante are of their kinds.
pub open spec fn all_in_kind(tape: Seq<Reply>, at: nat, m: nat) -> bool {
    forall|j: nat| j < m ==> #[trigger] in_kind(tape, at, j)
}

/// The request with index `j` of an ante whose replies start at `at`.
pub open spec fn asked(game: Game, ante: u8, tape: Seq<Reply>, at: nat, j: nat) -> Ask {
    let ante = ante as i32;
    if j == 0 || j == 2 || j == 4 || j == 7 || j == 14 {
        judging::fresh(game)
    } else if j == 1 {
        Ask::NextBoss { ante }
    } else if j == 3 {
        Ask::NextVoucher { ante }
    } else if j < 7 {
        Ask::NextTag { ante }
    } else if j < 14 {
        Ask::NextShopItem { ante }
    } else if j % 2 == 1 {
        Ask::NextPack { ante }
    } else {
        Ask::OpenPackDetailed { pack: tape[at + j - 1]->Name_0@, ante }
    }
}

/// Whether what an ante offers is what its replies hold.
pub open spec fn drawn(offer: AnteDraws, tape: Seq<Reply>, at: nat) -> bool {
    &&& offer.boss == tape[at + 1int]->Name_0@
    &&& offer.voucher == tape[at + 3int]->Name_0@
    &&& offer.small_tag == tape[at + 5int]->Name_0@
    &&& offer.big_tag == tape[at + 6int]->Name_0@
    &&& offer.shop.len() == 6
    &&& forall|i: int| 0 <= i < 6 ==> #[trigger] offer.shop[i] == tape[at + 8 + i]->Slot_0
    &&& offer.packs.len() == 4
    &&& forall|i: int|
        0 <= i < 4 ==> (#[trigger] offer.packs[i]).0 == tape[at + 15 + 2 * i]->Name_0@
            && offer.packs[i].1 == tape[at + 16 + 2 * i]->Contents_0
}

proof fn lemma_slots_from(ante: u8, slots: Seq<ShopSlot>, tape: Seq<Reply>, used: nat)
    requires
        slots.len() <= 6,
        used <= tape.len(),
    ensures
        match analyze::slots_from(ante, slots, tape, used) {
            Run::Halted(Halt::Need(ask)) => {
                &&& ask == Ask::NextShopItem { ante: ante as i32 }
                &&& tape.len() < used + 6 - slots.len()
                &&& forall|k: int| used <= k < tape.len() ==> (#[trigger] tape[k]) is Slot
            },
            Run::Halted(Halt::Mismatch(m)) => {
                &&& used <= m < used + 6 - slots.len()
                &&& m < tape.len()
                &&& tape[m as int] !is Slot
                &&& forall|k: int| used <= k < m ==> (#[trigger] tape[k]) is Slot
            },
            Run::Done(all, n) => {
                &&& n == used + 6 - slots.len()
                &&& n <= tape.len()
                &&& forall|k: int| used <= k < n ==> (#[trigger] tape[k]) is Slot
                &&& all.len() == 6
                &&& forall|i: int| 0 <= i < slots.len() ==> #[trigger] all[i] == slots[i]
                &&& forall|i: int|
                    slots.len() <= i < 6 ==> #[trigger] all[i] == tape[used + i
                        - slots.len()]->Slot_0
            },
        },
    decreases 6 - slots.len(),
{
    if slots.len() < 6 {
        let ask = Ask::NextShopItem { ante: ante as i32 };
        if let Run::Done(slot, n) = dialogue::slot_at(ask, tape, used) {
            let more = slots.push(slot);
            lemma_slots_from(ante, more, tape, n);
            if let Run::Done(all, _) = analyze::slots_from(ante, more, tape, n) {
                assert forall|i: int| 0 <= i < slots.len() implies #[trigger] all[i] == slots[i] by {
                    assert(all[i] == more[i]);
                }
                assert(all[slots.len() as int] == more[slots.len() as int]);
            }
        }
    }
}

/// Whether the replies about packs from `start` on up to `to` are names and contents in turn.
pub open spec fn in_turn(tape: Seq<Reply>, start: nat, to: nat) -> bool {
    forall|k: int|
        start <= k < to ==> if (k - start) % 2 == 0 {
            (#[trigger] tape[k]) is Name
        } else {
            tape[k] is Contents
        }
}

proof fn lemma_packs_from(
    ante: u8,
    packs: Seq<(Seq<char>, PackContents)>,
    tape: Seq<Reply>,
    start: nat,
)
    requires
        packs.len() <= 4,
        start + 2 * packs.len() <= tape.len(),
        in_turn(tape, start, start + 2 * packs.len()),
        forall|i: int|
            0 <= i < packs.len() ==> (#[trigger] packs[i]).0 == tape[start + 2 * i]->Name_0@
                && packs[i].1 == tape[start + 2 * i + 1]->Contents_0,
    ensures
        match analyze::packs_from(ante, packs, tape, start + 2 * packs.len()) {
            Run::Halted(Halt::Need(ask)) => {
                &&& start <= tape.len() < start + 8
                &&& in_turn(tape, start, tape.len())
                &&& ask == if (tape.len() - start) % 2 == 0 {
                    Ask::NextPack { ante: ante as i32 }
                } else {
                    Ask::OpenPackDetailed { pack: tape.last()->Name_0@, ante: ante as i32 }
                }
            },
            Run::Halted(Halt::Mismatch(m)) => {
                &&& start <= m < start + 8
                &&& m < tape.len()
                &&& in_turn(tape, start, m)
                &&& if (m - start) % 2 == 0 {
                    tape[m as int] !is Name
                } else {
                    tape[m as int] !is Contents
                }
            },
            Run::Done(all, n) => {
                &&& n == start + 8
                &&& n <= tape.len()
                &&& in_turn(tape, start, n)
                &&& all.len() == 4
                &&& forall|i: int|
                    0 <= i < 4 ==> (#[trigger] all[i]).0 == tape[start + 2 * i]->Name_0@
                        && all[i].1 == tape[start + 2 * i + 1]->Contents_0
            },
        },
    decreases 4 - packs.len(),
{
    let used = start + 2 * packs.len();
    if packs.len() < 4 {
        let ask = Ask::NextPack { ante: ante as i32 };
        if let Run::Done(pack, n) = dialogue::name_at(ask, tape, used) {
            let open = Ask::OpenPackDetailed { pack, ante: ante as i32 };
            if let Run::Done(contents, m) = dialogue::contents_at(open, tape, n) {
                lemma_packs_from(ante, packs.push((pack, contents)), tape, start);
            }
        }
    }
}

/// An ante of the overview asks for its draws one by one, each kind of draw on a fresh instance;
/// refuses a reply that is not of its kind; and offers what the replies hold.
pub proof fn law_ante(ante: u8, game: Game, tape: Seq<Reply>, used: nat)
    requires
        used <= tape.len(),
    ensures
        match analyze::ante_run(ante, game, tape, used) {
            Run::Halted(Halt::Need(ask)) => {
                let j = (tape.len() - used) as nat;
                &&& j < 23
                &&& all_in_kind(tape, used, j)
                &&& ask == asked(game, ante, tape, used, j)
            },
            Run::Halted(Halt::Mismatch(k)) => {
                let j = (k - used) as nat;
                &&& used <= k < used + 23
                &&& k < tape.len()
                &&& all_in_kind(tape, used, j)
                &&& !in_kind(tape, used, j)
            },
            Run::Done(offer, n) => {
                &&& n == used + 23
                &&& n <= tape.len()
                &&& all_in_kind(tape, used, 23)
                &&& drawn(offer, tape, used)
            },
        },
{
    let boss = Ask::NextBoss { ante: ante as i32 };
    let voucher = Ask::NextVoucher { ante: ante as i32 };
    if let Run::Done(_, a) = analyze::fresh_name_at(boss, game, tape, used) {
        if let Run::Done(_, b) = analyze::fresh_name_at(voucher, game, tape, a) {
            if let Run::Done(_, c) = analyze::tags_at(ante, game, tape, b) {
                assert(c == used + 7);
                if let Run::Done(_, d) = dialogue::fresh_at(game, tape, c) {
                    lemma_slots_from(ante, Seq::empty(), tape, d);
                    if let Run::Done(_, e) = analyze::shop_at(ante, game, tape, c) {
                        assert(e == used + 14);
                        if let Run::Done(_, f) = dialogue::fresh_at(game, tape, e) {
                            lemma_packs_from(ante, Seq::empty(), tape, f);
                        }
                    }
                }
            }
        }
    }
}

// ---------------------------------------------------------------------------
// The overview
// ---------------------------------------------------------------------------

/// Whether all replies of the first `d` antes are of their kinds.
pub open spec fn antes_in_kind(tape: Seq<Reply>, d: nat) -> bool {
    forall|e: nat| e < d ==> #[trigger] all_in_kind(tape, 23 * e, 23)
}

/// The antes of the overview follow one another: each asks where the replies end, refuses a reply
/// that is not of its kind, and offers what its own replies hold.
pub proof fn law_antes(
    last: u8,
    offers: Seq<AnteDraws>,
    game: Game,
    tape: Seq<Reply>,
)
    requires
        offers.len() <= last,
        23 * offers.len() <= tape.len(),
        antes_in_kind(tape, offers.len()),
        forall|i: int| 0 <= i < offers.len() ==> drawn(#[trigger] offers[i], tape, (23 * i) as nat),
    ensures
        match analyze::antes_from(last, offers, game, tape, 23 * offers.len()) {
            Run::Halted(Halt::Need(ask)) => {
                let d = tape.len() / 23;
                &&& d < last
                &&& antes_in_kind(tape, d)
                &&& all_in_kind(tape, 23 * d, tape.len() % 23)
                &&& ask == asked(game, (d + 1) as u8, tape, 23 * d, tape.len() % 23)
            },
            Run::Halted(Halt::Mismatch(k)) => {
                let d = k / 23;
                &&& k < tape.len()
                &&& d < last
                &&& antes_in_kind(tape, d)
                &&& all_in_kind(tape, 23 * d, k % 23)
                &&& !in_kind(tape, 23 * d, k % 23)
            },
            Run::Done(all, n) => {
                &&& n == 23 * last
                &&& n <= tape.len()
                &&& antes_in_kind(tape, last as nat)
                &&& all.len() == last
                &&& forall|i: int|
                    0 <= i < all.len() ==> drawn(#[trigger] all[i], tape, (23 * i) as nat)
            },
        },
    decreases last - offers.len(),
{
    let d = offers.len();
    if d < last {
        let ante = (d + 1) as u8;
        let used = 23 * d;
        law_ante(ante, game, tape, used);
        match analyze::ante_run(ante, game, tape, used) {
            Run::Done(offer, n) => {
                let more = offers.push(offer);
                assert forall|i: int| 0 <= i < more.len() implies drawn(
                    #[trigger] more[i],
                    tape,
                    (23 * i) as nat,
                ) by {
                    if i < d {
                        assert(more[i] == offers[i]);
                    }
                }
                law_antes(last, more, game, tape);
            },
            Run::Halted(Halt::Need(_)) => {
                assert(tape.len() / 23 == d);
                assert(tape.len() % 23 == tape.len() - used);
            },
            Run::Halted(Halt::Mismatch(k)) => {
                assert(k / 23 == d);
                assert(k % 23 == k - used);
            },
        }
    }
}

/// Whether a document shows an ante, whose replies start at `at`.
pub open spec fn ante_shown(doc: Json, number: nat, tape: Seq<Reply>, at: nat) -> bool {
    &&& doc matches Json::Obj(members)
    &&& members.len() == 7
    &&& members[0] == ("ante"@, Json::Num(number))
    &&& members[1] == ("boss"@, Json::Str(tape[at + 1int]->Name_0@))
    &&& members[2] == ("voucher"@, Json::Str(tape[at + 3int]->Name_0@))
    &&& members[3] == ("small_tag"@, Json::Str(tape[at + 5int]->Name_0@))
    &&& members[4] == ("big_tag"@, Json::Str(tape[at + 6int]->Name_0@))
    &&& members[5].0 == "shop"@
    &&& members[5].1 matches Json::Arr(slots)
    &&& slots.len() == 6
    &&& forall|i: int|
        0 <= i < 6 ==> slot_shown(#[trigger] slots[i], tape[at + 8 + i]->Slot_0)
    &&& members[6].0 == "packs"@
    &&& members[6].1 matches Json::Arr(packs)
    &&& packs.len() == 4
    &&& forall|i: int|
        0 <= i < 4 ==> pack_shown(
            #[trigger] packs[i],
            tape[at + 15 + 2 * i]->Name_0@,
            tape[at + 16 + 2 * i]->Contents_0,
        )
}

/// Whether a document shows the overview of a seed, with all antes up to `last`.
pub open spec fn overview_shown(doc: Json, seed: Seq<char>, last: nat, tape: Seq<Reply>) -> bool {
    &&& doc matches Json::Obj(members)
    &&& members.len() == 3
    &&& members[0] == ("ok"@, Json::Bool(true))
    &&& members[1] == ("seed"@, Json::Str(seed))
    &&& members[2].0 == "antes"@
    &&& members[2].1 matches Json::Arr(antes)
    &&& antes.len() == last
    &&& forall|i: int|
        0 <= i < last ==> ante_shown(#[trigger] antes[i], (i + 1) as nat, tape, (23 * i) as nat)
}

/// What an ante offers is what its document shows.
proof fn lemma_ante_shown(number: nat, offer: AnteDraws, tape: Seq<Reply>, at: nat)
    requires
        drawn(offer, tape, at),
    ensures
        ante_shown(analyze::ante_doc(number, offer), number, tape, at),
{
    let slots = analyze::slot_docs(offer.shop);
    let packs = analyze::pack_docs(offer.packs);
    assert forall|i: int| 0 <= i < 6 implies slot_shown(
        #[trigger] slots[i],
        tape[at + 8 + i]->Slot_0,
    ) by {
        assert(slots[i] == analyze::slot_doc(offer.shop[i]));
        law_slot_shown(offer.shop[i]);
    }
    assert forall|i: int| 0 <= i < 4 implies pack_shown(
        #[trigger] packs[i],
        tape[at + 15 + 2 * i]->Name_0@,
        tape[at + 16 + 2 * i]->Contents_0,
    ) by {
        assert(packs[i] == analyze::pack_doc(offer.packs[i].0, offer.packs[i].1));
        law_pack_shown(offer.packs[i].0, offer.packs[i].1);
    }
}

/// The overview of a seed asks for its draws ante by ante, from the first to the one that is
/// named, or to the first where that is none, and to the sixteenth at most. It refuses a reply
/// that is not of its kind. With all replies at hand it is a JSON text that shows them.
pub proof fn law_overview(
    seed: Seq<char>,
    max_ante: u8,
    deck_idx: u8,
    stake_idx: u8,
    tape: Seq<Reply>,
    res: Result<String, Stop>,
)
    requires
        report::written(res, analyze::overview_run(seed, max_ante, deck_idx, stake_idx, tape)),
    ensures
        ({
            let last: nat = if max_ante == 0 {
                1
            } else if max_ante > 16 {
                16
            } else {
                max_ante as nat
            };
            let game = played(seed, deck_idx, stake_idx);
            match res {
                Ok(out) => {
                    &&& tape.len() >= 23 * last
                    &&& antes_in_kind(tape, last)
                    &&& exists|doc: Json| #[trigger]
                        reading::is_document(out@, doc) && overview_shown(doc, seed, last, tape)
                },
                Err(stop) => match stop@ {
                    Halt::Need(ask) => {
                        let d = tape.len() / 23;
                        &&& d < last
                        &&& antes_in_kind(tape, d)
                        &&& all_in_kind(tape, 23 * d, tape.len() % 23)
                        &&& ask == asked(game, (d + 1) as u8, tape, 23 * d, tape.len() % 23)
                    },
                    Halt::Mismatch(k) => {
                        let d = k / 23;
                        &&& k < tape.len()
                        &&& d < last
                        &&& antes_in_kind(tape, d)
                        &&& all_in_kind(tape, 23 * d, k % 23)
                        &&& !in_kind(tape, 23 * d, k % 23)
                    },
                },
            }
        }),
{
    let last = analyze::last_ante(max_ante);
    let game = played(seed, deck_idx, stake_idx);
    law_antes(last, Seq::empty(), game, tape);
    if let Run::Done(offers, _) = analyze::antes_from(last, Seq::empty(), game, tape, 0) {
        let doc = analyze::overview_doc(seed, offers);
        reading::law_render_is_document(doc);
        let antes = analyze::ante_docs(offers);
        assert forall|i: int| 0 <= i < last implies ante_shown(
            #[trigger] antes[i],
            (i + 1) as nat,
            tape,
            (23 * i) as nat,
        ) by {
            assert(drawn(offers[i], tape, (23 * i) as nat));
            lemma_ante_shown((i + 1) as nat, offers[i], tape, (23 * i) as nat);
        }
        assert(overview_shown(doc, seed, last as nat, tape));
    }
}

} // verus!
