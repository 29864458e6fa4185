//! What the verdicts and the overview mean, in terms of the replies they rest on.
use vstd::prelude::*;

use crate::analyze;
use crate::analyze::AnteDraws;
use crate::dialogue;
use crate::dialogue::Ask;
use crate::dialogue::Game;
use crate::dialogue::Reply;
use crate::dialogue::Run;
use crate::dialogue::Stop;
use crate::draws;
use crate::draws::PackContents;
use crate::draws::ShopSlot;
use crate::draws::StandardCard;
use crate::filter::Clause;
use crate::filter::Filter;
use crate::inspect;
use crate::inspect::Maker;
use crate::inspect::Verdict;
use crate::inspect::Wish;
use crate::json::Json;
use crate::reading;
use crate::report;

verus! {

// ---------------------------------------------------------------------------
// The shop
// ---------------------------------------------------------------------------

/// The slot that the reply with index `k` holds, where it holds one.
pub open spec fn slot_in(tape: Seq<Reply>, k: nat) -> Option<ShopSlot> {
    if k < tape.len() {
        match tape[k as int] {
            Reply::Slot(slot) => Some(slot),
            _ => None,
        }
    } else {
        None
    }
}

/// Whether the reply with index `k` is a slot that offers the joker.
pub open spec fn offered(
    tape: Seq<Reply>,
    k: nat,
    joker: Seq<char>,
    edition: Option<String>,
    sticker: Option<String>,
) -> bool {
    slot_in(tape, k) matches Some(slot) && inspect::slot_meets(slot, joker, edition, sticker)
}

/// Whether the reply with index `k` is a slot that does not offer the joker.
pub open spec fn passed_over(
    tape: Seq<Reply>,
    k: nat,
    joker: Seq<char>,
    edition: Option<String>,
    sticker: Option<String>,
) -> bool {
    slot_in(tape, k) matches Some(slot) && !inspect::slot_meets(slot, joker, edition, sticker)
}

proof fn lemma_shop_from(
    ante: u8,
    joker: Seq<char>,
    edition: Option<String>,
    sticker: Option<String>,
    s: nat,
    end: nat,
    tape: Seq<Reply>,
    used: nat,
)
    requires
        s <= end,
    ensures
        match inspect::shop_from(ante, joker, edition, sticker, s, end, tape, used) {
            Run::Done(verdict, n) => if verdict.0 {
                let at = (s + n - used - 1) as nat;
                &&& n > used
                &&& at < end
                &&& offered(tape, (n - 1) as nat, joker, edition, sticker)
                &&& forall|k: nat|
                    used <= k < n - 1 ==> #[trigger] passed_over(tape, k, joker, edition, sticker)
                &&& verdict.1 == inspect::shop_hit_text(
                    ante,
                    at,
                    slot_in(tape, (n - 1) as nat)->0,
                )
            } else {
                &&& n == used + end - s
                &&& forall|k: nat|
                    used <= k < n ==> #[trigger] passed_over(tape, k, joker, edition, sticker)
                &&& verdict.1 == inspect::shop_miss_text(ante, end)
            },
            Run::Halted(_) => true,
        },
    decreases end - s,
{
    if s < end {
        let ask = Ask::NextShopItem { ante: ante as i32 };
        if let Run::Done(slot, n) = dialogue::slot_at(ask, tape, used) {
            lemma_shop_from(ante, joker, edition, sticker, s + 1, end, tape, n);
            if !inspect::slot_meets(slot, joker, edition, sticker) {
                assert(passed_over(tape, used, joker, edition, sticker));
            }
        }
    }
}

/// A clause on the shop is met exactly where a slot offers the joker, and the detail names the
/// first such slot. Where it is not met, all slots that count were looked at, and none offers
/// the joker.
pub proof fn law_shop_verdict(
    ante: u8,
    slot: u8,
    joker: Seq<char>,
    edition: Option<String>,
    sticker: Option<String>,
    game: Game,
    tape: Seq<Reply>,
    used: nat,
)
    ensures
        match inspect::shop_run(ante, slot, joker, edition, sticker, game, tape, used) {
            Run::Done(verdict, n) => if verdict.0 {
                let at = (n - used - 2) as nat;
                &&& n >= used + 2
                &&& at < inspect::scan_end(slot)
                &&& offered(tape, used + 1 + at, joker, edition, sticker)
                &&& forall|k: nat|
                    used + 1 <= k < used + 1 + at ==> #[trigger] passed_over(
                        tape,
                        k,
                        joker,
                        edition,
                        sticker,
                    )
                &&& verdict.1 == inspect::shop_hit_text(
                    ante,
                    at,
                    slot_in(tape, used + 1 + at)->0,
                )
            } else {
                &&& n == used + 1 + inspect::scan_end(slot)
                &&& forall|k: nat|
                    used + 1 <= k < n ==> #[trigger] passed_over(tape, k, joker, edition, sticker)
                &&& verdict.1 == inspect::shop_miss_text(ante, inspect::scan_end(slot))
            },
            Run::Halted(_) => true,
        },
{
    if let Run::Done(_, n) = dialogue::fresh_at(game, tape, used) {
        let end = inspect::scan_end(slot);
        lemma_shop_from(ante, joker, edition, sticker, 0, end, tape, n);
    }
}

// ---------------------------------------------------------------------------
// Booster packs
// ---------------------------------------------------------------------------

/// The name that the reply with index `k` holds, where it holds one.
pub open spec fn name_in(tape: Seq<Reply>, k: nat) -> Option<Seq<char>> {
    if k < tape.len() {
        match tape[k as int] {
            Reply::Name(name) => Some(name@),
            _ => None,
        }
    } else {
        None
    }
}

/// What the booster pack in the reply with index `k` holds, where the reply is one.
pub open spec fn contents_in(tape: Seq<Reply>, k: nat) -> Option<PackContents> {
    if k < tape.len() {
        match tape[k as int] {
            Reply::Contents(contents) => Some(contents),
            _ => None,
        }
    } else {
        None
    }
}

/// Whether the reply with index `k` is a booster pack that shows the card.
pub open spec fn shows(tape: Seq<Reply>, k: nat, card: Seq<char>) -> bool {
    contents_in(tape, k) matches Some(contents) && draws::shown(contents).contains(card)
}

/// Whether the reply with index `k` is a booster pack that does not show the card.
pub open spec fn lacks(tape: Seq<Reply>, k: nat, card: Seq<char>) -> bool {
    contents_in(tape, k) matches Some(contents) && !draws::shown(contents).contains(card)
}

proof fn lemma_any_pack_from(
    ante: u8,
    max_packs: u8,
    card: Seq<char>,
    i: nat,
    tape: Seq<Reply>,
    start: nat,
)
    requires
        i <= max_packs,
        forall|p: nat| p < i ==> #[trigger] lacks(tape, start + 2 * p + 1, card),
    ensures
        match inspect::any_pack_from(ante, max_packs, card, i, tape, start + 2 * i) {
            Run::Done(verdict, n) => if verdict.0 {
                let at = ((n - start) / 2 - 1) as nat;
                &&& n == start + 2 * at + 2
                &&& at < max_packs
                &&& shows(tape, start + 2 * at + 1, card)
                &&& forall|p: nat| p < at ==> #[trigger] lacks(tape, start + 2 * p + 1, card)
                &&& verdict.1 == inspect::contains_text(
                    ante,
                    at,
                    name_in(tape, start + 2 * at)->0,
                    card,
                    true,
                )
            } else {
                &&& n == start + 2 * max_packs
                &&& forall|p: nat| p < max_packs ==> #[trigger] lacks(tape, start + 2 * p + 1, card)
                &&& verdict.1 == inspect::no_pack_text(ante, max_packs, card)
            },
            Run::Halted(_) => true,
        },
    decreases max_packs - i,
{
    let used = start + 2 * i;
    if i < max_packs {
        let ask = Ask::NextPack { ante: ante as i32 };
        if let Run::Done(pack, n) = dialogue::name_at(ask, tape, used) {
            let open = Ask::OpenPackDetailed { pack, ante: ante as i32 };
            if let Run::Done(contents, m) = dialogue::contents_at(open, tape, n) {
                assert(contents_in(tape, used + 1) == Some(contents));
                assert(m == start + 2 * (i + 1));
                if draws::shown(contents).contains(card) {
                    assert(shows(tape, start + 2 * i + 1, card));
                } else {
                    assert(lacks(tape, start + 2 * i + 1, card));
                    lemma_any_pack_from(ante, max_packs, card, i + 1, tape, start);
                }
            }
        }
    }
}

/// A clause on any booster pack is met exactly where one of the packs shows the card, and the
/// detail names the first such pack. Where it is not met, all packs that count were opened, and
/// none shows the card.
pub proof fn law_any_pack_verdict(
    ante: u8,
    max_packs: u8,
    card: Seq<char>,
    game: Game,
    tape: Seq<Reply>,
    used: nat,
)
    ensures
        match inspect::any_pack_run(ante, max_packs, card, game, tape, used) {
            Run::Done(verdict, n) => if verdict.0 {
                let at = ((n - used - 1) / 2 - 1) as nat;
                &&& n == used + 1 + 2 * at + 2
                &&& at < max_packs
                &&& shows(tape, used + 1 + 2 * at + 1, card)
                &&& forall|p: nat| p < at ==> #[trigger] lacks(tape, used + 1 + 2 * p + 1, card)
                &&& verdict.1 == inspect::contains_text(
                    ante,
                    at,
                    name_in(tape, used + 1 + 2 * at)->0,
                    card,
                    true,
                )
            } else {
                &&& n == used + 1 + 2 * max_packs
                &&& forall|p: nat|
                    p < max_packs ==> #[trigger] lacks(tape, used + 1 + 2 * p + 1, card)
                &&& verdict.1 == inspect::no_pack_text(ante, max_packs, card)
            },
            Run::Halted(_) => true,
        },
{
    if let Run::Done(_, n) = dialogue::fresh_at(game, tape, used) {
        lemma_any_pack_from(ante, max_packs, card, 0, tape, n);
    }
}

/// Whether the reply with index `k` is a booster pack that holds the card that makes a joker.
pub open spec fn makes(tape: Seq<Reply>, k: nat, maker: Maker) -> bool {
    contents_in(tape, k) matches Some(contents) && draws::item_names(contents).contains(
        inspect::maker_item(maker),
    )
}

/// Whether the reply with index `k` is a booster pack that does not hold the card that makes a
/// joker.
pub open spec fn makes_none(tape: Seq<Reply>, k: nat, maker: Maker) -> bool {
    contents_in(tape, k) matches Some(contents) && !draws::item_names(contents).contains(
        inspect::maker_item(maker),
    )
}

/// What a verdict on a card that makes a joker promises, for packs whose replies start at
/// `start`, with `n` replies used: the first pack with such a card decides, and the joker that
/// it makes is the reply behind the pack.
pub open spec fn made_holds(
    met: bool,
    detail: Seq<char>,
    maker: Maker,
    ante: u8,
    max_packs: u8,
    joker: Seq<char>,
    tape: Seq<Reply>,
    start: nat,
    n: nat,
) -> bool {
    ||| {
        &&& !met
        &&& n == start + 2 * max_packs
        &&& forall|p: nat| p < max_packs ==> #[trigger] makes_none(tape, start + 2 * p + 1, maker)
        &&& detail == inspect::none_made_text(maker, ante, max_packs)
    }
    ||| exists|at: nat|
        {
            &&& at < max_packs
            &&& n == start + 2 * at + 3
            &&& #[trigger] makes(tape, start + 2 * at + 1, maker)
            &&& forall|p: nat| p < at ==> #[trigger] makes_none(tape, start + 2 * p + 1, maker)
            &&& name_in(tape, start + 2 * at + 2) is Some
            &&& met == (name_in(tape, start + 2 * at + 2) == Some(joker))
            &&& detail == inspect::made_text(
                maker,
                ante,
                at,
                name_in(tape, start + 2 * at)->0,
                name_in(tape, start + 2 * at + 2)->0,
                joker,
            )
        }
}

proof fn lemma_made_from(
    maker: Maker,
    ante: u8,
    max_packs: u8,
    joker: Seq<char>,
    i: nat,
    tape: Seq<Reply>,
    start: nat,
)
    requires
        i <= max_packs,
        forall|p: nat| p < i ==> #[trigger] makes_none(tape, start + 2 * p + 1, maker),
    ensures
        inspect::made_from(
            maker,
            ante,
            max_packs,
            joker,
            i,
            tape,
            start + 2 * i,
        ) matches Run::Done(verdict, n) ==> made_holds(
            verdict.0,
            verdict.1,
            maker,
            ante,
            max_packs,
            joker,
            tape,
            start,
            n,
        ),
    decreases max_packs - i,
{
    let used = start + 2 * i;
    if i < max_packs {
        let ask = Ask::NextPack { ante: ante as i32 };
        if let Run::Done(pack, n) = dialogue::name_at(ask, tape, used) {
            let open = Ask::OpenPack { pack, ante: ante as i32 };
            assert(name_in(tape, start + 2 * i) == Some(pack));
            if let Run::Done(contents, m) = dialogue::contents_at(open, tape, n) {
                assert(contents_in(tape, start + 2 * i + 1) == Some(contents));
                assert(m == start + 2 * (i + 1));
                if draws::item_names(contents).contains(inspect::maker_item(maker)) {
                    assert(makes(tape, start + 2 * i + 1, maker));
                    if let Run::Done(made, _) = dialogue::name_at(
                        inspect::maker_ask(maker, ante),
                        tape,
                        m,
                    ) {
                        assert(name_in(tape, start + 2 * i + 2) == Some(made));
                    }
                } else {
                    assert(makes_none(tape, start + 2 * i + 1, maker));
                    lemma_made_from(maker, ante, max_packs, joker, i + 1, tape, start);
                }
            }
        }
    }
}

/// A clause on a card that makes a joker is decided by the first booster pack with such a card,
/// and met exactly where the joker that it makes is the one that is wanted. Without such a card
/// in any pack that counts it is not met.
pub proof fn law_made_verdict(
    maker: Maker,
    ante: u8,
    max_packs: u8,
    joker: Seq<char>,
    game: Game,
    tape: Seq<Reply>,
    used: nat,
)
    ensures
        inspect::made_run(maker, ante, max_packs, joker, game, tape, used) matches Run::Done(
            verdict,
            n,
        ) ==> made_holds(
            verdict.0,
            verdict.1,
            maker,
            ante,
            max_packs,
            joker,
            tape,
            used + 1,
            n,
        ),
{
    if let Run::Done(_, n) = dialogue::fresh_at(game, tape, used) {
        lemma_made_from(maker, ante, max_packs, joker, 0, tape, n);
    }
}

/// Whether the reply with index `k` is a booster pack without any card that is wanted.
pub open spec fn unwanted(tape: Seq<Reply>, k: nat, wish: Wish) -> bool {
    contents_in(tape, k) matches Some(contents) && inspect::first_in_pack(contents, wish) is None
}

/// Whether the reply with index `k` is a booster pack with a card that is wanted.
pub open spec fn wanted(tape: Seq<Reply>, k: nat, wish: Wish) -> bool {
    contents_in(tape, k) matches Some(contents) && inspect::first_in_pack(contents, wish) is Some
}

/// What a verdict on a playing card promises, for packs whose replies start at `start`, with `n`
/// replies used: the first pack with a card that is wanted decides, and in it the first such
/// card.
pub open spec fn card_holds(
    met: bool,
    detail: Seq<char>,
    ante: u8,
    max_packs: u8,
    wish: Wish,
    tape: Seq<Reply>,
    start: nat,
    n: nat,
) -> bool {
    if met {
        exists|at: nat|
            {
                let contents = contents_in(tape, start + 2 * at + 1)->0;
                let ci = inspect::first_in_pack(contents, wish)->0;
                &&& at < max_packs
                &&& n == start + 2 * at + 2
                &&& #[trigger] wanted(tape, start + 2 * at + 1, wish)
                &&& forall|p: nat| p < at ==> #[trigger] unwanted(tape, start + 2 * p + 1, wish)
                &&& detail == inspect::card_text(
                    ante,
                    at,
                    name_in(tape, start + 2 * at)->0,
                    ci,
                    inspect::base_in_pack(contents, ci),
                )
            }
    } else {
        &&& n == start + 2 * max_packs
        &&& forall|p: nat| p < max_packs ==> #[trigger] unwanted(tape, start + 2 * p + 1, wish)
        &&& detail == inspect::no_card_text(ante, max_packs)
    }
}

proof fn lemma_card_from(
    ante: u8,
    max_packs: u8,
    wish: Wish,
    i: nat,
    tape: Seq<Reply>,
    start: nat,
)
    requires
        i <= max_packs,
        forall|p: nat| p < i ==> #[trigger] unwanted(tape, start + 2 * p + 1, wish),
    ensures
        inspect::card_from(ante, max_packs, wish, i, tape, start + 2 * i) matches Run::Done(
            verdict,
            n,
        ) ==> card_holds(verdict.0, verdict.1, ante, max_packs, wish, tape, start, n),
    decreases max_packs - i,
{
    let used = start + 2 * i;
    if i < max_packs {
        let ask = Ask::NextPack { ante: ante as i32 };
        if let Run::Done(pack, n) = dialogue::name_at(ask, tape, used) {
            let open = Ask::OpenPackDetailed { pack, ante: ante as i32 };
            assert(name_in(tape, start + 2 * i) == Some(pack));
            if let Run::Done(contents, m) = dialogue::contents_at(open, tape, n) {
                assert(contents_in(tape, start + 2 * i + 1) == Some(contents));
                assert(m == start + 2 * (i + 1));
                if inspect::first_in_pack(contents, wish) is Some {
                    assert(wanted(tape, start + 2 * i + 1, wish));
                } else {
                    assert(unwanted(tape, start + 2 * i + 1, wish));
                    lemma_card_from(ante, max_packs, wish, i + 1, tape, start);
                }
            }
        }
    }
}

/// A clause on a playing card is met exactly where one of the booster packs that count holds a
/// card that is wanted; the detail names the first such pack and the first such card in it.
pub proof fn law_card_verdict(
    ante: u8,
    max_packs: u8,
    wish: Wish,
    game: Game,
    tape: Seq<Reply>,
    used: nat,
)
    ensures
        inspect::card_run(ante, max_packs, wish, game, tape, used) matches Run::Done(verdict, n)
            ==> card_holds(verdict.0, verdict.1, ante, max_packs, wish, tape, used + 1, n),
{
    if let Run::Done(_, n) = dialogue::fresh_at(game, tape, used) {
        lemma_card_from(ante, max_packs, wish, 0, tape, n);
    }
}

proof fn lemma_last_name(ask: Ask, n: nat, last: Seq<char>, tape: Seq<Reply>, used: nat)
    requires
        n > 0,
    ensures
        inspect::last_name(ask, n, last, tape, used) matches Run::Done(name, m) ==> {
            &&& m == used + n
            &&& name_in(tape, (used + n - 1) as nat) == Some(name)
        },
    decreases n,
{
    if let Run::Done(name, m) = dialogue::name_at(ask, tape, used) {
        if n > 1 {
            lemma_last_name(ask, (n - 1) as nat, name, tape, m);
        } else {
            assert(inspect::last_name(ask, 0, name, tape, m) == Run::Done(name, m));
        }
    }
}

/// A clause on a tag is decided by the tag at its position, counted from 0.
pub proof fn law_tag_verdict(
    ante: u8,
    position: u8,
    tag: Seq<char>,
    game: Game,
    tape: Seq<Reply>,
    used: nat,
)
    ensures
        inspect::tag_run(ante, position, tag, game, tape, used) matches Run::Done(verdict, n) ==> {
            &&& n == used + 2 + position
            &&& name_in(tape, used + 1 + position as nat) is Some
            &&& verdict.0 == (name_in(tape, used + 1 + position as nat) == Some(tag))
        },
{
    if let Run::Done(_, n) = dialogue::fresh_at(game, tape, used) {
        lemma_last_name(
            Ask::NextTag { ante: ante as i32 },
            position as nat + 1,
            ""@,
            tape,
            n,
        );
    }
}

/// A clause on one booster pack is decided by what the pack with its index shows, counted from
/// 0; the packs before it stay closed.
pub proof fn law_pack_verdict(
    ante: u8,
    pack_index: u8,
    card: Seq<char>,
    game: Game,
    tape: Seq<Reply>,
    used: nat,
)
    ensures
        inspect::pack_run(ante, pack_index, card, game, tape, used) matches Run::Done(verdict, n)
            ==> {
            &&& n == used + 3 + pack_index
            &&& verdict.0 ==> shows(tape, used + 2 + pack_index as nat, card)
            &&& !verdict.0 ==> lacks(tape, used + 2 + pack_index as nat, card)
        },
{
    if let Run::Done(_, n) = dialogue::fresh_at(game, tape, used) {
        lemma_last_name(
            Ask::NextPack { ante: ante as i32 },
            pack_index as nat + 1,
            ""@,
            tape,
            n,
        );
    }
}

/// The card that decides is wanted, and no card before it is; where none decides, none is
/// wanted.
pub proof fn law_first_card(cards: Seq<StandardCard>, wish: Wish, ci: nat)
    ensures
        match inspect::first_card(cards, wish, ci) {
            Some(k) => {
                &&& ci <= k < cards.len()
                &&& inspect::card_meets(cards[k as int], wish)
                &&& forall|j: int|
                    ci <= j < k ==> !inspect::card_meets(#[trigger] cards[j], wish)
            },
            None => forall|j: int|
                ci <= j < cards.len() ==> !inspect::card_meets(#[trigger] cards[j], wish),
        },
    decreases cards.len() - ci,
{
    if ci < cards.len() && !inspect::card_meets(cards[ci as int], wish) {
        law_first_card(cards, wish, ci + 1);
    }
}

// ---------------------------------------------------------------------------
// Sub-clauses
// ---------------------------------------------------------------------------

/// Whether the clause ran to its end somewhere on the replies and was not met.
pub open spec fn missed(c: Clause, game: Game, tape: Seq<Reply>) -> bool {
    exists|u: nat|
        (#[trigger] inspect::clause_run(c, game, tape, u)) matches Run::Done(verdict, _)
            && !verdict.0
}

/// Whether the clause, run on the replies up to `n`, was met with this detail.
pub open spec fn hit(c: Clause, game: Game, tape: Seq<Reply>, n: nat, detail: Seq<char>) -> bool {
    exists|u: nat|
        (#[trigger] inspect::clause_run(c, game, tape, u)) == Run::Done((true, detail), n)
}

/// Whether the sub-clause with index `k` is the first from index `i` on that is met.
pub open spec fn first_hit(
    clauses: Seq<Clause>,
    i: nat,
    k: nat,
    game: Game,
    tape: Seq<Reply>,
    n: nat,
    detail: Seq<char>,
) -> bool {
    &&& i <= k < clauses.len()
    &&& hit(clauses[k as int], game, tape, n, detail)
    &&& forall|j: int| i <= j < k ==> missed(#[trigger] clauses[j], game, tape)
}

/// What "any of" promises of its verdict, from the sub-clause with index `i` on: it is met
/// exactly where a sub-clause is, and takes the detail of the first.
pub open spec fn any_of_holds(
    met: bool,
    detail: Seq<char>,
    clauses: Seq<Clause>,
    i: nat,
    game: Game,
    tape: Seq<Reply>,
    n: nat,
) -> bool {
    if met {
        exists|k: nat, inner: Seq<char>|
            #[trigger] first_hit(clauses, i, k, game, tape, n, inner) && detail
                == inspect::any_of_text(k, inner)
    } else {
        &&& forall|j: int| i <= j < clauses.len() ==> missed(#[trigger] clauses[j], game, tape)
        &&& detail == "no sub-clause matched"@
    }
}

proof fn lemma_any_of_step(
    met: bool,
    detail: Seq<char>,
    clauses: Seq<Clause>,
    i: nat,
    game: Game,
    tape: Seq<Reply>,
    n: nat,
)
    requires
        i < clauses.len(),
        missed(clauses[i as int], game, tape),
        any_of_holds(met, detail, clauses, i + 1, game, tape, n),
    ensures
        any_of_holds(met, detail, clauses, i, game, tape, n),
{
    if met {
        let (k, inner) = choose|k: nat, inner: Seq<char>|
            #[trigger] first_hit(clauses, i + 1, k, game, tape, n, inner) && detail
                == inspect::any_of_text(k, inner);
        assert(first_hit(clauses, i, k, game, tape, n, inner));
    }
}

/// "Any of" is met exactly where one of its sub-clauses is, and takes the detail of the first;
/// where it is not met, every sub-clause was run and none is met.
pub proof fn law_any_of_verdict(
    clauses: Seq<Clause>,
    i: nat,
    game: Game,
    tape: Seq<Reply>,
    used: nat,
)
    requires
        i <= clauses.len(),
    ensures
        inspect::any_of_from(clauses, i, game, tape, used) matches Run::Done(verdict, n)
            ==> any_of_holds(verdict.0, verdict.1, clauses, i, game, tape, n),
    decreases clauses.len() - i,
{
    if i < clauses.len() {
        let c = clauses[i as int];
        if let Run::Done(verdict, n) = inspect::clause_run(c, game, tape, used) {
            if verdict.0 {
                assert(verdict == (true, verdict.1));
                assert(hit(c, game, tape, n, verdict.1));
                assert(first_hit(clauses, i, i, game, tape, n, verdict.1));
            } else {
                assert(missed(c, game, tape));
                law_any_of_verdict(clauses, i + 1, game, tape, n);
                if let Run::Done(rest, m) = inspect::any_of_from(clauses, i + 1, game, tape, n) {
                    lemma_any_of_step(rest.0, rest.1, clauses, i, game, tape, m);
                }
            }
        }
    }
}

// ---------------------------------------------------------------------------
// The report
// ---------------------------------------------------------------------------

/// Whether the verdict is that of the clause, run somewhere on the replies.
pub open spec fn verdict_of(
    verdict: Verdict,
    c: Clause,
    game: Game,
    tape: Seq<Reply>,
) -> bool {
    exists|u: nat|
        (#[trigger] inspect::clause_run(c, game, tape, u)) matches Run::Done(found, _) && found
            == verdict
}

proof fn lemma_verdicts_from(
    clauses: Seq<Clause>,
    i: nat,
    verdicts: Seq<Verdict>,
    game: Game,
    tape: Seq<Reply>,
    used: nat,
)
    requires
        i == verdicts.len(),
        i <= clauses.len(),
        forall|k: int|
            0 <= k < i ==> verdict_of(#[trigger] verdicts[k], clauses[k], game, tape),
    ensures
        report::verdicts_from(clauses, i, verdicts, game, tape, used) matches Run::Done(all, _)
            ==> {
            &&& all.len() == clauses.len()
            &&& forall|k: int|
                0 <= k < all.len() ==> verdict_of(#[trigger] all[k], clauses[k], game, tape)
        },
    decreases clauses.len() - i,
{
    if i < clauses.len() {
        let c = clauses[i as int];
        if let Run::Done(verdict, n) = inspect::clause_run(c, game, tape, used) {
            assert(verdict_of(verdict, c, game, tape));
            let more = verdicts.push(verdict);
            assert forall|k: int| 0 <= k < i + 1 implies verdict_of(
                #[trigger] more[k],
                clauses[k],
                game,
                tape,
            ) by {
                if k < i {
                    assert(more[k] == verdicts[k]);
                }
            }
            lemma_verdicts_from(clauses, i + 1, more, game, tape, n);
        }
    }
}

/// The report has one verdict for every clause of the filter, in the filter's order, and each is
/// the verdict on its clause.
pub proof fn law_one_verdict_per_clause(clauses: Seq<Clause>, game: Game, tape: Seq<Reply>)
    ensures
        report::verdicts_run(clauses, game, tape) matches Run::Done(all, _) ==> {
            &&& all.len() == clauses.len()
            &&& forall|k: int|
                0 <= k < all.len() ==> verdict_of(#[trigger] all[k], clauses[k], game, tape)
        },
{
    lemma_verdicts_from(clauses, 0, Seq::empty(), game, tape, 0);
}

/// No more clauses are met than there are, all are met exactly where the numbers agree, and none
/// is exactly where the number is zero.
pub proof fn law_met(verdicts: Seq<Verdict>)
    ensures
        report::met(verdicts) <= verdicts.len(),
        report::met(verdicts) == verdicts.len() <==> forall|i: int|
            0 <= i < verdicts.len() ==> (#[trigger] verdicts[i]).0,
        report::met(verdicts) == 0 <==> forall|i: int|
            0 <= i < verdicts.len() ==> !(#[trigger] verdicts[i]).0,
    decreases verdicts.len(),
{
    if verdicts.len() > 0 {
        let front = verdicts.drop_last();
        let last = verdicts[verdicts.len() - 1];
        law_met(front);
        assert(forall|i: int| 0 <= i < front.len() ==> front[i] == verdicts[i]);
        if report::met(verdicts) == verdicts.len() {
            assert forall|i: int| 0 <= i < verdicts.len() implies (#[trigger] verdicts[i]).0 by {
                if i < front.len() {
                    assert(front[i].0);
                }
            }
        }
        if forall|i: int| 0 <= i < verdicts.len() ==> (#[trigger] verdicts[i]).0 {
            assert(last.0);
            assert forall|i: int| 0 <= i < front.len() implies (#[trigger] front[i]).0 by {
                assert(verdicts[i].0);
            }
        }
        if report::met(verdicts) == 0 {
            assert forall|i: int| 0 <= i < verdicts.len() implies !(#[trigger] verdicts[i]).0 by {
                if i < front.len() {
                    assert(!front[i].0);
                }
            }
        }
        if forall|i: int| 0 <= i < verdicts.len() ==> !(#[trigger] verdicts[i]).0 {
            assert(!last.0);
            assert forall|i: int| 0 <= i < front.len() implies !(#[trigger] front[i]).0 by {
                assert(!verdicts[i].0);
            }
        }
    }
}

/// What is written for a document is that document and nothing else.
pub proof fn law_written_is_document(res: Result<String, Stop>, doc: Json, used: nat)
    requires
        report::written(res, Run::Done(doc, used)),
    ensures
        res matches Ok(out) && reading::is_document(out@, doc),
{
    reading::law_render_is_document(doc);
}

/// Every report on a seed is a JSON document that says whether the filter could be read.
pub proof fn law_report_is_json(
    filter: Result<Filter, String>,
    seed: Seq<char>,
    deck_idx: u8,
    stake_idx: u8,
    tape: Seq<Reply>,
    res: Result<String, Stop>,
)
    requires
        report::written(res, report::inspect_run(filter, seed, deck_idx, stake_idx, tape)),
    ensures
        res matches Ok(out) ==> exists|doc: Json|
            {
                &&& #[trigger] reading::is_document(out@, doc)
                &&& doc matches Json::Obj(members)
                &&& members[0] == ("ok"@, Json::Bool(filter is Ok))
            },
{
    if let Run::Done(doc, used) = report::inspect_run(filter, seed, deck_idx, stake_idx, tape) {
        law_written_is_document(res, doc, used);
    }
}

// ---------------------------------------------------------------------------
// The overview
// ---------------------------------------------------------------------------

/// Whether an ante of the overview is complete.
pub open spec fn complete(offer: AnteDraws) -> bool {
    &&& offer.shop.len() == analyze::SHOP_SLOTS
    &&& offer.packs.len() == analyze::PACKS
}

/// How many replies an ante of the overview takes: five fresh instances, the boss, the voucher,
/// two tags, the slots of the shop, and a name and the contents for every booster pack.
pub open spec fn replies_per_ante() -> nat {
    (9 + analyze::SHOP_SLOTS + 2 * analyze::PACKS) as nat
}

proof fn lemma_slots_from(ante: u8, slots: Seq<ShopSlot>, tape: Seq<Reply>, used: nat)
    requires
        slots.len() <= analyze::SHOP_SLOTS,
    ensures
        analyze::slots_from(ante, slots, tape, used) matches Run::Done(all, n) ==> {
            &&& all.len() == analyze::SHOP_SLOTS
            &&& n == used + analyze::SHOP_SLOTS - slots.len()
        },
    decreases analyze::SHOP_SLOTS - slots.len(),
{
    if slots.len() < analyze::SHOP_SLOTS {
        let ask = Ask::NextShopItem { ante: ante as i32 };
        if let Run::Done(slot, n) = dialogue::slot_at(ask, tape, used) {
            lemma_slots_from(ante, slots.push(slot), tape, n);
        }
    }
}

proof fn lemma_packs_from(
    ante: u8,
    packs: Seq<(Seq<char>, PackContents)>,
    tape: Seq<Reply>,
    used: nat,
)
    requires
        packs.len() <= analyze::PACKS,
    ensures
        analyze::packs_from(ante, packs, tape, used) matches Run::Done(all, n) ==> {
            &&& all.len() == analyze::PACKS
            &&& n == used + 2 * (analyze::PACKS - packs.len())
        },
    decreases analyze::PACKS - packs.len(),
{
    if packs.len() < analyze::PACKS {
        let ask = Ask::NextPack { ante: ante as i32 };
        if let Run::Done(pack, n) = dialogue::name_at(ask, tape, used) {
            let open = Ask::OpenPackDetailed { pack, ante: ante as i32 };
            if let Run::Done(contents, m) = dialogue::contents_at(open, tape, n) {
                lemma_packs_from(ante, packs.push((pack, contents)), tape, m);
            }
        }
    }
}

proof fn lemma_ante_run(ante: u8, game: Game, tape: Seq<Reply>, used: nat)
    ensures
        analyze::ante_run(ante, game, tape, used) matches Run::Done(offer, n) ==> {
            &&& complete(offer)
            &&& n == used + replies_per_ante()
        },
{
    let boss = Ask::NextBoss { ante: ante as i32 };
    let voucher = Ask::NextVoucher { ante: ante as i32 };
    if let Run::Done(_, n) = analyze::fresh_name_at(boss, game, tape, used) {
        if let Run::Done(_, m) = analyze::fresh_name_at(voucher, game, tape, n) {
            if let Run::Done(_, k) = analyze::tags_at(ante, game, tape, m) {
                lemma_slots_from(ante, Seq::empty(), tape, k + 1);
                if let Run::Done(_, l) = analyze::shop_at(ante, game, tape, k) {
                    lemma_packs_from(ante, Seq::empty(), tape, l + 1);
                }
            }
        }
    }
}

proof fn lemma_antes_from(
    last: u8,
    offers: Seq<AnteDraws>,
    game: Game,
    tape: Seq<Reply>,
    used: nat,
)
    requires
        offers.len() <= last,
        used == replies_per_ante() * offers.len(),
        forall|i: int| 0 <= i < offers.len() ==> complete(#[trigger] offers[i]),
    ensures
        analyze::antes_from(last, offers, game, tape, used) matches Run::Done(all, n) ==> {
            &&& all.len() == last
            &&& n == replies_per_ante() * last
            &&& forall|i: int| 0 <= i < all.len() ==> complete(#[trigger] all[i])
        },
    decreases last - offers.len(),
{
    if offers.len() < last {
        let ante = (offers.len() + 1) as u8;
        let per_ante = replies_per_ante();
        let done = offers.len();
        assert(per_ante * (done + 1) == per_ante * done + per_ante) by (nonlinear_arith);
        lemma_ante_run(ante, game, tape, used);
        if let Run::Done(offer, n) = analyze::ante_run(ante, game, tape, used) {
            lemma_antes_from(last, offers.push(offer), game, tape, n);
        }
    }
}

/// The overview shows every ante from the first to the last, which is at least the first and at
/// most the sixteenth; every ante is complete; and the overview takes the same number of replies
/// for every ante.
pub proof fn law_overview_shape(max_ante: u8, game: Game, tape: Seq<Reply>)
    ensures
        1 <= analyze::last_ante(max_ante) <= 16,
        1 <= max_ante <= 16 ==> analyze::last_ante(max_ante) == max_ante,
        analyze::antes_from(
            analyze::last_ante(max_ante),
            Seq::empty(),
            game,
            tape,
            0,
        ) matches Run::Done(all, n) ==> {
            &&& all.len() == analyze::last_ante(max_ante)
            &&& n == replies_per_ante() * all.len()
            &&& forall|i: int| 0 <= i < all.len() ==> complete(#[trigger] all[i])
        },
{
    lemma_antes_from(analyze::last_ante(max_ante), Seq::empty(), game, tape, 0);
}

/// Every overview of a seed is a JSON document.
pub proof fn law_overview_is_json(
    seed: Seq<char>,
    max_ante: u8,
    deck_idx: u8,
    stake_idx: u8,
    tape: Seq<Reply>,
    res: Result<String, Stop>,
)
    requires
        report::written(res, analyze::overview_run(seed, max_ante, deck_idx, stake_idx, tape)),
    ensures
        res matches Ok(out) ==> exists|doc: Json|
            {
                &&& #[trigger] reading::is_document(out@, doc)
                &&& doc matches Json::Obj(members)
                &&& members[0] == ("ok"@, Json::Bool(true))
                &&& members[1] == ("seed"@, Json::Str(seed))
            },
{
    if let Run::Done(doc, used) = analyze::overview_run(
        seed,
        max_ante,
        deck_idx,
        stake_idx,
        tape,
    ) {
        law_written_is_document(res, doc, used);
    }
}

} // verus!
