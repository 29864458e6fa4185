//! The overview and the clauses agree: on the same replies, a clause judges what the overview
//! shows.
use vstd::prelude::*;

use crate::analyze;
use crate::dialogue;
use crate::dialogue::Ask;
use crate::dialogue::Game;
use crate::dialogue::Reply;
use crate::dialogue::Run;
use crate::draws;
use crate::draws::PackContents;
use crate::draws::ShopSlot;
use crate::inspect;
use crate::meaning;

verus! {

/// A clause on the boss judges the boss that the overview shows.
pub proof fn law_boss_agrees(ante: u8, boss: Seq<char>, game: Game, tape: Seq<Reply>, used: nat)
    ensures
        match analyze::fresh_name_at(Ask::NextBoss { ante: ante as i32 }, game, tape, used) {
            Run::Done(shown, n) => inspect::boss_run(ante, boss, game, tape, used) == Run::Done(
                (shown == boss, inspect::boss_text(ante, shown, boss)),
                n,
            ),
            Run::Halted(halt) => inspect::boss_run(ante, boss, game, tape, used) == Run::<
                inspect::Verdict,
            >::Halted(halt),
        },
{
}

/// A clause on the voucher judges the voucher that the overview shows.
pub proof fn law_voucher_agrees(
    ante: u8,
    voucher: Seq<char>,
    game: Game,
    tape: Seq<Reply>,
    used: nat,
)
    ensures
        match analyze::fresh_name_at(Ask::NextVoucher { ante: ante as i32 }, game, tape, used) {
            Run::Done(shown, n) => inspect::voucher_run(ante, voucher, game, tape, used)
                == Run::Done(
                (shown == voucher, inspect::voucher_text(ante, shown, voucher)),
                n,
            ),
            Run::Halted(halt) => inspect::voucher_run(ante, voucher, game, tape, used) == Run::<
                inspect::Verdict,
            >::Halted(halt),
        },
{
}

/// A clause on the tag at position 0 judges the small blind's tag that the overview shows, and
/// one on the tag at position 1 the big blind's.
pub proof fn law_tags_agree(ante: u8, tag: Seq<char>, game: Game, tape: Seq<Reply>, used: nat)
    ensures
        analyze::tags_at(ante, game, tape, used) matches Run::Done(tags, n) ==> {
            &&& inspect::tag_run(ante, 0, tag, game, tape, used) == Run::Done(
                (tags.0 == tag, inspect::tag_text(ante, 0, tags.0, tag)),
                (n - 1) as nat,
            )
            &&& inspect::tag_run(ante, 1, tag, game, tape, used) == Run::Done(
                (tags.1 == tag, inspect::tag_text(ante, 1, tags.1, tag)),
                n,
            )
        },
{
    reveal_with_fuel(inspect::last_name, 3);
}

proof fn lemma_slots_from(ante: u8, slots: Seq<ShopSlot>, tape: Seq<Reply>, used: nat)
    requires
        slots.len() <= analyze::SHOP_SLOTS,
    ensures
        analyze::slots_from(ante, slots, tape, used) matches Run::Done(all, _) ==> {
            &&& all.len() == analyze::SHOP_SLOTS
            &&& all.take(slots.len() as int) == slots
            &&& forall|i: int|
                slots.len() <= i < all.len() ==> meaning::slot_in(
                    tape,
                    (used + i - slots.len()) as nat,
                ) == Some(#[trigger] all[i])
        },
    decreases analyze::SHOP_SLOTS - slots.len(),
{
    if slots.len() < analyze::SHOP_SLOTS {
        let ask = Ask::NextShopItem { ante: ante as i32 };
        if let Run::Done(slot, n) = dialogue::slot_at(ask, tape, used) {
            let more = slots.push(slot);
            lemma_slots_from(ante, more, tape, n);
            if let Run::Done(all, _) = analyze::slots_from(ante, more, tape, n) {
                assert(all.take(more.len() as int)[slots.len() as int] == slot);
                assert(all.take(slots.len() as int) =~= all.take(more.len() as int).take(
                    slots.len() as int,
                ));
                assert(more.take(slots.len() as int) =~= slots);
            }
        }
    } else {
        assert(slots.take(slots.len() as int) =~= slots);
    }
}

proof fn lemma_shop_runs_to_end(
    ante: u8,
    joker: Seq<char>,
    edition: Option<String>,
    sticker: Option<String>,
    s: nat,
    end: nat,
    tape: Seq<Reply>,
    used: nat,
)
    requires
        forall|k: nat| used <= k < used + end - s ==> (#[trigger] meaning::slot_in(tape, k)) is Some,
    ensures
        inspect::shop_from(ante, joker, edition, sticker, s, end, tape, used) is Done,
    decreases end - s,
{
    if s < end {
        assert(meaning::slot_in(tape, used) is Some);
        lemma_shop_runs_to_end(ante, joker, edition, sticker, s + 1, end, tape, used + 1);
    }
}

/// A clause on the shop up to a slot that the overview shows is met exactly where one of the
/// slots shown up to there offers the joker.
pub proof fn law_shop_agrees(
    ante: u8,
    slot: u8,
    joker: Seq<char>,
    edition: Option<String>,
    sticker: Option<String>,
    game: Game,
    tape: Seq<Reply>,
    used: nat,
)
    requires
        slot < analyze::SHOP_SLOTS,
    ensures
        analyze::shop_at(ante, game, tape, used) matches Run::Done(slots, _) ==> {
            &&& inspect::shop_run(
                ante,
                slot,
                joker,
                edition,
                sticker,
                game,
                tape,
                used,
            ) matches Run::Done(verdict, _)
            &&& verdict.0 <==> exists|s: int|
                0 <= s <= slot && inspect::slot_meets(#[trigger] slots[s], joker, edition, sticker)
        },
{
    if let Run::Done(slots, _) = analyze::shop_at(ante, game, tape, used) {
        let start = used + 1;
        let end = inspect::scan_end(slot);
        lemma_slots_from(ante, Seq::empty(), tape, start);
        assert forall|k: nat| start <= k < start + end implies (#[trigger] meaning::slot_in(
            tape,
            k,
        )) == Some(slots[k - start]) by {
            assert(slots[k - start] == slots[(k - start) as int]);
        }
        lemma_shop_runs_to_end(ante, joker, edition, sticker, 0, end, tape, start);
        meaning::law_shop_verdict(ante, slot, joker, edition, sticker, game, tape, used);
        let run = inspect::shop_run(ante, slot, joker, edition, sticker, game, tape, used);
        if let Run::Done(verdict, n) = run {
            if verdict.0 {
                let at = (n - used - 2) as nat;
                assert(meaning::slot_in(tape, start + at) == Some(slots[at as int]));
                assert(inspect::slot_meets(slots[at as int], joker, edition, sticker));
            } else {
                assert forall|s: int| 0 <= s <= slot implies !inspect::slot_meets(
                    #[trigger] slots[s],
                    joker,
                    edition,
                    sticker,
                ) by {
                    let k = (start + s) as nat;
                    assert(meaning::slot_in(tape, k) == Some(slots[k - start]));
                    assert(meaning::passed_over(tape, k, joker, edition, sticker));
                }
            }
        }
    }
}

proof fn lemma_packs_from(
    ante: u8,
    packs: Seq<(Seq<char>, PackContents)>,
    tape: Seq<Reply>,
    used: nat,
)
    requires
        packs.len() <= analyze::PACKS,
    ensures
        analyze::packs_from(ante, packs, tape, used) matches Run::Done(all, _) ==> {
            &&& all.len() == analyze::PACKS
            &&& all.take(packs.len() as int) == packs
            &&& forall|i: int|
                packs.len() <= i < all.len() ==> meaning::name_in(
                    tape,
                    (used + 2 * (i - packs.len())) as nat,
                ) == Some((#[trigger] all[i]).0) && meaning::contents_in(
                    tape,
                    (used + 2 * (i - packs.len()) + 1) as nat,
                ) == Some(all[i].1)
        },
    decreases analyze::PACKS - packs.len(),
{
    if packs.len() < analyze::PACKS {
        let ask = Ask::NextPack { ante: ante as i32 };
        if let Run::Done(pack, n) = dialogue::name_at(ask, tape, used) {
            let open = Ask::OpenPackDetailed { pack, ante: ante as i32 };
            if let Run::Done(contents, m) = dialogue::contents_at(open, tape, n) {
                let more = packs.push((pack, contents));
                lemma_packs_from(ante, more, tape, m);
                if let Run::Done(all, _) = analyze::packs_from(ante, more, tape, m) {
                    assert(all.take(more.len() as int)[packs.len() as int] == (pack, contents));
                    assert(all.take(packs.len() as int) =~= all.take(more.len() as int).take(
                        packs.len() as int,
                    ));
                    assert(more.take(packs.len() as int) =~= packs);
                }
            }
        }
    } else {
        assert(packs.take(packs.len() as int) =~= packs);
    }
}

proof fn lemma_packs_run_to_end(
    ante: u8,
    max_packs: u8,
    card: Seq<char>,
    i: nat,
    tape: Seq<Reply>,
    start: nat,
)
    requires
        forall|p: nat|
            i <= p < max_packs ==> (#[trigger] meaning::name_in(tape, start + 2 * p)) is Some
                && meaning::contents_in(tape, start + 2 * p + 1) is Some,
    ensures
        inspect::any_pack_from(ante, max_packs, card, i, tape, start + 2 * i) is Done,
    decreases max_packs - i,
{
    if i < max_packs {
        assert(meaning::name_in(tape, start + 2 * i) is Some);
        assert(start + 2 * i + 2 == start + 2 * (i + 1));
        lemma_packs_run_to_end(ante, max_packs, card, i + 1, tape, start);
    }
}

/// A clause on any of the booster packs that the overview shows is met exactly where one of
/// those that count shows the card.
pub proof fn law_packs_agree(
    ante: u8,
    max_packs: u8,
    card: Seq<char>,
    game: Game,
    tape: Seq<Reply>,
    used: nat,
)
    requires
        max_packs <= analyze::PACKS,
    ensures
        analyze::packs_at(ante, game, tape, used) matches Run::Done(packs, _) ==> {
            &&& inspect::any_pack_run(ante, max_packs, card, game, tape, used) matches Run::Done(
                verdict,
                _,
            )
            &&& verdict.0 <==> exists|p: int|
                0 <= p < max_packs && draws::shown((#[trigger] packs[p]).1).contains(card)
        },
{
    if let Run::Done(packs, _) = analyze::packs_at(ante, game, tape, used) {
        let start = used + 1;
        lemma_packs_from(ante, Seq::empty(), tape, start);
        assert forall|p: nat| 0 <= p < max_packs implies (#[trigger] meaning::name_in(
            tape,
            start + 2 * p,
        )) is Some && meaning::contents_in(tape, start + 2 * p + 1) == Some(
            packs[p as int].1,
        ) by {
            assert(packs[p as int] == packs[p as int]);
        }
        lemma_packs_run_to_end(ante, max_packs, card, 0, tape, start);
        meaning::law_any_pack_verdict(ante, max_packs, card, game, tape, used);
        let run = inspect::any_pack_run(ante, max_packs, card, game, tape, used);
        if let Run::Done(verdict, n) = run {
            if verdict.0 {
                let at = ((n - used - 1) / 2 - 1) as nat;
                assert(meaning::name_in(tape, start + 2 * at) is Some);
                assert(draws::shown(packs[at as int].1).contains(card));
            } else {
                assert forall|p: int| 0 <= p < max_packs implies !draws::shown(
                    (#[trigger] packs[p]).1,
                ).contains(card) by {
                    assert(meaning::name_in(tape, start + 2 * (p as nat)) is Some);
                    assert(meaning::lacks(tape, used + 1 + 2 * (p as nat) + 1, card));
                }
            }
        }
    }
}

} // verus!
