//! How a clause is judged: what is asked for, which replies are refused, and what the verdict and
//! its detail are, clause by clause and in terms of the clause and the replies.
use vstd::prelude::*;

use crate::dialogue;
use crate::dialogue::Ask;
use crate::dialogue::Game;
use crate::dialogue::Halt;
use crate::dialogue::Reply;
use crate::dialogue::Run;
use crate::dialogue::Stop;
use crate::draws;
use crate::filter::Clause;
use crate::inspect;
use crate::inspect::Maker;
use crate::inspect::Wish;
use crate::text;

verus! {

/// The request for a fresh instance of the game.
pub open spec fn fresh(game: Game) -> Ask {
    Ask::FreshInstance { seed: game.seed, deck: game.deck, stake: game.stake }
}

/// What stands behind a name that was drawn: what was wanted, unless it was drawn.
pub open spec fn behind(drawn: Seq<char>, wanted: Seq<char>) -> Seq<char> {
    if drawn == wanted {
        Seq::empty()
    } else {
        " (wanted "@ + wanted + ")"@
    }
}

// ---------------------------------------------------------------------------
// Bosses and vouchers
// ---------------------------------------------------------------------------

/// A clause on a boss asks for a fresh instance and for the boss of its ante, and is met exactly
/// where that is the boss that is wanted. The detail names the boss, and what was wanted where
/// that is another.
pub proof fn law_boss(ante: u8, boss: String, game: Game, tape: Seq<Reply>, used: nat)
    requires
        used <= tape.len(),
    ensures
        match inspect::clause_run(Clause::AnteBossIs { ante, boss }, game, tape, used) {
            Run::Halted(Halt::Need(ask)) => if used == tape.len() {
                ask == fresh(game)
            } else {
                &&& tape.len() == used + 1
                &&& tape[used as int] is Ready
                &&& ask == Ask::NextBoss { ante: ante as i32 }
            },
            Run::Halted(Halt::Mismatch(k)) => k < tape.len() && if k == used {
                tape[used as int] !is Ready
            } else {
                &&& k == used + 1
                &&& tape[used as int] is Ready
                &&& tape[k as int] !is Name
            },
            Run::Done(verdict, n) => {
                &&& n == used + 2
                &&& n <= tape.len()
                &&& tape[used as int] is Ready
                &&& tape[used + 1int] matches Reply::Name(drawn)
                &&& verdict.0 == (drawn@ == boss@)
                &&& verdict.1 == "ante "@ + text::decimal(ante as nat) + " boss = "@ + drawn@
                    + behind(drawn@, boss@)
            },
        },
{
}

/// A clause on a voucher asks for a fresh instance and for the voucher of its ante, and is met
/// exactly where that is the voucher that is wanted. The detail names the voucher, and what was
/// wanted where that is another.
pub proof fn law_voucher(ante: u8, voucher: String, game: Game, tape: Seq<Reply>, used: nat)
    requires
        used <= tape.len(),
    ensures
        match inspect::clause_run(Clause::VoucherIs { ante, voucher }, game, tape, used) {
            Run::Halted(Halt::Need(ask)) => if used == tape.len() {
                ask == fresh(game)
            } else {
                &&& tape.len() == used + 1
                &&& tape[used as int] is Ready
                &&& ask == Ask::NextVoucher { ante: ante as i32 }
            },
            Run::Halted(Halt::Mismatch(k)) => k < tape.len() && if k == used {
                tape[used as int] !is Ready
            } else {
                &&& k == used + 1
                &&& tape[used as int] is Ready
                &&& tape[k as int] !is Name
            },
            Run::Done(verdict, n) => {
                &&& n == used + 2
                &&& n <= tape.len()
                &&& tape[used as int] is Ready
                &&& tape[used + 1int] matches Reply::Name(drawn)
                &&& verdict.0 == (drawn@ == voucher@)
                &&& verdict.1 == "ante "@ + text::decimal(ante as nat) + " voucher = "@ + drawn@
                    + behind(drawn@, voucher@)
            },
        },
{
}

// ---------------------------------------------------------------------------
// Tags, and one booster pack
// ---------------------------------------------------------------------------

/// Whether the replies from `from` on up to `to` are all names.
pub open spec fn all_names(tape: Seq<Reply>, from: nat, to: nat) -> bool {
    forall|k: int| from <= k < to ==> (#[trigger] tape[k]) is Name
}

proof fn lemma_last_name(wanted: Ask, n: nat, last: Seq<char>, tape: Seq<Reply>, used: nat)
    requires
        n > 0,
        used <= tape.len(),
    ensures
        match inspect::last_name(wanted, n, last, tape, used) {
            Run::Halted(Halt::Need(ask)) => {
                &&& ask == wanted
                &&& tape.len() < used + n
                &&& all_names(tape, used, tape.len())
            },
            Run::Halted(Halt::Mismatch(k)) => {
                &&& used <= k < used + n
                &&& k < tape.len()
                &&& tape[k as int] !is Name
                &&& all_names(tape, used, k)
            },
            Run::Done(name, m) => {
                &&& m == used + n
                &&& m <= tape.len()
                &&& all_names(tape, used, m)
                &&& tape[m - 1] matches Reply::Name(drawn)
                &&& name == drawn@
            },
        },
    decreases n,
{
    if let Run::Done(name, m) = dialogue::name_at(wanted, tape, used) {
        if n > 1 {
            lemma_last_name(wanted, (n - 1) as nat, name, tape, m);
        } else {
            assert(inspect::last_name(wanted, 0, name, tape, m) == Run::Done(name, m));
        }
    }
}

/// A clause on a tag asks for a fresh instance and for one tag more than its position, and is
/// met exactly where the last of them is the tag that is wanted. The detail names that tag, and
/// what was wanted where that is another; position 0 is the small blind.
pub proof fn law_tag(
    ante: u8,
    position: u8,
    tag: String,
    game: Game,
    tape: Seq<Reply>,
    used: nat,
)
    requires
        used <= tape.len(),
    ensures
        match inspect::clause_run(Clause::AnteTagIs { ante, position, tag }, game, tape, used) {
            Run::Halted(Halt::Need(ask)) => if used == tape.len() {
                ask == fresh(game)
            } else {
                &&& tape.len() <= used + 1 + position
                &&& tape[used as int] is Ready
                &&& all_names(tape, used + 1, tape.len())
                &&& ask == Ask::NextTag { ante: ante as i32 }
            },
            Run::Halted(Halt::Mismatch(k)) => k < tape.len() && if k == used {
                tape[used as int] !is Ready
            } else {
                &&& used < k <= used + 1 + position
                &&& tape[used as int] is Ready
                &&& all_names(tape, used + 1, k)
                &&& tape[k as int] !is Name
            },
            Run::Done(verdict, n) => {
                &&& n == used + 2 + position
                &&& n <= tape.len()
                &&& tape[used as int] is Ready
                &&& all_names(tape, used + 1, n)
                &&& tape[n - 1] matches Reply::Name(drawn)
                &&& verdict.0 == (drawn@ == tag@)
                &&& verdict.1 == "ante "@ + text::decimal(ante as nat) + " · "@ + (if position == 0 {
                    "small blind"@
                } else {
                    "big blind"@
                }) + " tag = "@ + drawn@ + behind(drawn@, tag@)
            },
        },
{
    if let Run::Done(_, n) = dialogue::fresh_at(game, tape, used) {
        let ask = Ask::NextTag { ante: ante as i32 };
        lemma_last_name(ask, position as nat + 1, ""@, tape, n);
    }
}

/// A clause on one booster pack asks for a fresh instance and for one pack more than its index,
/// and opens the last of them alone. It is met exactly where that pack shows the card, and the
/// detail names the pack.
pub proof fn law_pack(
    ante: u8,
    pack_index: u8,
    card: String,
    game: Game,
    tape: Seq<Reply>,
    used: nat,
)
    requires
        used <= tape.len(),
    ensures
        match inspect::clause_run(
            Clause::AntePackContains { ante, pack_index, card },
            game,
            tape,
            used,
        ) {
            Run::Halted(Halt::Need(ask)) => if used == tape.len() {
                ask == fresh(game)
            } else {
                &&& tape.len() <= used + 2 + pack_index
                &&& tape[used as int] is Ready
                &&& all_names(tape, used + 1, tape.len())
                &&& if tape.len() < used + 2 + pack_index {
                    ask == Ask::NextPack { ante: ante as i32 }
                } else {
                    &&& tape.last() matches Reply::Name(pack)
                    &&& ask == Ask::OpenPackDetailed { pack: pack@, ante: ante as i32 }
                }
            },
            Run::Halted(Halt::Mismatch(k)) => k < tape.len() && if k == used {
                tape[used as int] !is Ready
            } else {
                &&& used < k <= used + 2 + pack_index
                &&& tape[used as int] is Ready
                &&& all_names(tape, used + 1, k)
                &&& if k < used + 2 + pack_index {
                    tape[k as int] !is Name
                } else {
                    tape[k as int] !is Contents
                }
            },
            Run::Done(verdict, n) => {
                &&& n == used + 3 + pack_index
                &&& n <= tape.len()
                &&& tape[used as int] is Ready
                &&& all_names(tape, used + 1, (n - 1) as nat)
                &&& tape[n - 2] matches Reply::Name(pack)
                &&& tape[n - 1] matches Reply::Contents(contents)
                &&& verdict.0 == draws::shown(contents).contains(card@)
                &&& verdict.1 == "ante "@ + text::decimal(ante as nat) + " pack #"@ + text::decimal(
                    pack_index as nat,
                ) + " ("@ + pack@ + ")"@ + (if verdict.0 {
                    " contains "@
                } else {
                    " does not contain "@
                }) + card@
            },
        },
{
    if let Run::Done(_, n) = dialogue::fresh_at(game, tape, used) {
        let ask = Ask::NextPack { ante: ante as i32 };
        lemma_last_name(ask, pack_index as nat + 1, ""@, tape, n);
    }
}

// ---------------------------------------------------------------------------
// The shop
// ---------------------------------------------------------------------------

/// Whether the replies from `from` on up to `to` are all slots that do not offer the joker.
pub open spec fn all_passed(
    tape: Seq<Reply>,
    from: nat,
    to: nat,
    joker: Seq<char>,
    edition: Option<String>,
    sticker: Option<String>,
) -> bool {
    forall|k: int|
        from <= k < to ==> ((#[trigger] tape[k]) matches Reply::Slot(slot) && !inspect::slot_meets(
            slot,
            joker,
            edition,
            sticker,
        ))
}

proof fn lemma_shop_from(
    ante: u8,
    joker: Seq<char>,
    edition: Option<String>,
    sticker: Option<String>,
    s: nat,
    end: nat,
    tape: Seq<Reply>,
    used: nat,
)
    requires
        s <= end,
        used <= tape.len(),
    ensures
        match inspect::shop_from(ante, joker, edition, sticker, s, end, tape, used) {
            Run::Halted(Halt::Need(ask)) => {
                &&& ask == Ask::NextShopItem { ante: ante as i32 }
                &&& tape.len() < used + end - s
                &&& all_passed(tape, used, tape.len(), joker, edition, sticker)
            },
            Run::Halted(Halt::Mismatch(k)) => {
                &&& used <= k < used + end - s
                &&& k < tape.len()
                &&& tape[k as int] !is Slot
                &&& all_passed(tape, used, k, joker, edition, sticker)
            },
            Run::Done(verdict, n) => n <= tape.len() && if verdict.0 {
                &&& used < n <= used + end - s
                &&& all_passed(tape, used, (n - 1) as nat, joker, edition, sticker)
                &&& tape[n - 1] matches Reply::Slot(slot)
                &&& inspect::slot_meets(slot, joker, edition, sticker)
                &&& verdict.1 == "ante "@ + text::decimal(ante as nat) + " · shop slot "@
                    + text::decimal((s + n - 1 - used) as nat) + inspect::extras_text(slot)
            } else {
                &&& n == used + end - s
                &&& all_passed(tape, used, n, joker, edition, sticker)
                &&& verdict.1 == "no match in ante "@ + text::decimal(ante as nat)
                    + " shop slots 0.."@ + text::decimal((end - 1) as nat)
            },
        },
    decreases end - s,
{
    if s < end {
        let ask = Ask::NextShopItem { ante: ante as i32 };
        if let Run::Done(slot, n) = dialogue::slot_at(ask, tape, used) {
            lemma_shop_from(ante, joker, edition, sticker, s + 1, end, tape, n);
        }
    }
}

/// A clause on the shop asks for a fresh instance and then for slot after slot, up to the slot
/// that it names, or for sixteen where it names slot 255. It is met by the first slot that offers
/// the joker, and the detail names that slot and what its joker bears; it is not met where none
/// of them does.
pub proof fn law_shop(
    ante: u8,
    slot: u8,
    joker: String,
    edition: Option<String>,
    sticker: Option<String>,
    game: Game,
    tape: Seq<Reply>,
    used: nat,
)
    requires
        used <= tape.len(),
    ensures
        ({
            let end: nat = if slot == 255 {
                16
            } else {
                slot as nat + 1
            };
            match inspect::clause_run(
                Clause::AnteShopHasJoker { ante, slot, joker, edition, sticker },
                game,
                tape,
                used,
            ) {
                Run::Halted(Halt::Need(ask)) => if used == tape.len() {
                    ask == fresh(game)
                } else {
                    &&& tape.len() < used + 1 + end
                    &&& tape[used as int] is Ready
                    &&& all_passed(tape, used + 1, tape.len(), joker@, edition, sticker)
                    &&& ask == Ask::NextShopItem { ante: ante as i32 }
                },
                Run::Halted(Halt::Mismatch(k)) => k < tape.len() && if k == used {
                    tape[used as int] !is Ready
                } else {
                    &&& used < k <= used + end
                    &&& tape[used as int] is Ready
                    &&& all_passed(tape, used + 1, k, joker@, edition, sticker)
                    &&& tape[k as int] !is Slot
                },
                Run::Done(verdict, n) => n <= tape.len() && tape[used as int] is Ready
                    && if verdict.0 {
                    &&& used + 1 < n <= used + 1 + end
                    &&& all_passed(tape, used + 1, (n - 1) as nat, joker@, edition, sticker)
                    &&& tape[n - 1] matches Reply::Slot(found)
                    &&& inspect::slot_meets(found, joker@, edition, sticker)
                    &&& verdict.1 == "ante "@ + text::decimal(ante as nat) + " · shop slot "@
                        + text::decimal((n - used - 2) as nat) + inspect::extras_text(found)
                } else {
                    &&& n == used + 1 + end
                    &&& all_passed(tape, used + 1, n, joker@, edition, sticker)
                    &&& verdict.1 == "no match in ante "@ + text::decimal(ante as nat)
                        + " shop slots 0.."@ + text::decimal((end - 1) as nat)
                },
            }
        }),
{
    if let Run::Done(_, n) = dialogue::fresh_at(game, tape, used) {
        let end: nat = if slot == 255 {
            16
        } else {
            slot as nat + 1
        };
        lemma_shop_from(ante, joker@, edition, sticker, 0, end, tape, n);
    }
}

// ---------------------------------------------------------------------------
// Any of the booster packs
// ---------------------------------------------------------------------------

/// Whether pack `q` was drawn and opened and does not show the card, for packs whose replies, a
/// name and the contents each, start at `start`.
pub open spec fn misses(tape: Seq<Reply>, start: nat, q: nat, card: Seq<char>) -> bool {
    &&& tape[start + 2int * q] is Name
    &&& tape[start + 2int * q + 1] matches Reply::Contents(contents)
    &&& !draws::shown(contents).contains(card)
}

/// Whether none of the first `p` packs shows the card.
pub open spec fn all_miss(tape: Seq<Reply>, start: nat, p: nat, card: Seq<char>) -> bool {
    forall|q: nat| q < p ==> #[trigger] misses(tape, start, q, card)
}

/// Whether the next request about packs, of which each is drawn and opened in turn, is this one:
/// a pack is drawn where no pack waits to be opened, and the one drawn last is opened otherwise.
pub open spec fn draws_or_opens(
    ask: Ask,
    detailed: bool,
    ante: u8,
    tape: Seq<Reply>,
    start: nat,
) -> bool {
    if (tape.len() - start) % 2 == 0 {
        ask == Ask::NextPack { ante: ante as i32 }
    } else {
        &&& tape.last() matches Reply::Name(pack)
        &&& ask == if detailed {
            Ask::OpenPackDetailed { pack: pack@, ante: ante as i32 }
        } else {
            Ask::OpenPack { pack: pack@, ante: ante as i32 }
        }
    }
}

/// Whether a reply about packs is not what was asked for: a name where a pack was drawn, the
/// contents where it was opened.
pub open spec fn no_answer(tape: Seq<Reply>, start: nat, k: nat) -> bool {
    if (k - start) % 2 == 0 {
        tape[k as int] !is Name
    } else {
        tape[k - 1] is Name && tape[k as int] !is Contents
    }
}

/// "ante", its number, and which of its packs.
pub open spec fn which_pack(ante: u8, at: nat, pack: Seq<char>) -> Seq<char> {
    "ante "@ + text::decimal(ante as nat) + " pack #"@ + text::decimal(at) + " ("@ + pack + ")"@
}

proof fn lemma_any_pack_from(
    ante: u8,
    max_packs: u8,
    card: Seq<char>,
    i: nat,
    tape: Seq<Reply>,
    start: nat,
)
    requires
        i <= max_packs,
        start + 2 * i <= tape.len(),
        all_miss(tape, start, i, card),
    ensures
        match inspect::any_pack_from(ante, max_packs, card, i, tape, start + 2 * i) {
            Run::Halted(Halt::Need(ask)) => {
                let p = ((tape.len() - start) / 2) as nat;
                &&& start <= tape.len()
                &&& p < max_packs
                &&& all_miss(tape, start, p, card)
                &&& draws_or_opens(ask, true, ante, tape, start)
            },
            Run::Halted(Halt::Mismatch(k)) => {
                let p = ((k - start) / 2) as nat;
                &&& start <= k < tape.len()
                &&& p < max_packs
                &&& all_miss(tape, start, p, card)
                &&& no_answer(tape, start, k)
            },
            Run::Done(verdict, n) => n <= tape.len() && if verdict.0 {
                let at = ((n - start) / 2 - 1) as nat;
                &&& n == start + 2 * at + 2
                &&& at < max_packs
                &&& all_miss(tape, start, at, card)
                &&& tape[n - 2] matches Reply::Name(pack)
                &&& tape[n - 1] matches Reply::Contents(contents)
                &&& draws::shown(contents).contains(card)
                &&& verdict.1 == which_pack(ante, at, pack@) + " contains "@ + card
            } else {
                &&& n == start + 2 * max_packs
                &&& all_miss(tape, start, max_packs as nat, card)
                &&& verdict.1 == "ante "@ + text::decimal(ante as nat) + " · no pack in first "@
                    + text::decimal(max_packs as nat) + " contained "@ + card
            },
        },
    decreases max_packs - i,
{
    let used = start + 2 * i;
    if i < max_packs {
        let ask = Ask::NextPack { ante: ante as i32 };
        if let Run::Done(pack, n) = dialogue::name_at(ask, tape, used) {
            let open = Ask::OpenPackDetailed { pack, ante: ante as i32 };
            if let Run::Done(contents, m) = dialogue::contents_at(open, tape, n) {
                assert(m == start + 2 * (i + 1));
                if !draws::shown(contents).contains(card) {
                    assert(misses(tape, start, i, card));
                    lemma_any_pack_from(ante, max_packs, card, i + 1, tape, start);
                }
            }
        }
    }
}

/// A clause on any booster pack asks for a fresh instance and then draws and opens pack after
/// pack, as many as it says. It is met by the first pack that shows the card, which the detail
/// names, and is not met where none of them does.
pub proof fn law_any_pack(
    ante: u8,
    max_packs: u8,
    card: String,
    game: Game,
    tape: Seq<Reply>,
    used: nat,
)
    requires
        used <= tape.len(),
    ensures
        match inspect::clause_run(
            Clause::AnteAnyPackContains { ante, max_packs, card },
            game,
            tape,
            used,
        ) {
            Run::Halted(Halt::Need(ask)) => if used == tape.len() {
                ask == fresh(game)
            } else {
                let p = ((tape.len() - used - 1) / 2) as nat;
                &&& tape[used as int] is Ready
                &&& p < max_packs
                &&& all_miss(tape, used + 1, p, card@)
                &&& draws_or_opens(ask, true, ante, tape, used + 1)
            },
            Run::Halted(Halt::Mismatch(k)) => k < tape.len() && if k == used {
                tape[used as int] !is Ready
            } else {
                let p = ((k - used - 1) / 2) as nat;
                &&& used < k
                &&& tape[used as int] is Ready
                &&& p < max_packs
                &&& all_miss(tape, used + 1, p, card@)
                &&& no_answer(tape, used + 1, k)
            },
            Run::Done(verdict, n) => n <= tape.len() && tape[used as int] is Ready && if verdict.0 {
                let at = ((n - used - 1) / 2 - 1) as nat;
                &&& n == used + 1 + 2 * at + 2
                &&& at < max_packs
                &&& all_miss(tape, used + 1, at, card@)
                &&& tape[n - 2] matches Reply::Name(pack)
                &&& tape[n - 1] matches Reply::Contents(contents)
                &&& draws::shown(contents).contains(card@)
                &&& verdict.1 == which_pack(ante, at, pack@) + " contains "@ + card@
            } else {
                &&& n == used + 1 + 2 * max_packs
                &&& all_miss(tape, used + 1, max_packs as nat, card@)
                &&& verdict.1 == "ante "@ + text::decimal(ante as nat) + " · no pack in first "@
                    + text::decimal(max_packs as nat) + " contained "@ + card@
            },
        },
{
    if let Run::Done(_, n) = dialogue::fresh_at(game, tape, used) {
        lemma_any_pack_from(ante, max_packs, card@, 0, tape, n);
    }
}

// ---------------------------------------------------------------------------
// Playing cards
// ---------------------------------------------------------------------------

/// Whether pack `q` was drawn and opened and holds no card that is wanted.
pub open spec fn disappoints(tape: Seq<Reply>, start: nat, q: nat, wish: Wish) -> bool {
    &&& tape[start + 2int * q] is Name
    &&& tape[start + 2int * q + 1] matches Reply::Contents(contents)
    &&& inspect::first_in_pack(contents, wish) is None
}

/// Whether none of the first `p` packs holds a card that is wanted.
pub open spec fn all_disappoint(tape: Seq<Reply>, start: nat, p: nat, wish: Wish) -> bool {
    forall|q: nat| q < p ==> #[trigger] disappoints(tape, start, q, wish)
}

proof fn lemma_card_from(
    ante: u8,
    max_packs: u8,
    wish: Wish,
    i: nat,
    tape: Seq<Reply>,
    start: nat,
)
    requires
        i <= max_packs,
        start + 2 * i <= tape.len(),
        all_disappoint(tape, start, i, wish),
    ensures
        match inspect::card_from(ante, max_packs, wish, i, tape, start + 2 * i) {
            Run::Halted(Halt::Need(ask)) => {
                let p = ((tape.len() - start) / 2) as nat;
                &&& start <= tape.len()
                &&& p < max_packs
                &&& all_disappoint(tape, start, p, wish)
                &&& draws_or_opens(ask, true, ante, tape, start)
            },
            Run::Halted(Halt::Mismatch(k)) => {
                let p = ((k - start) / 2) as nat;
                &&& start <= k < tape.len()
                &&& p < max_packs
                &&& all_disappoint(tape, start, p, wish)
                &&& no_answer(tape, start, k)
            },
            Run::Done(verdict, n) => n <= tape.len() && if verdict.0 {
                let at = ((n - start) / 2 - 1) as nat;
                &&& n == start + 2 * at + 2
                &&& at < max_packs
                &&& all_disappoint(tape, start, at, wish)
                &&& tape[n - 2] matches Reply::Name(pack)
                &&& tape[n - 1] matches Reply::Contents(contents)
                &&& inspect::first_in_pack(contents, wish) matches Some(ci)
                &&& verdict.1 == which_pack(ante, at, pack@) + " · card "@ + text::decimal(ci)
                    + " = "@ + inspect::base_in_pack(contents, ci)
            } else {
                &&& n == start + 2 * max_packs
                &&& all_disappoint(tape, start, max_packs as nat, wish)
                &&& verdict.1 == "ante "@ + text::decimal(ante as nat)
                    + " · no matching standard card in first "@ + text::decimal(max_packs as nat)
                    + " packs"@
            },
        },
    decreases max_packs - i,
{
    let used = start + 2 * i;
    if i < max_packs {
        let ask = Ask::NextPack { ante: ante as i32 };
        if let Run::Done(pack, n) = dialogue::name_at(ask, tape, used) {
            let open = Ask::OpenPackDetailed { pack, ante: ante as i32 };
            if let Run::Done(contents, m) = dialogue::contents_at(open, tape, n) {
                assert(m == start + 2 * (i + 1));
                if inspect::first_in_pack(contents, wish) is None {
                    assert(disappoints(tape, start, i, wish));
                    lemma_card_from(ante, max_packs, wish, i + 1, tape, start);
                }
            }
        }
    }
}

/// A clause on a playing card asks for a fresh instance and then draws and opens pack after pack,
/// as many as it says. It is met by the first pack with a card that is wanted, and the detail
/// names the pack, the first such card in it and its base; it is not met where none of them holds
/// one.
pub proof fn law_standard_card(
    ante: u8,
    max_packs: u8,
    base: String,
    enhancement: Option<String>,
    edition: Option<String>,
    seal: Option<String>,
    game: Game,
    tape: Seq<Reply>,
    used: nat,
)
    requires
        used <= tape.len(),
    ensures
        ({
            let wish = Wish { base: base@, enhancement, edition, seal };
            match inspect::clause_run(
                Clause::AnteStandardCardIs { ante, max_packs, base, enhancement, edition, seal },
                game,
                tape,
                used,
            ) {
                Run::Halted(Halt::Need(ask)) => if used == tape.len() {
                    ask == fresh(game)
                } else {
                    let p = ((tape.len() - used - 1) / 2) as nat;
                    &&& tape[used as int] is Ready
                    &&& p < max_packs
                    &&& all_disappoint(tape, used + 1, p, wish)
                    &&& draws_or_opens(ask, true, ante, tape, used + 1)
                },
                Run::Halted(Halt::Mismatch(k)) => k < tape.len() && if k == used {
                    tape[used as int] !is Ready
                } else {
                    let p = ((k - used - 1) / 2) as nat;
                    &&& used < k
                    &&& tape[used as int] is Ready
                    &&& p < max_packs
                    &&& all_disappoint(tape, used + 1, p, wish)
                    &&& no_answer(tape, used + 1, k)
                },
                Run::Done(verdict, n) => n <= tape.len() && tape[used as int] is Ready
                    && if verdict.0 {
                    let at = ((n - used - 1) / 2 - 1) as nat;
                    &&& n == used + 1 + 2 * at + 2
                    &&& at < max_packs
                    &&& all_disappoint(tape, used + 1, at, wish)
                    &&& tape[n - 2] matches Reply::Name(pack)
                    &&& tape[n - 1] matches Reply::Contents(contents)
                    &&& inspect::first_in_pack(contents, wish) matches Some(ci)
                    &&& verdict.1 == which_pack(ante, at, pack@) + " · card "@ + text::decimal(ci)
                        + " = "@ + inspect::base_in_pack(contents, ci)
                } else {
                    &&& n == used + 1 + 2 * max_packs
                    &&& all_disappoint(tape, used + 1, max_packs as nat, wish)
                    &&& verdict.1 == "ante "@ + text::decimal(ante as nat)
                        + " · no matching standard card in first "@ + text::decimal(
                        max_packs as nat,
                    ) + " packs"@
                },
            }
        }),
{
    if let Run::Done(_, n) = dialogue::fresh_at(game, tape, used) {
        let wish = Wish { base: base@, enhancement, edition, seal };
        lemma_card_from(ante, max_packs, wish, 0, tape, n);
    }
}

// ---------------------------------------------------------------------------
// Souls and Wraiths
// ---------------------------------------------------------------------------

/// Whether pack `q` was drawn and opened and does not hold the item.
pub open spec fn is_without(tape: Seq<Reply>, start: nat, q: nat, item: Seq<char>) -> bool {
    &&& tape[start + 2int * q] is Name
    &&& tape[start + 2int * q + 1] matches Reply::Contents(contents)
    &&& !draws::item_names(contents).contains(item)
}

/// Whether none of the first `p` packs holds the item.
pub open spec fn all_without(tape: Seq<Reply>, start: nat, p: nat, item: Seq<char>) -> bool {
    forall|q: nat| q < p ==> #[trigger] is_without(tape, start, q, item)
}

/// Whether pack `p` is the first that holds the item.
pub open spec fn first_with(tape: Seq<Reply>, start: nat, p: nat, item: Seq<char>) -> bool {
    &&& all_without(tape, start, p, item)
    &&& tape[start + 2int * p] is Name
    &&& tape[start + 2int * p + 1] matches Reply::Contents(contents)
    &&& draws::item_names(contents).contains(item)
}

/// How a clause on a card that makes a joker goes, for packs whose replies start at `start`: with
/// the name of the card, its name in the detail, and the request for the joker that it makes.
pub open spec fn made_so(
    run: Run<(bool, Seq<char>)>,
    item: Seq<char>,
    label: Seq<char>,
    resolve: Ask,
    ante: u8,
    max_packs: u8,
    joker: Seq<char>,
    tape: Seq<Reply>,
    start: nat,
) -> bool {
    match run {
        Run::Halted(Halt::Need(ask)) => {
            let p = ((tape.len() - start) / 2) as nat;
            &&& start <= tape.len()
            &&& {
                ||| {
                    &&& p < max_packs
                    &&& all_without(tape, start, p, item)
                    &&& draws_or_opens(ask, false, ante, tape, start)
                }
                ||| {
                    &&& 0 < p <= max_packs
                    &&& tape.len() == start + 2 * p
                    &&& first_with(tape, start, (p - 1) as nat, item)
                    &&& ask == resolve
                }
            }
        },
        Run::Halted(Halt::Mismatch(k)) => {
            let p = ((k - start) / 2) as nat;
            &&& start <= k < tape.len()
            &&& {
                ||| {
                    &&& p < max_packs
                    &&& all_without(tape, start, p, item)
                    &&& no_answer(tape, start, k)
                }
                ||| {
                    &&& 0 < p <= max_packs
                    &&& k == start + 2 * p
                    &&& first_with(tape, start, (p - 1) as nat, item)
                    &&& tape[k as int] !is Name
                }
            }
        },
        Run::Done(verdict, n) => start <= n <= tape.len() && if (n - start) % 2 == 0 {
            &&& !verdict.0
            &&& n == start + 2 * max_packs
            &&& all_without(tape, start, max_packs as nat, item)
            &&& verdict.1 == "ante "@ + text::decimal(ante as nat) + " · no "@ + label
                + " in first "@ + text::decimal(max_packs as nat) + " packs"@
        } else {
            let at = ((n - start - 3) / 2) as nat;
            &&& n == start + 2 * at + 3
            &&& at < max_packs
            &&& first_with(tape, start, at, item)
            &&& tape[n - 3] matches Reply::Name(pack)
            &&& tape[n - 1] matches Reply::Name(made)
            &&& verdict.0 == (made@ == joker)
            &&& verdict.1 == which_pack(ante, at, pack@) + " · "@ + label + " → "@ + made@ + behind(
                made@,
                joker,
            )
        },
    }
}

proof fn lemma_made_from(
    maker: Maker,
    ante: u8,
    max_packs: u8,
    joker: Seq<char>,
    i: nat,
    tape: Seq<Reply>,
    start: nat,
)
    requires
        i <= max_packs,
        start + 2 * i <= tape.len(),
        all_without(tape, start, i, inspect::maker_item(maker)),
    ensures
        made_so(
            inspect::made_from(maker, ante, max_packs, joker, i, tape, start + 2 * i),
            inspect::maker_item(maker),
            inspect::maker_label(maker),
            inspect::maker_ask(maker, ante),
            ante,
            max_packs,
            joker,
            tape,
            start,
        ),
    decreases max_packs - i,
{
    let used = start + 2 * i;
    let item = inspect::maker_item(maker);
    if i < max_packs {
        let ask = Ask::NextPack { ante: ante as i32 };
        if let Run::Done(pack, n) = dialogue::name_at(ask, tape, used) {
            let open = Ask::OpenPack { pack, ante: ante as i32 };
            if let Run::Done(contents, m) = dialogue::contents_at(open, tape, n) {
                assert(m == start + 2 * (i + 1));
                if draws::item_names(contents).contains(item) {
                    assert(first_with(tape, start, i, item));
                } else {
                    assert(is_without(tape, start, i, item));
                    lemma_made_from(maker, ante, max_packs, joker, i + 1, tape, start);
                }
            }
        }
    }
}

/// How a clause starts with a fresh instance: asks for it, refuses any reply but that it is
/// ready, and goes on behind it otherwise.
pub open spec fn starts_fresh(
    run: Run<(bool, Seq<char>)>,
    game: Game,
    tape: Seq<Reply>,
    used: nat,
) -> bool {
    if used == tape.len() {
        run == Run::<(bool, Seq<char>)>::Halted(Halt::Need(fresh(game)))
    } else {
        tape[used as int] !is Ready ==> run == Run::<(bool, Seq<char>)>::Halted(
            Halt::Mismatch(used),
        )
    }
}

/// A clause on a Soul draws and opens pack after pack until one holds the card "The Soul", and
/// asks then for the legendary joker that it makes. It is met exactly where that is the joker
/// that is wanted.
pub proof fn law_soul(
    ante: u8,
    max_packs: u8,
    joker: String,
    game: Game,
    tape: Seq<Reply>,
    used: nat,
)
    requires
        used <= tape.len(),
    ensures
        ({
            let run = inspect::clause_run(
                Clause::AnteSoulIs { ante, max_packs, joker },
                game,
                tape,
                used,
            );
            &&& starts_fresh(run, game, tape, used)
            &&& used < tape.len() && tape[used as int] is Ready ==> made_so(
                run,
                "The Soul"@,
                "Soul"@,
                Ask::ResolveSoulLegendary { ante: ante as i32 },
                ante,
                max_packs,
                joker@,
                tape,
                used + 1,
            )
        }),
{
    if let Run::Done(_, n) = dialogue::fresh_at(game, tape, used) {
        lemma_made_from(Maker::Soul, ante, max_packs, joker@, 0, tape, n);
    }
}

/// A clause on a Wraith draws and opens pack after pack until one holds the card "Wraith", and
/// asks then for the rare joker that it makes. It is met exactly where that is the joker that is
/// wanted.
pub proof fn law_wraith(
    ante: u8,
    max_packs: u8,
    joker: String,
    game: Game,
    tape: Seq<Reply>,
    used: nat,
)
    requires
        used <= tape.len(),
    ensures
        ({
            let run = inspect::clause_run(
                Clause::AnteWraithIs { ante, max_packs, joker },
                game,
                tape,
                used,
            );
            &&& starts_fresh(run, game, tape, used)
            &&& used < tape.len() && tape[used as int] is Ready ==> made_so(
                run,
                "Wraith"@,
                "Wraith"@,
                Ask::ResolveWraithRare { ante: ante as i32 },
                ante,
                max_packs,
                joker@,
                tape,
                used + 1,
            )
        }),
{
    if let Run::Done(_, n) = dialogue::fresh_at(game, tape, used) {
        lemma_made_from(Maker::Wraith, ante, max_packs, joker@, 0, tape, n);
    }
}

// ---------------------------------------------------------------------------
// Any of several clauses
// ---------------------------------------------------------------------------

/// "Any of" no clauses is not met and asks for nothing.
pub proof fn law_any_of_none(clauses: Vec<Clause>, game: Game, tape: Seq<Reply>, used: nat)
    requires
        clauses@.len() == 0,
    ensures
        inspect::clause_run(Clause::AnyOf { clauses }, game, tape, used) == Run::Done(
            (false, "no sub-clause matched"@),
            used,
        ),
{
}

proof fn lemma_any_of_grows(
    some: Seq<Clause>,
    c: Clause,
    i: nat,
    game: Game,
    tape: Seq<Reply>,
    used: nat,
)
    requires
        i <= some.len(),
    ensures
        grown(
            inspect::any_of_from(some, i, game, tape, used),
            inspect::any_of_from(some.push(c), i, game, tape, used),
            some.len(),
            c,
            game,
            tape,
        ),
    decreases some.len() - i,
{
    let more = some.push(c);
    if i < some.len() {
        assert(more[i as int] == some[i as int]);
        if let Run::Done(verdict, n) = inspect::clause_run(some[i as int], game, tape, used) {
            if !verdict.0 {
                lemma_any_of_grows(some, c, i + 1, game, tape, n);
            }
        }
    } else {
        assert(more[i as int] == c);
        if let Run::Done(verdict, n) = inspect::clause_run(c, game, tape, used) {
            assert(inspect::any_of_from(more, i + 1, game, tape, n) == Run::Done(
                (false, "no sub-clause matched"@),
                n,
            ));
        }
    }
}

/// How the runs of "any of" some clauses and of "any of" these and one more clause, with index
/// `i`, belong together.
pub open spec fn grown(
    short: Run<(bool, Seq<char>)>,
    long: Run<(bool, Seq<char>)>,
    i: nat,
    c: Clause,
    game: Game,
    tape: Seq<Reply>,
) -> bool {
    match short {
        Run::Done(verdict, n) => if verdict.0 {
            long == short
        } else {
            match inspect::clause_run(c, game, tape, n) {
                Run::Done(last, m) => long == if last.0 {
                    Run::Done((true, "any_of["@ + text::decimal(i) + "]: "@ + last.1), m)
                } else {
                    Run::Done((false, "no sub-clause matched"@), m)
                },
                Run::Halted(halt) => long == Run::<(bool, Seq<char>)>::Halted(halt),
            }
        },
        Run::Halted(_) => long == short,
    }
}

/// One more clause at the end of "any of" makes a difference only where none before it is met.
/// There it is judged on the replies behind those of the others, and where it is met the detail
/// is its own, with its index before it.
pub proof fn law_any_of_grows(
    some: Vec<Clause>,
    more: Vec<Clause>,
    c: Clause,
    game: Game,
    tape: Seq<Reply>,
    used: nat,
)
    requires
        more@ == some@.push(c),
    ensures
        grown(
            inspect::clause_run(Clause::AnyOf { clauses: some }, game, tape, used),
            inspect::clause_run(Clause::AnyOf { clauses: more }, game, tape, used),
            some@.len(),
            c,
            game,
            tape,
        ),
{
    lemma_any_of_grows(some@, c, 0, game, tape, used);
}

// ---------------------------------------------------------------------------
// What is returned
// ---------------------------------------------------------------------------

/// What is returned for a run that is done is its verdict and its detail, with as many replies
/// used; for a run that halted, the stop.
pub proof fn law_judged(
    res: Result<(bool, String), Stop>,
    used: usize,
    met: bool,
    detail: Seq<char>,
    n: nat,
    halt: Halt,
)
    ensures
        inspect::judged(res, used, Run::Done((met, detail), n)) <==> {
            &&& res matches Ok(found)
            &&& found.0 == met
            &&& found.1@ == detail
            &&& used == n
        },
        inspect::judged(res, used, Run::Halted(halt)) <==> {
            &&& res matches Err(stop)
            &&& stop@ == halt
        },
{
}

} // verus!
