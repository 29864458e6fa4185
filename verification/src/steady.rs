//! Resuming a dialogue: further replies never change what came before them.
//!
//! A function that stopped with a request is called again with one more reply. These laws say
//! that this is sound: a result, once reached, stays; a request, once made, is what the next
//! reply answers.
use vstd::prelude::*;

use crate::analyze;
use crate::analyze::AnteDraws;
use crate::dialogue;
use crate::dialogue::Ask;
use crate::dialogue::Game;
use crate::dialogue::Halt;
use crate::dialogue::Reply;
use crate::dialogue::Run;
use crate::draws::PackContents;
use crate::draws::ShopSlot;
use crate::filter::Clause;
use crate::filter::Filter;
use crate::inspect;
use crate::inspect::Maker;
use crate::inspect::Verdict;
use crate::inspect::Wish;
use crate::report;
use crate::scan;

verus! {

/// Whether `long` holds the replies of `short`, and perhaps more behind them.
pub open spec fn extends(short: Seq<Reply>, long: Seq<Reply>) -> bool {
    &&& short.len() <= long.len()
    &&& long.take(short.len() as int) == short
}

/// Whether a run that starts behind `used` replies uses none before them.
pub open spec fn onward<A>(run: Run<A>, used: nat) -> bool {
    match run {
        Run::Done(_, n) => n >= used,
        Run::Halted(Halt::Mismatch(k)) => k >= used,
        Run::Halted(Halt::Need(_)) => true,
    }
}

/// How the run on `len` replies and the run on these and more belong together. A result or a
/// mismatch is the same in both. Where the first needs a reply, the second goes past all `len`.
pub open spec fn steady<A>(short: Run<A>, long: Run<A>, len: nat) -> bool {
    match short {
        Run::Done(_, n) => n <= len && long == short,
        Run::Halted(Halt::Mismatch(k)) => k < len && long == short,
        Run::Halted(Halt::Need(_)) => match long {
            Run::Done(_, n) => n > len,
            Run::Halted(Halt::Mismatch(k)) => k >= len,
            Run::Halted(Halt::Need(_)) => true,
        },
    }
}

/// What holds of every dialogue, on some replies and on these and more.
pub open spec fn sound<A>(short: Run<A>, long: Run<A>, len: nat, used: nat) -> bool {
    &&& onward(short, used)
    &&& onward(long, used)
    &&& used <= len ==> steady(short, long, len)
}

proof fn lemma_same_reply(short: Seq<Reply>, long: Seq<Reply>, used: nat)
    requires
        extends(short, long),
        used < short.len(),
    ensures
        long[used as int] == short[used as int],
{
    assert(long.take(short.len() as int)[used as int] == short[used as int]);
}

proof fn lemma_ready(ask: Ask, short: Seq<Reply>, long: Seq<Reply>, used: nat)
    requires
        extends(short, long),
    ensures
        sound(
            dialogue::ready_at(ask, short, used),
            dialogue::ready_at(ask, long, used),
            short.len(),
            used,
        ),
{
    if used < short.len() {
        lemma_same_reply(short, long, used);
    }
}

proof fn lemma_name(ask: Ask, short: Seq<Reply>, long: Seq<Reply>, used: nat)
    requires
        extends(short, long),
    ensures
        sound(
            dialogue::name_at(ask, short, used),
            dialogue::name_at(ask, long, used),
            short.len(),
            used,
        ),
{
    if used < short.len() {
        lemma_same_reply(short, long, used);
    }
}

proof fn lemma_slot(ask: Ask, short: Seq<Reply>, long: Seq<Reply>, used: nat)
    requires
        extends(short, long),
    ensures
        sound(
            dialogue::slot_at(ask, short, used),
            dialogue::slot_at(ask, long, used),
            short.len(),
            used,
        ),
{
    if used < short.len() {
        lemma_same_reply(short, long, used);
    }
}

proof fn lemma_contents(ask: Ask, short: Seq<Reply>, long: Seq<Reply>, used: nat)
    requires
        extends(short, long),
    ensures
        sound(
            dialogue::contents_at(ask, short, used),
            dialogue::contents_at(ask, long, used),
            short.len(),
            used,
        ),
{
    if used < short.len() {
        lemma_same_reply(short, long, used);
    }
}

proof fn lemma_fresh(game: Game, short: Seq<Reply>, long: Seq<Reply>, used: nat)
    requires
        extends(short, long),
    ensures
        sound(
            dialogue::fresh_at(game, short, used),
            dialogue::fresh_at(game, long, used),
            short.len(),
            used,
        ),
{
    lemma_ready(
        Ask::FreshInstance { seed: game.seed, deck: game.deck, stake: game.stake },
        short,
        long,
        used,
    );
}

proof fn lemma_shop_from(
    ante: u8,
    joker: Seq<char>,
    edition: Option<String>,
    sticker: Option<String>,
    s: nat,
    end: nat,
    short: Seq<Reply>,
    long: Seq<Reply>,
    used: nat,
)
    requires
        extends(short, long),
    ensures
        sound(
            inspect::shop_from(ante, joker, edition, sticker, s, end, short, used),
            inspect::shop_from(ante, joker, edition, sticker, s, end, long, used),
            short.len(),
            used,
        ),
    decreases end - s,
{
    if s < end {
        let ask = Ask::NextShopItem { ante: ante as i32 };
        lemma_slot(ask, short, long, used);
        if let Run::Done(_, n) = dialogue::slot_at(ask, short, used) {
            lemma_shop_from(ante, joker, edition, sticker, s + 1, end, short, long, n);
        }
        if let Run::Done(_, n) = dialogue::slot_at(ask, long, used) {
            lemma_shop_from(ante, joker, edition, sticker, s + 1, end, short, long, n);
        }
    }
}

proof fn lemma_last_name(
    ask: Ask,
    n: nat,
    last: Seq<char>,
    short: Seq<Reply>,
    long: Seq<Reply>,
    used: nat,
)
    requires
        extends(short, long),
    ensures
        sound(
            inspect::last_name(ask, n, last, short, used),
            inspect::last_name(ask, n, last, long, used),
            short.len(),
            used,
        ),
    decreases n,
{
    if n > 0 {
        let rest = (n - 1) as nat;
        lemma_name(ask, short, long, used);
        if let Run::Done(name, m) = dialogue::name_at(ask, short, used) {
            lemma_last_name(ask, rest, name, short, long, m);
        }
        if let Run::Done(name, m) = dialogue::name_at(ask, long, used) {
            lemma_last_name(ask, rest, name, short, long, m);
        }
    }
}

proof fn lemma_any_pack_from(
    ante: u8,
    max_packs: u8,
    card: Seq<char>,
    i: nat,
    short: Seq<Reply>,
    long: Seq<Reply>,
    used: nat,
)
    requires
        extends(short, long),
    ensures
        sound(
            inspect::any_pack_from(ante, max_packs, card, i, short, used),
            inspect::any_pack_from(ante, max_packs, card, i, long, used),
            short.len(),
            used,
        ),
    decreases max_packs - i,
{
    if i < max_packs {
        let ask = Ask::NextPack { ante: ante as i32 };
        lemma_name(ask, short, long, used);
        if let Run::Done(pack, n) = dialogue::name_at(ask, short, used) {
            let open = Ask::OpenPackDetailed { pack, ante: ante as i32 };
            lemma_contents(open, short, long, n);
            if let Run::Done(_, m) = dialogue::contents_at(open, short, n) {
                lemma_any_pack_from(ante, max_packs, card, i + 1, short, long, m);
            }
        }
        if let Run::Done(pack, n) = dialogue::name_at(ask, long, used) {
            let open = Ask::OpenPackDetailed { pack, ante: ante as i32 };
            lemma_contents(open, short, long, n);
            if let Run::Done(_, m) = dialogue::contents_at(open, long, n) {
                lemma_any_pack_from(ante, max_packs, card, i + 1, short, long, m);
            }
        }
    }
}

proof fn lemma_made_from(
    maker: Maker,
    ante: u8,
    max_packs: u8,
    joker: Seq<char>,
    i: nat,
    short: Seq<Reply>,
    long: Seq<Reply>,
    used: nat,
)
    requires
        extends(short, long),
    ensures
        sound(
            inspect::made_from(maker, ante, max_packs, joker, i, short, used),
            inspect::made_from(maker, ante, max_packs, joker, i, long, used),
            short.len(),
            used,
        ),
    decreases max_packs - i,
{
    if i < max_packs {
        let ask = Ask::NextPack { ante: ante as i32 };
        let made = inspect::maker_ask(maker, ante);
        lemma_name(ask, short, long, used);
        if let Run::Done(pack, n) = dialogue::name_at(ask, short, used) {
            let open = Ask::OpenPack { pack, ante: ante as i32 };
            lemma_contents(open, short, long, n);
            if let Run::Done(_, m) = dialogue::contents_at(open, short, n) {
                lemma_name(made, short, long, m);
                lemma_made_from(maker, ante, max_packs, joker, i + 1, short, long, m);
            }
        }
        if let Run::Done(pack, n) = dialogue::name_at(ask, long, used) {
            let open = Ask::OpenPack { pack, ante: ante as i32 };
            lemma_contents(open, short, long, n);
            if let Run::Done(_, m) = dialogue::contents_at(open, long, n) {
                lemma_name(made, short, long, m);
                lemma_made_from(maker, ante, max_packs, joker, i + 1, short, long, m);
            }
        }
    }
}

proof fn lemma_card_from(
    ante: u8,
    max_packs: u8,
    wish: Wish,
    i: nat,
    short: Seq<Reply>,
    long: Seq<Reply>,
    used: nat,
)
    requires
        extends(short, long),
    ensures
        sound(
            inspect::card_from(ante, max_packs, wish, i, short, used),
            inspect::card_from(ante, max_packs, wish, i, long, used),
            short.len(),
            used,
        ),
    decreases max_packs - i,
{
    if i < max_packs {
        let ask = Ask::NextPack { ante: ante as i32 };
        lemma_name(ask, short, long, used);
        if let Run::Done(pack, n) = dialogue::name_at(ask, short, used) {
            let open = Ask::OpenPackDetailed { pack, ante: ante as i32 };
            lemma_contents(open, short, long, n);
            if let Run::Done(_, m) = dialogue::contents_at(open, short, n) {
                lemma_card_from(ante, max_packs, wish, i + 1, short, long, m);
            }
        }
        if let Run::Done(pack, n) = dialogue::name_at(ask, long, used) {
            let open = Ask::OpenPackDetailed { pack, ante: ante as i32 };
            lemma_contents(open, short, long, n);
            if let Run::Done(_, m) = dialogue::contents_at(open, long, n) {
                lemma_card_from(ante, max_packs, wish, i + 1, short, long, m);
            }
        }
    }
}

proof fn lemma_shop_run(
    ante: u8,
    slot: u8,
    joker: Seq<char>,
    edition: Option<String>,
    sticker: Option<String>,
    game: Game,
    short: Seq<Reply>,
    long: Seq<Reply>,
    used: nat,
)
    requires
        extends(short, long),
    ensures
        sound(
            inspect::shop_run(ante, slot, joker, edition, sticker, game, short, used),
            inspect::shop_run(ante, slot, joker, edition, sticker, game, long, used),
            short.len(),
            used,
        ),
{
    let end = inspect::scan_end(slot);
    lemma_fresh(game, short, long, used);
    if let Run::Done(_, n) = dialogue::fresh_at(game, short, used) {
        lemma_shop_from(ante, joker, edition, sticker, 0, end, short, long, n);
    }
    if let Run::Done(_, n) = dialogue::fresh_at(game, long, used) {
        lemma_shop_from(ante, joker, edition, sticker, 0, end, short, long, n);
    }
}

proof fn lemma_tag_run(
    ante: u8,
    position: u8,
    tag: Seq<char>,
    game: Game,
    short: Seq<Reply>,
    long: Seq<Reply>,
    used: nat,
)
    requires
        extends(short, long),
    ensures
        sound(
            inspect::tag_run(ante, position, tag, game, short, used),
            inspect::tag_run(ante, position, tag, game, long, used),
            short.len(),
            used,
        ),
{
    let ask = Ask::NextTag { ante: ante as i32 };
    lemma_fresh(game, short, long, used);
    if let Run::Done(_, n) = dialogue::fresh_at(game, short, used) {
        lemma_last_name(ask, position as nat + 1, ""@, short, long, n);
    }
    if let Run::Done(_, n) = dialogue::fresh_at(game, long, used) {
        lemma_last_name(ask, position as nat + 1, ""@, short, long, n);
    }
}

proof fn lemma_pack_run(
    ante: u8,
    pack_index: u8,
    card: Seq<char>,
    game: Game,
    short: Seq<Reply>,
    long: Seq<Reply>,
    used: nat,
)
    requires
        extends(short, long),
    ensures
        sound(
            inspect::pack_run(ante, pack_index, card, game, short, used),
            inspect::pack_run(ante, pack_index, card, game, long, used),
            short.len(),
            used,
        ),
{
    let ask = Ask::NextPack { ante: ante as i32 };
    let count = pack_index as nat + 1;
    lemma_fresh(game, short, long, used);
    if let Run::Done(_, n) = dialogue::fresh_at(game, short, used) {
        lemma_last_name(ask, count, ""@, short, long, n);
        if let Run::Done(pack, m) = inspect::last_name(ask, count, ""@, short, n) {
            lemma_contents(Ask::OpenPackDetailed { pack, ante: ante as i32 }, short, long, m);
        }
    }
    if let Run::Done(_, n) = dialogue::fresh_at(game, long, used) {
        lemma_last_name(ask, count, ""@, short, long, n);
        if let Run::Done(pack, m) = inspect::last_name(ask, count, ""@, long, n) {
            lemma_contents(Ask::OpenPackDetailed { pack, ante: ante as i32 }, short, long, m);
        }
    }
}

proof fn lemma_fresh_name(ask: Ask, game: Game, short: Seq<Reply>, long: Seq<Reply>, used: nat)
    requires
        extends(short, long),
    ensures
        sound(
            analyze::fresh_name_at(ask, game, short, used),
            analyze::fresh_name_at(ask, game, long, used),
            short.len(),
            used,
        ),
{
    lemma_fresh(game, short, long, used);
    if let Run::Done(_, n) = dialogue::fresh_at(game, short, used) {
        lemma_name(ask, short, long, n);
    }
    if let Run::Done(_, n) = dialogue::fresh_at(game, long, used) {
        lemma_name(ask, short, long, n);
    }
}

/// Further replies do not change the verdict on a clause.
pub proof fn law_clause_resumes(
    c: Clause,
    game: Game,
    short: Seq<Reply>,
    long: Seq<Reply>,
    used: nat,
)
    requires
        extends(short, long),
    ensures
        sound(
            inspect::clause_run(c, game, short, used),
            inspect::clause_run(c, game, long, used),
            short.len(),
            used,
        ),
    decreases c, 0nat,
{
    match c {
        Clause::AnteShopHasJoker { ante, slot, joker, edition, sticker } => lemma_shop_run(
            ante,
            slot,
            joker@,
            edition,
            sticker,
            game,
            short,
            long,
            used,
        ),
        Clause::AnteTagIs { ante, position, tag } => lemma_tag_run(
            ante,
            position,
            tag@,
            game,
            short,
            long,
            used,
        ),
        Clause::AnteBossIs { ante, boss } => lemma_fresh_name(
            Ask::NextBoss { ante: ante as i32 },
            game,
            short,
            long,
            used,
        ),
        Clause::VoucherIs { ante, voucher } => lemma_fresh_name(
            Ask::NextVoucher { ante: ante as i32 },
            game,
            short,
            long,
            used,
        ),
        Clause::AntePackContains { ante, pack_index, card } => lemma_pack_run(
            ante,
            pack_index,
            card@,
            game,
            short,
            long,
            used,
        ),
        Clause::AnteAnyPackContains { ante, max_packs, card } => {
            lemma_fresh(game, short, long, used);
            if let Run::Done(_, n) = dialogue::fresh_at(game, short, used) {
                lemma_any_pack_from(ante, max_packs, card@, 0, short, long, n);
            }
            if let Run::Done(_, n) = dialogue::fresh_at(game, long, used) {
                lemma_any_pack_from(ante, max_packs, card@, 0, short, long, n);
            }
        },
        Clause::AnteSoulIs { ante, max_packs, joker } => {
            lemma_made_run(Maker::Soul, ante, max_packs, joker@, game, short, long, used);
        },
        Clause::AnteWraithIs { ante, max_packs, joker } => {
            lemma_made_run(Maker::Wraith, ante, max_packs, joker@, game, short, long, used);
        },
        Clause::AnteStandardCardIs { ante, max_packs, base, enhancement, edition, seal } => {
            let wish = Wish { base: base@, enhancement, edition, seal };
            lemma_fresh(game, short, long, used);
            if let Run::Done(_, n) = dialogue::fresh_at(game, short, used) {
                lemma_card_from(ante, max_packs, wish, 0, short, long, n);
            }
            if let Run::Done(_, n) = dialogue::fresh_at(game, long, used) {
                lemma_card_from(ante, max_packs, wish, 0, short, long, n);
            }
        },
        Clause::AnyOf { clauses } => lemma_any_of_from(clauses@, 0, game, short, long, used),
    }
}

proof fn lemma_made_run(
    maker: Maker,
    ante: u8,
    max_packs: u8,
    joker: Seq<char>,
    game: Game,
    short: Seq<Reply>,
    long: Seq<Reply>,
    used: nat,
)
    requires
        extends(short, long),
    ensures
        sound(
            inspect::made_run(maker, ante, max_packs, joker, game, short, used),
            inspect::made_run(maker, ante, max_packs, joker, game, long, used),
            short.len(),
            used,
        ),
{
    lemma_fresh(game, short, long, used);
    if let Run::Done(_, n) = dialogue::fresh_at(game, short, used) {
        lemma_made_from(maker, ante, max_packs, joker, 0, short, long, n);
    }
    if let Run::Done(_, n) = dialogue::fresh_at(game, long, used) {
        lemma_made_from(maker, ante, max_packs, joker, 0, short, long, n);
    }
}

proof fn lemma_any_of_from(
    clauses: Seq<Clause>,
    i: nat,
    game: Game,
    short: Seq<Reply>,
    long: Seq<Reply>,
    used: nat,
)
    requires
        extends(short, long),
    ensures
        sound(
            inspect::any_of_from(clauses, i, game, short, used),
            inspect::any_of_from(clauses, i, game, long, used),
            short.len(),
            used,
        ),
    decreases clauses, clauses.len() - i,
{
    if i < clauses.len() {
        let c = clauses[i as int];
        law_clause_resumes(c, game, short, long, used);
        if let Run::Done(_, n) = inspect::clause_run(c, game, short, used) {
            lemma_any_of_from(clauses, i + 1, game, short, long, n);
        }
        if let Run::Done(_, n) = inspect::clause_run(c, game, long, used) {
            lemma_any_of_from(clauses, i + 1, game, short, long, n);
        }
    }
}

proof fn lemma_verdicts_from(
    clauses: Seq<Clause>,
    i: nat,
    verdicts: Seq<Verdict>,
    game: Game,
    short: Seq<Reply>,
    long: Seq<Reply>,
    used: nat,
)
    requires
        extends(short, long),
    ensures
        sound(
            report::verdicts_from(clauses, i, verdicts, game, short, used),
            report::verdicts_from(clauses, i, verdicts, game, long, used),
            short.len(),
            used,
        ),
    decreases clauses.len() - i,
{
    if i < clauses.len() {
        let c = clauses[i as int];
        law_clause_resumes(c, game, short, long, used);
        if let Run::Done(verdict, n) = inspect::clause_run(c, game, short, used) {
            lemma_verdicts_from(clauses, i + 1, verdicts.push(verdict), game, short, long, n);
        }
        if let Run::Done(verdict, n) = inspect::clause_run(c, game, long, used) {
            lemma_verdicts_from(clauses, i + 1, verdicts.push(verdict), game, short, long, n);
        }
    }
}

/// Further replies do not change the report on a seed.
pub proof fn law_inspection_resumes(
    filter: Result<Filter, String>,
    seed: Seq<char>,
    deck_idx: u8,
    stake_idx: u8,
    short: Seq<Reply>,
    long: Seq<Reply>,
)
    requires
        extends(short, long),
    ensures
        steady(
            report::inspect_run(filter, seed, deck_idx, stake_idx, short),
            report::inspect_run(filter, seed, deck_idx, stake_idx, long),
            short.len(),
        ),
{
    if let Ok(filter) = filter {
        let game = dialogue::game(seed, deck_idx, stake_idx);
        lemma_verdicts_from(filter.clauses@, 0, Seq::empty(), game, short, long, 0);
    }
}

proof fn lemma_slots_from(
    ante: u8,
    slots: Seq<ShopSlot>,
    short: Seq<Reply>,
    long: Seq<Reply>,
    used: nat,
)
    requires
        extends(short, long),
    ensures
        sound(
            analyze::slots_from(ante, slots, short, used),
            analyze::slots_from(ante, slots, long, used),
            short.len(),
            used,
        ),
    decreases analyze::SHOP_SLOTS - slots.len(),
{
    if slots.len() < analyze::SHOP_SLOTS {
        let ask = Ask::NextShopItem { ante: ante as i32 };
        lemma_slot(ask, short, long, used);
        if let Run::Done(slot, n) = dialogue::slot_at(ask, short, used) {
            lemma_slots_from(ante, slots.push(slot), short, long, n);
        }
        if let Run::Done(slot, n) = dialogue::slot_at(ask, long, used) {
            lemma_slots_from(ante, slots.push(slot), short, long, n);
        }
    }
}

proof fn lemma_packs_from(
    ante: u8,
    packs: Seq<(Seq<char>, PackContents)>,
    short: Seq<Reply>,
    long: Seq<Reply>,
    used: nat,
)
    requires
        extends(short, long),
    ensures
        sound(
            analyze::packs_from(ante, packs, short, used),
            analyze::packs_from(ante, packs, long, used),
            short.len(),
            used,
        ),
    decreases analyze::PACKS - packs.len(),
{
    if packs.len() < analyze::PACKS {
        let ask = Ask::NextPack { ante: ante as i32 };
        lemma_name(ask, short, long, used);
        if let Run::Done(pack, n) = dialogue::name_at(ask, short, used) {
            let open = Ask::OpenPackDetailed { pack, ante: ante as i32 };
            lemma_contents(open, short, long, n);
            if let Run::Done(contents, m) = dialogue::contents_at(open, short, n) {
                lemma_packs_from(ante, packs.push((pack, contents)), short, long, m);
            }
        }
        if let Run::Done(pack, n) = dialogue::name_at(ask, long, used) {
            let open = Ask::OpenPackDetailed { pack, ante: ante as i32 };
            lemma_contents(open, short, long, n);
            if let Run::Done(contents, m) = dialogue::contents_at(open, long, n) {
                lemma_packs_from(ante, packs.push((pack, contents)), short, long, m);
            }
        }
    }
}

proof fn lemma_tags(ante: u8, game: Game, short: Seq<Reply>, long: Seq<Reply>, used: nat)
    requires
        extends(short, long),
    ensures
        sound(
            analyze::tags_at(ante, game, short, used),
            analyze::tags_at(ante, game, long, used),
            short.len(),
            used,
        ),
{
    let ask = Ask::NextTag { ante: ante as i32 };
    lemma_fresh_name(ask, game, short, long, used);
    if let Run::Done(_, n) = analyze::fresh_name_at(ask, game, short, used) {
        lemma_name(ask, short, long, n);
    }
    if let Run::Done(_, n) = analyze::fresh_name_at(ask, game, long, used) {
        lemma_name(ask, short, long, n);
    }
}

proof fn lemma_shop(ante: u8, game: Game, short: Seq<Reply>, long: Seq<Reply>, used: nat)
    requires
        extends(short, long),
    ensures
        sound(
            analyze::shop_at(ante, game, short, used),
            analyze::shop_at(ante, game, long, used),
            short.len(),
            used,
        ),
{
    lemma_fresh(game, short, long, used);
    if let Run::Done(_, n) = dialogue::fresh_at(game, short, used) {
        lemma_slots_from(ante, Seq::empty(), short, long, n);
    }
    if let Run::Done(_, n) = dialogue::fresh_at(game, long, used) {
        lemma_slots_from(ante, Seq::empty(), short, long, n);
    }
}

proof fn lemma_packs(ante: u8, game: Game, short: Seq<Reply>, long: Seq<Reply>, used: nat)
    requires
        extends(short, long),
    ensures
        sound(
            analyze::packs_at(ante, game, short, used),
            analyze::packs_at(ante, game, long, used),
            short.len(),
            used,
        ),
{
    lemma_fresh(game, short, long, used);
    if let Run::Done(_, n) = dialogue::fresh_at(game, short, used) {
        lemma_packs_from(ante, Seq::empty(), short, long, n);
    }
    if let Run::Done(_, n) = dialogue::fresh_at(game, long, used) {
        lemma_packs_from(ante, Seq::empty(), short, long, n);
    }
}

proof fn lemma_ante(ante: u8, game: Game, short: Seq<Reply>, long: Seq<Reply>, used: nat)
    requires
        extends(short, long),
    ensures
        sound(
            analyze::ante_run(ante, game, short, used),
            analyze::ante_run(ante, game, long, used),
            short.len(),
            used,
        ),
{
    let boss = Ask::NextBoss { ante: ante as i32 };
    let voucher = Ask::NextVoucher { ante: ante as i32 };
    lemma_fresh_name(boss, game, short, long, used);
    if let Run::Done(_, n) = analyze::fresh_name_at(boss, game, short, used) {
        lemma_fresh_name(voucher, game, short, long, n);
        if let Run::Done(_, m) = analyze::fresh_name_at(voucher, game, short, n) {
            lemma_tags(ante, game, short, long, m);
            if let Run::Done(_, k) = analyze::tags_at(ante, game, short, m) {
                lemma_shop(ante, game, short, long, k);
                if let Run::Done(_, l) = analyze::shop_at(ante, game, short, k) {
                    lemma_packs(ante, game, short, long, l);
                }
            }
        }
    }
    if let Run::Done(_, n) = analyze::fresh_name_at(boss, game, long, used) {
        lemma_fresh_name(voucher, game, short, long, n);
        if let Run::Done(_, m) = analyze::fresh_name_at(voucher, game, long, n) {
            lemma_tags(ante, game, short, long, m);
            if let Run::Done(_, k) = analyze::tags_at(ante, game, long, m) {
                lemma_shop(ante, game, short, long, k);
                if let Run::Done(_, l) = analyze::shop_at(ante, game, long, k) {
                    lemma_packs(ante, game, short, long, l);
                }
            }
        }
    }
}

proof fn lemma_antes_from(
    last: u8,
    offers: Seq<AnteDraws>,
    game: Game,
    short: Seq<Reply>,
    long: Seq<Reply>,
    used: nat,
)
    requires
        extends(short, long),
    ensures
        sound(
            analyze::antes_from(last, offers, game, short, used),
            analyze::antes_from(last, offers, game, long, used),
            short.len(),
            used,
        ),
    decreases last - offers.len(),
{
    if offers.len() < last {
        let ante = (offers.len() + 1) as u8;
        lemma_ante(ante, game, short, long, used);
        if let Run::Done(offer, n) = analyze::ante_run(ante, game, short, used) {
            lemma_antes_from(last, offers.push(offer), game, short, long, n);
        }
        if let Run::Done(offer, n) = analyze::ante_run(ante, game, long, used) {
            lemma_antes_from(last, offers.push(offer), game, short, long, n);
        }
    }
}

/// Further replies do not change the overview of a seed.
pub proof fn law_overview_resumes(
    seed: Seq<char>,
    max_ante: u8,
    deck_idx: u8,
    stake_idx: u8,
    short: Seq<Reply>,
    long: Seq<Reply>,
)
    requires
        extends(short, long),
    ensures
        steady(
            analyze::overview_run(seed, max_ante, deck_idx, stake_idx, short),
            analyze::overview_run(seed, max_ante, deck_idx, stake_idx, long),
            short.len(),
        ),
{
    let last = analyze::last_ante(max_ante);
    let game = dialogue::game(seed, deck_idx, stake_idx);
    lemma_antes_from(last, Seq::empty(), game, short, long, 0);
}

/// Further replies do not change what a search returns.
pub proof fn law_search_resumes(ask: Ask, short: Seq<Reply>, long: Seq<Reply>)
    requires
        extends(short, long),
    ensures
        steady(scan::scan_run(ask, short), scan::scan_run(ask, long), short.len()),
{
    if short.len() > 0 {
        lemma_same_reply(short, long, 0);
    }
}

} // verus!
