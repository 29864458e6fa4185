//! The dialogue with the game engine.
//!
//! Only the game engine can draw from a seed. A function of this library that needs draws is
//! handed the engine's replies so far, in the order in which it asks for them. Where they
//! suffice it returns its result; where they do not it stops with the request that comes next.
//! The caller has the engine answer, appends the reply and calls again. So what the function
//! returns depends on its arguments and on the replies alone.
use vstd::prelude::*;

use crate::draws::PackContents;
use crate::draws::ShopSlot;
use crate::search::Match;
use crate::search::ScanJob;
use crate::search::ScanView;
use crate::state;
use crate::state::Deck;
use crate::state::Stake;

verus! {

/// What the game engine is asked for.
#[derive(Debug)]
pub enum Request {
    /// Start over with a fresh instance of the game; draws come from it until the next one.
    FreshInstance { seed: String, deck: Deck, stake: Stake },
    /// Draw the next slot of an ante's shop.
    NextShopItem { ante: i32 },
    /// Draw the next tag of an ante.
    NextTag { ante: i32 },
    /// Draw the boss of an ante.
    NextBoss { ante: i32 },
    /// Draw the voucher of an ante.
    NextVoucher { ante: i32 },
    /// Draw the next booster pack of an ante.
    NextPack { ante: i32 },
    /// Open a booster pack.
    OpenPack { pack: String, ante: i32 },
    /// Open a booster pack, with all there is to know of its playing cards.
    OpenPackDetailed { pack: String, ante: i32 },
    /// Draw the legendary joker that a Soul makes.
    ResolveSoulLegendary { ante: i32 },
    /// Draw the rare joker that a Wraith makes.
    ResolveWraithRare { ante: i32 },
    /// Search a range of ranks.
    Scan { job: ScanJob },
    /// Search a range of ranks on all threads.
    ScanParallel { job: ScanJob },
    /// Run the diagnostic computation.
    RunDiagnostic { seed_base: u32, iter_count: u32, seed_count: u32 },
    /// Hand out the source of the diagnostic shader.
    ShaderSource,
}

/// A request as contracts speak of it.
pub enum Ask {
    FreshInstance { seed: Seq<char>, deck: Deck, stake: Stake },
    NextShopItem { ante: i32 },
    NextTag { ante: i32 },
    NextBoss { ante: i32 },
    NextVoucher { ante: i32 },
    NextPack { ante: i32 },
    OpenPack { pack: Seq<char>, ante: i32 },
    OpenPackDetailed { pack: Seq<char>, ante: i32 },
    ResolveSoulLegendary { ante: i32 },
    ResolveWraithRare { ante: i32 },
    Scan { job: ScanView },
    ScanParallel { job: ScanView },
    RunDiagnostic { seed_base: u32, iter_count: u32, seed_count: u32 },
    ShaderSource,
}

impl View for Request {
    type V = Ask;

    open spec fn view(&self) -> Ask {
        match *self {
            Request::FreshInstance { seed, deck, stake } => Ask::FreshInstance {
                seed: seed@,
                deck,
                stake,
            },
            Request::NextShopItem { ante } => Ask::NextShopItem { ante },
            Request::NextTag { ante } => Ask::NextTag { ante },
            Request::NextBoss { ante } => Ask::NextBoss { ante },
            Request::NextVoucher { ante } => Ask::NextVoucher { ante },
            Request::NextPack { ante } => Ask::NextPack { ante },
            Request::OpenPack { pack, ante } => Ask::OpenPack { pack: pack@, ante },
            Request::OpenPackDetailed { pack, ante } => Ask::OpenPackDetailed { pack: pack@, ante },
            Request::ResolveSoulLegendary { ante } => Ask::ResolveSoulLegendary { ante },
            Request::ResolveWraithRare { ante } => Ask::ResolveWraithRare { ante },
            Request::Scan { job } => Ask::Scan { job: job@ },
            Request::ScanParallel { job } => Ask::ScanParallel { job: job@ },
            Request::RunDiagnostic { seed_base, iter_count, seed_count } => Ask::RunDiagnostic {
                seed_base,
                iter_count,
                seed_count,
            },
            Request::ShaderSource => Ask::ShaderSource,
        }
    }
}

/// What the game engine answers.
#[derive(Debug)]
pub enum Reply {
    /// A fresh instance is ready.
    Ready,
    /// The name of a tag, a boss, a voucher, a booster pack or a joker.
    Name(String),
    /// A slot of the shop.
    Slot(ShopSlot),
    /// What a booster pack holds.
    Contents(PackContents),
    /// What a search found.
    Matches(Vec<Match>),
    /// What the diagnostic computation gave.
    Words(Vec<u32>),
    /// The source of the diagnostic shader.
    Source(String),
}

/// Why a function stopped before it had its result.
#[derive(Debug)]
pub enum Stop {
    /// The replies are used up; this is asked for next.
    Need(Request),
    /// The reply with this index does not answer what was asked for.
    Mismatch(usize),
}

/// A stop as contracts speak of it.
pub enum Halt {
    Need(Ask),
    Mismatch(nat),
}

impl View for Stop {
    type V = Halt;

    open spec fn view(&self) -> Halt {
        match *self {
            Stop::Need(request) => Halt::Need(request@),
            Stop::Mismatch(index) => Halt::Mismatch(index as nat),
        }
    }
}

/// How a dialogue goes on the replies at hand: to its result, with the number of replies it
/// has used by then, or to a stop.
pub enum Run<A> {
    Done(A, nat),
    Halted(Halt),
}

/// The replies at hand, and how many of them are used.
pub struct Tape<'a> {
    pub replies: &'a Vec<Reply>,
    pub used: usize,
}

/// A request for a reply without content.
pub open spec fn ready_at(ask: Ask, tape: Seq<Reply>, used: nat) -> Run<()> {
    if used >= tape.len() {
        Run::Halted(Halt::Need(ask))
    } else {
        match tape[used as int] {
            Reply::Ready => Run::Done((), used + 1),
            _ => Run::Halted(Halt::Mismatch(used)),
        }
    }
}

/// A request for a name.
pub open spec fn name_at(ask: Ask, tape: Seq<Reply>, used: nat) -> Run<Seq<char>> {
    if used >= tape.len() {
        Run::Halted(Halt::Need(ask))
    } else {
        match tape[used as int] {
            Reply::Name(name) => Run::Done(name@, used + 1),
            _ => Run::Halted(Halt::Mismatch(used)),
        }
    }
}

/// A request for a slot of the shop.
pub open spec fn slot_at(ask: Ask, tape: Seq<Reply>, used: nat) -> Run<ShopSlot> {
    if used >= tape.len() {
        Run::Halted(Halt::Need(ask))
    } else {
        match tape[used as int] {
            Reply::Slot(slot) => Run::Done(slot, used + 1),
            _ => Run::Halted(Halt::Mismatch(used)),
        }
    }
}

/// A request for what a booster pack holds.
pub open spec fn contents_at(ask: Ask, tape: Seq<Reply>, used: nat) -> Run<PackContents> {
    if used >= tape.len() {
        Run::Halted(Halt::Need(ask))
    } else {
        match tape[used as int] {
            Reply::Contents(contents) => Run::Done(contents, used + 1),
            _ => Run::Halted(Halt::Mismatch(used)),
        }
    }
}

/// A request for what a search found.
pub open spec fn matches_at(ask: Ask, tape: Seq<Reply>, used: nat) -> Run<Seq<Match>> {
    if used >= tape.len() {
        Run::Halted(Halt::Need(ask))
    } else {
        match tape[used as int] {
            Reply::Matches(matches) => Run::Done(matches@, used + 1),
            _ => Run::Halted(Halt::Mismatch(used)),
        }
    }
}

/// A request for what the diagnostic computation gave.
pub open spec fn words_at(ask: Ask, tape: Seq<Reply>, used: nat) -> Run<Seq<u32>> {
    if used >= tape.len() {
        Run::Halted(Halt::Need(ask))
    } else {
        match tape[used as int] {
            Reply::Words(words) => Run::Done(words@, used + 1),
            _ => Run::Halted(Halt::Mismatch(used)),
        }
    }
}

/// A request for the source of the diagnostic shader.
pub open spec fn source_at(ask: Ask, tape: Seq<Reply>, used: nat) -> Run<Seq<char>> {
    if used >= tape.len() {
        Run::Halted(Halt::Need(ask))
    } else {
        match tape[used as int] {
            Reply::Source(source) => Run::Done(source@, used + 1),
            _ => Run::Halted(Halt::Mismatch(used)),
        }
    }
}

impl<'a> Tape<'a> {
    /// Uses the next reply, or stops with `request` where there is none.
    fn next_reply(&mut self, request: Request) -> (res: Result<&'a Reply, Stop>)
        ensures
            final(self).replies == old(self).replies,
            old(self).used < old(self).replies@.len() ==> {
                &&& res matches Ok(reply)
                &&& *reply == old(self).replies@[old(self).used as int]
                &&& final(self).used == old(self).used + 1
            },
            old(self).used >= old(self).replies@.len() ==> {
                &&& res matches Err(stop)
                &&& stop@ == Halt::Need(request@)
            },
    {
        if self.used < self.replies.len() {
            let reply = &self.replies[self.used];
            self.used = self.used + 1;
            Ok(reply)
        } else {
            Err(Stop::Need(request))
        }
    }

    /// Asks for something whose reply has no content.
    pub fn ready(&mut self, request: Request) -> (res: Result<(), Stop>)
        ensures
            final(self).replies == old(self).replies,
            match ready_at(request@, old(self).replies@, old(self).used as nat) {
                Run::Done(_, used) => res is Ok && final(self).used == used,
                Run::Halted(halt) => res matches Err(stop) && stop@ == halt,
            },
    {
        match self.next_reply(request)? {
            Reply::Ready => Ok(()),
            _ => Err(Stop::Mismatch(self.used - 1)),
        }
    }

    /// Asks for a name.
    pub fn name(&mut self, request: Request) -> (res: Result<&'a str, Stop>)
        ensures
            final(self).replies == old(self).replies,
            match name_at(request@, old(self).replies@, old(self).used as nat) {
                Run::Done(name, used) => {
                    &&& res matches Ok(found)
                    &&& found@ == name
                    &&& final(self).used == used
                },
                Run::Halted(halt) => res matches Err(stop) && stop@ == halt,
            },
    {
        match self.next_reply(request)? {
            Reply::Name(name) => Ok(name.as_str()),
            _ => Err(Stop::Mismatch(self.used - 1)),
        }
    }

    /// Asks for a slot of the shop.
    pub fn slot(&mut self, request: Request) -> (res: Result<&'a ShopSlot, Stop>)
        ensures
            final(self).replies == old(self).replies,
            match slot_at(request@, old(self).replies@, old(self).used as nat) {
                Run::Done(slot, used) => {
                    &&& res matches Ok(found)
                    &&& *found == slot
                    &&& final(self).used == used
                },
                Run::Halted(halt) => res matches Err(stop) && stop@ == halt,
            },
    {
        match self.next_reply(request)? {
            Reply::Slot(slot) => Ok(slot),
            _ => Err(Stop::Mismatch(self.used - 1)),
        }
    }

    /// Asks for what a booster pack holds.
    pub fn contents(&mut self, request: Request) -> (res: Result<&'a PackContents, Stop>)
        ensures
            final(self).replies == old(self).replies,
            match contents_at(request@, old(self).replies@, old(self).used as nat) {
                Run::Done(contents, used) => {
                    &&& res matches Ok(found)
                    &&& *found == contents
                    &&& final(self).used == used
                },
                Run::Halted(halt) => res matches Err(stop) && stop@ == halt,
            },
    {
        match self.next_reply(request)? {
            Reply::Contents(contents) => Ok(contents),
            _ => Err(Stop::Mismatch(self.used - 1)),
        }
    }

    /// Asks for what a search finds.
    pub fn matches(&mut self, request: Request) -> (res: Result<&'a Vec<Match>, Stop>)
        ensures
            final(self).replies == old(self).replies,
            match matches_at(request@, old(self).replies@, old(self).used as nat) {
                Run::Done(matches, used) => {
                    &&& res matches Ok(found)
                    &&& found@ == matches
                    &&& final(self).used == used
                },
                Run::Halted(halt) => res matches Err(stop) && stop@ == halt,
            },
    {
        match self.next_reply(request)? {
            Reply::Matches(matches) => Ok(matches),
            _ => Err(Stop::Mismatch(self.used - 1)),
        }
    }

    /// Asks for what the diagnostic computation gives.
    pub fn words(&mut self, request: Request) -> (res: Result<&'a Vec<u32>, Stop>)
        ensures
            final(self).replies == old(self).replies,
            match words_at(request@, old(self).replies@, old(self).used as nat) {
                Run::Done(words, used) => {
                    &&& res matches Ok(found)
                    &&& found@ == words
                    &&& final(self).used == used
                },
                Run::Halted(halt) => res matches Err(stop) && stop@ == halt,
            },
    {
        match self.next_reply(request)? {
            Reply::Words(words) => Ok(words),
            _ => Err(Stop::Mismatch(self.used - 1)),
        }
    }

    /// Asks for the source of the diagnostic shader.
    pub fn source(&mut self, request: Request) -> (res: Result<&'a str, Stop>)
        ensures
            final(self).replies == old(self).replies,
            match source_at(request@, old(self).replies@, old(self).used as nat) {
                Run::Done(source, used) => {
                    &&& res matches Ok(found)
                    &&& found@ == source
                    &&& final(self).used == used
                },
                Run::Halted(halt) => res matches Err(stop) && stop@ == halt,
            },
    {
        match self.next_reply(request)? {
            Reply::Source(source) => Ok(source.as_str()),
            _ => Err(Stop::Mismatch(self.used - 1)),
        }
    }
}

/// Which game is played: the seed, the deck and the stake.
pub struct Game {
    pub seed: Seq<char>,
    pub deck: Deck,
    pub stake: Stake,
}

/// The game of a seed with the deck and the stake that the indices stand for.
pub open spec fn game(seed: Seq<char>, deck_idx: u8, stake_idx: u8) -> Game {
    Game { seed, deck: state::deck_at(deck_idx as int), stake: state::stake_at(stake_idx as int) }
}

/// The request for a fresh instance of a game.
pub open spec fn fresh_at(game: Game, tape: Seq<Reply>, used: nat) -> Run<()> {
    ready_at(
        Ask::FreshInstance { seed: game.seed, deck: game.deck, stake: game.stake },
        tape,
        used,
    )
}

/// Asks for a fresh instance of the game.
pub fn fresh_instance<'a>(
    tape: &mut Tape<'a>,
    seed: &str,
    deck_idx: u8,
    stake_idx: u8,
) -> (res: Result<(), Stop>)
    ensures
        final(tape).replies == old(tape).replies,
        match fresh_at(
            game(seed@, deck_idx, stake_idx),
            old(tape).replies@,
            old(tape).used as nat,
        ) {
            Run::Done(_, used) => res is Ok && final(tape).used == used,
            Run::Halted(halt) => res matches Err(stop) && stop@ == halt,
        },
        old(tape).used == old(tape).replies@.len() ==> (res matches Err(Stop::Need(
            Request::FreshInstance { seed: asked, deck, stake },
        )) && {
            &&& asked@ == seed@
            &&& state::deck_index(deck) == if deck_idx < 14 {
                deck_idx as int
            } else {
                14
            }
            &&& state::stake_index(stake) == if stake_idx < 7 {
                stake_idx as int
            } else {
                7
            }
        }),
{
    proof {
        state::law_decks(state::deck_at(deck_idx as int), deck_idx);
        state::law_stakes(state::stake_at(stake_idx as int), stake_idx);
    }
    tape.ready(
        Request::FreshInstance {
            seed: seed.to_owned(),
            deck: state::deck_from_idx(deck_idx),
            stake: state::stake_from_idx(stake_idx),
        },
    )
}

/// The game that is played is that of the seed, with the deck and the stake at the given indices,
/// and an instance of it is asked for with all three.
pub proof fn law_game(seed: Seq<char>, deck_idx: u8, stake_idx: u8)
    ensures
        fresh_at(game(seed, deck_idx, stake_idx), Seq::empty(), 0) matches Run::Halted(
            Halt::Need(Ask::FreshInstance { seed: asked, deck, stake }),
        ) && {
            &&& asked == seed
            &&& state::deck_index(deck) == if deck_idx < 14 {
                deck_idx as int
            } else {
                14
            }
            &&& state::stake_index(stake) == if stake_idx < 7 {
                stake_idx as int
            } else {
                7
            }
        },
{
    state::law_decks(state::deck_at(deck_idx as int), deck_idx);
    state::law_stakes(state::stake_at(stake_idx as int), stake_idx);
}

/// Contracts speak of a request as what it asks for, with all that it says.
pub proof fn law_request_viewed(request: Request)
    ensures
        match request@ {
            Ask::FreshInstance { seed, deck, stake } => {
                &&& request matches Request::FreshInstance { seed: s, deck: d, stake: t }
                &&& seed == s@ && deck == d && stake == t
            },
            Ask::NextShopItem { ante } => request == Request::NextShopItem { ante },
            Ask::NextTag { ante } => request == Request::NextTag { ante },
            Ask::NextBoss { ante } => request == Request::NextBoss { ante },
            Ask::NextVoucher { ante } => request == Request::NextVoucher { ante },
            Ask::NextPack { ante } => request == Request::NextPack { ante },
            Ask::OpenPack { pack, ante } => {
                &&& request matches Request::OpenPack { pack: p, ante: a }
                &&& pack == p@ && ante == a
            },
            Ask::OpenPackDetailed { pack, ante } => {
                &&& request matches Request::OpenPackDetailed { pack: p, ante: a }
                &&& pack == p@ && ante == a
            },
            Ask::ResolveSoulLegendary { ante } => request == Request::ResolveSoulLegendary { ante },
            Ask::ResolveWraithRare { ante } => request == Request::ResolveWraithRare { ante },
            Ask::Scan { job } => {
                &&& request matches Request::Scan { job: j }
                &&& job == j@
            },
            Ask::ScanParallel { job } => {
                &&& request matches Request::ScanParallel { job: j }
                &&& job == j@
            },
            Ask::RunDiagnostic { seed_base, iter_count, seed_count } => request
                == (Request::RunDiagnostic { seed_base, iter_count, seed_count }),
            Ask::ShaderSource => request is ShaderSource,
        },
{
}

/// Contracts speak of a stop as what is asked for next, or as the index of the reply that was
/// refused.
pub proof fn law_stop_viewed(stop: Stop)
    ensures
        match stop {
            Stop::Need(request) => stop@ == Halt::Need(request@),
            Stop::Mismatch(index) => stop@ == Halt::Mismatch(index as nat),
        },
{
}

} // verus!
