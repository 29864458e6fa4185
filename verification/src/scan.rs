//! Searching a chunk of seeds, and the diagnostic computation.
use vstd::prelude::*;

use crate::dialogue;
use crate::dialogue::Ask;
use crate::dialogue::Reply;
use crate::dialogue::Request;
use crate::dialogue::Run;
use crate::dialogue::Stop;
use crate::dialogue::Tape;
use crate::filter::Clause;
use crate::filter::Filter;
use crate::search;
use crate::search::ScanJob;
use crate::search::ScanView;
use crate::state;
use crate::state::RunConfig;

verus! {

/// The clauses to search for. A filter that could not be read has none.
pub open spec fn clauses_of(filter: Result<Filter, String>) -> Seq<Clause> {
    match filter {
        Ok(filter) => filter.clauses@,
        Err(_) => Seq::empty(),
    }
}

/// The search that a chunk stands for. Its seed buffer starts out as zeros.
pub open spec fn job_view(
    filter: Result<Filter, String>,
    start_rank: u64,
    count: u64,
    seed_len: u8,
    deck_idx: u8,
    stake_idx: u8,
    partial: bool,
    min_score: u8,
) -> ScanView {
    ScanView {
        clauses: clauses_of(filter),
        deck: state::deck_at(deck_idx as int),
        stake: state::stake_at(stake_idx as int),
        seed: Seq::new(8, |i: int| 0u8),
        seed_len,
        partial,
        min_score,
        start_rank,
        count,
    }
}

/// The run of a search: what it finds is packed into records.
pub open spec fn scan_run(ask: Ask, tape: Seq<Reply>) -> Run<Seq<u8>> {
    match dialogue::matches_at(ask, tape, 0) {
        Run::Halted(halt) => Run::Halted(halt),
        Run::Done(matches, n) => Run::Done(search::records(matches), n),
    }
}

/// Whether the seeds that a search found fit in their records.
pub open spec fn finds_fit(tape: Seq<Reply>) -> bool {
    tape.len() > 0 ==> (tape[0] matches Reply::Matches(matches) ==> search::all_fit(matches@))
}

/// Whether the seeds that a search found fit in their records.
pub fn replies_fit(replies: &Vec<Reply>) -> (res: bool)
    ensures
        res == finds_fit(replies@),
{
    if replies.len() == 0 {
        return true;
    }
    match &replies[0] {
        Reply::Matches(matches) => search::matches_fit(matches),
        _ => true,
    }
}

/// Whether what a function returned are the bytes that the run gives.
pub open spec fn packed(res: Result<Vec<u8>, Stop>, run: Run<Seq<u8>>) -> bool {
    match run {
        Run::Done(bytes, _) => res matches Ok(out) && out@ == bytes,
        Run::Halted(halt) => res matches Err(stop) && stop@ == halt,
    }
}

/// The search that a chunk stands for.
fn new_job(
    filter: Result<Filter, String>,
    start_rank: u64,
    count: u64,
    seed_len: u8,
    deck_idx: u8,
    stake_idx: u8,
    partial: bool,
    min_score: u8,
) -> (res: ScanJob)
    ensures
        res@ == job_view(
            filter,
            start_rank,
            count,
            seed_len,
            deck_idx,
            stake_idx,
            partial,
            min_score,
        ),
{
    let filter = match filter {
        Ok(filter) => filter,
        Err(_) => Filter::default(),
    };
    let config = RunConfig {
        deck: state::deck_from_idx(deck_idx),
        stake: state::stake_from_idx(stake_idx),
        seed: [0;8],
        seed_len,
    };
    assert(config.seed@ =~= Seq::new(8, |i: int| 0u8));
    ScanJob { filter, config, partial, min_score, start_rank, count }
}

/// Searches a chunk of seeds and returns packed match records. Each record holds eight bytes of
/// rank, the lowest first, one byte of score and eight bytes of seed, with blanks behind it. A
/// filter that could not be read has no clauses.
pub fn scan_chunk(
    filter: Result<Filter, String>,
    start_rank: u64,
    count: u64,
    seed_len: u8,
    deck_idx: u8,
    stake_idx: u8,
    partial: bool,
    min_score: u8,
    replies: &Vec<Reply>,
) -> (res: Result<Vec<u8>, Stop>)
    requires
        finds_fit(replies@),
    ensures
        packed(
            res,
            scan_run(
                Ask::Scan {
                    job: job_view(
                        filter,
                        start_rank,
                        count,
                        seed_len,
                        deck_idx,
                        stake_idx,
                        partial,
                        min_score,
                    ),
                },
                replies@,
            ),
        ),
        replies@.len() == 0 ==> (res matches Err(Stop::Need(Request::Scan { job })) && {
                &&& job.partial == partial
                &&& job.min_score == min_score
                &&& job.start_rank == start_rank
                &&& job.count == count
                &&& job.config.seed_len == seed_len
                &&& forall|i: int| 0 <= i < 8 ==> #[trigger] job.config.seed@[i] == 0
                &&& state::deck_index(job.config.deck) == if deck_idx < 14 {
                    deck_idx as int
                } else {
                    14
                }
                &&& state::stake_index(job.config.stake) == if stake_idx < 7 {
                    stake_idx as int
                } else {
                    7
                }
                &&& match filter {
                    Ok(filter) => job.filter.clauses@ == filter.clauses@,
                    Err(_) => job.filter.clauses@.len() == 0,
                }
            }),
{
    let job = new_job(
        filter,
        start_rank,
        count,
        seed_len,
        deck_idx,
        stake_idx,
        partial,
        min_score,
    );
    proof {
        state::law_decks(job.config.deck, deck_idx);
        state::law_stakes(job.config.stake, stake_idx);
    }
    let mut tape = Tape { replies, used: 0 };
    let matches = tape.matches(Request::Scan { job })?;
    Ok(search::pack_records(matches))
}

/// Searches a chunk of seeds on all threads. The records are those of `scan_chunk`, in the same
/// order.
pub fn scan_chunk_parallel(
    filter: Result<Filter, String>,
    start_rank: u64,
    count: u64,
    seed_len: u8,
    deck_idx: u8,
    stake_idx: u8,
    partial: bool,
    min_score: u8,
    replies: &Vec<Reply>,
) -> (res: Result<Vec<u8>, Stop>)
    requires
        finds_fit(replies@),
    ensures
        packed(
            res,
            scan_run(
                Ask::ScanParallel {
                    job: job_view(
                        filter,
                        start_rank,
                        count,
                        seed_len,
                        deck_idx,
                        stake_idx,
                        partial,
                        min_score,
                    ),
                },
                replies@,
            ),
        ),
        replies@.len() == 0 ==> (res matches Err(Stop::Need(Request::ScanParallel { job })) && {
                &&& job.partial == partial
                &&& job.min_score == min_score
                &&& job.start_rank == start_rank
                &&& job.count == count
                &&& job.config.seed_len == seed_len
                &&& forall|i: int| 0 <= i < 8 ==> #[trigger] job.config.seed@[i] == 0
                &&& state::deck_index(job.config.deck) == if deck_idx < 14 {
                    deck_idx as int
                } else {
                    14
                }
                &&& state::stake_index(job.config.stake) == if stake_idx < 7 {
                    stake_idx as int
                } else {
                    7
                }
                &&& match filter {
                    Ok(filter) => job.filter.clauses@ == filter.clauses@,
                    Err(_) => job.filter.clauses@.len() == 0,
                }
            }),
{
    let job = new_job(
        filter,
        start_rank,
        count,
        seed_len,
        deck_idx,
        stake_idx,
        partial,
        min_score,
    );
    proof {
        state::law_decks(job.config.deck, deck_idx);
        state::law_stakes(job.config.stake, stake_idx);
    }
    let mut tape = Tape { replies, used: 0 };
    let matches = tape.matches(Request::ScanParallel { job })?;
    Ok(search::pack_records(matches))
}

/// A search on all threads asks for the same job as a serial one, and where both find the same
/// matches in the same order, both return the same bytes.
pub proof fn law_parallel_is_serial(job: ScanView, serial: Seq<Reply>, parallel: Seq<Reply>)
    ensures
        scan_run(Ask::Scan { job }, Seq::empty()) == Run::<Seq<u8>>::Halted(
            dialogue::Halt::Need(Ask::Scan { job }),
        ),
        scan_run(Ask::ScanParallel { job }, Seq::empty()) == Run::<Seq<u8>>::Halted(
            dialogue::Halt::Need(Ask::ScanParallel { job }),
        ),
        ({
            &&& serial.len() > 0
            &&& parallel.len() > 0
            &&& serial[0] matches Reply::Matches(found)
            &&& parallel[0] matches Reply::Matches(also)
            &&& found@ == also@
        }) ==> scan_run(Ask::Scan { job }, serial) == scan_run(
            Ask::ScanParallel { job },
            parallel,
        ),
{
}

/// The diagnostic computation: asks for it with the same parameters and returns what came back.
pub fn v3_diagnostic_cpu(
    seed_base: u32,
    iter_count: u32,
    seed_count: u32,
    replies: &Vec<Reply>,
) -> (res: Result<Vec<u32>, Stop>)
    ensures
        match dialogue::words_at(
            Ask::RunDiagnostic { seed_base, iter_count, seed_count },
            replies@,
            0,
        ) {
            Run::Done(words, _) => res matches Ok(out) && out@ == words,
            Run::Halted(halt) => res matches Err(stop) && stop@ == halt,
        },
{
    let mut tape = Tape { replies, used: 0 };
    let words = tape.words(Request::RunDiagnostic { seed_base, iter_count, seed_count })?;
    let out = words.clone();
    assert(out@ =~= words@);
    Ok(out)
}

/// The source of the diagnostic shader: asks for it and returns what came back.
pub fn v3_diagnostic_shader_source(replies: &Vec<Reply>) -> (res: Result<String, Stop>)
    ensures
        match dialogue::source_at(Ask::ShaderSource, replies@, 0) {
            Run::Done(source, _) => res matches Ok(out) && out@ == source,
            Run::Halted(halt) => res matches Err(stop) && stop@ == halt,
        },
{
    let mut tape = Tape { replies, used: 0 };
    let source = tape.source(Request::ShaderSource)?;
    Ok(source.to_owned())
}

/// A search asks for what the caller said: the ranks, the length of the seeds, the partial flag, the least
/// score, the clauses of the filter, and the deck and the stake with the given indices. The seed
/// buffer holds zeros.
pub proof fn law_scan_asks(
    filter: Result<Filter, String>,
    start_rank: u64,
    count: u64,
    seed_len: u8,
    deck_idx: u8,
    stake_idx: u8,
    partial: bool,
    min_score: u8,
    res: Result<Vec<u8>, Stop>,
)
    requires
        packed(
            res,
            scan_run(
                Ask::Scan {
                    job: job_view(
                        filter,
                        start_rank,
                        count,
                        seed_len,
                        deck_idx,
                        stake_idx,
                        partial,
                        min_score,
                    ),
                },
                Seq::empty(),
            ),
        ),
    ensures
        res matches Err(Stop::Need(Request::Scan { job })) && {
                &&& job.partial == partial
                &&& job.min_score == min_score
                &&& job.start_rank == start_rank
                &&& job.count == count
                &&& job.config.seed_len == seed_len
                &&& forall|i: int| 0 <= i < 8 ==> #[trigger] job.config.seed@[i] == 0
                &&& state::deck_index(job.config.deck) == if deck_idx < 14 {
                    deck_idx as int
                } else {
                    14
                }
                &&& state::stake_index(job.config.stake) == if stake_idx < 7 {
                    stake_idx as int
                } else {
                    7
                }
                &&& match filter {
                    Ok(filter) => job.filter.clauses@ == filter.clauses@,
                    Err(_) => job.filter.clauses@.len() == 0,
                }
            },
{
    let deck = state::deck_at(deck_idx as int);
    let stake = state::stake_at(stake_idx as int);
    state::law_decks(deck, deck_idx);
    state::law_stakes(stake, stake_idx);
    if let Err(Stop::Need(Request::Scan { job })) = res {
        assert(job@.partial == partial);
        assert(job@.seed == Seq::new(8, |i: int| 0u8));
    }
}

/// A search on all threads asks for what the caller said: the ranks, the length of the seeds, the partial flag, the least
/// score, the clauses of the filter, and the deck and the stake with the given indices. The seed
/// buffer holds zeros.
pub proof fn law_parallel_scan_asks(
    filter: Result<Filter, String>,
    start_rank: u64,
    count: u64,
    seed_len: u8,
    deck_idx: u8,
    stake_idx: u8,
    partial: bool,
    min_score: u8,
    res: Result<Vec<u8>, Stop>,
)
    requires
        packed(
            res,
            scan_run(
                Ask::ScanParallel {
                    job: job_view(
                        filter,
                        start_rank,
                        count,
                        seed_len,
                        deck_idx,
                        stake_idx,
                        partial,
                        min_score,
                    ),
                },
                Seq::empty(),
            ),
        ),
    ensures
        res matches Err(Stop::Need(Request::ScanParallel { job })) && {
                &&& job.partial == partial
                &&& job.min_score == min_score
                &&& job.start_rank == start_rank
                &&& job.count == count
                &&& job.config.seed_len == seed_len
                &&& forall|i: int| 0 <= i < 8 ==> #[trigger] job.config.seed@[i] == 0
                &&& state::deck_index(job.config.deck) == if deck_idx < 14 {
                    deck_idx as int
                } else {
                    14
                }
                &&& state::stake_index(job.config.stake) == if stake_idx < 7 {
                    stake_idx as int
                } else {
                    7
                }
                &&& match filter {
                    Ok(filter) => job.filter.clauses@ == filter.clauses@,
                    Err(_) => job.filter.clauses@.len() == 0,
                }
            },
{
    let deck = state::deck_at(deck_idx as int);
    let stake = state::stake_at(stake_idx as int);
    state::law_decks(deck, deck_idx);
    state::law_stakes(stake, stake_idx);
    if let Err(Stop::Need(Request::ScanParallel { job })) = res {
        assert(job@.partial == partial);
        assert(job@.seed == Seq::new(8, |i: int| 0u8));
    }
}

/// What a search found comes out as one record of seventeen bytes for every match, in the order
/// of the matches, with the rank, the score and the seed of the match; a reply that is no list of
/// matches is refused. Both hold whatever was asked for.
pub proof fn law_scan_returns(ask: Ask, tape: Seq<Reply>)
    requires
        tape.len() > 0,
        finds_fit(tape),
    ensures
        match scan_run(ask, tape) {
            Run::Done(bytes, used) => {
                &&& used == 1
                &&& tape[0] matches Reply::Matches(found)
                &&& bytes.len() == 17 * found@.len()
                &&& forall|i: int|
                    0 <= i < found@.len() ==> {
                        let seed = vstd::utf8::encode_utf8((#[trigger] found@[i]).seed@);
                        let record = bytes.subrange(17 * i, 17 * i + 17);
                        &&& search::le_value(record.subrange(0, 8)) == found@[i].rank
                        &&& record[8] == found@[i].score
                        &&& record.subrange(9, 9int + seed.len()) == seed
                        &&& forall|b: int| 9 + seed.len() <= b < 17 ==> #[trigger] record[b] == 32
                    }
            },
            Run::Halted(halt) => tape[0] !is Matches && halt == dialogue::Halt::Mismatch(0),
        },
{
    if let Reply::Matches(found) = tape[0] {
        let bytes = search::records(found@);
        search::law_records_len(found@);
        assert forall|i: int| 0 <= i < found@.len() implies {
            let seed = vstd::utf8::encode_utf8((#[trigger] found@[i]).seed@);
            let record = bytes.subrange(17 * i, 17 * i + 17);
            &&& search::le_value(record.subrange(0, 8)) == found@[i].rank
            &&& record[8] == found@[i].score
            &&& record.subrange(9, 9int + seed.len()) == seed
            &&& forall|b: int| 9 + seed.len() <= b < 17 ==> #[trigger] record[b] == 32
        } by {
            search::law_record_reads_back(found@, i);
            search::law_record_seed(found@, i);
            let record = bytes.subrange(17 * i, 17 * i + 17);
            assert(record == search::record_at(bytes, i));
            assert(record.take(8) =~= record.subrange(0, 8));
        }
    }
}

/// A search can be packed unless it found a seed of more than eight bytes.
pub proof fn law_finds_fit(tape: Seq<Reply>)
    ensures
        finds_fit(tape) <==> !(tape.len() > 0 && (tape[0] matches Reply::Matches(found) && exists|
            i: int,
        |
            0 <= i < found@.len() && vstd::utf8::encode_utf8((#[trigger] found@[i]).seed@).len()
                > 8)),
{
    if tape.len() > 0 {
        if let Reply::Matches(found) = tape[0] {
            if !finds_fit(tape) {
                let i = choose|i: int|
                    0 <= i < found@.len() && !search::fits(#[trigger] found@[i]);
                assert(vstd::utf8::encode_utf8(found@[i].seed@).len() > 8);
            } else {
                assert forall|i: int| 0 <= i < found@.len() implies vstd::utf8::encode_utf8(
                    (#[trigger] found@[i]).seed@,
                ).len() <= 8 by {
                    assert(search::fits(found@[i]));
                }
            }
        }
    }
}

/// The diagnostic is asked for first, what comes back is returned as it is, and any other reply
/// is refused.
pub proof fn law_diagnostic(ask: Ask, tape: Seq<Reply>)
    ensures
        match dialogue::words_at(ask, tape, 0) {
            Run::Done(words, used) => {
                &&& used == 1
                &&& tape.len() > 0
                &&& tape[0] matches Reply::Words(given)
                &&& words == given@
            },
            Run::Halted(halt) => if tape.len() == 0 {
                halt == dialogue::Halt::Need(ask)
            } else {
                tape[0] !is Words && halt == dialogue::Halt::Mismatch(0)
            },
        },
        match dialogue::source_at(ask, tape, 0) {
            Run::Done(source, used) => {
                &&& used == 1
                &&& tape.len() > 0
                &&& tape[0] matches Reply::Source(given)
                &&& source == given@
            },
            Run::Halted(halt) => if tape.len() == 0 {
                halt == dialogue::Halt::Need(ask)
            } else {
                tape[0] !is Source && halt == dialogue::Halt::Mismatch(0)
            },
        },
{
}

} // verus!
