//! Searching for seeds: what a search is given, what it finds and how a find is packed.
use vstd::prelude::*;

use crate::filter::Clause;
use crate::filter::Filter;
use crate::state::Deck;
use crate::state::RunConfig;
use crate::state::Stake;

verus! {

/// A seed that a search found.
#[derive(Debug)]
pub struct Match {
    pub rank: u64,
    pub score: u8,
    pub seed: String,
}

/// What a search is given: the filter, the run and the ranks to try.
#[derive(Debug)]
pub struct ScanJob {
    pub filter: Filter,
    pub config: RunConfig,
    pub partial: bool,
    pub min_score: u8,
    pub start_rank: u64,
    pub count: u64,
}

/// A search as contracts speak of it.
pub struct ScanView {
    pub clauses: Seq<Clause>,
    pub deck: Deck,
    pub stake: Stake,
    pub seed: Seq<u8>,
    pub seed_len: u8,
    pub partial: bool,
    pub min_score: u8,
    pub start_rank: u64,
    pub count: u64,
}

impl View for ScanJob {
    type V = ScanView;

    open spec fn view(&self) -> ScanView {
        ScanView {
            clauses: self.filter.clauses@,
            deck: self.config.deck,
            stake: self.config.stake,
            seed: self.config.seed@,
            seed_len: self.config.seed_len,
            partial: self.partial,
            min_score: self.min_score,
            start_rank: self.start_rank,
            count: self.count,
        }
    }
}

/// The bytes of one record.
pub const RECORD_LEN: usize = 17;

/// The bytes of a record's seed.
pub const SEED_LEN: usize = 8;

/// The `len` lowest bytes of `n`, the lowest first.
pub open spec fn le_bytes(n: nat, len: nat) -> Seq<u8>
    decreases len,
{
    if len == 0 {
        Seq::empty()
    } else {
        seq![(n % 256) as u8] + le_bytes(n / 256, (len - 1) as nat)
    }
}

/// `bytes` with blanks behind them up to `len`.
pub open spec fn padded(bytes: Seq<u8>, len: nat) -> Seq<u8> {
    bytes + Seq::new((len - bytes.len()) as nat, |i: int| 32u8)
}

/// The record of a match: eight bytes of rank, the lowest first, one byte of score, and the
/// seed with blanks behind it up to eight bytes.
pub open spec fn record(m: Match) -> Seq<u8> {
    le_bytes(m.rank as nat, 8) + seq![m.score] + padded(vstd::utf8::encode_utf8(m.seed@), SEED_LEN as nat)
}

/// The records of all matches, one behind the other.
pub open spec fn records(matches: Seq<Match>) -> Seq<u8>
    decreases matches.len(),
{
    if matches.len() == 0 {
        Seq::empty()
    } else {
        records(matches.drop_last()) + record(matches.last())
    }
}

/// Whether the seed of a match fits in a record.
pub open spec fn fits(m: Match) -> bool {
    vstd::utf8::encode_utf8(m.seed@).len() <= SEED_LEN
}

/// Whether the seed of every match fits in a record.
pub open spec fn all_fit(matches: Seq<Match>) -> bool {
    forall|i: int| 0 <= i < matches.len() ==> fits(#[trigger] matches[i])
}

/// Whether the seed of every match fits in a record.
pub fn matches_fit(matches: &Vec<Match>) -> (res: bool)
    ensures
        res == all_fit(matches@),
{
    let mut i: usize = 0;
    while i < matches.len()
        invariant
            i <= matches.len(),
            forall|j: int| 0 <= j < i ==> fits(#[trigger] matches[j]),
        decreases matches.len() - i,
    {
        if matches[i].seed.as_str().as_bytes().len() > SEED_LEN {
            assert(!fits(matches[i as int]));
            return false;
        }
        i += 1;
    }
    true
}

/// Appends the eight bytes of `n`, the lowest first.
fn push_le_bytes(out: &mut Vec<u8>, n: u64)
    ensures
        final(out)@ == old(out)@ + le_bytes(n as nat, 8),
{
    let mut rest: u64 = n;
    let mut i: usize = 0;
    assert(out@ + le_bytes(n as nat, 8) =~= old(out)@ + le_bytes(n as nat, 8));
    while i < 8
        invariant
            i <= 8,
            out@ + le_bytes(rest as nat, (8 - i) as nat) == old(out)@ + le_bytes(n as nat, 8),
        decreases 8 - i,
    {
        let ghost before = out@;
        let ghost r = rest as nat;
        out.push((rest % 256) as u8);
        rest = rest / 256;
        i += 1;
        assert(out@ + le_bytes(rest as nat, (8 - i) as nat) =~= before + le_bytes(
            r,
            (9 - i) as nat,
        ));
    }
    assert(out@ + le_bytes(rest as nat, 0) =~= out@);
}

/// Appends the record of a match.
pub fn push_record(out: &mut Vec<u8>, m: &Match)
    requires
        fits(*m),
    ensures
        final(out)@ == old(out)@ + record(*m),
{
    push_le_bytes(out, m.rank);
    out.push(m.score);
    let bytes = m.seed.as_str().as_bytes();
    let ghost head = out@;
    let ghost full = padded(bytes@, SEED_LEN as nat);
    let mut i: usize = 0;
    while i < SEED_LEN
        invariant
            i <= SEED_LEN,
            bytes@.len() <= SEED_LEN,
            full == padded(bytes@, SEED_LEN as nat),
            out@ == head + full.take(i as int),
        decreases SEED_LEN - i,
    {
        out.push(
            if i < bytes.len() {
                bytes[i]
            } else {
                32
            },
        );
        assert(full.take(i + 1) =~= full.take(i as int).push(full[i as int]));
        i += 1;
    }
    assert(full.take(SEED_LEN as int) =~= full);
    assert(out@ =~= old(out)@ + record(*m));
}

/// The records of all matches, one behind the other.
pub fn pack_records(matches: &Vec<Match>) -> (res: Vec<u8>)
    requires
        all_fit(matches@),
    ensures
        res@ == records(matches@),
{
    let mut out: Vec<u8> = Vec::new();
    let mut i: usize = 0;
    while i < matches.len()
        invariant
            i <= matches.len(),
            all_fit(matches@),
            out@ == records(matches@.take(i as int)),
        decreases matches.len() - i,
    {
        push_record(&mut out, &matches[i]);
        assert(matches@.take(i + 1).drop_last() =~= matches@.take(i as int));
        i += 1;
    }
    assert(matches@.take(i as int) =~= matches@);
    out
}

/// The number whose bytes are `bytes`, the lowest first.
pub open spec fn le_value(bytes: Seq<u8>) -> nat
    decreases bytes.len(),
{
    if bytes.len() == 0 {
        0
    } else {
        bytes[0] as nat + 256 * le_value(bytes.skip(1))
    }
}

/// `bytes` without the blanks at their end.
pub open spec fn unpadded(bytes: Seq<u8>) -> Seq<u8>
    decreases bytes.len(),
{
    if bytes.len() > 0 && bytes.last() == 32 {
        unpadded(bytes.drop_last())
    } else {
        bytes
    }
}

/// The record with index `i` in a run of records.
pub open spec fn record_at(bytes: Seq<u8>, i: int) -> Seq<u8> {
    bytes.subrange(RECORD_LEN * i, RECORD_LEN * (i + 1))
}

/// The rank in a record.
pub open spec fn rank_of(record: Seq<u8>) -> nat {
    le_value(record.take(8))
}

/// The score in a record.
pub open spec fn score_of(record: Seq<u8>) -> u8 {
    record[8]
}

/// The seed in a record.
pub open spec fn seed_of(record: Seq<u8>) -> Seq<char> {
    vstd::utf8::decode_utf8(unpadded(record.skip(9)))
}

/// Whether a seed ends in a blank.
pub open spec fn ends_in_blank(seed: Seq<char>) -> bool {
    let bytes = vstd::utf8::encode_utf8(seed);
    bytes.len() > 0 && bytes.last() == 32
}

proof fn lemma_le_bytes(n: nat, len: nat)
    requires
        n < vstd::arithmetic::power::pow(256, len),
    ensures
        le_bytes(n, len).len() == len,
        le_value(le_bytes(n, len)) == n,
    decreases len,
{
    vstd::arithmetic::power::lemma_pow0(256);
    if len > 0 {
        let rest = (len - 1) as nat;
        let bytes = le_bytes(n, len);
        assert(n / 256 < vstd::arithmetic::power::pow(256, rest)) by {
            reveal(vstd::arithmetic::power::pow);
            let p = vstd::arithmetic::power::pow(256, rest);
            assert(vstd::arithmetic::power::pow(256, len) == 256 * p);
            assert(n < 256 * p ==> n / 256 < p) by (nonlinear_arith);
        }
        lemma_le_bytes(n / 256, rest);
        assert(bytes.skip(1) =~= le_bytes(n / 256, rest));
        assert(bytes[0] == (n % 256) as u8);
    }
}

proof fn lemma_rank_bytes(rank: u64)
    ensures
        le_bytes(rank as nat, 8).len() == 8,
        le_value(le_bytes(rank as nat, 8)) == rank,
{
    assert(vstd::arithmetic::power::pow(256, 8) == 0x1_0000_0000_0000_0000) by {
        reveal_with_fuel(vstd::arithmetic::power::pow, 9);
    }
    lemma_le_bytes(rank as nat, 8);
}

proof fn lemma_unpadded(bytes: Seq<u8>, k: nat)
    requires
        bytes.len() > 0 ==> bytes.last() != 32,
    ensures
        unpadded(bytes + Seq::new(k, |i: int| 32u8)) == bytes,
    decreases k,
{
    let long = bytes + Seq::new(k, |i: int| 32u8);
    if k > 0 {
        let rest = (k - 1) as nat;
        assert(long.drop_last() =~= bytes + Seq::new(rest, |i: int| 32u8));
        assert(long.last() == 32);
        lemma_unpadded(bytes, rest);
    } else {
        assert(long =~= bytes);
    }
}

/// Every match takes one record of seventeen bytes.
pub proof fn law_records_len(matches: Seq<Match>)
    requires
        all_fit(matches),
    ensures
        records(matches).len() == RECORD_LEN * matches.len(),
    decreases matches.len(),
{
    if matches.len() > 0 {
        let last = matches.last();
        assert(fits(matches[matches.len() - 1]));
        lemma_rank_bytes(last.rank);
        assert forall|i: int| 0 <= i < matches.drop_last().len() implies fits(
            #[trigger] matches.drop_last()[i],
        ) by {
            assert(matches.drop_last()[i] == matches[i]);
        }
        law_records_len(matches.drop_last());
    }
}

/// The record with index `i` is that of the match with index `i`.
pub proof fn law_record_at(matches: Seq<Match>, i: int)
    requires
        all_fit(matches),
        0 <= i < matches.len(),
    ensures
        record_at(records(matches), i) == record(matches[i]),
    decreases matches.len(),
{
    let front = matches.drop_last();
    assert forall|j: int| 0 <= j < front.len() implies fits(#[trigger] front[j]) by {
        assert(front[j] == matches[j]);
    }
    law_records_len(matches);
    law_records_len(front);
    if i < front.len() {
        law_record_at(front, i);
        assert(RECORD_LEN * (i + 1) <= RECORD_LEN * front.len());
        assert(record_at(records(matches), i) =~= record_at(records(front), i));
    } else {
        assert(record_at(records(matches), i) =~= record(matches[i]));
    }
}

/// What a record holds reads back: the rank, the score, and a seed that does not end in a
/// blank.
pub proof fn law_record_reads_back(matches: Seq<Match>, i: int)
    requires
        all_fit(matches),
        0 <= i < matches.len(),
    ensures
        rank_of(record_at(records(matches), i)) == matches[i].rank,
        score_of(record_at(records(matches), i)) == matches[i].score,
        !ends_in_blank(matches[i].seed@) ==> seed_of(record_at(records(matches), i))
            == matches[i].seed@,
{
    let m = matches[i];
    let bytes = vstd::utf8::encode_utf8(m.seed@);
    assert(fits(m));
    law_record_at(matches, i);
    lemma_rank_bytes(m.rank);
    assert(record(m).take(8) =~= le_bytes(m.rank as nat, 8));
    if !ends_in_blank(m.seed@) {
        assert(record(m).skip(9) =~= padded(bytes, SEED_LEN as nat));
        lemma_unpadded(bytes, (SEED_LEN - bytes.len()) as nat);
        vstd::utf8::encode_utf8_decode_utf8(m.seed@);
    }
}

/// Matches in the order of their ranks give records in the order of their ranks.
pub proof fn law_records_keep_order(matches: Seq<Match>, i: int, j: int)
    requires
        all_fit(matches),
        0 <= i < j < matches.len(),
        matches[i].rank < matches[j].rank,
    ensures
        rank_of(record_at(records(matches), i)) < rank_of(record_at(records(matches), j)),
{
    law_record_reads_back(matches, i);
    law_record_reads_back(matches, j);
}

/// The seed stands in its record byte for byte, with nothing but blanks behind it.
pub proof fn law_record_seed(matches: Seq<Match>, i: int)
    requires
        all_fit(matches),
        0 <= i < matches.len(),
    ensures
        ({
            let record = record_at(records(matches), i);
            let seed = vstd::utf8::encode_utf8(matches[i].seed@);
            &&& record.len() == 17
            &&& record.subrange(9, 9int + seed.len()) == seed
            &&& forall|b: int| 9 + seed.len() <= b < 17 ==> #[trigger] record[b] == 32
        }),
{
    let m = matches[i];
    let seed = vstd::utf8::encode_utf8(m.seed@);
    assert(fits(m));
    law_record_at(matches, i);
    lemma_rank_bytes(m.rank);
    assert(record(m).subrange(9, 9int + seed.len()) =~= seed);
}

} // verus!
