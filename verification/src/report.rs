//! The report on a single seed, as a JSON document.
use vstd::prelude::*;

use crate::dialogue;
use crate::dialogue::Game;
use crate::dialogue::Reply;
use crate::dialogue::Request;
use crate::dialogue::Run;
use crate::dialogue::Stop;
use crate::dialogue::Tape;
use crate::filter::Clause;
use crate::filter::Filter;
use crate::inspect;
use crate::inspect::Verdict;
use crate::json;
use crate::json::Json;
use crate::state;

verus! {

/// The run over the clauses from clause `i` on, with the verdicts so far before those to come.
pub open spec fn verdicts_from(
    clauses: Seq<Clause>,
    i: nat,
    verdicts: Seq<Verdict>,
    game: Game,
    tape: Seq<Reply>,
    used: nat,
) -> Run<Seq<Verdict>>
    decreases clauses.len() - i,
{
    if i >= clauses.len() {
        Run::Done(verdicts, used)
    } else {
        match inspect::clause_run(clauses[i as int], game, tape, used) {
            Run::Halted(halt) => Run::Halted(halt),
            Run::Done(verdict, n) => verdicts_from(
                clauses,
                i + 1,
                verdicts.push(verdict),
                game,
                tape,
                n,
            ),
        }
    }
}

/// The run over all clauses of a filter.
pub open spec fn verdicts_run(clauses: Seq<Clause>, game: Game, tape: Seq<Reply>) -> Run<
    Seq<Verdict>,
> {
    verdicts_from(clauses, 0, Seq::empty(), game, tape, 0)
}

/// How many clauses are met.
pub open spec fn met(verdicts: Seq<Verdict>) -> nat
    decreases verdicts.len(),
{
    if verdicts.len() == 0 {
        0
    } else {
        met(verdicts.drop_last()) + if verdicts.last().0 {
            1nat
        } else {
            0nat
        }
    }
}

/// What the report says of the clause with index `i`.
pub open spec fn clause_doc(i: nat, verdict: Verdict) -> Json {
    Json::Obj(
        seq![
            ("index"@, Json::Num(i)),
            ("matched"@, Json::Bool(verdict.0)),
            ("detail"@, Json::Str(verdict.1)),
        ],
    )
}

/// What the report says of all clauses.
pub open spec fn clause_docs(verdicts: Seq<Verdict>) -> Seq<Json> {
    Seq::new(verdicts.len(), |i: int| clause_doc(i as nat, verdicts[i]))
}

/// The report on a seed.
pub open spec fn report_doc(seed: Seq<char>, verdicts: Seq<Verdict>) -> Json {
    Json::Obj(
        seq![
            ("ok"@, Json::Bool(true)),
            ("seed"@, Json::Str(seed)),
            ("clauses"@, Json::Arr(clause_docs(verdicts))),
            ("matched"@, Json::Num(met(verdicts))),
            ("total"@, Json::Num(verdicts.len())),
        ],
    )
}

/// The report on a filter that could not be read.
pub open spec fn error_doc(message: Seq<char>) -> Json {
    Json::Obj(seq![("ok"@, Json::Bool(false)), ("error"@, Json::Str(message))])
}

/// The run of an inspection: a filter that could not be read is reported at once, any other is
/// reported clause by clause.
pub open spec fn inspect_run(
    filter: Result<Filter, String>,
    seed: Seq<char>,
    deck_idx: u8,
    stake_idx: u8,
    tape: Seq<Reply>,
) -> Run<Json> {
    match filter {
        Err(message) => Run::Done(error_doc(message@), 0),
        Ok(filter) => match verdicts_run(
            filter.clauses@,
            dialogue::game(seed, deck_idx, stake_idx),
            tape,
        ) {
            Run::Halted(halt) => Run::Halted(halt),
            Run::Done(verdicts, n) => Run::Done(report_doc(seed, verdicts), n),
        },
    }
}

/// Whether what a function returned is the text of the document that the run gives.
pub open spec fn written(res: Result<String, Stop>, run: Run<Json>) -> bool {
    match run {
        Run::Done(doc, _) => res matches Ok(out) && out@ == json::render(doc),
        Run::Halted(halt) => res matches Err(stop) && stop@ == halt,
    }
}

/// Appends what the report says of the clause with index `i`.
fn push_clause_doc(out: &mut String, i: usize, hit: bool, detail: &str)
    ensures
        final(out)@ == old(out)@ + json::render(clause_doc(i as nat, (hit, detail@))),
{
    let ghost base = out@;
    let ghost m0 = Seq::<(Seq<char>, Json)>::empty();
    let ghost m1 = m0.push(("index"@, Json::Num(i as nat)));
    let ghost m2 = m1.push(("matched"@, Json::Bool(hit)));
    let ghost m3 = m2.push(("detail"@, Json::Str(detail@)));
    out.push('{');
    assert(out@ =~= json::open_object(base, m0));
    json::push_num_member(out, 0, "index", i as u64, Ghost(base), Ghost(m0));
    json::push_bool_member(out, 1, "matched", hit, Ghost(base), Ghost(m1));
    json::push_str_member(out, 2, "detail", detail, Ghost(base), Ghost(m2));
    out.push('}');
    proof {
        json::lemma_close_object(base, m3);
        assert(clause_doc(i as nat, (hit, detail@))->Obj_0 =~= m3);
    }
}

/// The report on a filter that could not be read.
fn error_report(message: &str) -> (res: String)
    ensures
        res@ == json::render(error_doc(message@)),
{
    let mut out = String::new();
    let ghost base = out@;
    let ghost m0 = Seq::<(Seq<char>, Json)>::empty();
    let ghost m1 = m0.push(("ok"@, Json::Bool(false)));
    let ghost m2 = m1.push(("error"@, Json::Str(message@)));
    out.push('{');
    assert(out@ =~= json::open_object(base, m0));
    json::push_bool_member(&mut out, 0, "ok", false, Ghost(base), Ghost(m0));
    json::push_str_member(&mut out, 1, "error", message, Ghost(base), Ghost(m1));
    out.push('}');
    proof {
        json::lemma_close_object(base, m2);
        assert(error_doc(message@)->Obj_0 =~= m2);
        assert(base + json::render(Json::Obj(m2)) =~= json::render(Json::Obj(m2)));
    }
    out
}

/// Inspects the clauses one by one and appends what the report says of them, as an array.
/// Returns how many are met.
fn push_verdicts<'a>(
    out: &mut String,
    clauses: &Vec<Clause>,
    seed: &str,
    deck_idx: u8,
    stake_idx: u8,
    replies: &'a Vec<Reply>,
) -> (res: Result<usize, Stop>)
    ensures
        match verdicts_run(
            clauses@,
            dialogue::game(seed@, deck_idx, stake_idx),
            replies@,
        ) {
            Run::Done(verdicts, _) => {
                &&& res matches Ok(matched)
                &&& matched == met(verdicts)
                &&& verdicts.len() == clauses@.len()
                &&& final(out)@ == old(out)@ + json::render(Json::Arr(clause_docs(verdicts)))
            },
            Run::Halted(halt) => res matches Err(stop) && stop@ == halt,
        },
{
    let ghost game = dialogue::game(seed@, deck_idx, stake_idx);
    let mut tape = Tape { replies, used: 0 };
    let ghost base = out@;
    let ghost mut verdicts = Seq::<Verdict>::empty();
    out.push('[');
    proof {
        assert(clause_docs(verdicts) =~= Seq::empty());
        assert(out@ =~= json::open_array(base, clause_docs(verdicts)));
    }
    let mut matched: usize = 0;
    let mut i: usize = 0;
    while i < clauses.len()
        invariant
            i <= clauses.len(),
            matched <= i,
            tape.replies == replies,
            verdicts.len() == i,
            matched == met(verdicts),
            game == dialogue::game(seed@, deck_idx, stake_idx),
            out@ == json::open_array(base, clause_docs(verdicts)),
            verdicts_run(clauses@, game, replies@) == verdicts_from(
                clauses@,
                i as nat,
                verdicts,
                game,
                replies@,
                tape.used as nat,
            ),
        decreases clauses.len() - i,
    {
        json::push_separator(out, i);
        let (hit, detail) = inspect::inspect_clause(
            &clauses[i],
            seed,
            deck_idx,
            stake_idx,
            &mut tape,
        )?;
        if hit {
            matched += 1;
        }
        push_clause_doc(out, i, hit, detail.as_str());
        proof {
            let verdict = (hit, detail@);
            let doc = clause_doc(i as nat, verdict);
            json::lemma_next_item(base, clause_docs(verdicts), doc);
            assert(clause_docs(verdicts.push(verdict)) =~= clause_docs(verdicts).push(doc));
            assert(verdicts.push(verdict).drop_last() =~= verdicts);
            verdicts = verdicts.push(verdict);
        }
        i += 1;
    }
    out.push(']');
    proof {
        json::lemma_close_array(base, clause_docs(verdicts));
    }
    Ok(matched)
}

/// Inspects a single seed: runs each clause of the filter and returns a JSON report of which
/// clauses are met and where. A filter that could not be read comes as the message that says
/// why, which is then the report.
pub fn inspect_seed(
    filter: &Result<Filter, String>,
    seed: &str,
    deck_idx: u8,
    stake_idx: u8,
    replies: &Vec<Reply>,
) -> (res: Result<String, Stop>)
    ensures
        written(res, inspect_run(*filter, seed@, deck_idx, stake_idx, replies@)),
        filter is Err ==> res is Ok,
        filter is Ok && filter->Ok_0.clauses@.len() == 0 ==> res is Ok,
        filter is Ok && filter->Ok_0.clauses@.len() > 0 && filter->Ok_0.clauses@[0] !is AnyOf
            && replies@.len() == 0 ==> (res matches Err(Stop::Need(
            Request::FreshInstance { seed: asked, deck, stake },
        )) && {
            &&& asked@ == seed@
            &&& state::deck_index(deck) == if deck_idx < 14 {
                deck_idx as int
            } else {
                14
            }
            &&& state::stake_index(stake) == if stake_idx < 7 {
                stake_idx as int
            } else {
                7
            }
        }),
{
    proof {
        state::law_decks(state::deck_at(deck_idx as int), deck_idx);
        state::law_stakes(state::stake_at(stake_idx as int), stake_idx);
    }
    let filter = match filter {
        Ok(filter) => filter,
        Err(message) => {
            return Ok(error_report(message.as_str()));
        },
    };
    let mut out = String::new();
    let ghost base = out@;
    let ghost m0 = Seq::<(Seq<char>, Json)>::empty();
    let ghost m1 = m0.push(("ok"@, Json::Bool(true)));
    let ghost m2 = m1.push(("seed"@, Json::Str(seed@)));
    out.push('{');
    assert(out@ =~= json::open_object(base, m0));
    json::push_bool_member(&mut out, 0, "ok", true, Ghost(base), Ghost(m0));
    json::push_str_member(&mut out, 1, "seed", seed, Ghost(base), Ghost(m1));
    json::push_key(&mut out, 2, "clauses");
    let matched = push_verdicts(
        &mut out,
        &filter.clauses,
        seed,
        deck_idx,
        stake_idx,
        replies,
    )?;
    let total = filter.clauses.len();
    let ghost verdicts = verdicts_run(
        filter.clauses@,
        dialogue::game(seed@, deck_idx, stake_idx),
        replies@,
    )->Done_0;
    let ghost list = Json::Arr(clause_docs(verdicts));
    let ghost m3 = m2.push(("clauses"@, list));
    let ghost m4 = m3.push(("matched"@, Json::Num(matched as nat)));
    let ghost m5 = m4.push(("total"@, Json::Num(total as nat)));
    proof {
        json::lemma_next_member(base, m2, "clauses"@, list);
    }
    json::push_num_member(&mut out, 3, "matched", matched as u64, Ghost(base), Ghost(m3));
    json::push_num_member(&mut out, 4, "total", total as u64, Ghost(base), Ghost(m4));
    out.push('}');
    proof {
        json::lemma_close_object(base, m5);
        assert(report_doc(seed@, verdicts)->Obj_0 =~= m5);
        assert(base + json::render(Json::Obj(m5)) =~= json::render(Json::Obj(m5)));
    }
    Ok(out)
}

} // verus!
