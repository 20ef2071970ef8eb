use vstd::prelude::*;
use crate::scan::{outcome_accepted, ScanOutcome};

verus! {

/// The line printed when nothing matched `query`.
pub open spec fn no_match_line(query: Seq<char>) -> Seq<char> {
    "No matches found for "@ + query
}

/// The line printed when a structured file held no usable entry.
pub open spec fn empty_corpus_line() -> Seq<char> {
    "No molecules in file!"@
}

/// The lines of the final report: the accepted notations in order, or the
/// no-match line when there is none, after the empty-corpus line where the
/// structured source had no usable entry.
pub open spec fn report(empty_corpus: bool, accepted: Seq<Seq<char>>, query: Seq<char>) -> Seq<
    Seq<char>,
> {
    let body = if accepted.len() > 0 {
        accepted
    } else {
        seq![no_match_line(query)]
    };
    if empty_corpus {
        seq![empty_corpus_line()] + body
    } else {
        body
    }
}

fn render(empty_corpus: bool, accepted: &Vec<String>, query: &str) -> (r: Vec<String>)
    ensures
        r.deep_view() == report(empty_corpus, accepted.deep_view(), query@),
{
    let mut out: Vec<String> = Vec::new();
    if empty_corpus {
        out.push(String::from_str("No molecules in file!"));
    }
    let ghost head = out.deep_view();
    if accepted.len() > 0 {
        let mut i: usize = 0;
        while i < accepted.len()
            invariant
                i <= accepted@.len(),
                out.deep_view() == head + accepted.deep_view().take(i as int),
            decreases accepted.len() - i,
        {
            let ghost before = out.deep_view();
            out.push(accepted[i].clone());
            assert(accepted.deep_view().take(i + 1) =~= accepted.deep_view().take(i as int).push(
                accepted@[i as int]@,
            ));
            assert(out.deep_view() =~= before.push(accepted@[i as int]@));
            i = i + 1;
        }
        assert(accepted.deep_view().take(i as int) =~= accepted.deep_view());
    } else {
        let mut line = String::from_str("No matches found for ");
        line.append(query);
        out.push(line);
    }
    assert(out.deep_view() =~= report(empty_corpus, accepted.deep_view(), query@));
    out
}

/// Report of a text scan: the accepted records, or the no-match line.
pub fn report_text(accepted: &Vec<String>, query: &str) -> (r: Vec<String>)
    ensures
        r.deep_view() == report(false, accepted.deep_view(), query@),
{
    render(false, accepted, query)
}

/// Report of a structured scan: the accepted notations, or the no-match
/// line, after the empty-corpus line where the file held no usable entry.
pub fn report_structured(outcome: &ScanOutcome, query: &str) -> (r: Vec<String>)
    ensures
        r.deep_view() == report(outcome is EmptyCorpus, outcome_accepted(*outcome), query@),
{
    match outcome {
        ScanOutcome::Accepted(v) => render(false, v, query),
        ScanOutcome::EmptyCorpus => {
            let none: Vec<String> = Vec::new();
            assert(none.deep_view() =~= Seq::<Seq<char>>::empty());
            render(true, &none, query)
        },
    }
}

} // verus!
