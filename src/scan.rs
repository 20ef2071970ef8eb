use vstd::prelude::*;

verus! {

/// A match count must exceed this to count as containment: one or two
/// corresponding atoms are too small a correspondence to report.
pub const MATCH_FLOOR: usize = 2;

/// A line of a text corpus, as written, together with what the chemistry
/// engine made of its trimmed form: `None` where that did not parse as a
/// molecule, else the match count of the query pattern against it.
pub struct TextCandidate {
    pub line: String,
    pub match_count: Option<usize>,
}

/// A usable entry of a structured file, after hydrogen stripping: its
/// canonical notation and the match count of the query pattern against it.
pub struct Candidate {
    pub notation: String,
    pub match_count: usize,
}

/// Result of scanning a structured file.
pub enum ScanOutcome {
    /// The accepted notations, in file order.
    Accepted(Vec<String>),
    /// No entry of the file parsed: nothing was matched.
    EmptyCorpus,
}

pub open spec fn accepts(count: nat) -> bool {
    count > MATCH_FLOOR
}

/// The lines, as written, of `cands` whose molecule parsed and passed the
/// match floor.
pub open spec fn accepted_text(cands: Seq<TextCandidate>) -> Seq<Seq<char>>
    decreases cands.len(),
{
    if cands.len() == 0 {
        Seq::empty()
    } else {
        let rest = accepted_text(cands.drop_last());
        match cands.last().match_count {
            Some(n) => if accepts(n as nat) {
                rest.push(cands.last().line@)
            } else {
                rest
            },
            None => rest,
        }
    }
}

/// How many entries of a structured file parsed.
pub open spec fn usable_count(entries: Seq<Option<Candidate>>) -> nat
    decreases entries.len(),
{
    if entries.len() == 0 {
        0
    } else {
        usable_count(entries.drop_last()) + if entries.last() is Some {
            1nat
        } else {
            0nat
        }
    }
}

/// The notations of the parsed entries that passed the match floor.
pub open spec fn accepted_structured(entries: Seq<Option<Candidate>>) -> Seq<Seq<char>>
    decreases entries.len(),
{
    if entries.len() == 0 {
        Seq::empty()
    } else {
        let rest = accepted_structured(entries.drop_last());
        match entries.last() {
            Some(c) => if accepts(c.match_count as nat) {
                rest.push(c.notation@)
            } else {
                rest
            },
            None => rest,
        }
    }
}

/// What a structured scan reports as accepted: nothing for an empty corpus.
pub open spec fn outcome_accepted(o: ScanOutcome) -> Seq<Seq<char>> {
    match o {
        ScanOutcome::Accepted(v) => v.deep_view(),
        ScanOutcome::EmptyCorpus => Seq::empty(),
    }
}

/// Whether a match count passes the floor.
pub fn is_accepted(count: usize) -> (r: bool)
    ensures
        r == accepts(count as nat),
{
    count > MATCH_FLOOR
}

/// Text strategy: keeps, in source order and as written, each line whose
/// record parsed and whose match count passes the floor. Records that did not
/// parse are skipped.
pub fn scan_text(cands: &Vec<TextCandidate>) -> (r: Vec<String>)
    ensures
        r.deep_view() == accepted_text(cands@),
{
    let mut out: Vec<String> = Vec::new();
    let mut i: usize = 0;
    while i < cands.len()
        invariant
            i <= cands@.len(),
            out.deep_view() == accepted_text(cands@.take(i as int)),
        decreases cands.len() - i,
    {
        proof {
            assert(cands@.take(i + 1).drop_last() =~= cands@.take(i as int));
            assert(cands@.take(i + 1).last() == cands@[i as int]);
        }
        let c = &cands[i];
        match c.match_count {
            Some(n) => {
                if is_accepted(n) {
                    let ghost before = out.deep_view();
                    out.push(c.line.clone());
                    assert(out.deep_view() =~= before.push(c.line@));
                }
            },
            None => {},
        }
        i = i + 1;
    }
    assert(cands@.take(i as int) =~= cands@);
    out
}

/// Structured strategy: entries that did not parse are dropped; if none is
/// left the scan stops with `EmptyCorpus`, else it keeps, in file order, the
/// notation of each entry whose match count passes the floor.
pub fn scan_structured(entries: &Vec<Option<Candidate>>) -> (r: ScanOutcome)
    ensures
        r is EmptyCorpus <==> usable_count(entries@) == 0,
        outcome_accepted(r) == accepted_structured(entries@),
{
    let mut out: Vec<String> = Vec::new();
    let mut usable: usize = 0;
    let mut i: usize = 0;
    while i < entries.len()
        invariant
            i <= entries@.len(),
            usable <= i,
            usable == usable_count(entries@.take(i as int)),
            out.deep_view() == accepted_structured(entries@.take(i as int)),
        decreases entries.len() - i,
    {
        proof {
            assert(entries@.take(i + 1).drop_last() =~= entries@.take(i as int));
            assert(entries@.take(i + 1).last() == entries@[i as int]);
        }
        match &entries[i] {
            Some(c) => {
                usable = usable + 1;
                if is_accepted(c.match_count) {
                    let ghost before = out.deep_view();
                    out.push(c.notation.clone());
                    assert(out.deep_view() =~= before.push(c.notation@));
                }
            },
            None => {},
        }
        i = i + 1;
    }
    assert(entries@.take(i as int) =~= entries@);
    if usable == 0 {
        proof {
            lemma_none_usable_accepts_nothing(entries@);
        }
        ScanOutcome::EmptyCorpus
    } else {
        ScanOutcome::Accepted(out)
    }
}

/// Whether a text candidate parsed and passed the match floor.
pub open spec fn passes_text(c: TextCandidate) -> bool {
    match c.match_count {
        Some(n) => accepts(n as nat),
        None => false,
    }
}

/// Whether a structured entry parsed and passed the match floor.
pub open spec fn passes_structured(e: Option<Candidate>) -> bool {
    match e {
        Some(c) => accepts(c.match_count as nat),
        None => false,
    }
}

/// A text scan reports the lines, as written, of exactly those candidates
/// whose record parsed and passed the match floor, in source order.
pub proof fn lemma_text_scan_selects_passing_lines(cands: Seq<TextCandidate>)
    ensures
        accepted_text(cands) == cands.filter(|c: TextCandidate| passes_text(c)).map_values(
            |c: TextCandidate| c.line@,
        ),
    decreases cands.len(),
{
    reveal(Seq::filter);
    if cands.len() > 0 {
        lemma_text_scan_selects_passing_lines(cands.drop_last());
        let sub = cands.drop_last().filter(|c: TextCandidate| passes_text(c));
        assert(cands.filter(|c: TextCandidate| passes_text(c)) == if passes_text(cands.last()) {
            sub.push(cands.last())
        } else {
            sub
        });
        assert(sub.push(cands.last()).map_values(|c: TextCandidate| c.line@) =~= sub.map_values(
            |c: TextCandidate| c.line@,
        ).push(cands.last().line@));
    } else {
        assert(accepted_text(cands) =~= cands.filter(|c: TextCandidate| passes_text(c)).map_values(
            |c: TextCandidate| c.line@,
        ));
    }
}

/// A structured scan keeps the notations of exactly those entries that
/// parsed and passed the match floor, in file order.
pub proof fn lemma_structured_scan_selects_passing_entries(entries: Seq<Option<Candidate>>)
    ensures
        accepted_structured(entries) == entries.filter(
            |e: Option<Candidate>| passes_structured(e),
        ).map_values(|e: Option<Candidate>| e->Some_0.notation@),
    decreases entries.len(),
{
    reveal(Seq::filter);
    if entries.len() > 0 {
        lemma_structured_scan_selects_passing_entries(entries.drop_last());
        let sub = entries.drop_last().filter(|e: Option<Candidate>| passes_structured(e));
        assert(entries.filter(|e: Option<Candidate>| passes_structured(e)) == if passes_structured(
            entries.last(),
        ) {
            sub.push(entries.last())
        } else {
            sub
        });
        assert(sub.push(entries.last()).map_values(|e: Option<Candidate>| e->Some_0.notation@)
            =~= sub.map_values(|e: Option<Candidate>| e->Some_0.notation@).push(
            entries.last()->Some_0.notation@,
        ));
    } else {
        assert(accepted_structured(entries) =~= entries.filter(
            |e: Option<Candidate>| passes_structured(e),
        ).map_values(|e: Option<Candidate>| e->Some_0.notation@));
    }
}

proof fn lemma_none_usable_accepts_nothing(entries: Seq<Option<Candidate>>)
    requires
        usable_count(entries) == 0,
    ensures
        accepted_structured(entries) == Seq::<Seq<char>>::empty(),
    decreases entries.len(),
{
    if entries.len() > 0 {
        lemma_none_usable_accepts_nothing(entries.drop_last());
    }
}

} // verus!
