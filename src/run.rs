use vstd::prelude::*;
use crate::report::{empty_corpus_line, no_match_line, report};
use crate::scan::{accepted_structured, usable_count, Candidate};

verus! {

/// Where the corpus comes from.
#[derive(Clone, Copy, Debug, PartialEq, Eq, Structural)]
pub enum SourceKind {
    /// One record per line of text.
    Text,
    /// A multi-record structured chemical file.
    Structured,
}

/// The failures that end a run.
#[derive(Clone, Copy, Debug, PartialEq, Eq, Structural)]
pub enum RunError {
    /// The query pattern did not compile.
    InvalidQuery,
    /// The corpus could not be read.
    CorpusAccess,
}

/// What a run does once the query has been compiled, or failed to.
#[derive(Clone, Copy, Debug, PartialEq, Eq, Structural)]
pub enum Action {
    /// Read the corpus from the given source and scan it.
    Load(SourceKind),
    /// Stop without touching the corpus.
    Abort(RunError),
}

/// The command line: query pattern, corpus path, and source type (`txt` for
/// text, anything else for a structured file).
pub struct Args {
    pub smarts: String,
    pub path: String,
    pub file_type: String,
}

impl Args {
    pub fn new(smarts: String, path: String, file_type: String) -> (r: Args)
        ensures
            r.smarts@ == smarts@,
            r.path@ == path@,
            r.file_type@ == file_type@,
    {
        Args { smarts, path, file_type }
    }

    /// The source the type selector names: text for `txt`, structured otherwise.
    pub fn source_kind(&self) -> (r: SourceKind)
        ensures
            r == source_of(self.file_type@),
    {
        let txt = String::from_str("txt");
        if self.file_type == txt {
            SourceKind::Text
        } else {
            SourceKind::Structured
        }
    }
}

pub open spec fn source_of(file_type: Seq<char>) -> SourceKind {
    if file_type == "txt"@ {
        SourceKind::Text
    } else {
        SourceKind::Structured
    }
}

/// The step after compiling the query: a failed query aborts the run before
/// any corpus access; a compiled one loads the corpus.
pub open spec fn plan(compiled: bool, source: SourceKind) -> Action {
    if compiled {
        Action::Load(source)
    } else {
        Action::Abort(RunError::InvalidQuery)
    }
}

pub open spec fn exit_code(outcome: Result<(), RunError>) -> i32 {
    match outcome {
        Ok(_) => 0,
        Err(_) => 1,
    }
}

/// Decides what follows the compilation of the query.
pub fn next_action(compiled: bool, source: SourceKind) -> (r: Action)
    ensures
        r == plan(compiled, source),
{
    if compiled {
        Action::Load(source)
    } else {
        Action::Abort(RunError::InvalidQuery)
    }
}

/// Process exit status: zero for a completed run, with or without matches;
/// non-zero for an invalid query or an unreadable corpus.
pub fn exit_status(outcome: Result<(), RunError>) -> (r: i32)
    ensures
        r == exit_code(outcome),
{
    match outcome {
        Ok(_) => 0,
        Err(_) => 1,
    }
}

/// The diagnostic for a query that did not compile.
pub fn invalid_query_line(query: &str) -> (r: String)
    ensures
        r@ == "ERROR: smarts query is not valid "@ + query@,
{
    let mut line = String::from_str("ERROR: smarts query is not valid ");
    line.append(query);
    line
}

/// A query that does not compile ends the run before the corpus is read,
/// whatever the source, and with a non-zero exit status.
pub proof fn lemma_invalid_query_aborts(source: SourceKind)
    ensures
        plan(false, source) == Action::Abort(RunError::InvalidQuery),
        !(plan(false, source) is Load),
        exit_code(Err(RunError::InvalidQuery)) != 0,
{
}

/// A structured file none of whose entries parses takes the empty-corpus
/// path: it reports the empty-corpus line and the no-match line, accepts no
/// notation, and the run ends with a zero exit status.
pub proof fn lemma_empty_corpus_succeeds(entries: Seq<Option<Candidate>>, query: Seq<char>)
    requires
        forall|i: int| 0 <= i < entries.len() ==> entries[i] is None,
    ensures
        usable_count(entries) == 0,
        accepted_structured(entries).len() == 0,
        report(true, Seq::empty(), query) == seq![empty_corpus_line(), no_match_line(query)],
        exit_code(Ok(())) == 0,
    decreases entries.len(),
{
    if entries.len() > 0 {
        lemma_empty_corpus_succeeds(entries.drop_last(), query);
    }
    assert(report(true, Seq::empty(), query) =~= seq![empty_corpus_line(), no_match_line(query)]);
}

} // verus!
