//! Substructure search over a corpus of molecule records.
//!
//! The chemistry engine (parsing, hydrogen stripping, substructure matching,
//! canonical notation) lives outside this library. The library owns the
//! pipeline around it: splitting a text corpus into records, tolerating
//! records that fail to parse, the match-size acceptance policy, the
//! empty-corpus short circuit, the invalid-query gate and the report.
pub mod corpus;
pub mod report;
pub mod run;
pub mod scan;

pub use corpus::{text_records, Record};
pub use report::{report_structured, report_text};
pub use run::{
    exit_status, invalid_query_line, lemma_empty_corpus_succeeds, lemma_invalid_query_aborts,
    next_action, Action, Args, RunError, SourceKind,
};
pub use scan::{
    is_accepted, lemma_structured_scan_selects_passing_entries,
    lemma_text_scan_selects_passing_lines, scan_structured, scan_text, Candidate, ScanOutcome,
    TextCandidate, MATCH_FLOOR,
};
