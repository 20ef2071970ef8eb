use molgrep::{
    exit_status, invalid_query_line, is_accepted, next_action, report_structured, report_text,
    scan_structured, scan_text, text_records, Action, Args, Candidate, Record, RunError,
    ScanOutcome, SourceKind, TextCandidate, MATCH_FLOOR,
};

fn text_cands(records: &[Record], counts: &[Option<usize>]) -> Vec<TextCandidate> {
    records
        .iter()
        .zip(counts.iter())
        .map(|(r, c)| TextCandidate { line: r.line.clone(), match_count: *c })
        .collect()
}

fn pairs(records: &[Record]) -> Vec<(&str, &str)> {
    records.iter().map(|r| (r.line.as_str(), r.text.as_str())).collect()
}

#[test]
fn records_are_trimmed_lines_in_order() {
    let contents = "\
CCCCC
c1cccc1
CCOCC
";
    let records = text_records(contents);
    assert_eq!(
        vec![("CCCCC", "CCCCC"), ("c1cccc1", "c1cccc1"), ("CCOCC", "CCOCC")],
        pairs(&records)
    );
}

#[test]
fn records_skip_blank_lines_and_trim() {
    let records = text_records("  CCO \r\n\n \t \nc1ccccc1");
    assert_eq!(vec![("  CCO ", "CCO"), ("c1ccccc1", "c1ccccc1")], pairs(&records));
}

#[test]
fn records_of_empty_text() {
    assert!(text_records("").is_empty());
    assert!(text_records("\n\n").is_empty());
}

#[test]
fn match_floor_is_exclusive() {
    assert_eq!(MATCH_FLOOR, 2);
    assert!(!is_accepted(0));
    assert!(!is_accepted(2));
    assert!(is_accepted(3));
}

#[test]
fn text_scan_keeps_the_matching_record() {
    let records = text_records("CCCCC\nc1cccc1\nCCOCC\n");
    // the ring does not parse; only the ether holds the fragment
    let cands = text_cands(&records, &[Some(0), None, Some(13)]);
    assert_eq!(vec!["CCOCC"], scan_text(&cands));
}

#[test]
fn text_scan_without_match_is_empty() {
    let records = text_records("CCCCC\nc1cccc1\nCCNCC\n");
    let cands = text_cands(&records, &[Some(0), None, Some(2)]);
    assert_eq!(Vec::<String>::new(), scan_text(&cands));
}

#[test]
fn text_scan_reports_padded_line_as_written() {
    let records = text_records("CCCCC\n  CCOCC\t\r\n");
    assert_eq!(vec![("CCCCC", "CCCCC"), ("  CCOCC\t", "CCOCC")], pairs(&records));
    let cands = text_cands(&records, &[Some(0), Some(13)]);
    assert_eq!(vec!["  CCOCC\t"], scan_text(&cands));
}

#[test]
fn records_keep_bare_carriage_return_at_end() {
    let records = text_records("CCO\r");
    assert_eq!(vec![("CCO\r", "CCO")], pairs(&records));
}

#[test]
fn text_scan_keeps_source_order() {
    let records = text_records("CCO\nCCCO\nOCC\n");
    let cands = text_cands(&records, &[Some(5), Some(1), Some(7)]);
    assert_eq!(vec!["CCO", "OCC"], scan_text(&cands));
}

#[test]
fn structured_scan_accepts_acetone() {
    let entries = vec![Some(Candidate { notation: "CC(C)=O".to_string(), match_count: 13 })];
    match scan_structured(&entries) {
        ScanOutcome::Accepted(v) => assert_eq!(vec!["CC(C)=O"], v),
        ScanOutcome::EmptyCorpus => panic!("acetone is a usable entry"),
    }
}

#[test]
fn structured_scan_rejects_acetone_for_other_fragment() {
    let entries = vec![Some(Candidate { notation: "CC(C)=O".to_string(), match_count: 0 })];
    let outcome = scan_structured(&entries);
    match &outcome {
        ScanOutcome::Accepted(v) => assert!(v.is_empty()),
        ScanOutcome::EmptyCorpus => panic!("acetone is a usable entry"),
    }
    assert_eq!(vec!["No matches found for CN"], report_structured(&outcome, "CN"));
}

#[test]
fn structured_scan_drops_unparsed_entries() {
    let entries = vec![
        None,
        Some(Candidate { notation: "CCO".to_string(), match_count: 3 }),
        None,
        Some(Candidate { notation: "CC".to_string(), match_count: 1 }),
    ];
    match scan_structured(&entries) {
        ScanOutcome::Accepted(v) => assert_eq!(vec!["CCO"], v),
        ScanOutcome::EmptyCorpus => panic!("two entries parsed"),
    }
}

#[test]
fn structured_file_without_usable_entry_is_empty_corpus() {
    let entries: Vec<Option<Candidate>> = vec![None, None];
    let outcome = scan_structured(&entries);
    assert!(matches!(outcome, ScanOutcome::EmptyCorpus));
    assert_eq!(
        vec!["No molecules in file!", "No matches found for C=O"],
        report_structured(&outcome, "C=O")
    );
    assert_eq!(0, exit_status(Ok(())));
    assert!(matches!(scan_structured(&Vec::new()), ScanOutcome::EmptyCorpus));
}

#[test]
fn text_report_lists_matches_or_says_none() {
    let found = vec!["CCOCC".to_string(), "COC".to_string()];
    assert_eq!(vec!["CCOCC", "COC"], report_text(&found, "CO"));
    assert_eq!(vec!["No matches found for CO"], report_text(&Vec::new(), "CO"));
}

#[test]
fn invalid_query_aborts_before_corpus() {
    assert_eq!(Action::Abort(RunError::InvalidQuery), next_action(false, SourceKind::Text));
    assert_eq!(
        Action::Abort(RunError::InvalidQuery),
        next_action(false, SourceKind::Structured)
    );
    assert_eq!(Action::Load(SourceKind::Structured), next_action(true, SourceKind::Structured));
    assert_ne!(0, exit_status(Err(RunError::InvalidQuery)));
    assert_ne!(0, exit_status(Err(RunError::CorpusAccess)));
    assert_eq!(
        "ERROR: smarts query is not valid %&&&1CCCCQ1",
        invalid_query_line("%&&&1CCCCQ1")
    );
}

#[test]
fn source_kind_follows_file_type() {
    let a = Args::new("CO".to_string(), "x.txt".to_string(), "txt".to_string());
    assert_eq!(SourceKind::Text, a.source_kind());
    let b = Args::new("CO".to_string(), "x.sdf".to_string(), "sdf".to_string());
    assert_eq!(SourceKind::Structured, b.source_kind());
    assert_eq!("CO", b.smarts);
    assert_eq!("x.sdf", b.path);
}
