use log_zipper::archiver::FailKind;
use log_zipper::archiver::Outcome;
use log_zipper::report::summarize;

#[test]
fn counts_add_up() {
    let outcomes = vec![
        Outcome::Compressed { delete_failed: false },
        Outcome::SkippedInUse,
        Outcome::Compressed { delete_failed: true },
        Outcome::Failed { kind: FailKind::SourceRead },
        Outcome::Compressed { delete_failed: false },
        Outcome::Failed { kind: FailKind::Archive },
    ];
    let s = summarize(&outcomes);
    assert_eq!(s.total, 6);
    assert_eq!(s.compressed, 3);
    assert_eq!(s.skipped, 1);
    assert_eq!(s.failed, 2);
    assert_eq!(s.delete_warnings, 1);
}

#[test]
fn empty_run_reports_zeroes() {
    let outcomes: Vec<Outcome> = Vec::new();
    let s = summarize(&outcomes);
    assert_eq!(s.total, 0);
    assert_eq!(s.compressed, 0);
    assert_eq!(s.skipped, 0);
    assert_eq!(s.failed, 0);
    assert_eq!(s.delete_warnings, 0);
}

#[test]
fn summary_ignores_completion_order() {
    let sequential = vec![
        Outcome::Compressed { delete_failed: false },
        Outcome::SkippedInUse,
        Outcome::Failed { kind: FailKind::Archive },
        Outcome::Compressed { delete_failed: true },
    ];
    let interleaved = vec![
        Outcome::Compressed { delete_failed: true },
        Outcome::Failed { kind: FailKind::Archive },
        Outcome::Compressed { delete_failed: false },
        Outcome::SkippedInUse,
    ];
    assert_eq!(summarize(&sequential), summarize(&interleaved));
}
