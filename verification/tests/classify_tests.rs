use log_zipper::classify::classify;
use log_zipper::classify::name_contains_token;
use log_zipper::classify::name_has_log_ext;
use log_zipper::classify::ScanEntry;

fn entry(name: &str, is_file: bool, size: u64) -> ScanEntry {
    ScanEntry { name: name.to_string(), is_file, size }
}

#[test]
fn log_extension_is_recognized() {
    assert!(name_has_log_ext("app.log"));
    assert!(name_has_log_ext("a.b.log"));
    assert!(name_has_log_ext("..log"));
}

#[test]
fn other_extensions_are_rejected() {
    assert!(!name_has_log_ext("notes.txt"));
    assert!(!name_has_log_ext("app.LOG"));
    assert!(!name_has_log_ext("app.log.bak"));
    assert!(!name_has_log_ext("applog"));
    assert!(!name_has_log_ext("log"));
}

#[test]
fn hidden_log_file_has_no_extension() {
    assert!(!name_has_log_ext(".log"));
}

#[test]
fn self_token_is_found() {
    assert!(name_contains_token("log_compressor.log"));
    assert!(name_contains_token("old_log_compressor_output.log"));
    assert!(!name_contains_token("app.log"));
    assert!(!name_contains_token("log_compresso.log"));
}

#[test]
fn classify_keeps_only_eligible_regular_files() {
    let entries = vec![
        entry("app.log", true, 5),
        entry("notes.txt", true, 10),
        entry("nested.log", false, 0),
        entry(".log", true, 3),
        entry("log_compressor.log", true, 7),
        entry("other.log", true, 11),
    ];
    let candidates = classify(&entries);
    assert_eq!(candidates.len(), 2);
    assert_eq!(candidates[0].name, "app.log");
    assert_eq!(candidates[0].size, 5);
    assert_eq!(candidates[1].name, "other.log");
    assert_eq!(candidates[1].size, 11);
}

#[test]
fn classify_twice_yields_the_same_candidates() {
    let entries = vec![
        entry("app.log", true, 5),
        entry("notes.txt", true, 10),
        entry("b.log", true, 1),
    ];
    let first = classify(&entries);
    let second = classify(&entries);
    assert_eq!(first.len(), second.len());
    for (a, b) in first.iter().zip(second.iter()) {
        assert_eq!(a.name, b.name);
        assert_eq!(a.size, b.size);
    }
}

#[test]
fn classify_empty_listing_finds_nothing() {
    let entries: Vec<ScanEntry> = Vec::new();
    let candidates = classify(&entries);
    assert_eq!(candidates.len(), 0);
}
