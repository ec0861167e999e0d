use substrate_differ::raw::{
    is_byte_array, summarize, PathKey, RawChange, RawChangeKind, RawDifferOptions, RawVerdict,
};

fn change(kind: RawChangeKind, path: &[&str], is_array: bool) -> RawChange {
    RawChange {
        kind,
        path: path
            .iter()
            .map(|p| match p.parse::<usize>() {
                Ok(i) => PathKey::Index(i),
                Err(_) => PathKey::Name(p.to_string()),
            })
            .collect(),
        is_array,
    }
}

fn sample() -> Vec<RawChange> {
    vec![
        change(RawChangeKind::Modified, &["V14", "pallets", "0", "documentation", "1"], false),
        change(RawChangeKind::Removed, &["V14", "pallets", "0", "constants", "2", "value"], true),
        change(RawChangeKind::Modified, &["V14", "pallets", "3", "name"], false),
        change(RawChangeKind::Added, &["V14", "pallets", "4"], false),
        change(RawChangeKind::Unchanged, &["V14", "types"], false),
        change(RawChangeKind::Modified, &["V14", "pallets", "5", "storage", "default"], false),
    ]
}

#[test]
fn everything_is_shown_by_default() {
    let report = summarize(&sample(), &RawDifferOptions::new());
    assert_eq!(report.shown, vec![0, 1, 2, 3, 5]);
    assert_eq!(report.skipped.documentation, 0);
    assert_eq!(report.skipped.bytes, 0);
    assert_eq!(report.counter.added, 1);
    assert_eq!(report.counter.removed, 1);
    assert_eq!(report.counter.modified, 3);
    assert_eq!(report.counter.unchanged, 1);
}

#[test]
fn documentation_and_bytes_can_be_skipped() {
    let mut o = RawDifferOptions::new();
    o.skip_doc = true;
    o.skip_bytes = true;
    let report = summarize(&sample(), &o);
    assert_eq!(report.shown, vec![2, 3, 5]);
    assert_eq!(report.skipped.documentation, 1);
    assert_eq!(report.skipped.bytes, 1);
}

#[test]
fn collapsed_values_count_as_bytes() {
    let mut o = RawDifferOptions::new();
    o.skip_bytes = true;
    o.collapse = true;
    let report = summarize(&sample(), &o);
    assert_eq!(report.shown, vec![0, 2, 3]);
    assert_eq!(report.skipped.bytes, 2);
    let added = change(RawChangeKind::Added, &["value"], true);
    assert_eq!(added.verdict(&o), RawVerdict::SkipBytes);
    let unchanged = change(RawChangeKind::Unchanged, &["value"], true);
    assert_eq!(unchanged.verdict(&o), RawVerdict::Ignore);
}

#[test]
fn byte_arrays_are_recognized() {
    assert!(is_byte_array(&vec![Some(0), Some(255), Some(3)]));
    assert!(!is_byte_array(&vec![Some(0), Some(256)]));
    assert!(!is_byte_array(&vec![Some(1), None]));
    assert!(!is_byte_array(&vec![]));
}
