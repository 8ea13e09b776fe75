use indexer::group::{Grouper, PackageEntry, PathPart, Route};

fn path(parts: &[&str]) -> Vec<PathPart> {
    parts.iter().map(|p| PathPart::Normal(p.to_string())).collect()
}

fn run(entries: &[(&[&str], &str)]) -> Vec<PackageEntry> {
    let mut g = Grouper::new();
    let mut out = Vec::new();
    for (p, content) in entries {
        if let Some(e) = g.feed(&path(p), content) {
            out.push(e);
        }
    }
    if let Some(e) = g.finish() {
        out.push(e);
    }
    out
}

fn summary(out: &[PackageEntry]) -> Vec<(String, String, String)> {
    out.iter().map(|e| (e.root.clone(), e.desc.clone(), e.files.clone())).collect()
}

#[test]
fn contiguous_labels_give_one_record_each() {
    let out = run(&[
        (&["a"], ""),
        (&["a", "desc"], "da"),
        (&["a", "files"], "fa"),
        (&["b"], ""),
        (&["b", "desc"], "db"),
        (&["b", "files"], "fb"),
        (&["c"], ""),
        (&["c", "files"], "fc"),
    ]);
    assert_eq!(
        summary(&out),
        vec![
            ("a".to_string(), "da".to_string(), "fa".to_string()),
            ("b".to_string(), "db".to_string(), "fb".to_string()),
            ("c".to_string(), "".to_string(), "fc".to_string()),
        ]
    );
}

#[test]
fn repeated_label_after_another_is_split() {
    // The grouping trusts the archive to keep a package's entries together:
    // a label that comes back later opens a second record under it.
    let out = run(&[
        (&["a"], ""),
        (&["a", "desc"], "d1"),
        (&["b"], ""),
        (&["b", "desc"], "db"),
        (&["a"], ""),
        (&["a", "files"], "f1"),
    ]);
    assert_eq!(
        summary(&out),
        vec![
            ("a".to_string(), "d1".to_string(), "".to_string()),
            ("b".to_string(), "db".to_string(), "".to_string()),
            ("a".to_string(), "".to_string(), "f1".to_string()),
        ]
    );
}

#[test]
fn empty_stream_gives_nothing() {
    assert!(run(&[]).is_empty());
}

#[test]
fn odd_entries_are_dropped() {
    let mut g = Grouper::new();
    assert_eq!(g.route(&Vec::new()), Route::Skip);
    assert_eq!(g.route(&vec![PathPart::Other]), Route::Skip);
    assert_eq!(g.route(&path(&[""])), Route::Skip);
    assert_eq!(g.route(&path(&["a", "desc"])), Route::Open);
    assert!(g.feed(&path(&["a"]), "").is_none());
    assert_eq!(g.route(&path(&["a"])), Route::Skip);
    assert_eq!(g.route(&path(&["a", "desc"])), Route::Desc);
    assert_eq!(g.route(&path(&["a", "files"])), Route::Files);
    assert_eq!(g.route(&path(&["a", "other"])), Route::Skip);
    assert_eq!(g.route(&vec![PathPart::Normal("a".to_string()), PathPart::Other]), Route::Skip);
    assert!(g.feed(&path(&["a", "other"]), "zzz").is_none());
    assert!(g.feed(&path(&["a", "desc"]), "x").is_none());
    assert!(g.feed(&path(&["a", "desc"]), "y").is_none());
    let e = g.finish().unwrap();
    assert_eq!(e.desc, "xy");
    assert_eq!(e.files, "");
    assert!(g.finish().is_none());
}

#[test]
fn first_entry_without_marker_opens_and_is_dropped() {
    let out = run(&[(&["a", "desc"], "lost"), (&["a", "desc"], "kept")]);
    assert_eq!(summary(&out), vec![("a".to_string(), "kept".to_string(), "".to_string())]);
}
