use indexer::desc::{parse_desc, DescKey};
use indexer::group::PackageEntry;
use indexer::process::prepare_package;
use indexer::units::{
    collect_unit_paths, match_target, plan_entry, unit_id, unit_source, ProcessError, TargetSet,
    UnitEntry,
};

fn set(label: &str, paths: &[&str]) -> TargetSet {
    TargetSet { label: label.to_string(), paths: paths.iter().map(|p| p.to_string()).collect() }
}

#[test]
fn matcher_tags_each_entry_with_its_set() {
    let sets = vec![set("service", &["a/x.service"]), set("timer", &["a/x.timer"])];
    assert_eq!(match_target(&sets, "a/x.service"), Some(0));
    assert_eq!(match_target(&sets, "a/x.timer"), Some(1));
    assert_eq!(match_target(&sets, "a/readme"), None);
    assert_eq!(plan_entry(&sets, "a/x.service"), Some((0, "x.service".to_string())));
    assert_eq!(plan_entry(&sets, "a/x.timer"), Some((1, "x.timer".to_string())));
    assert_eq!(plan_entry(&sets, "a/readme"), None);
}

#[test]
fn first_matching_set_wins() {
    let sets = vec![set("one", &["p/u.service"]), set("two", &["p/u.service"])];
    assert_eq!(match_target(&sets, "p/u.service"), Some(0));
    assert_eq!(match_target(&Vec::new(), "p/u.service"), None);
}

#[test]
fn entry_without_file_name_is_dropped() {
    let sets = vec![set("odd", &["a/.."])];
    assert_eq!(match_target(&sets, "a/.."), Some(0));
    assert_eq!(plan_entry(&sets, "a/.."), None);
}

#[test]
fn unit_ids() {
    assert_eq!(unit_id("foo", "getty@.service"), "foo-getty_-service");
    assert_eq!(unit_id("pkg", "plain"), "pkg-plain");
    let u = UnitEntry::new("core", "foo", "a.b@c.timer".to_string(), "[Timer]".to_string());
    assert_eq!(u.id, "foo-a-b_c-timer");
    assert_eq!(u.package, "foo");
    assert_eq!(u.repo, "core");
    assert_eq!(u.filename, "a.b@c.timer");
    assert_eq!(u.content, "[Timer]");
}

#[test]
fn unit_paths_from_listing() {
    let files = "%FILES%\nusr/\nusr/lib/systemd/system/a.service\n  usr/lib/systemd/system/b.timer\n\
                 usr/lib/systemd/system/a.service\nusr/share/doc/x.service\nusr/lib/systemd/c.service.d/\n\
                 usr/lib/systemd/system/d.timer\r\nusr/lib/systemd/system/e.service";
    let u = collect_unit_paths(files);
    assert_eq!(
        u.services,
        vec![
            "usr/lib/systemd/system/a.service".to_string(),
            "usr/lib/systemd/system/e.service".to_string()
        ]
    );
    assert_eq!(
        u.timers,
        vec![
            "usr/lib/systemd/system/b.timer".to_string(),
            "usr/lib/systemd/system/d.timer".to_string()
        ]
    );
    assert!(!u.is_empty());
    let t = u.into_targets();
    assert_eq!(t.len(), 2);
    assert_eq!(t[0].label, "services");
    assert_eq!(t[1].label, "timers");
    assert_eq!(t[1].paths.len(), 2);
}

#[test]
fn listing_without_units_is_empty() {
    let u = collect_unit_paths("%FILES%\nusr/bin/ls\nusr/lib/systemd/\n");
    assert!(u.is_empty());
}

#[test]
fn unit_source_needs_filename_then_name() {
    let d = parse_desc("%NAME%\nfoo\n").unwrap();
    assert_eq!(unit_source(&d).err(), Some(ProcessError::MissingFilename));
    let d = parse_desc("%FILENAME%\nfoo.pkg\n").unwrap();
    assert_eq!(unit_source(&d).err(), Some(ProcessError::MissingName));
    let d = parse_desc("%FILENAME%\nfoo.pkg\n%NAME%\nfoo\n").unwrap();
    assert_eq!(unit_source(&d).ok(), Some(("foo.pkg".to_string(), "foo".to_string())));
}

#[test]
fn prepare_adds_repo_and_finds_units() {
    let e = PackageEntry {
        root: "foo-1.0".to_string(),
        desc: "%NAME%\nfoo\n%DEPENDS%\nbar\nbaz\n".to_string(),
        files: "%FILES%\nusr/lib/systemd/system/foo.service\n".to_string(),
    };
    let p = prepare_package(&e, "core").unwrap();
    assert_eq!(p.desc.get_single(DescKey::Repo), Some("core"));
    assert_eq!(p.desc.get_single(DescKey::Name), Some("foo"));
    assert_eq!(p.units.services, vec!["usr/lib/systemd/system/foo.service".to_string()]);
    assert!(p.units.timers.is_empty());
    let bad = PackageEntry { root: "x".to_string(), desc: "%NOPE%\n".to_string(), files: String::new() };
    assert!(prepare_package(&bad, "core").is_err());
}
