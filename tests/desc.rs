use std::str::FromStr;

use indexer::desc::{parse_desc, DescError, DescKey, DescValue};

fn array_of(v: Option<&DescValue>) -> Vec<String> {
    match v {
        Some(DescValue::Array(a)) => a.clone(),
        _ => panic!("expected an array value"),
    }
}

#[test]
fn example_name_and_depends() {
    let mut d = parse_desc("%NAME%\nfoo\n%DEPENDS%\nbar\nbaz\n").unwrap();
    assert_eq!(d.get_single(DescKey::Name), Some("foo"));
    assert_eq!(d.get_single(DescKey::Depends), None);
    assert_eq!(array_of(d.get(DescKey::Depends)), vec!["bar".to_string(), "baz".to_string()]);
    d.put_single(DescKey::Repo, "core".to_string());
    assert_eq!(d.get_single(DescKey::Repo), Some("core"));
    assert_eq!(DescKey::Name.field_name(), "name");
    assert_eq!(DescKey::Depends.field_name(), "depends");
    assert_eq!(DescKey::Repo.field_name(), "repo");
    assert!(d.get(DescKey::Version).is_none());
}

#[test]
fn unknown_tag_fails() {
    match parse_desc("%NAME%\nfoo\n%BOGUS%\nx\n") {
        Err(DescError::InvalidKey(t)) => assert_eq!(t, "BOGUS"),
        Ok(_) => panic!("an unknown tag must fail"),
    }
}

#[test]
fn unknown_tag_message() {
    let e = parse_desc("%bogus%\n").err().unwrap();
    assert_eq!(e.message(), "invalid key: bogus");
}

#[test]
fn empty_tag_fails() {
    match parse_desc("%%\nx\n") {
        Err(DescError::InvalidKey(t)) => assert_eq!(t, ""),
        Ok(_) => panic!("an empty tag must fail"),
    }
}

#[test]
fn single_stays_single_and_order_kept() {
    let d = parse_desc("%VERSION%\n1.0\n%LICENSE%\nMIT\nGPL\nBSD\n").unwrap();
    assert_eq!(d.get_single(DescKey::Version), Some("1.0"));
    assert!(matches!(d.get(DescKey::Version), Some(DescValue::Single(_))));
    assert_eq!(
        array_of(d.get(DescKey::License)),
        vec!["MIT".to_string(), "GPL".to_string(), "BSD".to_string()]
    );
}

#[test]
fn tags_ignore_case_and_extra_percent() {
    let d = parse_desc("%name%\nfoo\n%%Filename%%\nfoo-1.0.pkg.tar.zst\n").unwrap();
    assert_eq!(d.get_single(DescKey::Name), Some("foo"));
    assert_eq!(d.get_single(DescKey::Filename), Some("foo-1.0.pkg.tar.zst"));
}

#[test]
fn blank_lines_and_crlf() {
    let d = parse_desc("%NAME%\r\n\r\nfoo\r\n\n%ARCH%\nx86_64").unwrap();
    assert_eq!(d.get_single(DescKey::Name), Some("foo"));
    assert_eq!(d.get_single(DescKey::Arch), Some("x86_64"));
}

#[test]
fn lines_before_any_tag_go_under_begin() {
    let d = parse_desc("stray\n%NAME%\nfoo\n").unwrap();
    assert_eq!(d.get_single(DescKey::Begin), Some("stray"));
    assert_eq!(d.get_single(DescKey::Name), Some("foo"));
}

#[test]
fn repeated_tag_joins_lines() {
    let d = parse_desc("%GROUPS%\na\n%NAME%\nn\n%GROUPS%\nb\n").unwrap();
    assert_eq!(array_of(d.get(DescKey::Groups)), vec!["a".to_string(), "b".to_string()]);
}

#[test]
fn empty_text_has_no_fields() {
    let d = parse_desc("").unwrap();
    let mut i: usize = 0;
    while let Some(k) = DescKey::from_index(i) {
        assert!(d.get(k).is_none());
        assert_eq!(k.index(), i);
        i += 1;
    }
    assert_eq!(i, 25);
}

#[test]
fn put_single_replaces_array() {
    let mut d = parse_desc("%DEPENDS%\na\nb\n").unwrap();
    d.put_single(DescKey::Depends, "c".to_string());
    assert_eq!(d.get_single(DescKey::Depends), Some("c"));
}

#[test]
fn key_parsing() {
    assert_eq!(DescKey::from_upper("MD5SUM"), Some(DescKey::MD5Sum));
    assert_eq!(DescKey::from_upper("md5sum"), None);
    assert_eq!(DescKey::from_upper("REPO"), None);
    assert_eq!(DescKey::from_upper("BEGIN"), None);
    assert_eq!(DescKey::parse("pgpsig").ok(), Some(DescKey::PGPSig));
    assert_eq!(DescKey::from_str("OptDepends").ok(), Some(DescKey::OptDepends));
    assert!(DescKey::parse("repo").is_err());
    assert_eq!(DescKey::SHA256Sum.field_name(), "sha256_sum");
    assert_eq!(DescKey::CSize.field_name(), "c_size");
}
