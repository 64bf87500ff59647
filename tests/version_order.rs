use rpg2linux::version::{compare_versions, version_values_of, NWJS};
use std::cmp::Ordering;

fn nwjs(v: &str) -> NWJS {
    NWJS { nwjs_version: v.to_string(), especific_nwjs_commands: Vec::new() }
}

#[test]
fn equal_length_versions_compare_segment_by_segment() {
    assert_eq!(compare_versions("1.2.10", "1.2.9"), Ordering::Greater);
    assert_eq!(compare_versions("1.2.9", "1.2.10"), Ordering::Less);
    assert_eq!(compare_versions("0.83.0", "0.83.0"), Ordering::Equal);
    assert_eq!(compare_versions("2.0.0", "1.99.99"), Ordering::Greater);
}

#[test]
fn fewer_segments_lose_ties() {
    assert_eq!(compare_versions("1.2", "1.2.0"), Ordering::Less);
    assert_eq!(compare_versions("1.2.0", "1.2"), Ordering::Greater);
}

#[test]
fn wildcards_and_text_count_as_zero() {
    assert_eq!(compare_versions("1.*.0", "1.0.0"), Ordering::Equal);
    assert_eq!(compare_versions("1.*.0", "1.1.0"), Ordering::Less);
    assert_eq!(compare_versions("x.y", "0.0"), Ordering::Equal);
}

#[test]
fn segment_values_follow_unsigned_parsing() {
    assert_eq!(version_values_of("1.+5.007"), vec![1, 5, 7]);
    assert_eq!(version_values_of("4294967295.4294967296"), vec![4294967295, 0]);
    assert_eq!(version_values_of("*..-1.+"), vec![0, 0, 0, 0]);
    assert_eq!(version_values_of(""), vec![0]);
    assert_eq!(version_values_of("12"), vec![12]);
}

#[test]
fn declared_versions_order_by_their_version_strings() {
    assert_eq!(nwjs("0.10.0").partial_cmp(&nwjs("0.9.5")), Some(Ordering::Greater));
    assert!(nwjs("0.9") < nwjs("0.9.0"));
    assert_eq!(nwjs("1.0").compare(&nwjs("01.0")), Ordering::Equal);
    assert!(nwjs("1.0") != nwjs("01.0"));
    assert!(nwjs("1.0") == nwjs("1.0"));
}

#[test]
fn default_declaration_accepts_any_version() {
    let d = NWJS::default();
    assert_eq!(d.nwjs_version, "*.*.*");
    assert!(d.especific_nwjs_commands.is_empty());
}
