use rpg2linux::catalog::{entry_version_of, latest_match, version_pattern};
use rpg2linux::errors::Errors;
use rpg2linux::version::NWJS;

fn nwjs(v: &str) -> NWJS {
    NWJS { nwjs_version: v.to_string(), especific_nwjs_commands: Vec::new() }
}

const LISTING: &str = "<a href=\"v1.0.0/\">v1.0.0/</a>\n<a href=\"v1.5.0/\">v1.5.0/</a>\n<a href=\"v2.0.0/\">v2.0.0/</a>\n";

#[test]
fn wildcard_resolves_to_last_matching_entry() {
    let r = nwjs("1.*.0").get_version(LISTING);
    assert_eq!(r.unwrap(), "1.5.0");
}

#[test]
fn exact_version_resolves_to_itself() {
    assert_eq!(nwjs("2.0.0").get_version(LISTING).unwrap(), "2.0.0");
    assert_eq!(nwjs("*.*.*").get_version(LISTING).unwrap(), "2.0.0");
}

#[test]
fn no_match_is_not_found() {
    assert!(matches!(nwjs("3.*.*").get_version(LISTING), Err(Errors::Unknown)));
    assert!(matches!(nwjs("1.*.0").get_version(""), Err(Errors::Unknown)));
}

#[test]
fn dot_is_literal_in_the_pattern() {
    assert!(matches!(nwjs("1.0.0").get_version("v1x0x0/"), Err(Errors::Unknown)));
}

#[test]
fn refused_pattern_is_invalid_version() {
    assert!(matches!(nwjs("1.(").get_version(LISTING), Err(Errors::InvalidNWJSVersion(_))));
}

#[test]
fn pattern_escapes_dots_and_wildcards() {
    assert_eq!(version_pattern("1.*.0"), "v1\\.\\d+\\.0/");
    assert_eq!(version_pattern(""), "v/");
}

#[test]
fn entry_version_drops_prefix_and_slashes() {
    assert_eq!(entry_version_of("v1.5.0/"), "1.5.0");
    assert_eq!(entry_version_of("1.5.0"), "1.5.0");
    assert_eq!(entry_version_of(""), "");
}

#[test]
fn latest_match_takes_the_last_entry() {
    let entries = vec!["v0.1.0/".to_string(), "v0.3.0/".to_string(), "v0.2.0/".to_string()];
    assert_eq!(latest_match(&entries).unwrap(), "0.2.0");
    assert!(matches!(latest_match(&Vec::new()), Err(Errors::Unknown)));
}
