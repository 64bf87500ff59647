use rpg2linux::cache::{archive_name_of, artifact_stem_of, download_url_of, overlay_source_of, RuntimeCache};
use rpg2linux::port::{blank, port};

#[test]
fn second_acquire_is_a_cache_hit() {
    let mut cache = RuntimeCache::new(Vec::new(), Vec::new());
    let mut downloads = 0;
    let first = cache.acquire("0.83.0", false);
    if first.download.is_some() {
        downloads += 1;
    }
    let second = cache.acquire("0.83.0", false);
    if second.download.is_some() {
        downloads += 1;
    }
    assert_eq!(downloads, 1);
    assert_eq!(first.download.unwrap(), "https://dl.nwjs.io/v0.83.0/nwjs-v0.83.0-linux-x64.tar.gz");
    assert!(first.extract);
    assert!(!second.extract);
    assert_eq!(second.archive, "nwjs-v0.83.0-linux-x64.tar.gz");
}

#[test]
fn variants_are_cached_apart() {
    let mut cache = RuntimeCache::new(Vec::new(), Vec::new());
    let _ = cache.acquire("0.83.0", false);
    let sdk = cache.acquire("0.83.0", true);
    assert_eq!(sdk.download.unwrap(), "https://dl.nwjs.io/v0.83.0/nwjs-sdk-v0.83.0-linux-x64.tar.gz");
    assert!(sdk.extract);
}

#[test]
fn present_archive_is_unpacked_without_download() {
    let mut cache = RuntimeCache::new(vec!["nwjs-v0.80.0-linux-x64.tar.gz".to_string()], Vec::new());
    let plan = cache.acquire("0.80.0", false);
    assert!(plan.download.is_none());
    assert!(plan.extract);
    assert_eq!(plan.unpack_dir, "nwjs-v0.80.0-linux-x64");
    assert_eq!(plan.overlay_source, "nwjs-v0.80.0-linux-x64/nwjs-v0.80.0-linux-x64");
}

#[test]
fn artifact_names() {
    assert_eq!(artifact_stem_of("1.5.0", true), "nwjs-sdk-v1.5.0-linux-x64");
    assert_eq!(archive_name_of("1.5.0", false), "nwjs-v1.5.0-linux-x64.tar.gz");
    assert_eq!(download_url_of("1.5.0", false), "https://dl.nwjs.io/v1.5.0/nwjs-v1.5.0-linux-x64.tar.gz");
    assert_eq!(overlay_source_of("1.5.0", true), "nwjs-sdk-v1.5.0-linux-x64/nwjs-sdk-v1.5.0-linux-x64");
}

#[test]
fn port_renames_only_blank_names() {
    let mut cache = RuntimeCache::new(Vec::new(), Vec::new());
    let plan = port(" \t\u{3000}", &mut cache, "0.83.0", false);
    assert_eq!(plan.new_name.unwrap(), "asd");
    assert!(plan.runtime.download.is_some());
    let again = port("My Game", &mut cache, "0.83.0", false);
    assert!(again.new_name.is_none());
    assert!(again.runtime.download.is_none());
}

#[test]
fn blank_names() {
    assert!(blank(""));
    assert!(blank("\n\r \u{a0}"));
    assert!(!blank(" a "));
}
