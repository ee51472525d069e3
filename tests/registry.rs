use crates_lsp::cache::{expiry, fetch_record, time_to_live, CachedVersion, CrateCache, Fetch, DAY};
use crates_lsp::registry::{index_path, latest_from_index, latest_release, CrateError, IndexEntry, Release};
use crates_lsp::resolve::{outcome_of, VersionBatch};
use crates_lsp::version::CrateVersion;

fn v(s: &str) -> CrateVersion {
    CrateVersion::parse(s).unwrap()
}

fn release(s: &str, yanked: bool) -> Release {
    Release { version: v(s), yanked }
}

fn entry(s: &str, yanked: bool) -> IndexEntry {
    IndexEntry { vers: s.to_string(), yanked }
}

#[test]
fn sparse_index_buckets() {
    assert_eq!(index_path("a").unwrap(), "1/a");
    assert_eq!(index_path("ab").unwrap(), "2/ab");
    assert_eq!(index_path("abc").unwrap(), "3/a/abc");
    assert_eq!(index_path("abcd").unwrap(), "ab/cd/abcd");
    assert_eq!(index_path("serde").unwrap(), "se/rd/serde");
}

#[test]
fn empty_name_is_invalid() {
    assert_eq!(index_path(""), Err(CrateError::InvalidCrateName(String::new())));
}

#[test]
fn stable_preferred_and_yanked_excluded() {
    let r = latest_release(vec![
        release("1.0.0", false),
        release("1.1.0-beta", false),
        release("2.0.0", true),
    ]);
    assert_eq!(r.unwrap(), v("1.0.0"));

    let r = latest_release(vec![release("1.1.0-beta", false)]);
    assert_eq!(r.unwrap(), v("1.1.0-beta"));
}

#[test]
fn greatest_stable_wins_regardless_of_order() {
    let r = latest_release(vec![
        release("1.10.0", false),
        release("1.9.3", false),
        release("0.1.0", false),
        release("1.2.0", false),
    ]);
    assert_eq!(r.unwrap(), v("1.10.0"));

    let r = latest_release(vec![release("2.0.0-rc.1", false), release("2.0.0-alpha", false)]);
    assert_eq!(r.unwrap(), v("2.0.0-rc.1"));
}

#[test]
fn no_versions_found() {
    assert_eq!(latest_release(vec![]), Err(CrateError::NoVersionsFound));
    assert_eq!(
        latest_release(vec![release("1.0.0", true)]),
        Err(CrateError::NoVersionsFound)
    );
}

#[test]
fn index_lines_are_read() {
    let r = latest_from_index(&vec![entry("0.1.0", false), entry("0.2.0", false), entry("0.3.0", true)]);
    assert_eq!(r.unwrap(), v("0.2.0"));
    let r = latest_from_index(&vec![entry("0.1.0", false), entry("not a version", false)]);
    assert!(matches!(r, Err(CrateError::Deserialization(_))));
}

#[test]
fn versions_parse_and_order() {
    let x = v("1.2.3");
    assert_eq!((x.major(), x.minor(), x.patch()), (1, 2, 3));
    assert!(x.is_stable());
    assert!(!v("1.2.3-beta").is_stable());
    assert!(v("1.2.3-beta").lt(&x));
    assert!(x.lt(&v("1.10.0")));
    assert!(!x.lt(&x));
    assert!(CrateVersion::parse("1.2").is_none());
    assert_eq!(x.duplicate(), x);
}

#[test]
fn cache_put_then_get() {
    let mut cache = CrateCache::new();
    let now: i128 = 1_000;
    cache.put("x", Some(v("1.2.3")), now + 10);
    match cache.get("x", now) {
        CachedVersion::Known(found) => assert_eq!(found, v("1.2.3")),
        _ => panic!("expected a known version"),
    }
    assert!(matches!(cache.get("x", now + 10), CachedVersion::Unknown));
    assert!(matches!(cache.get("y", now), CachedVersion::Unknown));

    let mut batch = VersionBatch::new();
    assert!(!batch.lookup("x", cache.get("x", now)));
    assert_eq!(batch.dispatched(), 0);
}

#[test]
fn cache_overwrites_and_promotes() {
    let mut cache = CrateCache::new();
    cache.put("x", Some(v("1.0.0")), 100);
    cache.put("x", None, 100);
    assert!(matches!(cache.get("x", 0), CachedVersion::DoesNotExist));

    let stale = Fetch { version: Some(v("1.0.0")), expires_at: 5 };
    assert!(matches!(cache.promote("y", Some(stale), 10), CachedVersion::Unknown));
    assert!(matches!(cache.get("y", 0), CachedVersion::Unknown));
    let fresh = Fetch { version: Some(v("3.0.0")), expires_at: 50 };
    assert!(matches!(cache.promote("y", Some(fresh), 10), CachedVersion::Known(_)));
    assert!(matches!(cache.get("y", 10), CachedVersion::Known(_)));
}

#[test]
fn ttl_is_one_day_and_saturates() {
    assert_eq!(DAY, 86_400_000_000_000);
    assert_eq!(time_to_live(&None), DAY);
    assert_eq!(time_to_live(&Some(v("1.0.0"))), DAY);
    assert_eq!(expiry(5, DAY), 5 + DAY);
    assert_eq!(expiry(i128::MAX - 1, DAY), i128::MAX);
}

#[test]
fn all_misses_dispatch_one_fetch_each() {
    let mut cache = CrateCache::new();
    let names = ["serde", "log", "tracing", "crate-does-not-exist"];
    let mut batch = VersionBatch::new();
    for name in names {
        assert!(batch.lookup(name, cache.get(name, 0)));
    }
    assert_eq!(batch.dispatched(), 4);
    assert_eq!(batch.pending(), 4);
    for name in names.iter().rev() {
        let outcome = if *name == "crate-does-not-exist" {
            outcome_of(Err(CrateError::Transport("unreachable".to_string())))
        } else {
            outcome_of(Ok(v("1.0.0")))
        };
        let ttl = time_to_live(&outcome);
        batch.complete(&mut cache, name, fetch_record(outcome, 0, ttl));
    }
    assert_eq!(batch.pending(), 0);
    let versions = batch.into_versions();
    assert_eq!(versions.len(), 4);
    for name in names {
        let (_, found) = versions.iter().find(|(n, _)| n == name).unwrap();
        assert_eq!(found.is_some(), name != "crate-does-not-exist");
    }
}

#[test]
fn negative_result_is_cached() {
    let mut cache = CrateCache::new();
    let mut batch = VersionBatch::new();
    assert!(batch.lookup("nope", cache.get("nope", 0)));
    let record = fetch_record(None, 0, time_to_live(&None));
    assert_eq!(record.expires_at, DAY);
    assert!(record.version.is_none());
    batch.complete(&mut cache, "nope", record);

    let mut second = VersionBatch::new();
    assert!(!second.lookup("nope", cache.get("nope", DAY - 1)));
    assert_eq!(second.dispatched(), 0);
    assert_eq!(second.into_versions(), vec![("nope".to_string(), None)]);

    let mut third = VersionBatch::new();
    assert!(third.lookup("nope", cache.get("nope", DAY)));
}

#[test]
fn custom_ttl_record() {
    let record = fetch_record(Some(v("2.0.0")), 100, 50);
    assert_eq!(record.expires_at, 150);
    let mut cache = CrateCache::new();
    let mut batch = VersionBatch::new();
    assert!(batch.lookup("short", cache.get("short", 100)));
    batch.complete(&mut cache, "short", record);
    assert!(matches!(cache.get("short", 149), CachedVersion::Known(_)));
    assert!(matches!(cache.get("short", 150), CachedVersion::Unknown));
    assert_eq!(fetch_record(None, i128::MAX - 1, DAY).expires_at, i128::MAX);
}
