use repo_scan::cache::{build_scan_fingerprint, fingerprint_manifests, ManifestStat, ResultCache};

fn stats(mtime: u64) -> Vec<ManifestStat> {
    vec![ManifestStat { path: "package.json".to_string(), mtime, size: 120 }]
}

#[test]
fn second_scan_of_unchanged_input_is_a_hit() {
    let fp = build_scan_fingerprint("local", "/repo", &None, &stats(10));
    let mut cache = ResultCache::new();
    assert!(cache.get("local", &fp).is_none());
    cache.put("local", &fp, "{\"modules\":[]}".to_string(), 42);
    let again = build_scan_fingerprint("local", "/repo", &None, &stats(10));
    assert_eq!(again, fp);
    assert_eq!(cache.get("local", &again), Some(("{\"modules\":[]}".to_string(), 42)));
}

#[test]
fn fingerprint_changes_with_inputs() {
    let a = build_scan_fingerprint("local", "/repo", &None, &stats(10));
    assert_ne!(a, build_scan_fingerprint("local", "/repo", &None, &stats(11)));
    assert_ne!(a, build_scan_fingerprint("github", "/repo", &None, &stats(10)));
    assert_ne!(a, build_scan_fingerprint("local", "/repo", &Some("abc".to_string()), &stats(10)));
    assert_eq!(fingerprint_manifests().len(), 22);
}

#[test]
fn put_replaces_and_keeps_other_keys() {
    let mut cache = ResultCache::new();
    cache.put("local", "f1", "one".to_string(), 1);
    cache.put("local", "f2", "two".to_string(), 2);
    cache.put("local", "f1", "uno".to_string(), 3);
    assert_eq!(cache.get("local", "f1"), Some(("uno".to_string(), 3)));
    assert_eq!(cache.get("local", "f2"), Some(("two".to_string(), 2)));
    assert_eq!(cache.get("github", "f1"), None);
    assert_eq!(cache.entries.len(), 2);
}
