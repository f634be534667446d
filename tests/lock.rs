use shipit::lock::{deploy_lock, lock_path, rollback_lock, secrets_need_update, ShipitLock};

fn sample() -> ShipitLock {
    ShipitLock::new_at(
        "20250310-093000".to_string(),
        Some("20250309-210500".to_string()),
        "0123456789abcdef0123456789abcdef01234567".to_string(),
        "2025-03-10T09:30:00+01:00".to_string(),
        None,
    )
}

fn same(a: &ShipitLock, b: &ShipitLock) -> bool {
    a.current_release == b.current_release
        && a.previous_release == b.previous_release
        && a.git_sha == b.git_sha
        && a.deployed_at == b.deployed_at
        && a.secrets_hash == b.secrets_hash
}

#[test]
fn lock_round_trips() {
    let l = sample();
    let back = ShipitLock::from_json(&l.to_json()).unwrap();
    assert!(same(&l, &back));
    let mut odd = sample();
    odd.current_release = "quote\" back\\slash\nnew\tline \u{1} é".to_string();
    odd.secrets_hash = Some("abc".to_string());
    let back = ShipitLock::from_json(&odd.to_json()).unwrap();
    assert!(same(&odd, &back));
}

#[test]
fn lock_text_is_pretty_json() {
    let json = sample().to_json();
    assert_eq!(
        json,
        "{\n  \"current_release\": \"20250310-093000\",\n  \"previous_release\": \"20250309-210500\",\n  \"git_sha\": \"0123456789abcdef0123456789abcdef01234567\",\n  \"deployed_at\": \"2025-03-10T09:30:00+01:00\",\n  \"secrets_hash\": null\n}"
    );
}

#[test]
fn reads_record_without_secrets_hash_and_with_null_previous() {
    let text = "{\"current_release\":\"a\",\"previous_release\":null,\"git_sha\":\"unknown\",\"deployed_at\":\"t\"}\n";
    let l = ShipitLock::from_json(text).unwrap();
    assert_eq!(l.current_release, "a");
    assert_eq!(l.previous_release, None);
    assert_eq!(l.git_sha, "unknown");
    assert_eq!(l.secrets_hash, None);
}

#[test]
fn rejects_malformed_records() {
    assert!(ShipitLock::from_json("").is_none());
    assert!(ShipitLock::from_json("{\"current_release\": \"a\"}").is_none());
    assert!(ShipitLock::from_json("{\"current_release\": \"a\", \"previous_release\": null, \"git_sha\": \"x\", \"deployed_at\": \"t\"} extra").is_none());
}

#[test]
fn deploy_lock_records_release_and_previous_current() {
    let prev = Some(sample());
    let l = deploy_lock(&prev, "20250311-000000", "sha".to_string(), "now".to_string(), Some("h".to_string()));
    assert_eq!(l.current_release, "20250311-000000");
    assert_eq!(l.previous_release.as_deref(), Some("20250310-093000"));
    assert_eq!(l.secrets_hash.as_deref(), Some("h"));
    let first = deploy_lock(&None, "20250311-000000", "sha".to_string(), "now".to_string(), None);
    assert_eq!(first.previous_release, None);
}

#[test]
fn rollback_lock_swaps_current_and_keeps_revision() {
    let l = rollback_lock(&sample(), "20250309-210500", "later".to_string());
    assert_eq!(l.current_release, "20250309-210500");
    assert_eq!(l.previous_release.as_deref(), Some("20250310-093000"));
    assert_eq!(l.git_sha, "0123456789abcdef0123456789abcdef01234567");
    assert_eq!(l.deployed_at, "later");
}

#[test]
fn secrets_update_skipped_only_on_equal_hash() {
    let mut l = sample();
    l.secrets_hash = Some("abc".to_string());
    let prev = Some(l);
    assert!(!secrets_need_update(&prev, &Some("abc".to_string())));
    assert!(secrets_need_update(&prev, &Some("abd".to_string())));
    assert!(secrets_need_update(&prev, &None));
    assert!(secrets_need_update(&None, &Some("abc".to_string())));
    assert!(secrets_need_update(&Some(sample()), &Some("abc".to_string())));
}

#[test]
fn lock_lives_under_app_path() {
    assert_eq!(lock_path("/var/deploy/app"), "/var/deploy/app/shipit.lock");
}

#[test]
fn new_lock_is_stamped_now() {
    let l = ShipitLock::new("a".to_string(), None, "s".to_string(), None);
    assert_eq!(l.current_release, "a");
    assert!(l.deployed_at.len() >= 19);
}

#[test]
fn reads_members_in_any_order_and_ignores_others() {
    let text = "{\n  \"deployed_at\": \"t\",\n  \"extra\": \"x\",\n  \"secrets_hash\": \"h\",\n  \"git_sha\": \"s\",\n  \"current_release\": \"b\",\n  \"previous_release\": \"a\"\n}\n";
    let l = ShipitLock::from_json(text).unwrap();
    assert_eq!(l.current_release, "b");
    assert_eq!(l.previous_release.as_deref(), Some("a"));
    assert_eq!(l.git_sha, "s");
    assert_eq!(l.deployed_at, "t");
    assert_eq!(l.secrets_hash.as_deref(), Some("h"));
    let no_prev = "{\"git_sha\":\"s\",\"deployed_at\":\"t\",\"current_release\":\"c\"}";
    assert_eq!(ShipitLock::from_json(no_prev).unwrap().previous_release, None);
    assert!(ShipitLock::from_json("{\"current_release\":null,\"git_sha\":\"s\",\"deployed_at\":\"t\"}").is_none());
    assert!(ShipitLock::from_json("{}").is_none());
    assert!(ShipitLock::from_json("{\"current_release\":\"c\",\"git_sha\":\"s\",\"deployed_at\":\"t\",}").is_none());
}
