use shipit::retention::{parse_release_listing, releases_to_remove, sort_releases_desc};

fn names(v: &[&str]) -> Vec<String> {
    v.iter().map(|s| s.to_string()).collect()
}

#[test]
fn six_releases_keep_five_removes_the_oldest() {
    let listing = "20250103-120000\n20250101-120000\n20250106-120000\n20250102-120000\n20250105-120000\n20250104-120000\n";
    let releases = parse_release_listing(listing);
    assert_eq!(releases.len(), 6);
    let removed = releases_to_remove(&releases, 5, "20250106-120000");
    assert_eq!(removed, names(&["20250101-120000"]));
}

#[test]
fn nothing_removed_at_or_below_keep() {
    let releases = names(&["20250101-000000", "20250102-000000"]);
    assert!(releases_to_remove(&releases, 5, "20250102-000000").is_empty());
    assert!(releases_to_remove(&releases, 2, "20250102-000000").is_empty());
    assert!(releases_to_remove(&Vec::new(), 0, "x").is_empty());
}

#[test]
fn removes_count_minus_keep_oldest_first_newest_kept() {
    let releases = names(&["b", "d", "a", "e", "c"]);
    assert_eq!(releases_to_remove(&releases, 2, "e"), names(&["c", "b", "a"]));
    assert_eq!(releases_to_remove(&releases, 0, "e"), names(&["d", "c", "b", "a"]));
}

#[test]
fn current_release_is_never_removed() {
    // a stray newer directory pushes the current release out of the kept ones
    let releases = names(&["20990101-000000", "20250103-000000", "20250102-000000"]);
    assert_eq!(releases_to_remove(&releases, 1, "20250103-000000"), names(&["20250102-000000"]));
}

#[test]
fn sort_is_newest_first() {
    let releases = names(&["20240101-000000", "20250101-000000", "20231231-235959"]);
    assert_eq!(
        sort_releases_desc(&releases),
        names(&["20250101-000000", "20240101-000000", "20231231-235959"])
    );
}

#[test]
fn listing_trims_and_skips_blank_lines() {
    let out = "  a  \r\n\n b\n   \nc";
    assert_eq!(parse_release_listing(out), names(&["a", "b", "c"]));
    assert!(parse_release_listing("").is_empty());
}
