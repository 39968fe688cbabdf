use likes_cache::cache::get_cache_directory_path;
use likes_cache::cache::get_cache_file_path;
use likes_cache::pattern::is_likes_page_for;
use likes_cache::pattern::matching_files;

#[test]
fn accepts_exact_username_prefix() {
    assert!(is_likes_page_for("likes-alice-1", "alice"));
    assert!(is_likes_page_for("likes-alice-2024-07-01", "alice"));
    assert!(is_likes_page_for("likes-bob-001", "bob"));
}

#[test]
fn rejects_longer_username_sharing_prefix() {
    assert!(!is_likes_page_for("likes-alicexyz-1", "alice"));
    assert!(is_likes_page_for("likes-alicexyz-1", "alicexyz"));
}

#[test]
fn rejects_other_usernames_and_shapes() {
    assert!(!is_likes_page_for("likes-bob-1", "alice"));
    assert!(!is_likes_page_for("notes-alice-1", "alice"));
    assert!(!is_likes_page_for("likes-alice", "alice"));
    assert!(!is_likes_page_for("likes-", "alice"));
    assert!(!is_likes_page_for("", "alice"));
}

#[test]
fn accepts_bare_prefix_with_empty_discriminator() {
    assert!(is_likes_page_for("likes-alice-", "alice"));
}

#[test]
fn scan_keeps_matches_in_listing_order_and_skips_unreadable() {
    let entries: Vec<Option<String>> = vec![
        Some("likes-bob-002".to_string()),
        None,
        Some("likes-alice-1".to_string()),
        Some("users.json".to_string()),
        Some("likes-bob-001".to_string()),
    ];
    let picked = matching_files(&entries, "bob");
    assert_eq!(picked.len(), 2);
    assert_eq!(picked[0], "likes-bob-002");
    assert_eq!(picked[1], "likes-bob-001");
}

#[test]
fn scan_of_unrelated_listing_is_empty() {
    let entries: Vec<Option<String>> = vec![Some("likes-alice-1".to_string()), None];
    let picked = matching_files(&entries, "bob");
    assert_eq!(picked.len(), 0);
}

#[test]
fn cache_directory_sits_under_the_base() {
    assert_eq!(get_cache_directory_path("/home/me"), "/home/me/.cache");
}

#[test]
fn cache_file_path_joins_root_and_name() {
    assert_eq!(
        get_cache_file_path("/home/me", "likes-alice-1"),
        "/home/me/.cache/likes-alice-1"
    );
}
