use likes_cache::cache::merge_cached_pages;
use likes_cache::cache::lookup_or_empty;
use likes_cache::cache::CacheLoadError;
use likes_cache::lookup::UserIdLookup;
use likes_cache::records::LikedTweets;
use likes_cache::records::TweetDatum;
use likes_cache::records::TwitLikeResponse;
use likes_cache::records::UserRecord;

fn user(id: &str) -> UserRecord {
    UserRecord {
        id: id.to_string(),
        name: format!("Name of {}", id),
        username: format!("handle_{}", id),
    }
}

fn datum(author_id: &str, created_at: u64) -> TweetDatum {
    TweetDatum {
        author_id: author_id.to_string(),
        created_at,
        user: None,
    }
}

fn bob_lookup() -> UserIdLookup {
    let mut lkup = UserIdLookup::new();
    lkup.insert("u1".to_string(), Some(user("u1")));
    lkup.insert("u2".to_string(), Some(user("u2")));
    lkup
}

fn bob_pages() -> Vec<TwitLikeResponse> {
    let page1 = TwitLikeResponse {
        user: Some(user("bob")),
        data: Some(vec![datum("u1", 300), datum("u2", 100)]),
    };
    let page2 = TwitLikeResponse {
        user: None,
        data: Some(vec![datum("u1", 200)]),
    };
    vec![page1, page2]
}

#[test]
fn merge_joins_all_pages_sorted_by_timestamp() {
    let agg = merge_cached_pages(&bob_pages(), &bob_lookup(), "bob").unwrap();
    assert_eq!(agg.tweets.len(), 3);
    let stamps: Vec<u64> = agg.tweets.iter().map(|t| t.created_at).collect();
    assert_eq!(stamps, vec![100, 200, 300]);
    let authors: Vec<String> = agg.tweets.iter().map(|t| t.author_id.clone()).collect();
    assert_eq!(authors, vec!["u2", "u1", "u1"]);
    for t in &agg.tweets {
        let resolved = t.user.as_ref().expect("author must be resolved");
        assert_eq!(resolved.id, t.author_id);
    }
    assert_eq!(agg.user.as_ref().unwrap().id, "bob");
}

#[test]
fn merge_count_is_sum_of_page_counts() {
    let agg = merge_cached_pages(&bob_pages(), &bob_lookup(), "bob").unwrap();
    assert_eq!(agg.tweets.len(), 2 + 1);
}

#[test]
fn merge_adopts_first_subject_user_carried_by_a_page() {
    let pages = vec![
        TwitLikeResponse { user: None, data: Some(vec![datum("u1", 1)]) },
        TwitLikeResponse { user: Some(user("bob")), data: None },
        TwitLikeResponse { user: Some(user("carol")), data: None },
    ];
    let agg = merge_cached_pages(&pages, &bob_lookup(), "bob").unwrap();
    assert_eq!(agg.user.as_ref().unwrap().id, "bob");
}

#[test]
fn missing_author_is_a_fatal_integrity_error() {
    let mut lkup = UserIdLookup::new();
    lkup.insert("u1".to_string(), Some(user("u1")));
    let err = merge_cached_pages(&bob_pages(), &lkup, "bob").unwrap_err();
    assert_eq!(err, CacheLoadError::MissingAuthor("u2".to_string()));
    assert_eq!(err.message(), "Expected user data for u2");
}

#[test]
fn reserved_but_unpopulated_author_is_also_fatal() {
    let mut lkup = UserIdLookup::new();
    lkup.insert("u1".to_string(), Some(user("u1")));
    lkup.insert("u2".to_string(), None);
    let err = merge_cached_pages(&bob_pages(), &lkup, "bob").unwrap_err();
    assert_eq!(err, CacheLoadError::MissingAuthor("u2".to_string()));
}

#[test]
fn no_matching_pages_fails_with_no_tweets() {
    let pages: Vec<TwitLikeResponse> = Vec::new();
    let err = merge_cached_pages(&pages, &bob_lookup(), "alice").unwrap_err();
    assert_eq!(err, CacheLoadError::NoTweets("alice".to_string()));
    assert_eq!(
        err.message(),
        "No tweets were found for user 'alice'. Did you mean to run `export` first?"
    );
}

#[test]
fn pages_without_tweets_fail_with_no_tweets() {
    let pages = vec![
        TwitLikeResponse { user: Some(user("bob")), data: None },
        TwitLikeResponse { user: None, data: Some(Vec::new()) },
    ];
    let err = merge_cached_pages(&pages, &bob_lookup(), "bob").unwrap_err();
    assert_eq!(err, CacheLoadError::NoTweets("bob".to_string()));
}

#[test]
fn merge_is_idempotent_on_an_unchanged_cache() {
    let pages = bob_pages();
    let lkup = bob_lookup();
    let first = merge_cached_pages(&pages, &lkup, "bob").unwrap();
    let second = merge_cached_pages(&pages, &lkup, "bob").unwrap();
    assert_eq!(first, second);
}

#[test]
fn sort_keeps_input_order_for_equal_timestamps() {
    let mut agg = LikedTweets {
        user: None,
        tweets: vec![datum("a", 5), datum("b", 5), datum("c", 1), datum("d", 5)],
    };
    agg.sort_by_date();
    let order: Vec<(String, u64)> = agg
        .tweets
        .iter()
        .map(|t| (t.author_id.clone(), t.created_at))
        .collect();
    assert_eq!(
        order,
        vec![
            ("c".to_string(), 1),
            ("a".to_string(), 5),
            ("b".to_string(), 5),
            ("d".to_string(), 5),
        ]
    );
}

#[test]
fn merge_keeps_page_order_for_equal_timestamps() {
    let pages = vec![
        TwitLikeResponse { user: None, data: Some(vec![datum("u1", 7), datum("u2", 7)]) },
        TwitLikeResponse { user: None, data: Some(vec![datum("u2", 7), datum("u1", 3)]) },
    ];
    let agg = merge_cached_pages(&pages, &bob_lookup(), "bob").unwrap();
    let authors: Vec<String> = agg.tweets.iter().map(|t| t.author_id.clone()).collect();
    assert_eq!(authors, vec!["u1", "u1", "u2", "u2"]);
    let stamps: Vec<u64> = agg.tweets.iter().map(|t| t.created_at).collect();
    assert_eq!(stamps, vec![3, 7, 7, 7]);
}

#[test]
fn lookup_resolves_latest_binding() {
    let mut lkup = UserIdLookup::new();
    lkup.insert("u1".to_string(), Some(user("u1")));
    let mut replacement = user("u1");
    replacement.name = "renamed".to_string();
    lkup.insert("u1".to_string(), Some(replacement));
    let got = lkup.resolve("u1").expect("binding must resolve");
    assert_eq!(got.name, "renamed");
}

#[test]
fn lookup_misses_are_none() {
    let mut lkup = UserIdLookup::new();
    lkup.insert("u1".to_string(), None);
    assert!(lkup.resolve("u1").is_none());
    assert!(lkup.resolve("nobody").is_none());
}

#[test]
fn resolved_record_is_an_independent_copy() {
    let lkup = bob_lookup();
    let got = lkup.resolve("u1").unwrap();
    drop(lkup);
    assert_eq!(got.id, "u1");
}

#[test]
fn fallback_lookup_is_empty_when_nothing_loaded() {
    let lkup = lookup_or_empty(None);
    assert_eq!(lkup.len(), 0);
    assert!(lkup.resolve("u1").is_none());
}

#[test]
fn fallback_lookup_hands_a_loaded_table_through() {
    let lkup = lookup_or_empty(Some(bob_lookup()));
    assert_eq!(lkup.resolve("u1").unwrap().id, "u1");
    assert_eq!(lkup.resolve("u2").unwrap().id, "u2");
}
