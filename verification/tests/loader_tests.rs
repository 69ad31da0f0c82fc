use axtell_server::errors::FetchError;
use axtell_server::loader::BatchCache;
use axtell_server::loader::CacheEntry;
use axtell_server::loader::Loader;
use axtell_server::models::User;

fn user(id: i32) -> User {
    User {
        id,
        name: format!("user-{id}"),
        profile: String::new(),
        created_at: 1_000 + id as i64,
        updated_at: None,
        deleted_at: None,
    }
}

#[test]
fn concurrent_requests_for_the_same_ids_form_one_batch() {
    let mut cache: BatchCache<User> = BatchCache::new();
    // Five sibling fields each ask for the same five ids within one tick.
    for _ in 0..5 {
        for id in [1, 2, 3, 4, 5] {
            assert!(cache.load_cached(id).is_none());
            cache.request(id);
        }
    }
    let batch = cache.take_batch();
    assert_eq!(batch, vec![1, 2, 3, 4, 5]);
    // The one bulk fetch finds 1, 2 and 4; ids 3 and 5 are absent rows.
    let rows = vec![(1, user(1)), (2, user(2)), (4, user(4))];
    cache.resolve_batch(&batch, Ok(rows));
    match cache.load_cached(1) {
        Some(CacheEntry::Found(u)) => assert_eq!(u.name, "user-1"),
        other => panic!("id 1 should be found, got {other:?}"),
    }
    match cache.load_cached(4) {
        Some(CacheEntry::Found(u)) => assert_eq!(u.id, 4),
        other => panic!("id 4 should be found, got {other:?}"),
    }
    assert!(matches!(cache.load_cached(3), Some(CacheEntry::NotFound)));
    assert!(matches!(cache.load_cached(5), Some(CacheEntry::NotFound)));
    // Nothing is left pending: no second fetch is owed.
    assert!(cache.take_batch().is_empty());
}

#[test]
fn resolved_ids_answer_from_the_cache_without_a_new_batch() {
    let mut cache: BatchCache<User> = BatchCache::new();
    cache.request(7);
    let batch = cache.take_batch();
    cache.resolve_batch(&batch, Ok(vec![(7, user(7))]));
    // A later load of the same id answers immediately...
    assert!(matches!(cache.load_cached(7), Some(CacheEntry::Found(_))));
    // ...and requesting it again joins no new batch.
    cache.request(7);
    assert!(cache.take_batch().is_empty());
}

#[test]
fn a_failed_batch_shares_one_failure_across_all_its_ids() {
    let mut cache: BatchCache<User> = BatchCache::new();
    for id in [10, 20, 30] {
        cache.request(id);
    }
    let batch = cache.take_batch();
    cache.resolve_batch(&batch, Err(FetchError::new("connection lost".to_owned())));
    let e10 = match cache.load_cached(10) {
        Some(CacheEntry::Failed(e)) => e.clone(),
        other => panic!("id 10 should carry the batch failure, got {other:?}"),
    };
    let e30 = match cache.load_cached(30) {
        Some(CacheEntry::Failed(e)) => e.clone(),
        other => panic!("id 30 should carry the batch failure, got {other:?}"),
    };
    assert_eq!(e10, e30);
    assert_eq!(e10.message, "connection lost");
    // A later load of a failed id returns the cached failure without a new
    // store call: nothing joins a new batch.
    cache.request(20);
    assert!(cache.take_batch().is_empty());
    assert!(matches!(cache.load_cached(20), Some(CacheEntry::Failed(_))));
}

#[test]
fn duplicate_rows_resolve_to_the_first_match() {
    let mut cache: BatchCache<User> = BatchCache::new();
    cache.request(1);
    let batch = cache.take_batch();
    let mut second = user(1);
    second.name = "late duplicate".to_owned();
    cache.resolve_batch(&batch, Ok(vec![(1, user(1)), (1, second)]));
    match cache.load_cached(1) {
        Some(CacheEntry::Found(u)) => assert_eq!(u.name, "user-1"),
        other => panic!("id 1 should be found, got {other:?}"),
    }
}

#[test]
fn a_fresh_loader_set_has_every_cache_empty() {
    let loader = Loader::new();
    assert!(loader.users.load_cached(1).is_none());
    assert!(loader.posts.load_cached(1).is_none());
    assert!(loader.challenges.load_cached(1).is_none());
    assert!(loader.responses.load_cached(1).is_none());
    assert!(loader.comments.load_cached(1).is_none());
    assert!(loader.challenge_type.load_cached(1).is_none());
}
