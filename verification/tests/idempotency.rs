use stregsystemet::idempotency::{
    idempotency_applies, CacheKey, CachedResponse, IdempotencyCache,
};

fn key(token: &str) -> CacheKey {
    CacheKey {
        method: "POST".to_string(),
        uri: "/api/purchase/quickbuy".to_string(),
        token: token.to_string(),
    }
}

fn response(body: &str) -> CachedResponse {
    CachedResponse {
        status: 200,
        headers: vec![("content-type".to_string(), "application/json".to_string())],
        body: body.as_bytes().to_vec(),
    }
}

/// Stands in for the purchase handler: counts how often it really runs.
fn run_handler(counter: &mut u32, body: &str) -> CachedResponse {
    *counter += 1;
    response(body)
}

fn serve(cache: &mut IdempotencyCache, k: &CacheKey, counter: &mut u32) -> CachedResponse {
    match cache.lookup(k) {
        Some(cached) => cached,
        None => {
            let fresh = run_handler(counter, "{\"status\":\"Ok\"}");
            cache.store(k.clone(), fresh.clone());
            fresh
        }
    }
}

#[test]
fn identical_requests_get_identical_responses_without_rerunning() {
    let mut cache = IdempotencyCache::new(16);
    let mut handler_runs: u32 = 0;
    let k = key("token-1");

    let first = serve(&mut cache, &k, &mut handler_runs);
    let second = serve(&mut cache, &k, &mut handler_runs);

    assert_eq!(handler_runs, 1);
    assert_eq!(first.status, second.status);
    assert_eq!(first.headers, second.headers);
    assert_eq!(first.body, second.body);
}

#[test]
fn different_tokens_run_the_handler_again() {
    let mut cache = IdempotencyCache::new(16);
    let mut handler_runs: u32 = 0;

    serve(&mut cache, &key("token-1"), &mut handler_runs);
    serve(&mut cache, &key("token-2"), &mut handler_runs);

    assert_eq!(handler_runs, 2);
}

#[test]
fn eviction_at_capacity_drops_least_recently_used() {
    let mut cache = IdempotencyCache::new(2);
    cache.store(key("a"), response("a"));
    cache.store(key("b"), response("b"));
    cache.store(key("c"), response("c"));

    assert!(cache.lookup(&key("a")).is_none());
    assert!(cache.lookup(&key("b")).is_some());
    assert!(cache.lookup(&key("c")).is_some());
}

#[test]
fn lookup_refreshes_recency() {
    let mut cache = IdempotencyCache::new(2);
    cache.store(key("a"), response("a"));
    cache.store(key("b"), response("b"));
    // Touch "a" so that "b" becomes the least recently used entry.
    assert!(cache.lookup(&key("a")).is_some());
    cache.store(key("c"), response("c"));

    assert!(cache.lookup(&key("a")).is_some());
    assert!(cache.lookup(&key("b")).is_none());
    assert!(cache.lookup(&key("c")).is_some());
}

#[test]
fn store_updates_existing_key() {
    let mut cache = IdempotencyCache::new(2);
    cache.store(key("a"), response("old"));
    cache.store(key("a"), response("new"));

    let got = cache.lookup(&key("a")).unwrap();
    assert_eq!(got.body, "new".as_bytes().to_vec());
}

#[test]
fn applies_only_to_side_effecting_methods_with_token() {
    assert!(idempotency_applies("POST", true));
    assert!(idempotency_applies("PATCH", true));
    assert!(!idempotency_applies("GET", true));
    assert!(!idempotency_applies("POST", false));
    assert!(!idempotency_applies("DELETE", true));
}
