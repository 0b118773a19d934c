//! The idempotency cache: a fixed-capacity, least-recently-used cache of
//! captured HTTP responses, keyed by (method, URI, idempotency token). It
//! shields the purchase executor from duplicate invocation when a client
//! retries a side-effecting request with the same token.

use vstd::prelude::*;

use crate::text::str_chars;

verus! {

/// A cache key: the request method, the full URI, and the client-supplied
/// idempotency token. The request body is deliberately not part of the key.
#[derive(Debug, Clone, PartialEq, Eq, Hash)]
pub struct CacheKey {
    pub method: String,
    pub uri: String,
    pub token: String,
}

/// A captured response: status code, headers and body bytes, exactly as
/// they are replayed on a cache hit.
#[derive(Debug, Clone)]
pub struct CachedResponse {
    pub status: u16,
    pub headers: Vec<(String, String)>,
    pub body: Vec<u8>,
}

/// A key as the cache's model sees it: the three text parts.
pub type KeyView = (Seq<char>, Seq<char>, Seq<char>);

/// A response as the cache's model sees it: status, headers and body bytes.
pub type RespView = (u16, Seq<(Seq<char>, Seq<char>)>, Seq<u8>);

pub open spec fn key_view(k: CacheKey) -> KeyView {
    (k.method@, k.uri@, k.token@)
}

pub open spec fn resp_view(r: CachedResponse) -> RespView {
    (r.status, Seq::new(r.headers@.len(), |i: int| (r.headers@[i].0@, r.headers@[i].1@)), r.body@)
}

#[verifier::external_type_specification]
#[verifier::external_body]
#[verifier::reject_recursive_types(K)]
#[verifier::reject_recursive_types(V)]
#[verifier::reject_recursive_types(S)]
pub struct ExLruCache<K, V, S>(lru::LruCache<K, V, S>);

/// What the cache holds: its entries as (key, response) views, ordered from
/// most recently used to least recently used.
pub uninterp spec fn cache_entries(c: lru::LruCache<CacheKey, CachedResponse>) -> Seq<
    (KeyView, RespView),
>;

/// The fixed capacity the cache was created with.
pub uninterp spec fn cache_capacity(c: lru::LruCache<CacheKey, CachedResponse>) -> nat;

/// The position of the first entry with the given key, if any. With
/// distinct keys it is the only one.
pub open spec fn find_key(entries: Seq<(KeyView, RespView)>, k: KeyView) -> Option<int>
    decreases entries.len(),
{
    if entries.len() == 0 {
        None
    } else if entries[0].0 == k {
        Some(0int)
    } else {
        match find_key(entries.skip(1), k) {
            Some(i) => Some(i + 1),
            None => None,
        }
    }
}

/// How a lookup reorders the entries: a hit moves the entry to the
/// most-recent position; a miss changes nothing.
pub open spec fn get_model(entries: Seq<(KeyView, RespView)>, k: KeyView) -> Seq<
    (KeyView, RespView),
> {
    match find_key(entries, k) {
        None => entries,
        Some(i) => seq![entries[i]] + entries.take(i) + entries.skip(i + 1),
    }
}

/// How a store changes the entries: an existing key is updated and moved to
/// the most-recent position; a new key is inserted there, evicting the
/// least-recently-used entry when the cache is full.
pub open spec fn put_model(
    entries: Seq<(KeyView, RespView)>,
    cap: nat,
    k: KeyView,
    v: RespView,
) -> Seq<(KeyView, RespView)> {
    match find_key(entries, k) {
        Some(i) => seq![(k, v)] + entries.take(i) + entries.skip(i + 1),
        None => if entries.len() < cap {
            seq![(k, v)] + entries
        } else {
            seq![(k, v)] + entries.drop_last()
        },
    }
}

/// Relies on lru::LruCache::new: an empty cache with the given capacity.
#[verifier::external_body]
fn lru_new(cap: usize) -> (c: lru::LruCache<CacheKey, CachedResponse>)
    requires
        cap >= 1,
    ensures
        cache_entries(c) == Seq::<(KeyView, RespView)>::empty(),
        cache_capacity(c) == cap as nat,
{
    lru::LruCache::new(core::num::NonZeroUsize::new(cap).unwrap())
}

/// Relies on lru::LruCache::get: returns the entry for the key if present
/// and marks it most recently used, touching nothing else.
#[verifier::external_body]
fn lru_get(c: &mut lru::LruCache<CacheKey, CachedResponse>, k: &CacheKey) -> (r: Option<
    CachedResponse,
>)
    ensures
        cache_capacity(*final(c)) == cache_capacity(*old(c)),
        cache_entries(*final(c)) == get_model(cache_entries(*old(c)), key_view(*k)),
        match find_key(cache_entries(*old(c)), key_view(*k)) {
            Some(i) => r matches Some(v) && resp_view(v) == cache_entries(*old(c))[i].1,
            None => r is None,
        },
{
    c.get(k).cloned()
}

/// Relies on lru::LruCache::put: inserts or updates the entry at the
/// most-recent position, evicting the least-recently-used entry when a new
/// key arrives at capacity.
#[verifier::external_body]
fn lru_put(c: &mut lru::LruCache<CacheKey, CachedResponse>, k: CacheKey, v: CachedResponse)
    ensures
        cache_capacity(*final(c)) == cache_capacity(*old(c)),
        cache_entries(*final(c)) == put_model(
            cache_entries(*old(c)),
            cache_capacity(*old(c)),
            key_view(k),
            resp_view(v),
        ),
{
    c.put(k, v);
}

/// The shared idempotency cache, wrapping the LRU store.
pub struct IdempotencyCache {
    cache: lru::LruCache<CacheKey, CachedResponse>,
}

impl IdempotencyCache {
    /// The cached entries, most recently used first.
    pub closed spec fn entries(self) -> Seq<(KeyView, RespView)> {
        cache_entries(self.cache)
    }

    /// The fixed maximum entry count.
    pub closed spec fn capacity(self) -> nat {
        cache_capacity(self.cache)
    }

    /// Creates an empty cache holding at most `cap` responses.
    pub fn new(cap: usize) -> (c: IdempotencyCache)
        requires
            cap >= 1,
        ensures
            c.entries() == Seq::<(KeyView, RespView)>::empty(),
            c.capacity() == cap as nat,
    {
        IdempotencyCache { cache: lru_new(cap) }
    }

    /// Looks a key up: a hit returns the captured response and marks the
    /// key most recently used; a miss changes nothing.
    pub fn lookup(&mut self, key: &CacheKey) -> (r: Option<CachedResponse>)
        ensures
            final(self).capacity() == old(self).capacity(),
            final(self).entries() == get_model(old(self).entries(), key_view(*key)),
            match find_key(old(self).entries(), key_view(*key)) {
                Some(i) => r matches Some(v) && resp_view(v) == old(self).entries()[i].1,
                None => r is None,
            },
    {
        lru_get(&mut self.cache, key)
    }

    /// Captures a response under a key as most recently used, evicting the
    /// least recently used entry if a new key arrives at capacity.
    pub fn store(&mut self, key: CacheKey, resp: CachedResponse)
        ensures
            final(self).capacity() == old(self).capacity(),
            final(self).entries() == put_model(
                old(self).entries(),
                old(self).capacity(),
                key_view(key),
                resp_view(resp),
            ),
    {
        lru_put(&mut self.cache, key, resp)
    }
}

/// The request methods whose responses the idempotency layer caches.
pub open spec fn spec_is_side_effecting(m: Seq<char>) -> bool {
    m == "POST"@ || m == "PATCH"@
}

/// Whether the idempotency layer handles a request: only side-effecting
/// methods carrying an idempotency token are cached; everything else passes
/// through untouched.
pub fn idempotency_applies(method: &str, has_token: bool) -> (r: bool)
    ensures
        r == (spec_is_side_effecting(method@) && has_token),
{
    if !has_token {
        return false;
    }
    let cs = str_chars(method);
    let post: Vec<char> = vec!['P', 'O', 'S', 'T'];
    let patch: Vec<char> = vec!['P', 'A', 'T', 'C', 'H'];
    proof {
        reveal_strlit("POST");
        reveal_strlit("PATCH");
        assert(post@ =~= "POST"@);
        assert(patch@ =~= "PATCH"@);
    }
    if crate::text::chars_eq(cs.as_slice(), post.as_slice()) {
        return true;
    }
    if crate::text::chars_eq(cs.as_slice(), patch.as_slice()) {
        return true;
    }
    false
}

/// Whether no two entries share a key — always true of the real cache, and
/// preserved by both model operations.
pub open spec fn distinct_keys(entries: Seq<(KeyView, RespView)>) -> bool {
    forall|i: int, j: int|
        0 <= i < j < entries.len() ==> (#[trigger] entries[i]).0 != (#[trigger] entries[j]).0
}

/// `find_key` misses exactly when no entry holds the key.
pub proof fn lemma_find_key_none(entries: Seq<(KeyView, RespView)>, k: KeyView)
    ensures
        find_key(entries, k) is None <==> forall|i: int|
            0 <= i < entries.len() ==> (#[trigger] entries[i]).0 != k,
    decreases entries.len(),
{
    if entries.len() > 0 {
        let rest = entries.skip(1);
        lemma_find_key_none(rest, k);
        assert(forall|i: int| 0 <= i < rest.len() ==> #[trigger] rest[i] == entries[i + 1]);
        if entries[0].0 == k {
        } else {
            if find_key(entries, k) is None {
                assert forall|i: int| 0 <= i < entries.len() implies (#[trigger] entries[i]).0
                    != k by {
                    if i > 0 {
                        assert(rest[i - 1] == entries[i]);
                        assert(rest[i - 1].0 != k);
                    }
                }
            } else {
                let i0 = choose|i: int| 0 <= i < rest.len() && (#[trigger] rest[i]).0 == k;
            }
        }
    }
}

/// A hit points at an entry with the key, and at the first one.
pub proof fn lemma_find_key_some(entries: Seq<(KeyView, RespView)>, k: KeyView)
    requires
        find_key(entries, k) is Some,
    ensures
        ({
            let i = find_key(entries, k).unwrap();
            &&& 0 <= i < entries.len()
            &&& entries[i].0 == k
            &&& forall|j: int| 0 <= j < i ==> (#[trigger] entries[j]).0 != k
        }),
    decreases entries.len(),
{
    if entries.len() > 0 && entries[0].0 != k {
        let rest = entries.skip(1);
        lemma_find_key_some(rest, k);
        assert(forall|i: int| 0 <= i < rest.len() ==> #[trigger] rest[i] == entries[i + 1]);
        let i = find_key(entries, k).unwrap();
        assert(entries[i] == rest[i - 1]);
        assert forall|j: int| 0 <= j < i implies (#[trigger] entries[j]).0 != k by {
            if j > 0 {
                assert(rest[j - 1] == entries[j]);
                assert(rest[j - 1].0 != k);
            }
        }
    }
}

/// A response just stored under a key is what a lookup of that key then
/// finds, at the most-recent position: a retried request with the same
/// method, URI and token is answered with the captured response, byte for
/// byte, without reaching the handler again.
pub proof fn lemma_store_then_lookup(
    entries: Seq<(KeyView, RespView)>,
    cap: nat,
    k: KeyView,
    v: RespView,
)
    ensures
        find_key(put_model(entries, cap, k, v), k) == Some(0int),
        put_model(entries, cap, k, v)[0] == (k, v),
{
    let e1 = put_model(entries, cap, k, v);
    assert(e1[0] == (k, v));
    assert(e1.len() > 0);
}

/// Storing a new key in a full cache evicts exactly the least recently
/// used entry: its key is gone, every other key is still present, and the
/// new entry stands at the most-recent position.
pub proof fn lemma_store_at_capacity_evicts_lru(
    entries: Seq<(KeyView, RespView)>,
    cap: nat,
    k: KeyView,
    v: RespView,
)
    requires
        cap >= 1,
        entries.len() == cap,
        distinct_keys(entries),
        find_key(entries, k) is None,
    ensures
        ({
            let e1 = put_model(entries, cap, k, v);
            &&& e1[0] == (k, v)
            &&& e1.len() == cap
            &&& find_key(e1, entries.last().0) is None
            &&& forall|j: int|
                0 <= j < entries.len() - 1 ==> find_key(e1, (#[trigger] entries[j]).0) is Some
        }),
{
    let e1 = put_model(entries, cap, k, v);
    let lru_key = entries.last().0;
    lemma_find_key_none(entries, k);
    assert(e1 =~= seq![(k, v)] + entries.drop_last());
    assert(e1.len() == cap);
    assert(e1.skip(1) =~= entries.drop_last());
    assert(lru_key != k) by {
        assert(entries[entries.len() - 1].0 == lru_key);
    }
    assert(find_key(e1, lru_key) is None) by {
        lemma_find_key_none(entries.drop_last(), lru_key);
        assert(forall|i: int|
            0 <= i < entries.len() - 1 ==> (#[trigger] entries.drop_last()[i]).0 != lru_key);
        lemma_find_key_none(e1, lru_key);
        assert(forall|i: int|
            1 <= i < e1.len() ==> (#[trigger] e1[i]).0 != lru_key);
    }
    assert forall|j: int|
        0 <= j < entries.len() - 1 implies find_key(e1, (#[trigger] entries[j]).0) is Some by {
        let key_j = entries[j].0;
        assert(e1[j + 1].0 == key_j);
        lemma_find_key_none(e1, key_j);
    }
}

/// Both cache operations keep the model well formed: keys stay distinct and
/// the entry count never exceeds the capacity.
pub proof fn lemma_put_model_wf(
    entries: Seq<(KeyView, RespView)>,
    cap: nat,
    k: KeyView,
    v: RespView,
)
    requires
        distinct_keys(entries),
        entries.len() <= cap,
        cap >= 1,
    ensures
        distinct_keys(put_model(entries, cap, k, v)),
        put_model(entries, cap, k, v).len() <= cap,
{
    let e1 = put_model(entries, cap, k, v);
    match find_key(entries, k) {
        Some(i) => {
            lemma_find_key_some(entries, k);
            assert(e1 =~= seq![(k, v)] + entries.take(i) + entries.skip(i + 1));
            assert forall|a: int, b: int|
                0 <= a < b < e1.len() implies (#[trigger] e1[a]).0 != (#[trigger] e1[b]).0 by {
                if a == 0 {
                    assert(e1[b].0 == (if b <= i {
                        entries[b - 1].0
                    } else {
                        entries[b].0
                    }));
                    assert(entries[i].0 == k);
                } else {
                }
            }
        }
        None => {
            lemma_find_key_none(entries, k);
            if entries.len() < cap {
                assert(e1 =~= seq![(k, v)] + entries);
            } else {
                assert(e1 =~= seq![(k, v)] + entries.drop_last());
            }
        }
    }
}

/// A lookup only reorders entries: keys stay distinct and the count is
/// unchanged.
pub proof fn lemma_get_model_wf(entries: Seq<(KeyView, RespView)>, k: KeyView)
    requires
        distinct_keys(entries),
    ensures
        distinct_keys(get_model(entries, k)),
        get_model(entries, k).len() == entries.len(),
{
    let e1 = get_model(entries, k);
    match find_key(entries, k) {
        Some(i) => {
            lemma_find_key_some(entries, k);
            assert(e1 =~= seq![entries[i]] + entries.take(i) + entries.skip(i + 1));
            assert forall|a: int, b: int|
                0 <= a < b < e1.len() implies (#[trigger] e1[a]).0 != (#[trigger] e1[b]).0 by {
                if a == 0 {
                    assert(e1[b].0 == (if b <= i {
                        entries[b - 1].0
                    } else {
                        entries[b].0
                    }));
                    assert(entries[i].0 == k);
                } else {
                }
            }
        }
        None => {}
    }
}

} // verus!
