//! The composite cache: a bounded in-process LRU tier in front of the
//! durable backend, keyed by the derived cache key.

use vstd::prelude::*;
use vstd::view::View as VstdView;

use crate::storage::{StorageBackend, StorageError};

verus! {

/// The concrete memory-tier type: an LRU map from key strings to byte
/// blobs, hashed with the standard library's default hasher.
pub type LruMem = lru::LruCache<String, Vec<u8>, std::collections::hash_map::RandomState>;

#[verifier::external_type_specification]
#[verifier::external_body]
#[verifier::reject_recursive_types(K)]
#[verifier::reject_recursive_types(V)]
#[verifier::reject_recursive_types(S)]
pub struct ExLruCache<K, V, S>(lru::LruCache<K, V, S>);

/// What the memory tier holds: its entries as (key, value) pairs, the
/// most recently used first.
pub uninterp spec fn lru_entries(c: LruMem) -> Seq<(Seq<char>, Seq<u8>)>;

/// The fixed capacity the memory tier was created with.
pub uninterp spec fn lru_capacity(c: LruMem) -> nat;

/// The position of the first entry with the given key.
pub open spec fn lru_find(s: Seq<(Seq<char>, Seq<u8>)>, k: Seq<char>) -> Option<int>
    decreases s.len(),
{
    if s.len() == 0 {
        None
    } else if s[0].0 == k {
        Some(0)
    } else {
        match lru_find(s.drop_first(), k) {
            Some(i) => Some(i + 1),
            None => None,
        }
    }
}

/// The entries after a hit on the entry at `i`: it moves to the front.
pub open spec fn lru_after_get(s: Seq<(Seq<char>, Seq<u8>)>, i: int) -> Seq<(Seq<char>, Seq<u8>)> {
    seq![s[i]] + s.remove(i)
}

/// The entries after an insert of `(k, v)`: a present key is updated and
/// moved to the front; a new key enters in front, and when the cache is
/// full the least recently used entry leaves.
pub open spec fn lru_put_model(
    s: Seq<(Seq<char>, Seq<u8>)>,
    k: Seq<char>,
    v: Seq<u8>,
    cap: nat,
) -> Seq<(Seq<char>, Seq<u8>)> {
    match lru_find(s, k) {
        Some(i) => seq![(k, v)] + s.remove(i),
        None => if s.len() >= cap {
            seq![(k, v)] + s.drop_last()
        } else {
            seq![(k, v)] + s
        },
    }
}

/// A found position is in range, holds the key, and is the first with it;
/// `None` means no entry holds the key.
pub proof fn lemma_lru_find_props(s: Seq<(Seq<char>, Seq<u8>)>, k: Seq<char>)
    ensures
        match lru_find(s, k) {
            Some(i) => 0 <= i < s.len() && s[i].0 == k && (forall|j: int|
                0 <= j < i ==> (#[trigger] s[j]).0 != k),
            None => forall|j: int| 0 <= j < s.len() ==> (#[trigger] s[j]).0 != k,
        },
    decreases s.len(),
{
    if s.len() > 0 && s[0].0 != k {
        let t = s.drop_first();
        lemma_lru_find_props(t, k);
        match lru_find(t, k) {
            Some(i) => {
                assert(lru_find(s, k) == Some(i + 1));
                assert(s[i + 1] == t[i]);
                assert forall|j: int| 0 <= j < i + 1 implies (#[trigger] s[j]).0 != k by {
                    if j > 0 {
                        assert(s[j] == t[j - 1]);
                    }
                }
            },
            None => {
                assert(lru_find(s, k) is None);
                assert forall|j: int| 0 <= j < s.len() implies (#[trigger] s[j]).0 != k by {
                    if j > 0 {
                        assert(s[j] == t[j - 1]);
                    }
                }
            },
        }
    }
}

/// Relies on `lru::LruCache::new`: a new cache is empty and holds at most
/// `cap` entries.
#[verifier::external_body]
fn lru_new(cap: usize) -> (c: LruMem)
    requires
        cap >= 1,
    ensures
        lru_entries(c) == Seq::<(Seq<char>, Seq<u8>)>::empty(),
        lru_capacity(c) == cap,
{
    lru::LruCache::with_hasher(
        std::num::NonZeroUsize::new(cap).unwrap(),
        std::collections::hash_map::RandomState::new(),
    )
}

/// Relies on `lru::LruCache::get`: a present key's entry moves to the
/// most-recently-used position and its value is returned; a miss returns
/// `None` and changes nothing.
#[verifier::external_body]
fn lru_get(c: &mut LruMem, key: &String) -> (r: Option<Vec<u8>>)
    ensures
        lru_capacity(*final(c)) == lru_capacity(*old(c)),
        match lru_find(lru_entries(*old(c)), key@) {
            Some(i) => r matches Some(v) && v@ == lru_entries(*old(c))[i].1 && lru_entries(
                *final(c),
            ) == lru_after_get(lru_entries(*old(c)), i),
            None => r is None && lru_entries(*final(c)) == lru_entries(*old(c)),
        },
{
    c.get(key).cloned()
}

/// Relies on `lru::LruCache::put`: an existing key is updated and moved to
/// the most-recently-used position; a new key is inserted in front,
/// evicting the least-recently-used entry when the cache is full.
#[verifier::external_body]
fn lru_put(c: &mut LruMem, key: &String, value: &Vec<u8>)
    ensures
        lru_capacity(*final(c)) == lru_capacity(*old(c)),
        lru_entries(*final(c)) == lru_put_model(
            lru_entries(*old(c)),
            key@,
            value@,
            lru_capacity(*old(c)),
        ),
{
    c.put(key.clone(), value.clone());
}

/// Relies on `lru::LruCache::len`: the number of entries held.
#[verifier::external_body]
fn lru_len(c: &LruMem) -> (r: usize)
    ensures
        r == lru_entries(*c).len(),
{
    c.len()
}

/// Relies on `lru::LruCache::cap`: the capacity the cache was created
/// with.
#[verifier::external_body]
fn lru_cap(c: &LruMem) -> (r: usize)
    ensures
        r == lru_capacity(*c),
{
    c.cap().get()
}

/// Relies on `lru::LruCache::clear`: every entry is removed.
#[verifier::external_body]
fn lru_clear(c: &mut LruMem)
    ensures
        lru_capacity(*final(c)) == lru_capacity(*old(c)),
        lru_entries(*final(c)) == Seq::<(Seq<char>, Seq<u8>)>::empty(),
{
    c.clear()
}

/// Counts and capacity of the memory tier.
#[derive(Debug, Clone, Copy, PartialEq, Eq, Structural)]
pub struct CacheStats {
    pub memory_entries: usize,
    pub memory_capacity: usize,
}

/// The two-tier composite cache: a bounded LRU memory tier consulted
/// first, in front of whatever durable backend a call brings.
pub struct ImageCache {
    memory: LruMem,
}

impl ImageCache {
    /// The memory tier's entries, most recently used first.
    pub closed spec fn mem(&self) -> Seq<(Seq<char>, Seq<u8>)> {
        lru_entries(self.memory)
    }

    /// The memory tier's capacity.
    pub closed spec fn cap(&self) -> nat {
        lru_capacity(self.memory)
    }

    /// The cache's representation invariant; it holds of every reachable
    /// cache and every operation preserves it.
    pub open spec fn inv(&self) -> bool {
        mem_inv(self.mem(), self.cap())
    }

    /// A cache whose memory tier holds at most `capacity` entries; a zero
    /// capacity falls back to one thousand.
    pub fn new(capacity: usize) -> (r: ImageCache)
        ensures
            r.mem().len() == 0,
            r.cap() == if capacity == 0 {
                1000int
            } else {
                capacity as int
            },
            r.inv(),
    {
        let cap = if capacity == 0 {
            1000
        } else {
            capacity
        };
        ImageCache { memory: lru_new(cap) }
    }

    /// Look a key up: the memory tier first and, only on a miss there, the
    /// backend; a backend hit is brought into the memory tier. A memory
    /// hit leaves the backend untouched. Absence is `Ok(None)`, not an
    /// error.
    pub fn get<B: StorageBackend>(&mut self, backend: &mut B, cache_key: &String) -> (r: Result<
        Option<Vec<u8>>,
        StorageError,
    >)
        ensures
            final(self).cap() == old(self).cap(),
            old(self).inv() ==> final(self).inv(),
            match lru_find(old(self).mem(), cache_key@) {
                Some(i) => {
                    &&& *final(backend) == *old(backend)
                    &&& r matches Ok(o) && o matches Some(v) && v@ == old(self).mem()[i].1
                    &&& final(self).mem() == lru_after_get(old(self).mem(), i)
                },
                None => match r {
                    Ok(Some(v)) => final(self).mem() == lru_put_model(
                        old(self).mem(),
                        cache_key@,
                        v@,
                        old(self).cap(),
                    ),
                    Ok(None) => final(self).mem() == old(self).mem(),
                    Err(_) => final(self).mem() == old(self).mem(),
                },
            },
    {
        proof {
            lemma_lru_find_props(self.mem(), cache_key@);
        }
        match lru_get(&mut self.memory, cache_key) {
            Some(data) => {
                proof {
                    if old(self).inv() {
                        let i = lru_find(old(self).mem(), cache_key@)->0;
                        lemma_after_get_preserves_inv(old(self).mem(), i, old(self).cap());
                    }
                }
                Ok(Some(data))
            },
            None => {
                match backend.fetch_cached(cache_key.as_str()) {
                    Ok(Some(data)) => {
                        lru_put(&mut self.memory, cache_key, &data);
                        proof {
                            if old(self).inv() {
                                lemma_put_model_preserves_inv(
                                    old(self).mem(),
                                    cache_key@,
                                    data@,
                                    old(self).cap(),
                                );
                            }
                        }
                        Ok(Some(data))
                    },
                    Ok(None) => Ok(None),
                    Err(e) => Err(e),
                }
            },
        }
    }

    /// Store a composite: the backend first, and the memory tier only
    /// after the backend write succeeded. A failed backend write is
    /// reported and leaves the memory tier unchanged.
    pub fn put<B: StorageBackend>(
        &mut self,
        backend: &mut B,
        cache_key: &String,
        data: &Vec<u8>,
    ) -> (r: Result<(), StorageError>)
        ensures
            final(self).cap() == old(self).cap(),
            old(self).inv() ==> final(self).inv(),
            r is Ok ==> final(self).mem() == lru_put_model(
                old(self).mem(),
                cache_key@,
                data@,
                old(self).cap(),
            ),
            r is Err ==> final(self).mem() == old(self).mem(),
    {
        match backend.save_to_cache(cache_key.as_str(), data) {
            Ok(_) => {
                lru_put(&mut self.memory, cache_key, data);
                proof {
                    if old(self).inv() {
                        lemma_put_model_preserves_inv(
                            old(self).mem(),
                            cache_key@,
                            data@,
                            old(self).cap(),
                        );
                    }
                }
                Ok(())
            },
            Err(e) => Err(e),
        }
    }

    /// Empty the memory tier; the backend is untouched.
    pub fn clear_memory(&mut self)
        ensures
            final(self).mem().len() == 0,
            final(self).cap() == old(self).cap(),
            old(self).inv() ==> final(self).inv(),
    {
        lru_clear(&mut self.memory);
    }

    /// How many entries the memory tier holds, and its capacity.
    pub fn stats(&self) -> (r: CacheStats)
        ensures
            r.memory_entries == self.mem().len(),
            r.memory_capacity == self.cap(),
    {
        CacheStats { memory_entries: lru_len(&self.memory), memory_capacity: lru_cap(&self.memory) }
    }
}

/// No two entries share a key.
pub open spec fn unique_keys(s: Seq<(Seq<char>, Seq<u8>)>) -> bool {
    forall|i: int, j: int| 0 <= i < j < s.len() ==> (#[trigger] s[i]).0 != (#[trigger] s[j]).0
}

/// The representation invariant of the memory tier: every reachable state
/// has pairwise distinct keys, at most `cap` entries, and a positive
/// capacity.
pub open spec fn mem_inv(s: Seq<(Seq<char>, Seq<u8>)>, cap: nat) -> bool {
    &&& unique_keys(s)
    &&& s.len() <= cap
    &&& cap >= 1
}

/// A hit preserves the invariant: moving one entry to the front permutes
/// the entries and changes no key.
pub proof fn lemma_after_get_preserves_inv(s: Seq<(Seq<char>, Seq<u8>)>, i: int, cap: nat)
    requires
        mem_inv(s, cap),
        0 <= i < s.len(),
    ensures
        mem_inv(lru_after_get(s, i), cap),
{
    let after = lru_after_get(s, i);
    assert(after.len() == s.len());
    assert(forall|m: int|
        1 <= m < after.len() ==> after[m] == (if m - 1 < i {
            s[m - 1]
        } else {
            s[m]
        }));
    assert forall|m: int, n: int| 0 <= m < n < after.len() implies (#[trigger] after[m]).0 != (
    #[trigger] after[n]).0 by {
        if m == 0 {
            assert(after[0] == s[i]);
        }
    }
}

/// An insert preserves the invariant: an updated key keeps the count, a
/// new key grows it only within the capacity, and the inserted key is the
/// only occurrence of itself.
pub proof fn lemma_put_model_preserves_inv(
    s: Seq<(Seq<char>, Seq<u8>)>,
    k: Seq<char>,
    v: Seq<u8>,
    cap: nat,
)
    requires
        mem_inv(s, cap),
    ensures
        mem_inv(lru_put_model(s, k, v, cap), cap),
{
    lemma_lru_find_props(s, k);
    let after = lru_put_model(s, k, v, cap);
    match lru_find(s, k) {
        Some(i) => {
            let rest = s.remove(i);
            assert(forall|m: int|
                0 <= m < rest.len() ==> rest[m] == (if m < i {
                    s[m]
                } else {
                    s[m + 1]
                }));
            assert forall|m: int, n: int| 0 <= m < n < after.len() implies (#[trigger] after[m]).0
                != (#[trigger] after[n]).0 by {
                if m == 0 {
                    assert(after[n] == rest[n - 1]);
                    assert(rest[n - 1].0 != k) by {
                        if n - 1 < i {
                            assert(rest[n - 1] == s[n - 1]);
                            assert(s[n - 1].0 != s[i].0);
                        } else {
                            assert(rest[n - 1] == s[n]);
                            assert(s[n].0 != s[i].0);
                        }
                    }
                }
            }
        },
        None => {
            if s.len() >= cap {
                let rest = s.drop_last();
                assert forall|m: int, n: int| 0 <= m < n < after.len() implies (
                #[trigger] after[m]).0 != (#[trigger] after[n]).0 by {
                    if m == 0 {
                        assert(after[n] == rest[n - 1]);
                        assert(rest[n - 1] == s[n - 1]);
                        assert(s[n - 1].0 != k);
                    } else {
                        assert(after[m] == s[m - 1] && after[n] == s[n - 1]);
                    }
                }
            } else {
                assert forall|m: int, n: int| 0 <= m < n < after.len() implies (
                #[trigger] after[m]).0 != (#[trigger] after[n]).0 by {
                    if m == 0 {
                        assert(after[n] == s[n - 1]);
                        assert(s[n - 1].0 != k);
                    } else {
                        assert(after[m] == s[m - 1] && after[n] == s[n - 1]);
                    }
                }
            }
        },
    }
}

/// Law: after a put of `(k, b)`, a lookup of `k` hits the memory tier at
/// the most-recently-used position and yields `b`; the cache's `get` then
/// answers from memory without touching the backend.
pub proof fn lemma_put_then_get_memory_hit(
    s: Seq<(Seq<char>, Seq<u8>)>,
    k: Seq<char>,
    b: Seq<u8>,
    cap: nat,
)
    ensures
        lru_find(lru_put_model(s, k, b, cap), k) == Some(0int),
        lru_put_model(s, k, b, cap)[0] == (k, b),
{
    let after = lru_put_model(s, k, b, cap);
    assert(after[0] == (k, b));
}

/// Law: a put of a new key into a full memory tier evicts exactly the
/// least-recently-used entry: the new entry stands in front, the older
/// entries shift, and the evicted key is no longer found.
pub proof fn lemma_put_evicts_lru(s: Seq<(Seq<char>, Seq<u8>)>, k: Seq<char>, b: Seq<u8>, cap: nat)
    requires
        cap >= 1,
        s.len() == cap,
        lru_find(s, k) is None,
        unique_keys(s),
    ensures
        lru_put_model(s, k, b, cap) == seq![(k, b)] + s.drop_last(),
        lru_find(lru_put_model(s, k, b, cap), s.last().0) is None,
{
    lemma_lru_find_props(s, k);
    let after = lru_put_model(s, k, b, cap);
    assert(after == seq![(k, b)] + s.drop_last());
    let evicted = s.last().0;
    assert(s[s.len() - 1].0 == evicted);
    assert(forall|j: int| 0 <= j < s.len() - 1 ==> (#[trigger] s[j]).0 != evicted);
    assert(forall|j: int| 0 <= j < after.len() ==> (#[trigger] after[j]).0 != evicted) by {
        assert(after[0].0 == k);
        assert(k != evicted);
        assert(forall|j: int| 1 <= j < after.len() ==> after[j] == #[trigger] s.drop_last()[j - 1]);
    }
    lemma_lru_find_props(after, evicted);
    if lru_find(after, evicted) is Some {
        let i = lru_find(after, evicted)->0;
        assert(after[i].0 == evicted);
    }
}

} // verus!
