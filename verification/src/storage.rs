//! The durable-backend capability: the interface the cache and the fetch
//! orchestrator consume, and a verified in-memory backend for tests.

use vstd::prelude::*;
use vstd::view::View as VstdView;

use crate::models::View;
use crate::text::str_eq;

verus! {

/// A backend failure that is not plain absence of an object.
#[derive(Debug)]
pub struct StorageError {
    pub message: String,
}

impl StorageError {
    /// An error carrying the given message.
    pub fn new(message: &str) -> (r: StorageError)
        ensures
            r.message@ == message@,
    {
        let mut m = String::new();
        m.append(message);
        proof {
            assert(m@ =~= message@);
        }
        StorageError { message: m }
    }
}

/// The durable storage capability: fetch one layer image, fetch or save a
/// cached composite, and fetch cached JSON. Absence is reported as
/// `Ok(None)`, never as an error; an `Err` is a genuine I/O failure.
pub trait StorageBackend: Sized {
    fn fetch_layer(&mut self, category: &str, sku: &str, view: View, extension: &str) -> Result<
        Option<Vec<u8>>,
        StorageError,
    >;

    fn fetch_cached(&mut self, cache_key: &str) -> Result<Option<Vec<u8>>, StorageError>;

    fn save_to_cache(&mut self, cache_key: &str, data: &Vec<u8>) -> Result<(), StorageError>;

    fn fetch_cached_json(&mut self, key: &str) -> Result<Option<String>, StorageError>;
}

/// A byte-wise copy of a vector.
pub fn clone_bytes(v: &Vec<u8>) -> (r: Vec<u8>)
    ensures
        r@ == v@,
{
    let mut r: Vec<u8> = Vec::new();
    let mut i: usize = 0;
    while i < v.len()
        invariant
            i <= v@.len(),
            r@.len() == i,
            forall|j: int| 0 <= j < i ==> r@[j] == v@[j],
        decreases v@.len() - i,
    {
        r.push(v[i]);
        i += 1;
    }
    proof {
        assert(r@ =~= v@);
    }
    r
}

/// One stored layer image of the in-memory backend.
pub struct LayerEntry {
    pub category: String,
    pub sku: String,
    pub view: View,
    pub extension: String,
    pub data: Vec<u8>,
}

/// An in-memory storage backend: layers and cached composites held in
/// vectors, with counters that tell a test how often each operation ran.
pub struct MemBackend {
    pub layers: Vec<LayerEntry>,
    pub cached: Vec<(String, Vec<u8>)>,
    pub json: Vec<(String, String)>,
    pub fetch_layer_calls: u64,
    pub fetch_cached_calls: u64,
    pub save_calls: u64,
}

impl MemBackend {
    /// An empty backend.
    pub fn new() -> (r: MemBackend)
        ensures
            r.layers@.len() == 0,
            r.cached@.len() == 0,
            r.fetch_layer_calls == 0,
            r.fetch_cached_calls == 0,
            r.save_calls == 0,
    {
        MemBackend {
            layers: Vec::new(),
            cached: Vec::new(),
            json: Vec::new(),
            fetch_layer_calls: 0,
            fetch_cached_calls: 0,
            save_calls: 0,
        }
    }

    /// Store a layer image.
    pub fn insert_layer(
        &mut self,
        category: &str,
        sku: &str,
        view: View,
        extension: &str,
        data: Vec<u8>,
    )
        ensures
            final(self).layers@.len() == old(self).layers@.len() + 1,
    {
        let mut c = String::new();
        c.append(category);
        let mut s = String::new();
        s.append(sku);
        let mut e = String::new();
        e.append(extension);
        self.layers.push(LayerEntry { category: c, sku: s, view, extension: e, data });
    }

    /// Store a cached composite directly.
    pub fn insert_cached(&mut self, cache_key: &str, data: Vec<u8>)
        ensures
            final(self).cached@.len() == old(self).cached@.len() + 1,
    {
        let mut k = String::new();
        k.append(cache_key);
        self.cached.push((k, data));
    }

    fn bump(counter: &mut u64)
        ensures
            *final(counter) == if *old(counter) < u64::MAX {
                *old(counter) + 1
            } else {
                *old(counter) as int
            },
    {
        if *counter < u64::MAX {
            *counter = *counter + 1;
        }
    }
}

impl StorageBackend for MemBackend {
    fn fetch_layer(&mut self, category: &str, sku: &str, view: View, extension: &str) -> Result<
        Option<Vec<u8>>,
        StorageError,
    > {
        MemBackend::bump(&mut self.fetch_layer_calls);
        let mut i: usize = 0;
        while i < self.layers.len()
            invariant
                i <= self.layers@.len(),
            decreases self.layers@.len() - i,
        {
            let e = &self.layers[i];
            if str_eq(e.category.as_str(), category) && str_eq(e.sku.as_str(), sku) && e.view
                == view && str_eq(e.extension.as_str(), extension) {
                return Ok(Some(clone_bytes(&self.layers[i].data)));
            }
            i += 1;
        }
        Ok(None)
    }

    fn fetch_cached(&mut self, cache_key: &str) -> Result<Option<Vec<u8>>, StorageError> {
        MemBackend::bump(&mut self.fetch_cached_calls);
        let mut i: usize = 0;
        while i < self.cached.len()
            invariant
                i <= self.cached@.len(),
            decreases self.cached@.len() - i,
        {
            if str_eq(self.cached[i].0.as_str(), cache_key) {
                return Ok(Some(clone_bytes(&self.cached[i].1)));
            }
            i += 1;
        }
        Ok(None)
    }

    fn save_to_cache(&mut self, cache_key: &str, data: &Vec<u8>) -> Result<(), StorageError> {
        MemBackend::bump(&mut self.save_calls);
        let mut k = String::new();
        k.append(cache_key);
        let d = clone_bytes(data);
        self.cached.push((k, d));
        Ok(())
    }

    fn fetch_cached_json(&mut self, key: &str) -> Result<Option<String>, StorageError> {
        let mut i: usize = 0;
        while i < self.json.len()
            invariant
                i <= self.json@.len(),
            decreases self.json@.len() - i,
        {
            if str_eq(self.json[i].0.as_str(), key) {
                let mut s = String::new();
                s.append(self.json[i].1.as_str());
                return Ok(Some(s));
            }
            i += 1;
        }
        Ok(None)
    }
}

} // verus!
