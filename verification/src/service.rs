//! The storage service and the request pipeline: fetch the base plate and
//! the layer images through the backend, consult the two-tier cache, stack
//! the layers, and cache the result only when it is complete.

use vstd::prelude::*;
use vstd::view::View as VstdView;

use crate::cache::{lru_after_get, lru_find, lru_put_model, mem_inv, CacheStats, ImageCache};
use crate::cachekey::{cache_key_spec, generate_cache_key};
use crate::compositor::{bytes_views, compose_layers, ComposeError};
use crate::layers::{
    has_softshell, parse_params, parse_params_spec, sort_by_rank, survivors, views_of_params,
    LayerNormalizer,
};
use crate::models::{plate_name, LayerParam, LayerParamV, View};
use crate::storage::{StorageBackend, StorageError};
use crate::text::{str_chars, trim_chars, trim_seq};

verus! {

/// Why a request failed: a backend I/O error, or a failed decode or
/// encode. A missing base plate is a backend-level error; a missing layer
/// is not an error at all, and a failed cache write is recovered.
#[derive(Debug)]
pub enum RenderError {
    Storage(StorageError),
    Compose(ComposeError),
}

/// The storage backend together with the two-tier composite cache.
pub struct StorageService<B: StorageBackend> {
    backend: B,
    cache: ImageCache,
}

impl<B: StorageBackend> StorageService<B> {
    /// The memory tier's entries.
    pub closed spec fn mem(&self) -> Seq<(Seq<char>, Seq<u8>)> {
        self.cache.mem()
    }

    /// The memory tier's capacity.
    pub closed spec fn cap(&self) -> nat {
        self.cache.cap()
    }

    /// The backend's state.
    pub closed spec fn backend_state(&self) -> B {
        self.backend
    }

    /// The memory tier's representation invariant: unique keys, never more
    /// entries than the capacity, positive capacity. Every reachable
    /// service satisfies it.
    pub open spec fn cache_inv(&self) -> bool {
        mem_inv(self.mem(), self.cap())
    }

    /// A service over the given backend, with an empty memory tier of the
    /// given capacity (zero falls back to one thousand).
    pub fn new(backend: B, cache_capacity: usize) -> (r: StorageService<B>)
        ensures
            r.mem().len() == 0,
            r.cap() == if cache_capacity == 0 {
                1000int
            } else {
                cache_capacity as int
            },
            r.backend_state() == backend,
            r.cache_inv(),
    {
        StorageService { backend, cache: ImageCache::new(cache_capacity) }
    }

    /// Read access to the backend.
    pub fn backend(&self) -> (r: &B)
        ensures
            *r == self.backend_state(),
    {
        &self.backend
    }

    /// Fetch the base plate image for a view from the backend; an absent
    /// plate is an error, not a degraded request.
    pub fn fetch_base_plate(&mut self, view: View) -> (r: Result<Vec<u8>, StorageError>)
        ensures
            final(self).mem() == old(self).mem(),
            final(self).cap() == old(self).cap(),
    {
        match self.backend.fetch_layer("plate", view.plate_value(), view, "jpg") {
            Ok(Some(data)) => Ok(data),
            Ok(None) => Err(StorageError::new("Base plate not found")),
            Err(e) => Err(e),
        }
    }

    /// Fetch the layer images for the given parameters, one slot per
    /// parameter in the same order, `None` where the backend reports the
    /// layer absent; a genuine backend error fails the whole batch.
    pub fn fetch_layers(&mut self, params: &Vec<LayerParam>, view: View) -> (r: Result<
        Vec<Option<Vec<u8>>>,
        StorageError,
    >)
        ensures
            final(self).mem() == old(self).mem(),
            final(self).cap() == old(self).cap(),
            r matches Ok(v) ==> v@.len() == params@.len(),
            params@.len() == 0 ==> r is Ok,
    {
        let mut out: Vec<Option<Vec<u8>>> = Vec::new();
        let mut i: usize = 0;
        while i < params.len()
            invariant
                i <= params@.len(),
                out@.len() == i,
                self.mem() == old(self).mem(),
                self.cap() == old(self).cap(),
            decreases params@.len() - i,
        {
            let p = &params[i];
            match self.backend.fetch_layer(p.category.as_str(), p.sku.as_str(), view, "png") {
                Ok(slot) => out.push(slot),
                Err(e) => {
                    return Err(e);
                },
            }
            i += 1;
        }
        Ok(out)
    }

    /// Look a composite up in the cache: the memory tier first, then the
    /// backend; a memory hit never reaches the backend.
    pub fn get_cached_composite(&mut self, cache_key: &String) -> (r: Result<
        Option<Vec<u8>>,
        StorageError,
    >)
        ensures
            final(self).cap() == old(self).cap(),
            old(self).cache_inv() ==> final(self).cache_inv(),
            match lru_find(old(self).mem(), cache_key@) {
                Some(i) => {
                    &&& final(self).backend_state() == old(self).backend_state()
                    &&& r matches Ok(o) && o matches Some(v) && v@ == old(self).mem()[i].1
                    &&& final(self).mem() == lru_after_get(old(self).mem(), i)
                },
                None => match r {
                    Ok(Some(v)) => final(self).mem() == lru_put_model(
                        old(self).mem(),
                        cache_key@,
                        v@,
                        old(self).cap(),
                    ),
                    Ok(None) => final(self).mem() == old(self).mem(),
                    Err(_) => final(self).mem() == old(self).mem(),
                },
            },
    {
        self.cache.get(&mut self.backend, cache_key)
    }

    /// Store a composite: the backend first, the memory tier only after
    /// the backend write succeeded.
    pub fn save_composite(&mut self, cache_key: &String, data: &Vec<u8>) -> (r: Result<
        (),
        StorageError,
    >)
        ensures
            final(self).cap() == old(self).cap(),
            old(self).cache_inv() ==> final(self).cache_inv(),
            r is Ok ==> final(self).mem() == lru_put_model(
                old(self).mem(),
                cache_key@,
                data@,
                old(self).cap(),
            ),
            r is Err ==> final(self).mem() == old(self).mem(),
    {
        self.cache.put(&mut self.backend, cache_key, data)
    }

    /// Fetch cached JSON straight from the backend; the memory tier is for
    /// composites only and is not consulted.
    pub fn fetch_cached_json(&mut self, key: &str) -> (r: Result<Option<String>, StorageError>)
        ensures
            final(self).mem() == old(self).mem(),
            final(self).cap() == old(self).cap(),
    {
        self.backend.fetch_cached_json(key)
    }

    /// Counts and capacity of the memory tier.
    pub fn cache_stats(&self) -> (r: CacheStats)
        ensures
            r.memory_entries == self.mem().len(),
            r.memory_capacity == self.cap(),
    {
        self.cache.stats()
    }

    /// Empty the memory tier; the backend keeps everything.
    pub fn clear_cache(&mut self)
        ensures
            final(self).mem().len() == 0,
            final(self).cap() == old(self).cap(),
            final(self).backend_state() == old(self).backend_state(),
            old(self).cache_inv() ==> final(self).cache_inv(),
    {
        self.cache.clear_memory();
    }
}

/// The bytes of the slots that hold a layer, in slot order.
pub open spec fn somes_of(s: Seq<Option<Vec<u8>>>) -> Seq<Seq<u8>>
    decreases s.len(),
{
    if s.len() == 0 {
        Seq::empty()
    } else {
        let rest = somes_of(s.drop_last());
        match s.last() {
            Some(v) => rest.push(v@),
            None => rest,
        }
    }
}

/// Keep the layers that were found, in order.
pub fn filter_found(layers: Vec<Option<Vec<u8>>>) -> (r: Vec<Vec<u8>>)
    ensures
        bytes_views(r@) == somes_of(layers@),
        r@.len() <= layers@.len(),
{
    let mut out: Vec<Vec<u8>> = Vec::new();
    let mut i: usize = 0;
    let n = layers.len();
    proof {
        assert(somes_of(layers@.take(0)) =~= Seq::<Seq<u8>>::empty());
        assert(bytes_views(out@) =~= Seq::<Seq<u8>>::empty());
    }
    while i < n
        invariant
            i <= n,
            n == layers@.len(),
            out@.len() <= i,
            bytes_views(out@) == somes_of(layers@.take(i as int)),
        decreases n - i,
    {
        let ghost cur = layers@.take(i + 1);
        proof {
            assert(cur.drop_last() =~= layers@.take(i as int));
            assert(cur.last() == layers@[i as int]);
        }
        match &layers[i] {
            Some(v) => {
                out.push(crate::storage::clone_bytes(v));
                proof {
                    assert(bytes_views(out@) =~= somes_of(cur));
                }
            },
            None => {
                proof {
                    assert(bytes_views(out@) =~= somes_of(cur));
                }
            },
        }
        i += 1;
    }
    proof {
        assert(layers@.take(n as int) =~= layers@);
    }
    out
}

/// Fetch the layers for the given parameters and keep those that were
/// found, in order, reporting how many were requested and how many found.
pub fn fetch_and_filter_layers<B: StorageBackend>(
    storage: &mut StorageService<B>,
    params: &Vec<LayerParam>,
    view: View,
) -> (r: Result<(Vec<Vec<u8>>, usize, usize), StorageError>)
    ensures
        final(storage).mem() == old(storage).mem(),
        final(storage).cap() == old(storage).cap(),
        r matches Ok(t) ==> t.1 == params@.len() && t.2 == t.0@.len() && t.2 <= t.1,
        params@.len() == 0 ==> (r matches Ok(t) && t.1 == 0 && t.2 == 0),
{
    let fetched = match storage.fetch_layers(params, view) {
        Ok(v) => v,
        Err(e) => {
            return Err(e);
        },
    };
    let requested = params.len();
    let found_layers = filter_found(fetched);
    let found = found_layers.len();
    Ok((found_layers, requested, found))
}

/// The ordered, canonical layer list that a raw parameter string denotes
/// for a view: parse, apply the per-element rules with the softshell
/// context of the whole parsed set, and sort by layer order.
pub open spec fn normalized_for(p: Seq<char>, view: View) -> Seq<LayerParamV> {
    let parsed = parse_params_spec(p);
    sort_by_rank(survivors(view, has_softshell(parsed), parsed))
}

/// Store a composite under its key only when every requested layer was
/// found: an incomplete composite never produces a cache store. A failed
/// backend write is recovered: the memory tier stays unchanged and the
/// request goes on.
pub fn maybe_cache_composite<B: StorageBackend>(
    service: &mut StorageService<B>,
    cache_key: &String,
    requested: usize,
    found: usize,
    data: &Vec<u8>,
) -> (stored: bool)
    ensures
        final(service).cap() == old(service).cap(),
        old(service).cache_inv() ==> final(service).cache_inv(),
        requested != found ==> *final(service) == *old(service) && !stored,
        stored ==> requested == found && final(service).mem() == lru_put_model(
            old(service).mem(),
            cache_key@,
            data@,
            old(service).cap(),
        ),
        !stored ==> final(service).mem() == old(service).mem(),
{
    if requested == found {
        match service.save_composite(cache_key, data) {
            Ok(_) => true,
            Err(_) => false,
        }
    } else {
        false
    }
}

/// What one composition request asks for on the command line.
#[derive(Debug)]
pub struct ComposeOptions {
    /// The view to render.
    pub view: View,
    /// The raw comma-separated `"category/sku"` parameters.
    pub params: String,
    /// Where to write the image, if anywhere.
    pub output: Option<String>,
    /// Whether to skip the cache lookup and force regeneration.
    pub bypass_cache: bool,
}

/// The body of a composition request arriving over the wire.
#[derive(Debug)]
pub struct CreateRequest {
    /// The raw comma-separated `"category/sku"` parameters.
    pub p: String,
    /// The view to render.
    pub view: View,
    /// Whether to skip the cache lookup and force regeneration.
    pub bypass_cache: bool,
}

/// A structured error message for a failed request.
#[derive(Debug)]
pub struct ErrorResponse {
    pub error: String,
}

/// What a finished request reports besides the image bytes.
pub struct RenderOutcome {
    /// The encoded composite, or the bare plate when no parameters came.
    pub bytes: Vec<u8>,
    /// The derived cache key; empty when no parameters came.
    pub cache_key: String,
    /// Whether the bytes came from the cache.
    pub from_cache: bool,
    /// How many layers the normalized parameter list asked for.
    pub requested: usize,
    /// How many of them the backend had.
    pub found: usize,
}

/// Serve one composite request: fetch the base plate, parse and normalize
/// the parameters, derive the cache key, answer from the cache unless
/// bypassed, otherwise fetch the layers, stack what was found in order,
/// and cache the result only when every requested layer was found.
pub fn compose_request<B: StorageBackend>(
    service: &mut StorageService<B>,
    p: &str,
    view: View,
    bypass_cache: bool,
) -> (r: Result<RenderOutcome, RenderError>)
    ensures
        final(service).cap() == old(service).cap(),
        old(service).cache_inv() ==> final(service).cache_inv(),
        r matches Ok(out) ==> {
            &&& (trim_seq(p@).len() == 0 ==> out.requested == 0 && !out.from_cache)
            &&& (trim_seq(p@).len() > 0 ==> out.cache_key@ == cache_key_spec(
                normalized_for(p@, view),
                view,
                plate_name(view),
            ) && out.requested == normalized_for(p@, view).len())
            &&& out.found <= out.requested
            &&& (!out.from_cache && out.found != out.requested ==> final(service).mem() == old(
                service,
            ).mem())
        },
        !bypass_cache && trim_seq(p@).len() > 0 ==> (r matches Ok(out) ==> match lru_find(
            old(service).mem(),
            cache_key_spec(normalized_for(p@, view), view, plate_name(view)),
        ) {
            Some(i) => out.from_cache && out.bytes@ == old(service).mem()[i].1,
            None => true,
        }),
{
    let base = match service.fetch_base_plate(view) {
        Ok(b) => b,
        Err(e) => {
            return Err(RenderError::Storage(e));
        },
    };
    let p_chars = str_chars(p);
    let trimmed = trim_chars(&p_chars);
    if trimmed.len() == 0 {
        let mut empty_key = String::new();
        return Ok(
            RenderOutcome {
                bytes: base,
                cache_key: empty_key,
                from_cache: false,
                requested: 0,
                found: 0,
            },
        );
    }
    let params = parse_params(p);
    let normalizer = LayerNormalizer::new(view, &params);
    let normalized = normalizer.normalize_all(&params);
    let cache_key = generate_cache_key(&normalized, view, view.plate_value());
    if !bypass_cache {
        match service.get_cached_composite(&cache_key) {
            Ok(Some(data)) => {
                let requested = normalized.len();
                return Ok(
                    RenderOutcome {
                        bytes: data,
                        cache_key,
                        from_cache: true,
                        requested,
                        found: requested,
                    },
                );
            },
            Ok(None) => {},
            Err(e) => {
                return Err(RenderError::Storage(e));
            },
        }
    }
    let fetched = match service.fetch_layers(&normalized, view) {
        Ok(v) => v,
        Err(e) => {
            return Err(RenderError::Storage(e));
        },
    };
    let requested = normalized.len();
    let found_layers = filter_found(fetched);
    let found = found_layers.len();
    let composite = match compose_layers(base.as_slice(), &found_layers) {
        Ok(c) => c,
        Err(e) => {
            return Err(RenderError::Compose(e));
        },
    };
    maybe_cache_composite(service, &cache_key, requested, found, &composite);
    Ok(RenderOutcome { bytes: composite, cache_key, from_cache: false, requested, found })
}

} // verus!
