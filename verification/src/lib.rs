//! Core logic for rendering composite garment images: SKU normalization,
//! per-view layer rules, deterministic cache-key derivation, a two-tier
//! composite cache, image stacking, and the request pipeline that ties
//! them together.

pub mod cache;
pub mod cachekey;
pub mod compositor;
pub mod examples;
pub mod layers;
pub mod models;
pub mod service;
pub mod storage;
pub mod text;

pub use cache::{CacheStats, ImageCache};
pub use cachekey::generate_cache_key;
pub use compositor::{compose_layers, ComposeError, Compositor};
pub use examples::{get_example, Example};
pub use layers::{parse_params, LayerNormalizer};
pub use models::{parse_view, LayerOrder, LayerParam, Sku, View};
pub use service::{
    compose_request, fetch_and_filter_layers, ComposeOptions, CreateRequest, ErrorResponse,
    RenderError, RenderOutcome, StorageService,
};
pub use storage::{MemBackend, StorageBackend, StorageError};
