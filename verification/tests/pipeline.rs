use sandwich_core::{
    compose_request, generate_cache_key, parse_params, LayerNormalizer, MemBackend, StorageService,
    View,
};

fn jpeg_image(width: u32, height: u32, r: u8, g: u8, b: u8) -> Vec<u8> {
    let img = image::DynamicImage::ImageRgb8(image::RgbImage::from_pixel(
        width,
        height,
        image::Rgb([r, g, b]),
    ));
    let mut buffer = Vec::new();
    img.write_to(&mut std::io::Cursor::new(&mut buffer), image::ImageFormat::Jpeg)
        .unwrap();
    buffer
}

fn png_layer(width: u32, height: u32, r: u8, g: u8, b: u8, a: u8) -> Vec<u8> {
    let img = image::DynamicImage::ImageRgba8(image::RgbaImage::from_pixel(
        width,
        height,
        image::Rgba([r, g, b, a]),
    ));
    let mut buffer = Vec::new();
    img.write_to(&mut std::io::Cursor::new(&mut buffer), image::ImageFormat::Png)
        .unwrap();
    buffer
}

fn backend_with_plate() -> MemBackend {
    let mut backend = MemBackend::new();
    backend.insert_layer(
        "plate",
        "swatthermals-black",
        View::Front,
        "jpg",
        jpeg_image(64, 64, 180, 180, 180),
    );
    backend
}

#[test]
fn test_empty_params_returns_plate() {
    let plate = jpeg_image(64, 64, 180, 180, 180);
    let mut service = StorageService::new(backend_with_plate(), 10);
    let out = compose_request(&mut service, "   ", View::Front, false).unwrap();
    assert_eq!(out.bytes, plate);
    assert_eq!(out.requested, 0);
    assert!(!out.from_cache);
}

#[test]
fn test_plate_missing_is_an_error() {
    let mut service = StorageService::new(MemBackend::new(), 10);
    let result = compose_request(&mut service, "hoodies/baerskin4-black", View::Front, false);
    assert!(result.is_err());
}

#[test]
fn test_incomplete_set_never_cached() {
    let mut backend = backend_with_plate();
    backend.insert_layer(
        "hoodies",
        "baerskin4-black",
        View::Front,
        "png",
        png_layer(64, 64, 10, 10, 200, 255),
    );
    let mut service = StorageService::new(backend, 10);

    let p = "hoodies/baerskin4-black,pants/cargo-darkgreen";
    let out = compose_request(&mut service, p, View::Front, false).unwrap();
    assert_eq!(out.requested, 2);
    assert_eq!(out.found, 1);
    assert!(!out.from_cache);
    assert_eq!(service.backend().save_calls, 0);

    let again = compose_request(&mut service, p, View::Front, false).unwrap();
    assert!(!again.from_cache);
    assert_eq!(service.backend().save_calls, 0);
}

#[test]
fn test_complete_set_is_cached_then_served_from_memory() {
    let mut backend = backend_with_plate();
    backend.insert_layer(
        "hoodies",
        "baerskin4-black",
        View::Front,
        "png",
        png_layer(64, 64, 10, 10, 200, 255),
    );
    backend.insert_layer(
        "pants",
        "cargo-darkgreen",
        View::Front,
        "png",
        png_layer(64, 64, 20, 120, 20, 255),
    );
    let mut service = StorageService::new(backend, 10);

    let p = "hoodies/baerskin4-black,pants/cargo-darkgreen";
    let first = compose_request(&mut service, p, View::Front, false).unwrap();
    assert_eq!(first.requested, 2);
    assert_eq!(first.found, 2);
    assert!(!first.from_cache);
    assert_eq!(service.backend().save_calls, 1);
    assert_eq!(service.backend().fetch_cached_calls, 1);

    let second = compose_request(&mut service, p, View::Front, false).unwrap();
    assert!(second.from_cache);
    assert_eq!(second.bytes, first.bytes);
    assert_eq!(service.backend().fetch_cached_calls, 1);
    assert_eq!(service.backend().save_calls, 1);
}

#[test]
fn test_bypass_cache_recomputes() {
    let mut backend = backend_with_plate();
    backend.insert_layer(
        "hoodies",
        "baerskin4-black",
        View::Front,
        "png",
        png_layer(64, 64, 10, 10, 200, 255),
    );
    let mut service = StorageService::new(backend, 10);

    let p = "hoodies/baerskin4-black";
    let first = compose_request(&mut service, p, View::Front, false).unwrap();
    assert!(!first.from_cache);
    assert_eq!(service.backend().save_calls, 1);

    let third = compose_request(&mut service, p, View::Front, true).unwrap();
    assert!(!third.from_cache);
    assert_eq!(service.backend().save_calls, 2);
}

#[test]
fn test_outcome_key_matches_generate_cache_key() {
    let mut backend = backend_with_plate();
    backend.insert_layer(
        "hoodies",
        "baerskin4-black",
        View::Front,
        "png",
        png_layer(64, 64, 10, 10, 200, 255),
    );
    let mut service = StorageService::new(backend, 10);

    let p = "hoodies/baerskin4-black-xl,pants/cargo-darkgreen-40";
    let out = compose_request(&mut service, p, View::Front, false).unwrap();

    let params = parse_params(p);
    let normalizer = LayerNormalizer::new(View::Front, &params);
    let normalized = normalizer.normalize_all(&params);
    let key = generate_cache_key(&normalized, View::Front, View::Front.plate_value());
    assert_eq!(out.cache_key, key);
}
