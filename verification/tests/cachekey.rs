use sandwich_core::{generate_cache_key, get_example, LayerParam, Sku, View};

#[test]
fn test_generate_cache_key() {
    let params = vec![
        LayerParam::new("hoodies", Sku::new("hoodie-black")),
        LayerParam::new("pants", Sku::new("cargo-darkgreen")),
    ];
    let key = generate_cache_key(&params, View::Front, "base-model-black");

    assert!(!key.is_empty());
    assert!(key.chars().all(|c| c.is_ascii_hexdigit()));
}

#[test]
fn test_cache_key_consistency() {
    let params1 = vec![
        LayerParam::new("hoodies", Sku::new("hoodie-black")),
        LayerParam::new("pants", Sku::new("cargo-darkgreen")),
    ];
    let params2 = vec![
        LayerParam::new("pants", Sku::new("cargo-darkgreen")),
        LayerParam::new("hoodies", Sku::new("hoodie-black")),
    ];

    let key1 = generate_cache_key(&params1, View::Front, "base-model-black");
    let key2 = generate_cache_key(&params2, View::Front, "base-model-black");

    assert_eq!(key1, key2);
}

#[test]
fn test_cache_key_differs_by_view() {
    let params = vec![LayerParam::new("hoodies", Sku::new("hoodie-black"))];

    let key_front = generate_cache_key(&params, View::Front, "base-model-black");
    let key_back = generate_cache_key(&params, View::Back, "base-model-black");

    assert_ne!(key_front, key_back);
}

#[test]
fn test_cache_key_differs_by_plate() {
    let params = vec![LayerParam::new("hoodies", Sku::new("hoodie-black"))];

    let key1 = generate_cache_key(&params, View::Front, "base-model-black");
    let key2 = generate_cache_key(&params, View::Front, "patch-plate");

    assert_ne!(key1, key2);
}

#[test]
fn test_cache_key_exact_value() {
    let params = vec![
        LayerParam::new("pants", Sku::new("cargo-darkgreen")),
        LayerParam::new("hoodies", Sku::new("hoodie-black")),
    ];
    let key = generate_cache_key(&params, View::Front, "base-model-black");

    let combined = "hoodies/hoodie-black_pants/cargo-darkgreen_front_base-model-black";
    let expected = format!("{:x}", xxhash_rust::xxh64::xxh64(combined.as_bytes(), 0));
    assert_eq!(key, expected);
}

#[test]
fn test_cache_key_empty_params() {
    let params: Vec<LayerParam> = Vec::new();
    let key = generate_cache_key(&params, View::Side, "side-special-plate");

    let combined = "_side_side-special-plate";
    let expected = format!("{:x}", xxhash_rust::xxh64::xxh64(combined.as_bytes(), 0));
    assert_eq!(key, expected);
}

#[test]
fn test_get_example_lookup() {
    let e = get_example("basic").unwrap();
    assert_eq!(e.name, "basic");
    assert_eq!(e.params, "hoodies/baerskin4-black");

    let e = get_example("outer-jacket").unwrap();
    assert_eq!(e.params, "hoodies/baerskin4-black,jackets/greenland-black,pants/cargo-darkgreen");

    assert!(get_example("does-not-exist").is_none());
}
