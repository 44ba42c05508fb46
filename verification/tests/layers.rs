use sandwich_core::{parse_params, LayerNormalizer, LayerParam, Sku, View};

#[test]
fn test_parse_params() {
    let params = parse_params("hoodies/hoodie-black-xl,pants/cargo-darkgreen-40");
    assert_eq!(params.len(), 2);
    assert_eq!(params[0].category, "hoodies");
    assert_eq!(params[0].sku.as_str(), "hoodie-black");
    assert_eq!(params[1].category, "pants");
    assert_eq!(params[1].sku.as_str(), "cargo-darkgreen");
}

#[test]
fn test_parse_params_drops_malformed() {
    let params = parse_params("hoodies/hoodie-black,garbage,pants/cargo-black/extra,hats/beanie");
    assert_eq!(params.len(), 2);
    assert_eq!(params[0].category, "hoodies");
    assert_eq!(params[1].category, "hats");
}

#[test]
fn test_normalize_gloves() {
    let params = vec![LayerParam::new("gloves", Sku::new("ski-black"))];
    let normalizer = LayerNormalizer::new(View::Front, &params);
    let normalized = normalizer.normalize(&params[0]).unwrap();
    assert_eq!(normalized.category, "gloves-top");

    let params = vec![LayerParam::new("gloves", Sku::new("regular-gloves-black"))];
    let normalizer = LayerNormalizer::new(View::Front, &params);
    let normalized = normalizer.normalize(&params[0]).unwrap();
    assert_eq!(normalized.category, "gloves-bottom");
}

#[test]
fn test_normalize_jackets() {
    let params = vec![LayerParam::new("jackets", Sku::new("greenland-black"))];
    let normalizer = LayerNormalizer::new(View::Front, &params);
    let normalized = normalizer.normalize(&params[0]).unwrap();
    assert_eq!(normalized.category, "outer-jackets");

    let params = vec![LayerParam::new("jackets", Sku::new("softshell-grey"))];
    let normalizer = LayerNormalizer::new(View::Front, &params);
    let normalized = normalizer.normalize(&params[0]).unwrap();
    assert_eq!(normalized.category, "jackets");
}

#[test]
fn test_normalize_patches_back_view() {
    let params = vec![LayerParam::new("patches-left", Sku::new("flag-patch-red"))];
    let normalizer = LayerNormalizer::new(View::Back, &params);
    assert!(normalizer.normalize(&params[0]).is_none());
}

#[test]
fn test_normalize_patches_with_softshell() {
    let params = vec![
        LayerParam::new("jackets", Sku::new("softshell-grey")),
        LayerParam::new("patches-left", Sku::new("flag-patch-red")),
    ];
    let normalizer = LayerNormalizer::new(View::Front, &params);

    let jacket_normalized = normalizer.normalize(&params[0]).unwrap();
    assert_eq!(jacket_normalized.category, "jackets");

    let patch_normalized = normalizer.normalize(&params[1]).unwrap();
    assert_eq!(patch_normalized.category, "softshell-patches-left");
}

#[test]
fn test_normalize_patches_left_view() {
    let params = vec![
        LayerParam::new("patches-left", Sku::new("flag-patch-red")),
        LayerParam::new("patches-right", Sku::new("canadaflag-red")),
    ];
    let normalizer = LayerNormalizer::new(View::Left, &params);

    let left_normalized = normalizer.normalize(&params[0]).unwrap();
    assert_eq!(left_normalized.category, "patches");

    assert!(normalizer.normalize(&params[1]).is_none());
}

#[test]
fn test_normalize_patches_side_view() {
    let params = vec![LayerParam::new("patches-right", Sku::new("flag-patch-red"))];
    let normalizer = LayerNormalizer::new(View::Side, &params);
    let normalized = normalizer.normalize(&params[0]).unwrap();
    assert_eq!(normalized.category, "patches");
}

#[test]
fn test_layer_ordering() {
    let params = vec![
        LayerParam::new("hats", Sku::new("beanie-black")),
        LayerParam::new("hoodies", Sku::new("hoodie-black")),
        LayerParam::new("pants", Sku::new("cargo-darkgreen")),
    ];
    let normalizer = LayerNormalizer::new(View::Front, &params);
    let normalized = normalizer.normalize_all(&params);

    assert_eq!(normalized[0].category, "pants");
    assert_eq!(normalized[1].category, "hoodies");
    assert_eq!(normalized[2].category, "hats");
}

#[test]
fn test_layer_ordering_stable_for_equal_keys() {
    let params = vec![
        LayerParam::new("hoodies", Sku::new("hoodie-black")),
        LayerParam::new("hoodies", Sku::new("hoodie-grey")),
        LayerParam::new("pants", Sku::new("cargo-black")),
    ];
    let normalizer = LayerNormalizer::new(View::Front, &params);
    let normalized = normalizer.normalize_all(&params);

    assert_eq!(normalized.len(), 3);
    assert_eq!(normalized[0].category, "pants");
    assert_eq!(normalized[1].sku.as_str(), "hoodie-black");
    assert_eq!(normalized[2].sku.as_str(), "hoodie-grey");
}

#[test]
fn test_rules_keep_sku_unchanged() {
    // The rules remap only the category; the stored SKU passes through,
    // even one that another normalization pass would strip further.
    let ski = Sku::new("ski-l-s");
    assert_eq!(ski.as_str(), "ski-l");
    let params = vec![LayerParam::new("gloves", ski)];
    let normalizer = LayerNormalizer::new(View::Front, &params);
    let normalized = normalizer.normalize(&params[0]).unwrap();
    assert_eq!(normalized.category, "gloves-top");
    assert_eq!(normalized.sku.as_str(), "ski-l");

    let params = vec![
        LayerParam::new("jackets", Sku::new("softshell-grey")),
        LayerParam::new("patches-left", Sku::new("flag-s-s")),
    ];
    let normalizer = LayerNormalizer::new(View::Front, &params);
    let patch = normalizer.normalize(&params[1]).unwrap();
    assert_eq!(patch.category, "softshell-patches-left");
    assert_eq!(patch.sku.as_str(), "flag-s");
}
