use sandwich_core::{parse_view, LayerOrder, LayerParam, Sku, View};

#[test]
fn test_sku_normalization() {
    assert_eq!(Sku::new("mensdenimjeans-blue-36").as_str(), "mensdenimjeans-blue");
    assert_eq!(Sku::new("baerskinzip-grey-s").as_str(), "baerskinzip-grey");
    assert_eq!(Sku::new("baerskin4-black-lxl").as_str(), "baerskin4-black");
    assert_eq!(Sku::new("baerskin4-black-xl").as_str(), "baerskin4-black");
    assert_eq!(Sku::new("baerskin4-black-2xl").as_str(), "baerskin4-black");
    assert_eq!(Sku::new("cargo-darkgreen-40").as_str(), "cargo-darkgreen");
}

#[test]
fn test_sku_case_insensitive() {
    assert_eq!(Sku::new("Hoodie-Black-XL").as_str(), Sku::new("hoodie-black").as_str());
    assert_eq!(Sku::new("  CARGO-DarkGreen-36 ").as_str(), "cargo-darkgreen");
}

#[test]
fn test_view_plate_value() {
    assert_eq!(View::Front.plate_value(), "swatthermals-black");
    assert_eq!(View::Back.plate_value(), "swatthermals-black");
    assert_eq!(View::Side.plate_value(), "side-special-plate");
    assert_eq!(View::Left.plate_value(), "patch-plate");
    assert_eq!(View::Right.plate_value(), "patch-plate");
}

#[test]
fn test_view_allows_patches() {
    assert!(View::Front.allows_patches());
    assert!(!View::Back.allows_patches());
    assert!(View::Side.allows_patches());
    assert!(View::Left.allows_patches());
    assert!(View::Right.allows_patches());
}

#[test]
fn test_view_as_str() {
    assert_eq!(View::Front.as_str(), "front");
    assert_eq!(View::Back.as_str(), "back");
    assert_eq!(View::Side.as_str(), "side");
    assert_eq!(View::Left.as_str(), "left");
    assert_eq!(View::Right.as_str(), "right");
    assert!(View::Front.allows_full_composition());
    assert!(!View::Side.allows_full_composition());
}

#[test]
fn test_view_allowed_categories() {
    assert!(View::Front.allowed_categories().is_none());
    assert!(View::Back.allowed_categories().is_none());
    assert!(View::Side.allowed_categories().is_none());
    let left = View::Left.allowed_categories().unwrap();
    assert_eq!(left, &["hoodies", "jackets", "patches-left", "patches-right"]);
    assert!(View::Right.allowed_categories().is_some());
}

#[test]
fn test_layer_param_parse() {
    let param = LayerParam::parse("hoodies/baerskin4-black").unwrap();
    assert_eq!(param.category, "hoodies");
    assert_eq!(param.sku.as_str(), "baerskin4-black");
}

#[test]
fn test_layer_param_parse_malformed() {
    assert!(LayerParam::parse("no-slash-here").is_none());
    assert!(LayerParam::parse("too/many/slashes").is_none());
}

#[test]
fn test_layer_param_to_string() {
    let param = LayerParam::new("hoodies", Sku::new("baerskin4-black-xl"));
    assert_eq!(param.to_string(), "hoodies/baerskin4-black");
    assert_eq!(param.layer_order(), Some(LayerOrder::Hoodies));
}

#[test]
fn test_layer_order() {
    assert!(LayerOrder::Pants < LayerOrder::Tops);
    assert!(LayerOrder::Tops < LayerOrder::Hoodies);
    assert!(LayerOrder::Hoodies < LayerOrder::Jackets);
    assert!(LayerOrder::Jackets < LayerOrder::Hats);
}

#[test]
fn test_layer_order_from_category() {
    assert_eq!(LayerOrder::from_category("pants"), Some(LayerOrder::Pants));
    assert_eq!(LayerOrder::from_category("softshell-patches-right"),
        Some(LayerOrder::SoftshellPatchesRight));
    assert_eq!(LayerOrder::from_category("shoes"), None);
    assert_eq!(LayerOrder::Patches.as_str(), "patches");
    assert_eq!(LayerOrder::GlovesTop.as_str(), "gloves-top");
}

#[test]
fn test_sku_identity_collapses_sizes() {
    assert_eq!(Sku::new("hoodie-black-xl"), Sku::new("HOODIE-BLACK-36"));
    assert_ne!(Sku::new("hoodie-black"), Sku::new("hoodie-grey"));
}

#[test]
fn test_sku_strips_letter_then_numeric_once_each() {
    // One letter suffix and then one numeric segment are removed, in that
    // order, and never more than one of each.
    assert_eq!(Sku::new("cargo-black-40-xl").as_str(), "cargo-black");
    assert_eq!(Sku::new("baerskin-s-s").as_str(), "baerskin-s");
    assert_eq!(Sku::new(Sku::new("baerskin-s-s").as_str()).as_str(), "baerskin");
    assert_eq!(Sku::new("plain").as_str(), "plain");
    assert_eq!(Sku::new("").as_str(), "");
}

#[test]
fn test_parse_view_tokens() {
    assert_eq!(parse_view("front"), Some(View::Front));
    assert_eq!(parse_view("BACK"), Some(View::Back));
    assert_eq!(parse_view("Side"), Some(View::Side));
    assert_eq!(parse_view("left"), Some(View::Left));
    assert_eq!(parse_view("right"), Some(View::Right));
    assert_eq!(parse_view("diagonal"), None);
    assert_eq!(parse_view(""), None);
}
