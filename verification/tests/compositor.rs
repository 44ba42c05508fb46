use sandwich_core::{compose_layers, ComposeError, Compositor};

fn create_test_image(width: u32, height: u32, r: u8, g: u8, b: u8) -> Vec<u8> {
    let img = image::DynamicImage::ImageRgb8(image::RgbImage::from_pixel(
        width,
        height,
        image::Rgb([r, g, b]),
    ));
    let mut buffer = Vec::new();
    img.write_to(&mut std::io::Cursor::new(&mut buffer), image::ImageFormat::Jpeg)
        .unwrap();
    buffer
}

fn create_test_layer(width: u32, height: u32, r: u8, g: u8, b: u8, a: u8) -> Vec<u8> {
    let img = image::DynamicImage::ImageRgba8(image::RgbaImage::from_pixel(
        width,
        height,
        image::Rgba([r, g, b, a]),
    ));
    let mut buffer = Vec::new();
    img.write_to(&mut std::io::Cursor::new(&mut buffer), image::ImageFormat::Png)
        .unwrap();
    buffer
}

fn close(a: u8, b: u8, tolerance: u8) -> bool {
    a.abs_diff(b) <= tolerance
}

#[test]
fn test_compositor_creation() {
    let base = create_test_image(100, 100, 255, 0, 0);
    let compositor = Compositor::new(&base);
    assert!(compositor.is_ok());
}

#[test]
fn test_compositor_dimensions() {
    let base = create_test_image(100, 100, 255, 0, 0);
    let compositor = Compositor::new(&base).unwrap();
    assert_eq!(compositor.dimensions(), (100, 100));
}

#[test]
fn test_add_layer() {
    let base = create_test_image(100, 100, 255, 0, 0);
    let mut compositor = Compositor::new(&base).unwrap();
    let layer = create_test_layer(100, 100, 0, 255, 0, 128);
    assert!(compositor.add_layer(&layer).is_ok());
}

#[test]
fn test_compose_layers() {
    let base = create_test_image(100, 100, 255, 0, 0);
    let layer1 = create_test_layer(100, 100, 0, 255, 0, 128);
    let layer2 = create_test_layer(100, 100, 0, 0, 255, 128);
    let layers = vec![layer1, layer2];

    let result = compose_layers(&base, &layers);
    assert!(result.is_ok());
    let composite = result.unwrap();
    assert!(!composite.is_empty());
}

#[test]
fn test_compose_bad_base_is_decode_error() {
    let layers: Vec<Vec<u8>> = Vec::new();
    let result = compose_layers(&[1, 2, 3, 4], &layers);
    assert_eq!(result.unwrap_err(), ComposeError::DecodeBase);
}

#[test]
fn test_compose_bad_layer_reports_index() {
    let base = create_test_image(50, 50, 10, 20, 30);
    let good = create_test_layer(50, 50, 0, 255, 0, 255);
    let layers = vec![good, vec![9, 9, 9]];
    let result = compose_layers(&base, &layers);
    assert_eq!(result.unwrap_err(), ComposeError::DecodeLayer(1));
}

#[test]
fn test_transparent_layer_keeps_base() {
    let base = create_test_image(64, 64, 200, 40, 40);
    let transparent = create_test_layer(64, 64, 0, 255, 0, 0);
    let layers = vec![transparent];

    let plain = compose_layers(&base, &Vec::new()).unwrap();
    let overlaid = compose_layers(&base, &layers).unwrap();

    let plain_img = image::load_from_memory(&plain).unwrap().to_rgb8();
    let over_img = image::load_from_memory(&overlaid).unwrap().to_rgb8();
    assert_eq!(plain_img.dimensions(), over_img.dimensions());
    for (p, q) in plain_img.pixels().zip(over_img.pixels()) {
        assert!(close(p[0], q[0], 6) && close(p[1], q[1], 6) && close(p[2], q[2], 6));
    }
}

#[test]
fn test_opaque_layer_replaces_base() {
    let base = create_test_image(64, 64, 200, 40, 40);
    let opaque = create_test_layer(64, 64, 10, 220, 10, 255);
    let layers = vec![opaque];

    let overlaid = compose_layers(&base, &layers).unwrap();
    let over_img = image::load_from_memory(&overlaid).unwrap().to_rgb8();
    for q in over_img.pixels() {
        assert!(close(q[0], 10, 12) && close(q[1], 220, 12) && close(q[2], 10, 12));
    }
}

#[test]
fn test_mismatched_layer_is_resized_to_canvas() {
    let base = create_test_image(80, 80, 200, 40, 40);
    let small_opaque = create_test_layer(20, 20, 10, 220, 10, 255);
    let layers = vec![small_opaque];

    let overlaid = compose_layers(&base, &layers).unwrap();
    let over_img = image::load_from_memory(&overlaid).unwrap().to_rgb8();
    assert_eq!(over_img.dimensions(), (80, 80));
    let corner = over_img.get_pixel(79, 79);
    assert!(close(corner[0], 10, 12) && close(corner[1], 220, 12) && close(corner[2], 10, 12));
}
