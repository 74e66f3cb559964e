use maku::pixels::{blank_pixels, blend_over, encode_png, flatten_texels};
use maku::MakuError;

#[test]
fn blank_canvas_is_transparent() {
    let b = blank_pixels(3, 2);
    assert_eq!(b.len(), 3 * 2 * 4);
    assert!(b.iter().all(|&v| v == 0));
    assert!(blank_pixels(0, 5).is_empty());
}

#[test]
fn transparent_layer_keeps_the_canvas() {
    let canvas = vec![10, 20, 30, 255, 200, 100, 50, 128, 0, 0, 0, 0];
    let top = vec![255, 255, 255, 0, 1, 2, 3, 0, 99, 98, 97, 0];
    assert_eq!(blend_over(&canvas, &top), canvas);
}

#[test]
fn opaque_layer_replaces_the_canvas() {
    let canvas = vec![10, 20, 30, 255, 1, 2, 3, 4];
    let top = vec![200, 150, 100, 255, 9, 8, 7, 255];
    assert_eq!(blend_over(&canvas, &top), top);
}

#[test]
fn half_transparent_layer_mixes() {
    let canvas = vec![0, 0, 255, 0];
    let top = vec![255, 0, 0, 128];
    // (255 * 128 + 127) / 255 = 128; (255 * 127 + 127) / 255 = 127; (128 * 128 + 127) / 255 = 64
    assert_eq!(blend_over(&canvas, &top), vec![128, 0, 127, 64]);
}

#[test]
fn texels_flatten_in_order() {
    let t = vec![[1, 2, 3, 4], [5, 6, 7, 8]];
    assert_eq!(flatten_texels(&t), vec![1, 2, 3, 4, 5, 6, 7, 8]);
    assert!(flatten_texels(&vec![]).is_empty());
}

#[test]
fn png_round_trip_keeps_size_and_pixels() {
    let (w, h) = (3u32, 2u32);
    let pixels: Vec<u8> = (0..(w * h * 4)).map(|i| (i * 11 % 256) as u8).collect();
    let png = encode_png(&pixels, w, h).unwrap();
    assert_eq!(&png[1..4], b"PNG");
    let decoded = image::load_from_memory(&png).unwrap().to_rgba8();
    assert_eq!(decoded.dimensions(), (w, h));
    assert_eq!(decoded.into_raw(), pixels);
}

#[test]
fn png_of_a_blank_canvas_decodes_blank() {
    let pixels = blank_pixels(4, 4);
    let png = encode_png(&pixels, 4, 4).unwrap();
    let decoded = image::load_from_memory(&png).unwrap().to_rgba8();
    assert_eq!(decoded.dimensions(), (4, 4));
    assert!(decoded.into_raw().iter().all(|&v| v == 0));
}

#[test]
fn png_of_a_short_buffer_is_refused() {
    assert!(matches!(encode_png(&vec![0; 7], 1, 2), Err(MakuError::BufferSize)));
}

#[test]
fn png_of_any_right_sized_buffer_succeeds() {
    for (w, h) in [(1u32, 1u32), (5, 3), (64, 1)] {
        assert!(encode_png(&blank_pixels(w, h), w, h).is_ok());
    }
}

#[test]
fn png_of_an_empty_image_fails_in_the_codec() {
    assert!(matches!(encode_png(&vec![], 0, 0), Err(MakuError::Image(_))));
}

#[test]
fn opaque_or_clear_layer_blends_the_same_through_a_blank_canvas() {
    let bottom = vec![255, 255, 255, 255, 10, 20, 30, 40];
    let top = vec![1, 2, 3, 255, 90, 80, 70, 0];
    let through = blend_over(&bottom, &blend_over(&blank_pixels(2, 1), &top));
    assert_eq!(through, blend_over(&bottom, &top));
}

#[test]
fn half_transparent_layer_differs_through_a_blank_canvas() {
    let bottom = vec![255, 255, 255, 255];
    let top = vec![255, 0, 0, 128];
    let through = blend_over(&bottom, &blend_over(&blank_pixels(1, 1), &top));
    assert_eq!(blend_over(&bottom, &top)[0], 255);
    assert_eq!(through[0], 223);
}
