use whatstauri::badge::{decode_rgba8, glyphs_for, rgba8_from_frame, IconError, PngFrame};

#[test]
fn glyphs_exact_then_capped() {
    assert_eq!(glyphs_for(1), "1");
    assert_eq!(glyphs_for(7), "7");
    assert_eq!(glyphs_for(99), "99");
    assert_eq!(glyphs_for(100), "99+");
    assert_eq!(glyphs_for(150), "99+");
}

#[test]
fn glyphs_for_zero_and_max() {
    assert_eq!(glyphs_for(0), "0");
    assert_eq!(glyphs_for(10), "10");
    assert_eq!(glyphs_for(u32::MAX), "99+");
}

fn encode(w: u32, h: u32, color: png::ColorType, depth: png::BitDepth, data: &[u8]) -> Vec<u8> {
    let mut out = Vec::new();
    {
        let mut enc = png::Encoder::new(&mut out, w, h);
        enc.set_color(color);
        enc.set_depth(depth);
        let mut writer = enc.write_header().unwrap();
        writer.write_image_data(data).unwrap();
    }
    out
}

#[test]
fn decodes_rgba_icon() {
    let pixels: Vec<u8> = (0..16u8).collect();
    let png = encode(2, 2, png::ColorType::Rgba, png::BitDepth::Eight, &pixels);
    let img = decode_rgba8(&png).unwrap();
    assert_eq!((img.width, img.height), (2, 2));
    assert_eq!(img.rgba, pixels);
}

#[test]
fn rejects_rgb_icon() {
    let pixels = [1u8; 12];
    let png = encode(2, 2, png::ColorType::Rgb, png::BitDepth::Eight, &pixels);
    assert!(matches!(decode_rgba8(&png), Err(IconError::NotRgba)));
}

#[test]
fn rejects_sixteen_bit_icon() {
    let pixels = [7u8; 32];
    let png = encode(2, 2, png::ColorType::Rgba, png::BitDepth::Sixteen, &pixels);
    assert!(matches!(decode_rgba8(&png), Err(IconError::NotEightBit)));
}

#[test]
fn rejects_non_png() {
    assert!(matches!(decode_rgba8(b"not a png"), Err(IconError::Decode)));
}

#[test]
fn frame_checks() {
    let f = PngFrame { pixels: vec![1, 2, 3, 4, 5, 6], width: 1, height: 1, color_type: 6, bit_depth: 8, buffer_size: 4 };
    let img = rgba8_from_frame(f).unwrap();
    assert_eq!(img.rgba, vec![1, 2, 3, 4]);
    assert_eq!((img.width, img.height), (1, 1));
    let g = PngFrame { pixels: vec![0; 3], width: 1, height: 1, color_type: 2, bit_depth: 8, buffer_size: 3 };
    assert!(matches!(rgba8_from_frame(g), Err(IconError::NotRgba)));
    let h = PngFrame { pixels: vec![0; 8], width: 1, height: 1, color_type: 6, bit_depth: 16, buffer_size: 8 };
    assert!(matches!(rgba8_from_frame(h), Err(IconError::NotEightBit)));
}
