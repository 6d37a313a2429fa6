use toast::palette::generate_ansi_palette;
use toast::quantizer::{lut_index, ColorQuantizer};
use toast::types::{AnsiColor, Rgb};

#[test]
fn test_quantizer_basic_colors() {
    let q = ColorQuantizer::new();

    let black = q.quantize(Rgb::new(0, 0, 0));
    assert_eq!(black.as_u8(), 0);

    let white = q.quantize(Rgb::new(255, 255, 255));
    assert_eq!(white.as_u8(), 15);

    let red = q.quantize(Rgb::new(255, 0, 0));
    assert_eq!(red.as_u8(), 9);
}

#[test]
fn test_lut_index() {
    assert_eq!(lut_index(0, 0, 0), 0);
    assert_eq!(lut_index(31, 31, 31), 32767);
    assert_eq!(lut_index(1, 0, 0), 1024);
    assert_eq!(lut_index(0, 1, 0), 32);
    assert_eq!(lut_index(0, 0, 1), 1);
}

#[test]
fn test_ansi_palette_generation() {
    let palette = generate_ansi_palette();
    assert_eq!(palette[0], Rgb::new(0, 0, 0));
    assert_eq!(palette[15], Rgb::new(255, 255, 255));
    assert_eq!(palette[232], Rgb::new(8, 8, 8));
    assert_eq!(palette[255], Rgb::new(238, 238, 238));
}

#[test]
fn palette_system_cube_and_gray_entries() {
    let palette = generate_ansi_palette();
    assert_eq!(palette.len(), 256);
    assert_eq!(palette[7], Rgb::new(192, 192, 192));
    assert_eq!(palette[8], Rgb::new(128, 128, 128));
    assert_eq!(palette[9], Rgb::new(255, 0, 0));
    assert_eq!(palette[16], Rgb::new(0, 0, 0));
    assert_eq!(palette[17], Rgb::new(0, 0, 95));
    assert_eq!(palette[16 + 36 * 2 + 6 * 3 + 4], Rgb::new(135, 175, 215));
    assert_eq!(palette[231], Rgb::new(255, 255, 255));
    assert_eq!(palette[233], Rgb::new(18, 18, 18));
}

#[test]
fn quantize_exact_palette_colors() {
    let q = ColorQuantizer::new();
    assert_eq!(q.quantize(Rgb::new(0, 255, 0)), AnsiColor(10));
    assert_eq!(q.quantize(Rgb::new(0, 0, 255)), AnsiColor(12));
    assert_eq!(q.quantize(Rgb::new(255, 255, 0)), AnsiColor(11));
}

#[test]
fn quantize_ignores_low_three_bits() {
    let q = ColorQuantizer::new();
    for &(r, g, b) in &[(13u8, 200u8, 77u8), (250, 3, 129), (100, 100, 100), (7, 7, 7)] {
        let c = Rgb::new(r, g, b);
        let widen = |v: u8| ((v >> 3) << 3) | ((v >> 3) >> 2);
        let bucket = Rgb::new(widen(r), widen(g), widen(b));
        assert_eq!(q.quantize(c), q.quantize(bucket));
    }
}

#[test]
fn quantize_batch_keeps_order() {
    let q = ColorQuantizer::new();
    let colors = vec![Rgb::new(255, 255, 255), Rgb::new(0, 0, 0), Rgb::new(255, 0, 0)];
    let out = q.quantize_batch(&colors);
    assert_eq!(out, vec![AnsiColor(15), AnsiColor(0), AnsiColor(9)]);
    assert!(q.quantize_batch(&[]).is_empty());
}
