use toast::halfblock::{HalfBlockConverter, FULL_BLOCK, UPPER_HALF_BLOCK};
use toast::types::{AnsiColor, RgbImage};

#[test]
fn test_convert_single_cell_same_color() {
    let converter = HalfBlockConverter::new();
    let data = vec![255, 255, 255, 255, 255, 255];
    let image = RgbImage::new(data, 1, 2);

    let cell = converter.convert_cell(&image, 0, 0);

    assert_eq!(cell.character, FULL_BLOCK);
    assert_eq!(cell.foreground, cell.background);
}

#[test]
fn test_convert_single_cell_different_colors() {
    let converter = HalfBlockConverter::new();
    let data = vec![255, 255, 255, 0, 0, 0];
    let image = RgbImage::new(data, 1, 2);

    let cell = converter.convert_cell(&image, 0, 0);

    assert_eq!(cell.character, UPPER_HALF_BLOCK);
    assert_eq!(cell.foreground.as_u8(), 15);
    assert_eq!(cell.background.as_u8(), 0);
}

#[test]
fn test_convert_full_frame() {
    let converter = HalfBlockConverter::new();
    let mut data = vec![0u8; 4 * 4 * 3];
    for pixel in data.chunks_mut(3) {
        pixel[0] = 255;
        pixel[1] = 255;
        pixel[2] = 255;
    }
    let image = RgbImage::new(data, 4, 4);

    let frame = converter.convert(&image, 4, 2);

    assert_eq!(frame.width, 4);
    assert_eq!(frame.height, 2);
    assert_eq!(frame.cells.len(), 8);
    for cell in &frame.cells {
        assert_eq!(cell.foreground.as_u8(), 15);
        assert_eq!(cell.background.as_u8(), 15);
    }
}

#[test]
fn same_color_cell_is_full_white_block() {
    let converter = HalfBlockConverter::new();
    let image = RgbImage::new(vec![255; 6], 1, 2);
    let cell = converter.convert_cell(&image, 0, 0);
    assert_eq!(cell.character, '\u{2588}');
    assert_eq!(cell.foreground, AnsiColor(15));
    assert_eq!(cell.background, AnsiColor(15));
}

#[test]
fn odd_height_doubles_the_top_pixel() {
    let converter = HalfBlockConverter::new();
    // 1x3 image: white, black, red; two rows of cells.
    let image = RgbImage::new(vec![255, 255, 255, 0, 0, 0, 255, 0, 0], 1, 3);
    let frame = converter.convert(&image, 1, 2);
    let top = frame.get(0, 0).unwrap();
    assert_eq!((top.character, top.foreground, top.background), (UPPER_HALF_BLOCK, AnsiColor(15), AnsiColor(0)));
    let bottom = frame.get(0, 1).unwrap();
    assert_eq!((bottom.character, bottom.foreground, bottom.background), (FULL_BLOCK, AnsiColor(9), AnsiColor(9)));
}

#[test]
fn rows_come_out_in_order() {
    let converter = HalfBlockConverter::new();
    // 2x4 image: row pairs white/white then black/black, per column.
    let mut data = vec![255u8; 2 * 2 * 3];
    data.extend(vec![0u8; 2 * 2 * 3]);
    let image = RgbImage::new(data, 2, 4);
    let frame = converter.convert(&image, 2, 2);
    assert_eq!(frame.get(1, 0).unwrap().foreground, AnsiColor(15));
    assert_eq!(frame.get(1, 1).unwrap().foreground, AnsiColor(0));
    assert!(frame.get(2, 0).is_none());
}
