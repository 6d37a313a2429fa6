use toast::types::{AnsiColor, Dimensions, Rgb, RgbImage, TerminalCell, TerminalFrame};

#[test]
fn new_frame_is_blank() {
    let frame = TerminalFrame::new(3, 2);
    assert_eq!(frame.cells.len(), 6);
    let blank = TerminalCell { character: ' ', foreground: AnsiColor(0), background: AnsiColor(0) };
    assert!(frame.cells.iter().all(|c| *c == blank));
}

#[test]
fn get_and_set_ignore_out_of_bounds() {
    let mut frame = TerminalFrame::new(2, 2);
    let c = TerminalCell { character: '\u{2588}', foreground: AnsiColor(5), background: AnsiColor(5) };
    frame.set(2, 0, c);
    frame.set(0, 2, c);
    assert!(frame.cells.iter().all(|x| x.character == ' '));
    assert!(frame.get(2, 0).is_none());
    assert!(frame.get(0, 2).is_none());
    frame.set(1, 1, c);
    assert_eq!(frame.get(1, 1), Some(&c));
    assert_eq!(frame.cells[3], c);
}

#[test]
fn pixel_reads_row_major() {
    let image = RgbImage::new(vec![1, 2, 3, 4, 5, 6, 7, 8, 9, 10, 11, 12], 2, 2);
    assert_eq!(image.get_pixel(1, 0), Rgb::new(4, 5, 6));
    assert_eq!(image.get_pixel(0, 1), Rgb::new(7, 8, 9));
    assert_eq!(Dimensions::new(3, 4), Dimensions { width: 3, height: 4 });
}
