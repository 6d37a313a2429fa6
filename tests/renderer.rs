use toast::renderer::{render_diff, render_full, Renderer};
use toast::encode::encode_ops;
use toast::paint::PaintOp;
use toast::types::{AnsiColor, TerminalCell, TerminalFrame};

/// Renders a frame and records it as painted, as a successful write does.
fn paint(renderer: &mut Renderer, frame: TerminalFrame) -> Vec<u8> {
    let out = renderer.render(&frame);
    renderer.commit(frame);
    out
}

fn cell(ch: char, fg: u8, bg: u8) -> TerminalCell {
    TerminalCell { character: ch, foreground: AnsiColor(fg), background: AnsiColor(bg) }
}

#[test]
fn differential_paint_writes_one_cell() {
    let mut renderer = Renderer::new();
    let old = TerminalFrame::new(3, 1);
    let _ = paint(&mut renderer, old.clone());
    let mut new = TerminalFrame::new(3, 1);
    new.set(1, 0, cell('\u{2580}', 15, 0));
    let out = paint(&mut renderer, new);
    let expected = "\x1b[1;2H\x1b[38;5;15m\x1b[48;5;0m\u{2580}\x1b[0m";
    assert_eq!(String::from_utf8(out).unwrap(), expected);
}

#[test]
fn repainting_the_same_frame_emits_only_reset() {
    let mut renderer = Renderer::new();
    let mut frame = TerminalFrame::new(4, 3);
    frame.set(2, 1, cell('\u{2588}', 9, 9));
    frame.set(0, 2, cell('\u{2580}', 15, 0));
    let first = paint(&mut renderer, frame.clone());
    assert!(first.len() > 4);
    let second = paint(&mut renderer, frame);
    assert_eq!(second, b"\x1b[0m".to_vec());
}

#[test]
fn first_paint_is_full() {
    let mut renderer = Renderer::new();
    let mut frame = TerminalFrame::new(2, 2);
    frame.set(1, 1, cell('\u{2584}', 16, 16));
    let out = String::from_utf8(paint(&mut renderer, frame)).unwrap();
    let blank = "\x1b[38;5;0m\x1b[48;5;0m ";
    let expected = format!(
        "\x1b[1;1H{b}{b}\x1b[1E{b}\x1b[38;5;16m\x1b[48;5;16m\u{2584}\x1b[0m",
        b = blank
    );
    assert_eq!(out, expected);
}

#[test]
fn size_change_forces_full_paint() {
    let mut renderer = Renderer::new();
    let _ = paint(&mut renderer, TerminalFrame::new(2, 1));
    let out = String::from_utf8(paint(&mut renderer, TerminalFrame::new(1, 1))).unwrap();
    assert_eq!(out, "\x1b[1;1H\x1b[38;5;0m\x1b[48;5;0m \x1b[0m");
}

#[test]
fn adjacent_changes_share_one_cursor_move() {
    let old = TerminalFrame::new(4, 2);
    let mut new = TerminalFrame::new(4, 2);
    new.set(1, 1, cell('\u{2588}', 200, 200));
    new.set(2, 1, cell('\u{2588}', 201, 201));
    let ops = render_diff(&old, &new);
    assert_eq!(
        ops,
        vec![
            PaintOp::MoveTo(1, 1),
            PaintOp::Put(cell('\u{2588}', 200, 200)),
            PaintOp::Put(cell('\u{2588}', 201, 201)),
            PaintOp::Reset,
        ]
    );
}

/// Replays ops on a grid the way a terminal would.
fn replay(grid: &mut Vec<TerminalCell>, width: usize, height: usize, ops: &[PaintOp]) {
    let (mut x, mut y) = (0usize, 0usize);
    for op in ops {
        match *op {
            PaintOp::MoveTo(nx, ny) => {
                x = nx;
                y = ny;
            }
            PaintOp::NextLine => {
                x = 0;
                y += 1;
            }
            PaintOp::Put(c) => {
                if x < width && y < height {
                    grid[y * width + x] = c;
                }
                x += 1;
            }
            PaintOp::Reset => {}
        }
    }
}

#[test]
fn diff_paint_matches_full_paint() {
    let mut old = TerminalFrame::new(5, 3);
    old.set(0, 0, cell('\u{2580}', 1, 2));
    old.set(4, 2, cell('\u{2588}', 3, 3));
    let mut new = TerminalFrame::new(5, 3);
    new.set(2, 1, cell('\u{2580}', 7, 8));
    new.set(3, 1, cell('\u{2580}', 7, 9));
    new.set(4, 2, cell('\u{2588}', 3, 3));
    let mut via_diff = old.cells.clone();
    replay(&mut via_diff, 5, 3, &render_diff(&old, &new));
    let mut via_full = vec![cell('x', 1, 1); 15];
    replay(&mut via_full, 5, 3, &render_full(&new));
    assert_eq!(via_diff, via_full);
    assert_eq!(via_diff, new.cells);
}

#[test]
fn encoding_uses_decimal_colors_and_utf8() {
    let bytes = encode_ops(&vec![PaintOp::Put(cell('a', 7, 255)), PaintOp::NextLine, PaintOp::MoveTo(9, 99)]);
    assert_eq!(String::from_utf8(bytes).unwrap(), "\x1b[38;5;7m\x1b[48;5;255ma\x1b[1E\x1b[100;10H");
}

#[test]
fn clear_writes_erase_display() {
    let renderer = Renderer::new();
    assert_eq!(renderer.clear(), b"\x1b[2J".to_vec());
}

#[test]
fn empty_frame_paints_home_and_reset() {
    let mut renderer = Renderer::new();
    let out = paint(&mut renderer, TerminalFrame::new(0, 0));
    assert_eq!(out, b"\x1b[1;1H\x1b[0m".to_vec());
}

#[test]
fn uncommitted_frame_is_not_the_diff_base() {
    let mut renderer = Renderer::new();
    let _ = paint(&mut renderer, TerminalFrame::new(2, 1));
    let mut shown = TerminalFrame::new(2, 1);
    shown.set(0, 0, cell('\u{2588}', 9, 9));
    // The write of `shown` failed: it is rendered but never committed.
    let _ = renderer.render(&shown);
    let again = String::from_utf8(renderer.render(&shown)).unwrap();
    assert_eq!(again, "\x1b[1;1H\x1b[38;5;9m\x1b[48;5;9m\u{2588}\x1b[0m");
    renderer.commit(shown.clone());
    assert_eq!(renderer.render(&shown), b"\x1b[0m".to_vec());
}
