use vstd::prelude::*;
use vstd::arithmetic::div_mod::lemma_fundamental_div_mod_converse;
use crate::types::{AnsiColor, CursorPosition, TerminalCell, TerminalFrame, lemma_index_in_grid};
use crate::halfblock::{FULL_BLOCK, UPPER_HALF_BLOCK};

verus! {

/// Lower half block.
pub const LOWER_HALF_BLOCK: char = '\u{2584}';

/// Palette index the cursor is drawn in (black of the color cube).
pub const CURSOR_COLOR: u8 = 16;

/// The arrow bitmap: the glyph at offset (dx, dy) from the cursor's tip.
pub open spec fn cursor_glyph(dx: int, dy: int) -> Option<char> {
    if dy == 0 {
        if dx == 0 {
            Some(FULL_BLOCK)
        } else if dx == 1 {
            Some(LOWER_HALF_BLOCK)
        } else {
            None
        }
    } else if dy == 1 {
        if 0 <= dx <= 2 {
            Some(FULL_BLOCK)
        } else if dx == 3 {
            Some(LOWER_HALF_BLOCK)
        } else {
            None
        }
    } else if dy == 2 {
        if 0 <= dx <= 4 {
            Some(FULL_BLOCK)
        } else if dx == 5 {
            Some(LOWER_HALF_BLOCK)
        } else {
            None
        }
    } else if dy == 3 {
        if dx == 0 {
            Some(UPPER_HALF_BLOCK)
        } else if dx == 3 || dx == 4 {
            Some(FULL_BLOCK)
        } else {
            None
        }
    } else if dy == 4 {
        if dx == 4 {
            Some(UPPER_HALF_BLOCK)
        } else {
            None
        }
    } else {
        None
    }
}

/// Cell (x, y) with the cursor at `pos` drawn over `c`.
pub open spec fn overlaid(c: TerminalCell, x: int, y: int, pos: CursorPosition) -> TerminalCell {
    match cursor_glyph(x - pos.x, y - pos.y) {
        Some(g) => TerminalCell {
            character: g,
            foreground: AnsiColor(CURSOR_COLOR),
            background: AnsiColor(CURSOR_COLOR),
        },
        None => c,
    }
}

fn cursor_glyph_at(dx: usize, dy: usize) -> (g: Option<char>)
    ensures
        g == cursor_glyph(dx as int, dy as int),
{
    if dy == 0 {
        if dx == 0 {
            Some(FULL_BLOCK)
        } else if dx == 1 {
            Some(LOWER_HALF_BLOCK)
        } else {
            None
        }
    } else if dy == 1 {
        if dx <= 2 {
            Some(FULL_BLOCK)
        } else if dx == 3 {
            Some(LOWER_HALF_BLOCK)
        } else {
            None
        }
    } else if dy == 2 {
        if dx <= 4 {
            Some(FULL_BLOCK)
        } else if dx == 5 {
            Some(LOWER_HALF_BLOCK)
        } else {
            None
        }
    } else if dy == 3 {
        if dx == 0 {
            Some(UPPER_HALF_BLOCK)
        } else if dx == 3 || dx == 4 {
            Some(FULL_BLOCK)
        } else {
            None
        }
    } else if dy == 4 {
        if dx == 4 {
            Some(UPPER_HALF_BLOCK)
        } else {
            None
        }
    } else {
        None
    }
}

/// Draws the arrow cursor with its tip at `pos`; cells outside the frame
/// are clipped.
pub fn overlay_cursor(frame: &mut TerminalFrame, pos: CursorPosition)
    requires
        old(frame).wf(),
    ensures
        final(frame).wf(),
        final(frame).width == old(frame).width,
        final(frame).height == old(frame).height,
        forall|x: int, y: int|
            0 <= x < old(frame).width && 0 <= y < old(frame).height ==> #[trigger] final(frame).cell(
                x,
                y,
            ) == overlaid(old(frame).cell(x, y), x, y, pos),
{
    let w = frame.width;
    let h = frame.height;
    let ghost start = frame.cells@;
    let mut y: usize = 0;
    while y < h
        invariant
            frame.wf(),
            frame.width == w,
            frame.height == h,
            start.len() == w * h,
            y <= h,
            forall|cx: int, cy: int|
                0 <= cx < w && 0 <= cy < y ==> #[trigger] frame.cell(cx, cy) == overlaid(
                    start[cy * w + cx],
                    cx,
                    cy,
                    pos,
                ),
            forall|i: int| y * w <= i < w * h ==> frame.cells@[i] == start[i],
        decreases h - y,
    {
        let mut x: usize = 0;
        while x < w
            invariant
                frame.wf(),
                frame.width == w,
                frame.height == h,
                start.len() == w * h,
                y < h,
                x <= w,
                forall|cx: int, cy: int|
                    (0 <= cx < w && 0 <= cy < y) || (0 <= cx < x && cy == y) ==> #[trigger] frame.cell(
                        cx,
                        cy,
                    ) == overlaid(start[cy * w + cx], cx, cy, pos),
                forall|i: int| y * w + x <= i < w * h ==> frame.cells@[i] == start[i],
            decreases w - x,
        {
            proof {
                lemma_index_in_grid(x as int, y as int, w as int, h as int);
            }
            let ghost before = frame.cells@;
            assert forall|cx: int, cy: int|
                (0 <= cx < w && 0 <= cy < y) || (0 <= cx < x && cy == y) implies #[trigger] before[cy
                * w + cx] == overlaid(start[cy * w + cx], cx, cy, pos) by {
                assert(frame.cell(cx, cy) == before[cy * w + cx]);
            }
            if x >= pos.x && y >= pos.y {
                if let Some(g) = cursor_glyph_at(x - pos.x, y - pos.y) {
                    let color = AnsiColor(CURSOR_COLOR);
                    frame.set(x, y, TerminalCell { character: g, foreground: color, background: color });
                }
            }
            proof {
                assert forall|cx: int, cy: int|
                    (0 <= cx < w && 0 <= cy < y) || (0 <= cx < x + 1 && cy == y) implies #[trigger] frame.cell(
                    cx,
                    cy,
                ) == overlaid(start[cy * w + cx], cx, cy, pos) by {
                    lemma_index_in_grid(cx, cy, w as int, h as int);
                    if cy * w + cx == y * w + x {
                        lemma_fundamental_div_mod_converse(y * w + x, w as int, cy, cx);
                        lemma_fundamental_div_mod_converse(y * w + x, w as int, y as int, x as int);
                        assert(before[y * w + x] == start[y * w + x]);
                    } else {
                        assert(frame.cells@[cy * w + cx] == before[cy * w + cx]);
                        if cy == y {
                            assert(cx < x);
                        }
                        assert(before[cy * w + cx] == overlaid(start[cy * w + cx], cx, cy, pos));
                    }
                }
            }
            x = x + 1;
        }
        assert(y * w + w == (y + 1) * w) by (nonlinear_arith);
        y = y + 1;
    }
    proof {
        assert forall|x: int, y: int| 0 <= x < w && 0 <= y < h implies start[y * w + x] == old(
            frame,
        ).cell(x, y) by {
            lemma_index_in_grid(x, y, w as int, h as int);
        }
    }
}

} // verus!
