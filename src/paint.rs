use vstd::prelude::*;
use crate::types::{TerminalCell, TerminalFrame, lemma_index_in_grid};

verus! {

/// One step of painting a terminal.
#[derive(Debug, Clone, Copy, PartialEq, Eq, Structural)]
pub enum PaintOp {
    /// Put the cursor at column x, row y.
    MoveTo(usize, usize),
    /// Put the cursor at the start of the next row.
    NextLine,
    /// Write a cell at the cursor, which then moves one column right.
    Put(TerminalCell),
    /// Reset the colors.
    Reset,
}

/// Ops that paint every cell from (x, y) on, row by row, for a full paint.
pub open spec fn full_from(cells: Seq<TerminalCell>, w: int, h: int, x: int, y: int) -> Seq<PaintOp>
    decreases h - y, w - x,
{
    if y >= h {
        seq![PaintOp::Reset]
    } else if x >= w {
        if y + 1 < h {
            seq![PaintOp::NextLine] + full_from(cells, w, h, 0, y + 1)
        } else {
            full_from(cells, w, h, 0, y + 1)
        }
    } else {
        seq![PaintOp::Put(cells[y * w + x])] + full_from(cells, w, h, x + 1, y)
    }
}

/// A full paint: home the cursor, write every cell, reset the colors.
pub open spec fn full_ops(f: TerminalFrame) -> Seq<PaintOp> {
    seq![PaintOp::MoveTo(0, 0)] + full_from(f.cells@, f.width as int, f.height as int, 0, 0)
}

/// Ops that bring the cells from (x, y) on from `old` to `new`, skipping
/// equal cells and moving the cursor only where it is not already in place.
pub open spec fn diff_from(
    old: Seq<TerminalCell>,
    new: Seq<TerminalCell>,
    w: int,
    h: int,
    x: int,
    y: int,
    cursor: Option<(int, int)>,
) -> Seq<PaintOp>
    decreases h - y, w - x,
{
    if y >= h {
        seq![PaintOp::Reset]
    } else if x >= w {
        diff_from(old, new, w, h, 0, y + 1, cursor)
    } else if old[y * w + x] == new[y * w + x] {
        diff_from(old, new, w, h, x + 1, y, cursor)
    } else {
        let moves = if cursor == Some((x, y)) {
            Seq::<PaintOp>::empty()
        } else {
            seq![PaintOp::MoveTo(x as usize, y as usize)]
        };
        moves + seq![PaintOp::Put(new[y * w + x])] + diff_from(
            old,
            new,
            w,
            h,
            x + 1,
            y,
            Some((x + 1, y)),
        )
    }
}

/// A differential paint from `old` to `new` (same dimensions).
pub open spec fn diff_ops(old: TerminalFrame, new: TerminalFrame) -> Seq<PaintOp> {
    diff_from(old.cells@, new.cells@, new.width as int, new.height as int, 0, 0, None)
}

/// What is painted for `new` after `front`: a diff where the front buffer
/// has the same dimensions, else a full paint.
pub open spec fn paint_ops(front: Option<TerminalFrame>, new: TerminalFrame) -> Seq<PaintOp> {
    if front.is_some() && front.unwrap().width == new.width && front.unwrap().height
        == new.height {
        diff_ops(front.unwrap(), new)
    } else {
        full_ops(new)
    }
}

/// A terminal screen of a given width and height: its cells and the cursor
/// column and row.
pub open spec fn apply_op(
    s: (Seq<TerminalCell>, int, int),
    w: int,
    h: int,
    op: PaintOp,
) -> (Seq<TerminalCell>, int, int) {
    match op {
        PaintOp::MoveTo(x, y) => (s.0, x as int, y as int),
        PaintOp::NextLine => (s.0, 0, s.2 + 1),
        PaintOp::Put(c) => (
            if 0 <= s.1 < w && 0 <= s.2 < h {
                s.0.update(s.2 * w + s.1, c)
            } else {
                s.0
            },
            s.1 + 1,
            s.2,
        ),
        PaintOp::Reset => s,
    }
}

/// The screen after a sequence of ops.
pub open spec fn apply_ops(
    s: (Seq<TerminalCell>, int, int),
    w: int,
    h: int,
    ops: Seq<PaintOp>,
) -> (Seq<TerminalCell>, int, int)
    decreases ops.len(),
{
    if ops.len() == 0 {
        s
    } else {
        apply_ops(apply_op(s, w, h, ops[0]), w, h, ops.drop_first())
    }
}

/// Running two op sequences is running their concatenation.
pub proof fn lemma_apply_concat(
    s: (Seq<TerminalCell>, int, int),
    w: int,
    h: int,
    a: Seq<PaintOp>,
    b: Seq<PaintOp>,
)
    ensures
        apply_ops(s, w, h, a + b) == apply_ops(apply_ops(s, w, h, a), w, h, b),
    decreases a.len(),
{
    if a.len() == 0 {
        assert(a + b =~= b);
    } else {
        assert((a + b).drop_first() =~= a.drop_first() + b);
        assert((a + b)[0] == a[0]);
        lemma_apply_concat(apply_op(s, w, h, a[0]), w, h, a.drop_first(), b);
    }
}

proof fn lemma_apply_one(s: (Seq<TerminalCell>, int, int), w: int, h: int, op: PaintOp)
    ensures
        apply_ops(s, w, h, seq![op]) == apply_op(s, w, h, op),
{
    assert(seq![op].drop_first() =~= Seq::<PaintOp>::empty());
    assert(apply_ops(apply_op(s, w, h, op), w, h, Seq::<PaintOp>::empty()) == apply_op(s, w, h, op));
}

/// A full paint from (x, y) on leaves the screen showing `cells`, whatever
/// it showed past (x, y) before.
proof fn lemma_full_from_paints(
    cells: Seq<TerminalCell>,
    w: int,
    h: int,
    x: int,
    y: int,
    s: (Seq<TerminalCell>, int, int),
)
    requires
        0 <= w <= usize::MAX,
        0 <= h,
        cells.len() == w * h,
        s.0.len() == w * h,
        0 <= x <= w,
        0 <= y <= h,
        y * w + x <= w * h,
        y < h ==> s.1 == x && s.2 == y,
        forall|i: int| 0 <= i < y * w + x ==> s.0[i] == cells[i],
    ensures
        apply_ops(s, w, h, full_from(cells, w, h, x, y)).0 == cells,
    decreases h - y, w - x,
{
    if y >= h {
        lemma_apply_one(s, w, h, PaintOp::Reset);
        assert(y * w >= w * h) by (nonlinear_arith)
            requires
                y >= h,
                w >= 0,
        ;
        assert(s.0 =~= cells);
    } else if x >= w {
        assert(y * w + w == (y + 1) * w) by (nonlinear_arith);
        if y + 1 < h {
            let s2 = apply_op(s, w, h, PaintOp::NextLine);
            lemma_apply_concat(s, w, h, seq![PaintOp::NextLine], full_from(cells, w, h, 0, y + 1));
            lemma_apply_one(s, w, h, PaintOp::NextLine);
            assert((y + 1) * w <= w * h) by (nonlinear_arith)
                requires
                    y + 1 < h,
                    w >= 0,
            ;
            lemma_full_from_paints(cells, w, h, 0, y + 1, s2);
        } else {
            lemma_full_from_paints(cells, w, h, 0, y + 1, s);
        }
    } else {
        lemma_index_in_grid(x, y, w, h);
        let op = PaintOp::Put(cells[y * w + x]);
        let s2 = apply_op(s, w, h, op);
        lemma_apply_concat(s, w, h, seq![op], full_from(cells, w, h, x + 1, y));
        lemma_apply_one(s, w, h, op);
        lemma_full_from_paints(cells, w, h, x + 1, y, s2);
    }
}

/// A differential paint from (x, y) on, over a screen that shows `new`
/// before (x, y) and `old` from there, leaves it showing `new`.
proof fn lemma_diff_from_paints(
    old: Seq<TerminalCell>,
    new: Seq<TerminalCell>,
    w: int,
    h: int,
    x: int,
    y: int,
    cursor: Option<(int, int)>,
    s: (Seq<TerminalCell>, int, int),
)
    requires
        0 <= w <= usize::MAX,
        0 <= h <= usize::MAX,
        old.len() == w * h,
        new.len() == w * h,
        s.0.len() == w * h,
        0 <= x <= w,
        0 <= y <= h,
        y * w + x <= w * h,
        cursor matches Some((cx, cy)) ==> s.1 == cx && s.2 == cy,
        forall|i: int| 0 <= i < y * w + x ==> s.0[i] == new[i],
        forall|i: int| y * w + x <= i < w * h ==> s.0[i] == old[i],
    ensures
        apply_ops(s, w, h, diff_from(old, new, w, h, x, y, cursor)).0 == new,
    decreases h - y, w - x,
{
    if y >= h {
        lemma_apply_one(s, w, h, PaintOp::Reset);
        assert(y * w >= w * h) by (nonlinear_arith)
            requires
                y >= h,
                w >= 0,
        ;
        assert(s.0 =~= new);
    } else if x >= w {
        assert(y * w + w == (y + 1) * w) by (nonlinear_arith);
        assert((y + 1) * w <= w * h) by (nonlinear_arith)
            requires
                y < h,
                w >= 0,
        ;
        lemma_diff_from_paints(old, new, w, h, 0, y + 1, cursor, s);
    } else {
        lemma_index_in_grid(x, y, w, h);
        let i = y * w + x;
        if old[i] == new[i] {
            lemma_diff_from_paints(old, new, w, h, x + 1, y, cursor, s);
        } else {
            let rest = diff_from(old, new, w, h, x + 1, y, Some((x + 1, y)));
            let put = PaintOp::Put(new[i]);
            let s1 = if cursor == Some((x, y)) {
                s
            } else {
                apply_op(s, w, h, PaintOp::MoveTo(x as usize, y as usize))
            };
            let moves = if cursor == Some((x, y)) {
                Seq::<PaintOp>::empty()
            } else {
                seq![PaintOp::MoveTo(x as usize, y as usize)]
            };
            assert(diff_from(old, new, w, h, x, y, cursor) == moves + seq![put] + rest);
            lemma_apply_concat(s, w, h, moves, seq![put] + rest);
            assert(moves + seq![put] + rest =~= moves + (seq![put] + rest));
            if cursor == Some((x, y)) {
                assert(apply_ops(s, w, h, moves) == s);
            } else {
                lemma_apply_one(s, w, h, PaintOp::MoveTo(x as usize, y as usize));
            }
            lemma_apply_concat(s1, w, h, seq![put], rest);
            lemma_apply_one(s1, w, h, put);
            let s2 = apply_op(s1, w, h, put);
            lemma_diff_from_paints(old, new, w, h, x + 1, y, Some((x + 1, y)), s2);
        }
    }
}

/// A differential paint of a frame over itself writes nothing but the reset.
proof fn lemma_diff_from_same(
    c: Seq<TerminalCell>,
    w: int,
    h: int,
    x: int,
    y: int,
    cursor: Option<(int, int)>,
)
    ensures
        diff_from(c, c, w, h, x, y, cursor) == seq![PaintOp::Reset],
    decreases h - y, w - x,
{
    if y >= h {
    } else if x >= w {
        lemma_diff_from_same(c, w, h, 0, y + 1, cursor);
    } else {
        lemma_diff_from_same(c, w, h, x + 1, y, cursor);
    }
}

/// A frame is well formed and small enough to address with 16-bit cursor
/// coordinates.
pub open spec fn paintable(f: TerminalFrame) -> bool {
    f.wf() && f.width < 65535 && f.height < 65535
}

/// Re-painting the frame that was painted last emits only the color reset.
pub proof fn lemma_repaint_is_reset(f: TerminalFrame)
    requires
        paintable(f),
    ensures
        paint_ops(Some(f), f) == seq![PaintOp::Reset],
{
    lemma_diff_from_same(f.cells@, f.width as int, f.height as int, 0, 0, None);
}

/// A full paint leaves any screen of the frame's size showing the frame.
pub proof fn lemma_full_paint_shows_frame(f: TerminalFrame, s: (Seq<TerminalCell>, int, int))
    requires
        paintable(f),
        s.0.len() == f.cells@.len(),
    ensures
        apply_ops(s, f.width as int, f.height as int, full_ops(f)).0 == f.cells@,
{
    let (w, h) = (f.width as int, f.height as int);
    let m = PaintOp::MoveTo(0, 0);
    lemma_apply_concat(s, w, h, seq![m], full_from(f.cells@, w, h, 0, 0));
    lemma_apply_one(s, w, h, m);
    lemma_full_from_paints(f.cells@, w, h, 0, 0, apply_op(s, w, h, m));
}

/// On a screen that shows `old`, the differential paint to `new` leaves the
/// same cells as a full paint of `new` does.
pub proof fn lemma_diff_paint_equals_full_paint(
    old: TerminalFrame,
    new: TerminalFrame,
    s: (Seq<TerminalCell>, int, int),
    t: (Seq<TerminalCell>, int, int),
)
    requires
        paintable(old),
        paintable(new),
        old.width == new.width,
        old.height == new.height,
        s.0 == old.cells@,
        t.0.len() == new.cells@.len(),
    ensures
        apply_ops(s, new.width as int, new.height as int, diff_ops(old, new)).0 == apply_ops(
            t,
            new.width as int,
            new.height as int,
            full_ops(new),
        ).0,
        apply_ops(s, new.width as int, new.height as int, paint_ops(Some(old), new)).0
            == new.cells@,
{
    let (w, h) = (new.width as int, new.height as int);
    lemma_diff_from_paints(old.cells@, new.cells@, w, h, 0, 0, None, s);
    lemma_full_paint_shows_frame(new, t);
}

} // verus!
