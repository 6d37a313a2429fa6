use vstd::prelude::*;
use crate::types::{TerminalFrame, lemma_index_in_grid};
use crate::paint::{PaintOp, full_from, full_ops, diff_from, diff_ops, paint_ops, paintable, lemma_repaint_is_reset};
use crate::encode::{encodable, encode_ops, ops_code, op_code, clear_bytes, clear_code, reset_code};

verus! {

/// The cursor a differential paint expects, as integers.
pub open spec fn cursor_view(c: Option<(usize, usize)>) -> Option<(int, int)> {
    match c {
        Some((x, y)) => Some((x as int, y as int)),
        None => None,
    }
}

/// The ops of a full paint of `frame`.
pub fn render_full(frame: &TerminalFrame) -> (ops: Vec<PaintOp>)
    requires
        paintable(*frame),
    ensures
        ops@ == full_ops(*frame),
        forall|i: int| 0 <= i < ops@.len() ==> encodable(#[trigger] ops@[i]),
{
    let w = frame.width;
    let h = frame.height;
    let ghost cells = frame.cells@;
    let n = frame.cells.len();
    let mut ops: Vec<PaintOp> = Vec::new();
    ops.push(PaintOp::MoveTo(0, 0));
    let mut y: usize = 0;
    while y < h
        invariant
            paintable(*frame),
            w == frame.width,
            h == frame.height,
            cells == frame.cells@,
            n == cells.len(),
            y <= h,
            ops@ + full_from(cells, w as int, h as int, 0, y as int) == full_ops(*frame),
            forall|i: int| 0 <= i < ops@.len() ==> encodable(#[trigger] ops@[i]),
        decreases h - y,
    {
        let mut x: usize = 0;
        while x < w
            invariant
                paintable(*frame),
                w == frame.width,
                h == frame.height,
                cells == frame.cells@,
                n == cells.len(),
                y < h,
                x <= w,
                ops@ + full_from(cells, w as int, h as int, x as int, y as int) == full_ops(
                    *frame,
                ),
                forall|i: int| 0 <= i < ops@.len() ==> encodable(#[trigger] ops@[i]),
            decreases w - x,
        {
            proof {
                lemma_index_in_grid(x as int, y as int, w as int, h as int);
            }
            let op = PaintOp::Put(frame.cells[y * w + x]);
            let ghost before = ops@;
            ops.push(op);
            assert(ops@ + full_from(cells, w as int, h as int, x + 1, y as int) =~= before + (seq![
                op,
            ] + full_from(cells, w as int, h as int, x + 1, y as int)));
            x = x + 1;
        }
        if y + 1 < h {
            let ghost before = ops@;
            ops.push(PaintOp::NextLine);
            assert(ops@ + full_from(cells, w as int, h as int, 0, y + 1) =~= before + (seq![
                PaintOp::NextLine,
            ] + full_from(cells, w as int, h as int, 0, y + 1)));
        }
        y = y + 1;
    }
    let ghost before = ops@;
    ops.push(PaintOp::Reset);
    assert(ops@ =~= before + full_from(cells, w as int, h as int, 0, h as int));
    ops
}

/// The ops of a differential paint from `old_frame` to `new_frame`.
pub fn render_diff(old_frame: &TerminalFrame, new_frame: &TerminalFrame) -> (ops: Vec<PaintOp>)
    requires
        paintable(*old_frame),
        paintable(*new_frame),
        old_frame.width == new_frame.width,
        old_frame.height == new_frame.height,
    ensures
        ops@ == diff_ops(*old_frame, *new_frame),
        forall|i: int| 0 <= i < ops@.len() ==> encodable(#[trigger] ops@[i]),
{
    let w = new_frame.width;
    let h = new_frame.height;
    let ghost (oc, nc) = (old_frame.cells@, new_frame.cells@);
    let n = new_frame.cells.len();
    let mut ops: Vec<PaintOp> = Vec::new();
    let mut last: Option<(usize, usize)> = None;
    let mut y: usize = 0;
    while y < h
        invariant
            paintable(*old_frame),
            paintable(*new_frame),
            w == new_frame.width,
            h == new_frame.height,
            w == old_frame.width,
            h == old_frame.height,
            oc == old_frame.cells@,
            nc == new_frame.cells@,
            n == nc.len(),
            y <= h,
            ops@ + diff_from(oc, nc, w as int, h as int, 0, y as int, cursor_view(last)) == diff_ops(
                *old_frame,
                *new_frame,
            ),
            forall|i: int| 0 <= i < ops@.len() ==> encodable(#[trigger] ops@[i]),
        decreases h - y,
    {
        let mut x: usize = 0;
        while x < w
            invariant
                paintable(*old_frame),
                paintable(*new_frame),
                w == new_frame.width,
                h == new_frame.height,
                w == old_frame.width,
                h == old_frame.height,
                oc == old_frame.cells@,
                nc == new_frame.cells@,
                n == nc.len(),
                y < h,
                x <= w,
                ops@ + diff_from(oc, nc, w as int, h as int, x as int, y as int, cursor_view(last))
                    == diff_ops(*old_frame, *new_frame),
                forall|i: int| 0 <= i < ops@.len() ==> encodable(#[trigger] ops@[i]),
            decreases w - x,
        {
            proof {
                lemma_index_in_grid(x as int, y as int, w as int, h as int);
            }
            let i = y * w + x;
            let old_cell = old_frame.cells[i];
            let new_cell = new_frame.cells[i];
            if old_cell != new_cell {
                let at_cursor = match last {
                    Some((lx, ly)) => lx == x && ly == y,
                    None => false,
                };
                let ghost before = ops@;
                let ghost rest = diff_from(oc, nc, w as int, h as int, x + 1, y as int, Some((x + 1, y as int)));
                if !at_cursor {
                    ops.push(PaintOp::MoveTo(x, y));
                }
                ops.push(PaintOp::Put(new_cell));
                proof {
                    let moves = if cursor_view(last) == Some((x as int, y as int)) {
                        Seq::<PaintOp>::empty()
                    } else {
                        seq![PaintOp::MoveTo(x, y)]
                    };
                    assert(at_cursor <==> cursor_view(last) == Some((x as int, y as int)));
                    assert(ops@ =~= before + moves + seq![PaintOp::Put(new_cell)]);
                    assert(ops@ + rest =~= before + (moves + seq![PaintOp::Put(new_cell)] + rest));
                }
                last = Some((x + 1, y));
            }
            x = x + 1;
        }
        y = y + 1;
    }
    let ghost before = ops@;
    ops.push(PaintOp::Reset);
    assert(ops@ =~= before + diff_from(oc, nc, w as int, h as int, 0, h as int, cursor_view(last)));
    ops
}

/// Painting the frame that is already on screen writes nothing but the
/// attribute reset.
pub proof fn lemma_repaint_emits_only_reset(f: TerminalFrame)
    requires
        paintable(f),
    ensures
        ops_code(paint_ops(Some(f), f)) == reset_code(),
{
    lemma_repaint_is_reset(f);
    let ops = seq![PaintOp::Reset];
    assert(ops.drop_last() =~= Seq::<PaintOp>::empty());
    assert(ops_code(ops) =~= ops_code(Seq::<PaintOp>::empty()) + op_code(PaintOp::Reset));
}

/// Paints frames with differential updates against the last painted one.
pub struct Renderer {
    front_buffer: Option<TerminalFrame>,
}

impl Renderer {
    /// The frame painted last, if any.
    pub closed spec fn front(&self) -> Option<TerminalFrame> {
        self.front_buffer
    }

    /// The front buffer, where there is one, is a paintable frame.
    pub open spec fn wf(&self) -> bool {
        self.front() matches Some(f) ==> paintable(f)
    }

    pub fn new() -> (r: Renderer)
        ensures
            r.wf(),
            r.front() == None::<TerminalFrame>,
    {
        Renderer { front_buffer: None }
    }

    /// The bytes that paint `new_frame`: a diff against the front buffer
    /// where the dimensions agree, else a full paint. The front buffer stays
    /// as it is until the bytes have reached the screen (see `commit`).
    pub fn render(&self, new_frame: &TerminalFrame) -> (out: Vec<u8>)
        requires
            self.wf(),
            paintable(*new_frame),
        ensures
            out@ == ops_code(paint_ops(self.front(), *new_frame)),
    {
        let ops = match &self.front_buffer {
            Some(old_frame) => {
                if old_frame.width == new_frame.width && old_frame.height == new_frame.height {
                    render_diff(old_frame, new_frame)
                } else {
                    render_full(new_frame)
                }
            },
            None => render_full(new_frame),
        };
        encode_ops(&ops)
    }

    /// Records `frame` as painted: it becomes the front buffer that the next
    /// `render` diffs against.
    pub fn commit(&mut self, frame: TerminalFrame)
        requires
            paintable(frame),
        ensures
            final(self).wf(),
            final(self).front() == Some(frame),
    {
        self.front_buffer = Some(frame);
    }

    /// The bytes that clear the screen. The front buffer stays.
    pub fn clear(&self) -> (out: Vec<u8>)
        ensures
            out@ == clear_code(),
    {
        clear_bytes()
    }
}

} // verus!
