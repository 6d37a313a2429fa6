use vstd::prelude::*;
use vstd::arithmetic::div_mod::lemma_fundamental_div_mod_converse;
use rayon::iter::{IndexedParallelIterator, IntoParallelIterator, ParallelIterator};
use crate::types::{AnsiColor, RgbImage, TerminalCell, TerminalFrame, pixel_at};
use crate::quantizer::{ColorQuantizer, quantize_spec};

verus! {

/// Upper half block: top half in the foreground color, bottom in the background.
pub const UPPER_HALF_BLOCK: char = '\u{2580}';

/// Full block, used when both halves share one color.
pub const FULL_BLOCK: char = '\u{2588}';

/// The cell that shows a top and a bottom color.
pub open spec fn cell_for(top: AnsiColor, bottom: AnsiColor) -> TerminalCell {
    if top == bottom {
        TerminalCell { character: FULL_BLOCK, foreground: top, background: top }
    } else {
        TerminalCell { character: UPPER_HALF_BLOCK, foreground: top, background: bottom }
    }
}

/// A cell is a full block exactly where both halves quantize alike, with
/// that color in front and behind; otherwise an upper half block with the
/// top color in front and the bottom one behind.
pub proof fn lemma_half_block_rule(top: AnsiColor, bottom: AnsiColor)
    ensures
        (cell_for(top, bottom).character == FULL_BLOCK) <==> (top == bottom),
        top == bottom ==> cell_for(top, bottom).foreground == top && cell_for(
            top,
            bottom,
        ).background == top,
        top != bottom ==> cell_for(top, bottom).character == UPPER_HALF_BLOCK && cell_for(
            top,
            bottom,
        ).foreground == top && cell_for(top, bottom).background == bottom,
{
}

/// The cell at (x, y) for an image: pixels (x, 2y) and (x, 2y+1), the top
/// one doubled where the image ends after it.
pub open spec fn cell_spec(image: RgbImage, x: int, y: int) -> TerminalCell {
    cell_of(image.data@, image.width as int, image.height as int, x, y)
}

/// The cell at (x, y) for row-major RGB bytes of a width x height image.
pub open spec fn cell_of(data: Seq<u8>, width: int, height: int, x: int, y: int) -> TerminalCell {
    let top = pixel_at(data, width, x, 2 * y);
    let bottom = if 2 * y + 1 < height {
        pixel_at(data, width, x, 2 * y + 1)
    } else {
        top
    };
    cell_for(quantize_spec(top), quantize_spec(bottom))
}

/// The first `width` cells of row `y`.
pub open spec fn row_spec(image: RgbImage, y: int, width: int) -> Seq<TerminalCell> {
    Seq::new(width as nat, |x: int| cell_spec(image, x, y))
}

/// Turns an image of twice the terminal's height into a frame of half-block cells.
pub struct HalfBlockConverter {
    quantizer: ColorQuantizer,
}

impl HalfBlockConverter {
    /// The quantizer's table is built.
    pub closed spec fn wf(&self) -> bool {
        self.quantizer.wf()
    }

    pub fn new() -> (c: HalfBlockConverter)
        ensures
            c.wf(),
    {
        HalfBlockConverter { quantizer: ColorQuantizer::new() }
    }

    /// Converts the two pixels behind cell (cell_x, cell_y).
    pub fn convert_cell(&self, image: &RgbImage, cell_x: u32, cell_y: u32) -> (cell: TerminalCell)
        requires
            self.wf(),
            image.wf(),
            cell_x < image.width,
            2 * cell_y < image.height,
        ensures
            cell == cell_spec(*image, cell_x as int, cell_y as int),
    {
        let top_y = cell_y * 2;
        let top = image.get_pixel(cell_x, top_y);
        let bottom = if top_y + 1 < image.height {
            image.get_pixel(cell_x, top_y + 1)
        } else {
            top
        };
        let top_ansi = self.quantizer.quantize(top);
        let bottom_ansi = self.quantizer.quantize(bottom);
        if top_ansi == bottom_ansi {
            TerminalCell { character: FULL_BLOCK, foreground: top_ansi, background: top_ansi }
        } else {
            TerminalCell {
                character: UPPER_HALF_BLOCK,
                foreground: top_ansi,
                background: bottom_ansi,
            }
        }
    }

    /// Converts the first `width` cells of row `y`.
    pub fn convert_row(&self, image: &RgbImage, y: usize, width: usize) -> (row: Vec<TerminalCell>)
        requires
            self.wf(),
            image.wf(),
            width <= image.width,
            2 * y < image.height,
        ensures
            row@ == row_spec(*image, y as int, width as int),
    {
        let mut row: Vec<TerminalCell> = Vec::with_capacity(width);
        let mut x: usize = 0;
        while x < width
            invariant
                self.wf(),
                image.wf(),
                width <= image.width,
                2 * y < image.height,
                x <= width,
                row@.len() == x,
                forall|i: int| 0 <= i < x ==> row@[i] == cell_spec(*image, i, y as int),
            decreases width - x,
        {
            row.push(self.convert_cell(image, x as u32, y as u32));
            x = x + 1;
        }
        assert(row@ =~= row_spec(*image, y as int, width as int));
        row
    }

    /// Converts an image of (term_width, 2 * term_height) pixels, or one
    /// pixel row less, into a frame of term_width x term_height cells. Rows
    /// are converted in parallel.
    pub fn convert(&self, image: &RgbImage, term_width: usize, term_height: usize) -> (frame:
        TerminalFrame)
        requires
            self.wf(),
            image.wf(),
            term_width <= image.width,
            2 * term_height <= image.height + 1,
            term_width * term_height <= usize::MAX,
        ensures
            frame.wf(),
            frame.width == term_width,
            frame.height == term_height,
            forall|x: int, y: int|
                0 <= x < term_width && 0 <= y < term_height ==> #[trigger] frame.cell(x, y)
                    == cell_spec(*image, x, y),
    {
        let rows = convert_rows_parallel(self, image, term_width, term_height);
        let w = term_width;
        let mut cells: Vec<TerminalCell> = Vec::with_capacity(w * term_height);
        let mut y: usize = 0;
        while y < term_height
            invariant
                y <= term_height,
                w == term_width,
                w * term_height <= usize::MAX,
                rows@.len() == term_height,
                forall|j: int| 0 <= j < term_height ==> (#[trigger] rows@[j])@ == row_spec(*image, j, w as int),
                cells@.len() == y * w,
                forall|i: int|
                    0 <= i < cells@.len() ==> #[trigger] cells@[i] == cell_spec(*image, i % w as int, i / w as int),
            decreases term_height - y,
        {
            assert(y * w + w == (y + 1) * w) by (nonlinear_arith);
            assert((y + 1) * w <= w * term_height) by (nonlinear_arith)
                requires
                    y < term_height,
            ;
            let mut x: usize = 0;
            while x < w
                invariant
                    y < term_height,
                    x <= w,
                    w == term_width,
                    (y + 1) * w <= usize::MAX,
                    y * w + w == (y + 1) * w,
                    rows@.len() == term_height,
                    forall|j: int| 0 <= j < term_height ==> (#[trigger] rows@[j])@ == row_spec(*image, j, w as int),
                    cells@.len() == y * w + x,
                    forall|i: int|
                        0 <= i < cells@.len() ==> #[trigger] cells@[i] == cell_spec(*image, i % w as int, i / w as int),
                decreases w - x,
            {
                proof {
                    lemma_fundamental_div_mod_converse((y * w + x) as int, w as int, y as int, x as int);
                }
                cells.push(rows[y][x]);
                x = x + 1;
            }
            y = y + 1;
        }
        let frame = TerminalFrame { cells, width: term_width, height: term_height };
        assert forall|x: int, y: int|
            0 <= x < term_width && 0 <= y < term_height implies #[trigger] frame.cell(x, y)
                == cell_spec(*image, x, y) by {
            crate::types::lemma_index_in_grid(x, y, w as int, term_height as int);
            lemma_fundamental_div_mod_converse(y * w + x, w as int, y, x);
        }
        frame
    }
}

/// Relies on rayon's `collect_into_vec` on an indexed parallel iterator over
/// `0..height`: the vector holds the mapped items in index order, here
/// `convert_row(image, y, width)` for each row `y`.
#[verifier::external_body]
fn convert_rows_parallel(
    conv: &HalfBlockConverter,
    image: &RgbImage,
    width: usize,
    height: usize,
) -> (rows: Vec<Vec<TerminalCell>>)
    requires
        conv.wf(),
        image.wf(),
        width <= image.width,
        2 * height <= image.height + 1,
    ensures
        rows@.len() == height,
        forall|y: int| 0 <= y < height ==> (#[trigger] rows@[y])@ == row_spec(*image, y, width as int),
{
    let mut rows: Vec<Vec<TerminalCell>> = Vec::new();
    (0..height).into_par_iter().map(|y| conv.convert_row(image, y, width)).collect_into_vec(
        &mut rows,
    );
    rows
}

} // verus!
