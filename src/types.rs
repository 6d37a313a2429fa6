use vstd::prelude::*;

verus! {

/// Width and height of a viewport or a terminal.
#[derive(Debug, Clone, Copy, PartialEq, Eq, Structural)]
pub struct Dimensions {
    pub width: u32,
    pub height: u32,
}

impl Dimensions {
    pub fn new(width: u32, height: u32) -> (r: Dimensions)
        ensures
            r.width == width,
            r.height == height,
    {
        Dimensions { width, height }
    }
}

/// A color with three 8-bit channels.
#[derive(Debug, Clone, Copy, PartialEq, Eq, Structural)]
pub struct Rgb {
    pub r: u8,
    pub g: u8,
    pub b: u8,
}

impl Rgb {
    pub fn new(r: u8, g: u8, b: u8) -> (c: Rgb)
        ensures
            c.r == r,
            c.g == g,
            c.b == b,
    {
        Rgb { r, g, b }
    }
}

/// An index into the 256-entry ANSI palette.
#[derive(Debug, Clone, Copy, PartialEq, Eq, Structural)]
pub struct AnsiColor(pub u8);

impl AnsiColor {
    pub fn as_u8(&self) -> (r: u8)
        ensures
            r == self.0,
    {
        self.0
    }
}

/// One terminal cell: a glyph with foreground and background colors.
#[derive(Debug, Clone, Copy, PartialEq, Eq, Structural)]
pub struct TerminalCell {
    pub character: char,
    pub foreground: AnsiColor,
    pub background: AnsiColor,
}

/// The cell that a fresh frame is filled with.
pub open spec fn blank_cell() -> TerminalCell {
    TerminalCell { character: ' ', foreground: AnsiColor(0), background: AnsiColor(0) }
}

/// Encoding of a screenshot's bytes.
#[derive(Debug, Clone, Copy, PartialEq, Eq, Structural)]
pub enum ImageFormat {
    Jpeg,
    Png,
}

/// Encoded screenshot bytes as the browser hands them over.
#[derive(Debug, Clone)]
pub struct Screenshot {
    pub data: Vec<u8>,
    pub format: ImageFormat,
}

/// Pixel (x, y) of row-major RGB bytes of an image `width` pixels wide.
pub open spec fn pixel_at(data: Seq<u8>, width: int, x: int, y: int) -> Rgb {
    let o = 3 * (y * width + x);
    Rgb { r: data[o], g: data[o + 1], b: data[o + 2] }
}

/// A decoded image: RGB triplets in row-major order.
#[derive(Debug, Clone)]
pub struct RgbImage {
    pub data: Vec<u8>,
    pub width: u32,
    pub height: u32,
}

impl RgbImage {
    /// The byte length matches the dimensions.
    pub open spec fn wf(&self) -> bool {
        self.data@.len() == 3 * (self.width as int) * (self.height as int)
    }

    /// Byte offset of pixel (x, y).
    pub open spec fn offset(&self, x: int, y: int) -> int {
        3 * (y * self.width + x)
    }

    /// The pixel at (x, y).
    pub open spec fn pixel(&self, x: int, y: int) -> Rgb {
        pixel_at(self.data@, self.width as int, x, y)
    }

    pub fn new(data: Vec<u8>, width: u32, height: u32) -> (img: RgbImage)
        requires
            data@.len() == 3 * (width as int) * (height as int),
        ensures
            img.wf(),
            img.data@ == data@,
            img.width == width,
            img.height == height,
    {
        RgbImage { data, width, height }
    }

    pub fn get_pixel(&self, x: u32, y: u32) -> (p: Rgb)
        requires
            self.wf(),
            x < self.width,
            y < self.height,
        ensures
            p == self.pixel(x as int, y as int),
    {
        let w = self.width as usize;
        let n = self.data.len();
        proof {
            lemma_index_in_grid(x as int, y as int, self.width as int, self.height as int);
            let (wi, hi) = (self.width as int, self.height as int);
            assert(3 * wi * hi == 3 * (wi * hi)) by (nonlinear_arith);
        }
        let offset = 3 * ((y as usize) * w + (x as usize));
        Rgb::new(self.data[offset], self.data[offset + 1], self.data[offset + 2])
    }
}

/// A grid of cells in row-major order.
#[derive(Debug, Clone)]
pub struct TerminalFrame {
    pub cells: Vec<TerminalCell>,
    pub width: usize,
    pub height: usize,
}

impl TerminalFrame {
    /// The cell count matches the dimensions.
    pub open spec fn wf(&self) -> bool {
        self.cells@.len() == self.width * self.height
    }

    /// The cell at (x, y).
    pub open spec fn cell(&self, x: int, y: int) -> TerminalCell {
        self.cells@[y * self.width + x]
    }

    pub fn new(width: usize, height: usize) -> (f: TerminalFrame)
        requires
            width * height <= usize::MAX,
        ensures
            f.wf(),
            f.width == width,
            f.height == height,
            forall|i: int| 0 <= i < f.cells@.len() ==> f.cells@[i] == blank_cell(),
    {
        let n = width * height;
        let mut cells: Vec<TerminalCell> = Vec::with_capacity(n);
        let mut i: usize = 0;
        while i < n
            invariant
                i <= n,
                cells@.len() == i,
                forall|j: int| 0 <= j < i ==> cells@[j] == blank_cell(),
            decreases n - i,
        {
            cells.push(TerminalCell { character: ' ', foreground: AnsiColor(0), background: AnsiColor(0) });
            i = i + 1;
        }
        TerminalFrame { cells, width, height }
    }

    pub fn get(&self, x: usize, y: usize) -> (r: Option<&TerminalCell>)
        requires
            self.wf(),
        ensures
            x < self.width && y < self.height ==> r == Some(&self.cell(x as int, y as int)),
            !(x < self.width && y < self.height) ==> r.is_none(),
    {
        if x < self.width && y < self.height {
            let n = self.cells.len();
            proof {
                lemma_index_in_grid(x as int, y as int, self.width as int, self.height as int);
            }
            Some(&self.cells[y * self.width + x])
        } else {
            None
        }
    }

    pub fn set(&mut self, x: usize, y: usize, cell: TerminalCell)
        requires
            old(self).wf(),
        ensures
            final(self).wf(),
            final(self).width == old(self).width,
            final(self).height == old(self).height,
            x < old(self).width && y < old(self).height ==> final(self).cells@ == old(
                self,
            ).cells@.update(y * old(self).width + x, cell),
            !(x < old(self).width && y < old(self).height) ==> final(self).cells@ == old(
                self,
            ).cells@,
    {
        if x < self.width && y < self.height {
            let n = self.cells.len();
            proof {
                lemma_index_in_grid(x as int, y as int, self.width as int, self.height as int);
            }
            let w = self.width;
            self.cells.set(y * w + x, cell);
        }
    }
}

/// Row-major index of a cell inside a grid lies inside the grid.
pub proof fn lemma_index_in_grid(x: int, y: int, w: int, h: int)
    requires
        0 <= x < w,
        0 <= y < h,
    ensures
        0 <= y * w <= y * w + x < w * h,
        y * w + x + 1 <= w * h,
{
    assert(0 <= y * w <= y * w + x < w * h) by (nonlinear_arith)
        requires
            0 <= x < w,
            0 <= y < h,
    ;
}

/// Where the overlaid cursor stands, in terminal cells.
#[derive(Debug, Clone, Copy, PartialEq, Eq, Structural)]
pub struct CursorPosition {
    pub x: usize,
    pub y: usize,
}

} // verus!
