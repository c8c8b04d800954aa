//! The canvas: a two-dimensional grid of display cells.
//!
//! One logical cell always equals one terminal cell.  A glyph whose display
//! width is `w > 1` occupies one cell carrying the glyph followed by `w - 1`
//! cells carrying the empty symbol, so a row of cells never overflows its
//! terminal row no matter how wide its glyphs render.

use vstd::prelude::*;

verus! {

/// What one cell shows: nothing, or one character.
#[derive(Clone, Copy, Debug, PartialEq, Eq, Structural)]
pub enum Symbol {
    /// The empty symbol: a continuation cell of a wide glyph.
    Empty,
    /// One character.
    Char(char),
}

/// The shape the terminal cursor is drawn with.
#[derive(Clone, Copy, Debug, PartialEq, Eq, Structural)]
pub enum CursorStyle {
    SteadyBlock,
    BlinkingBlock,
    SteadyBar,
    BlinkingBar,
    SteadyUnderScore,
    BlinkingUnderScore,
}

/// The blank cell: one space, as a spec value.
pub open spec fn blank_cell() -> Cell {
    Cell { symbol: Symbol::Char(' ') }
}

/// One display cell.
#[derive(Clone, Copy, Debug, PartialEq, Eq, Structural)]
pub struct Cell {
    pub symbol: Symbol,
}

impl Cell {
    /// A cell showing one character.
    pub fn with_symbol(c: char) -> (r: Cell)
        ensures
            r == (Cell { symbol: Symbol::Char(c) }),
    {
        Cell { symbol: Symbol::Char(c) }
    }

    /// A cell showing nothing.
    pub fn empty() -> (r: Cell)
        ensures
            r == (Cell { symbol: Symbol::Empty }),
    {
        Cell { symbol: Symbol::Empty }
    }

    /// A blank cell: one space.
    pub fn blank() -> (r: Cell)
        ensures
            r == (Cell { symbol: Symbol::Char(' ') }),
    {
        Cell { symbol: Symbol::Char(' ') }
    }
}

/// The frame of cells behind a canvas, row-major.
///
/// Cell `(x, y)` lives at index `y * width + x`.
pub struct Frame {
    pub width: u16,
    pub height: u16,
    pub cells: Vec<Cell>,
}

impl Frame {
    /// Well-formed: the cell vector covers the full grid.
    pub open spec fn wf(self) -> bool {
        self.cells.len() == self.width * self.height
    }

    /// The cell at `(x, y)`, as a spec value.
    pub open spec fn spec_cell(self, x: int, y: int) -> Cell {
        self.cells[y * self.width + x]
    }

    /// A frame of the given size, every cell blank.
    pub fn new(width: u16, height: u16) -> (r: Frame)
        ensures
            r.wf(),
            r.width == width,
            r.height == height,
            forall|x: int, y: int|
                0 <= x < width && 0 <= y < height ==> #[trigger] r.spec_cell(x, y)
                    == blank_cell(),
    {
        proof {
            assert(width * height <= u16::MAX * u16::MAX) by (nonlinear_arith)
                requires
                    width <= u16::MAX,
                    height <= u16::MAX,
            ;
        }
        let n: usize = (width as usize) * (height as usize);
        let mut cells: Vec<Cell> = Vec::new();
        let mut i: usize = 0;
        while i < n
            invariant
                i <= n,
                cells.len() == i,
                forall|j: int| 0 <= j < i ==> cells[j] == blank_cell(),
            decreases n - i,
        {
            cells.push(Cell::blank());
            i += 1;
        }
        let r = Frame { width, height, cells };
        proof {
            assert forall|x: int, y: int| 0 <= x < width && 0 <= y < height implies #[trigger] r
                .spec_cell(x, y) == blank_cell() by {
                assert(0 <= y * r.width + x < n) by (nonlinear_arith)
                    requires
                        0 <= x < r.width,
                        0 <= y < r.height,
                        n == r.width * r.height,
                ;
            }
        }
        r
    }

    /// The cell at `(x, y)`.
    pub fn cell_at(&self, x: u16, y: u16) -> (r: Cell)
        requires
            self.wf(),
            x < self.width,
            y < self.height,
        ensures
            r == self.spec_cell(x as int, y as int),
    {
        proof {
            assert(0 <= y * self.width + x < self.width * self.height) by (nonlinear_arith)
                requires
                    x < self.width,
                    y < self.height,
            ;
        }
        let idx: usize = (y as usize) * (self.width as usize) + (x as usize);
        self.cells[idx]
    }

    /// Write `cells` into row `y` starting at column `x`.
    ///
    /// Only the written stretch changes; every other cell keeps its value.
    pub fn set_cells_at(&mut self, x: u16, y: u16, cells: &Vec<Cell>)
        requires
            old(self).wf(),
            y < old(self).height,
            x + cells@.len() <= old(self).width,
        ensures
            final(self).wf(),
            final(self).width == old(self).width,
            final(self).height == old(self).height,
            forall|i: int|
                0 <= i < cells@.len() ==> final(self).spec_cell(x + i, y as int) == cells@[i],
            forall|cx: int, cy: int|
                0 <= cx < old(self).width && 0 <= cy < old(self).height && !(cy == y && x <= cx
                    < x + cells@.len()) ==> final(self).spec_cell(cx, cy) == old(self).spec_cell(
                    cx,
                    cy,
                ),
    {
        proof {
            assert(y * self.width + self.width <= self.width * self.height) by (nonlinear_arith)
                requires
                    y < self.height,
            ;
        }
        let base: usize = (y as usize) * (self.width as usize);
        let n = cells.len();
        let mut i: usize = 0;
        while i < n
            invariant
                old(self).wf(),
                self.wf(),
                self.width == old(self).width,
                self.height == old(self).height,
                y < self.height,
                i <= n == cells@.len(),
                x + n <= self.width,
                base == y * self.width,
                base + self.width <= self.cells.len(),
                forall|j: int| 0 <= j < i ==> self.cells@[base + x + j] == cells@[j],
                forall|k: int|
                    0 <= k < self.cells.len() && !(base + x <= k < base + x + i)
                        ==> self.cells@[k] == old(self).cells@[k],
            decreases n - i,
        {
            let idx: usize = base + (x as usize) + i;
            self.cells.set(idx, cells[i]);
            i += 1;
        }
        proof {
            assert forall|i: int| 0 <= i < cells@.len() implies final(self).spec_cell(
                x + i,
                y as int,
            ) == cells@[i] by {
                assert(y * self.width + (x + i) == base + x + i);
            }
            assert forall|cx: int, cy: int|
                0 <= cx < old(self).width && 0 <= cy < old(self).height && !(cy == y && x <= cx
                    < x + cells@.len()) implies final(self).spec_cell(cx, cy) == old(
                self,
            ).spec_cell(cx, cy) by {
                assert(0 <= cy * self.width + cx < self.width * self.height) by (nonlinear_arith)
                    requires
                        0 <= cx < self.width,
                        0 <= cy < self.height,
                ;
                if cy == y {
                    assert(cy * self.width + cx == base + cx);
                    assert(!(base + x <= base + cx < base + x + cells@.len()));
                } else {
                    assert(cy * self.width + cx < base || cy * self.width + cx >= base
                        + self.width) by (nonlinear_arith)
                        requires
                            0 <= cx < self.width,
                            0 <= cy < self.height,
                            cy != y,
                            base == y * self.width,
                    ;
                }
            }
        }
    }
}

/// A canvas: the frame of cells a renderer draws into.
pub struct Canvas {
    pub frame: Frame,
}

impl Canvas {
    /// Well-formed: the frame is.
    pub open spec fn wf(self) -> bool {
        self.frame.wf()
    }

    /// A canvas of the given size, every cell blank.
    pub fn new(width: u16, height: u16) -> (r: Canvas)
        ensures
            r.wf(),
            r.frame.width == width,
            r.frame.height == height,
            forall|x: int, y: int|
                0 <= x < width && 0 <= y < height ==> #[trigger] r.frame.spec_cell(x, y)
                    == blank_cell(),
    {
        Canvas { frame: Frame::new(width, height) }
    }

    /// The frame.
    pub fn frame(&self) -> (r: &Frame)
        ensures
            r == self.frame,
    {
        &self.frame
    }
}

} // verus!
