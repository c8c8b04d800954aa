//! The canvas renderer: materialize a viewport into a cell grid.
//!
//! `draw` writes one row of cells for every viewport row: the leading
//! placeholder columns (`>` markers) on the row carrying the line's first
//! shown character, the character range expanded glyph by glyph (one cell
//! with the symbol, then width − 1 empty cells), blank padding up to the
//! row's right edge, and the trailing placeholder columns (`<` markers) on
//! the row carrying the line's last shown character.  Every remaining row
//! of the target is written fully blank.  Each written row covers exactly
//! the target width.

use crate::coord::U16Rect;
use crate::text::{Glyph, Text, TextLine, width_between, lemma_width_between_split,
    lemma_width_between_nonneg};
use crate::ui::canvas::{blank_cell, Canvas, Cell, Frame, Symbol};
use crate::ui::viewport::{line_wf, lemma_rows_of_nonneg, rows_of, LineViewport, RowViewport,
    Viewport};
use vstd::prelude::*;

verus! {

/// The marker drawn in leading placeholder columns.
pub open spec fn start_fill_cell() -> Cell {
    Cell { symbol: Symbol::Char('>') }
}

/// The marker drawn in trailing placeholder columns.
pub open spec fn end_fill_cell() -> Cell {
    Cell { symbol: Symbol::Char('<') }
}

/// `n` copies of one cell.
pub open spec fn repeat_cell(c: Cell, n: int) -> Seq<Cell> {
    Seq::new(
        (if n >= 0 {
            n
        } else {
            0
        }) as nat,
        |i: int| c,
    )
}

/// The cells one glyph expands to: nothing for a zero-width glyph, else
/// one cell carrying the symbol followed by width − 1 empty cells.
pub open spec fn glyph_cells(g: Glyph) -> Seq<Cell> {
    if g.width == 0 {
        Seq::empty()
    } else {
        seq![Cell { symbol: Symbol::Char(g.ch) }] + repeat_cell(
            Cell { symbol: Symbol::Empty },
            g.width - 1,
        )
    }
}

/// The cells of the glyphs `s <= i < e` of a line, in order.
pub open spec fn content_cells(line: Seq<Glyph>, s: int, e: int) -> Seq<Cell>
    decreases e - s,
{
    if s >= e {
        Seq::empty()
    } else {
        glyph_cells(line[s]) + content_cells(line, s + 1, e)
    }
}

/// A glyph run expands to exactly as many cells as its display width.
pub proof fn lemma_content_cells_len(line: Seq<Glyph>, s: int, e: int)
    requires
        0 <= s,
        e <= line.len(),
    ensures
        content_cells(line, s, e).len() == (if e >= s {
            width_between(line, s, e)
        } else {
            0
        }),
    decreases e - s,
{
    if s < e {
        lemma_content_cells_len(line, s + 1, e);
        lemma_width_between_split(line, s, s + 1, e);
        assert(width_between(line, s, s) == 0);
        assert(width_between(line, s, s + 1) == line[s].width);
    }
}

/// Extending a glyph run by one glyph appends that glyph's cells.
pub proof fn lemma_content_cells_snoc(line: Seq<Glyph>, s: int, e: int)
    requires
        s <= e,
    ensures
        content_cells(line, s, e + 1) == content_cells(line, s, e) + glyph_cells(line[e]),
    decreases e - s,
{
    if s == e {
        assert(content_cells(line, s, s + 1) =~= glyph_cells(line[s]) + content_cells(
            line,
            s + 1,
            s + 1,
        ));
        assert(content_cells(line, s, s) =~= Seq::<Cell>::empty());
        assert(content_cells(line, s, e + 1) =~= content_cells(line, s, e) + glyph_cells(
            line[e],
        ));
    } else {
        lemma_content_cells_snoc(line, s + 1, e);
        assert(content_cells(line, s, e + 1) =~= content_cells(line, s, e) + glyph_cells(
            line[e],
        ));
    }
}

/// All cells one row of the target shows for one viewport row: leading
/// fill markers, the expanded character range, blank padding, trailing
/// fill markers.
pub open spec fn row_cells(
    line: Seq<Glyph>,
    row: RowViewport,
    start_fills: int,
    end_fills: int,
    width: int,
) -> Seq<Cell> {
    let content = content_cells(line, row.start_char_idx as int, row.end_char_idx as int);
    repeat_cell(start_fill_cell(), start_fills) + content + repeat_cell(
        blank_cell(),
        width - start_fills - end_fills - content.len(),
    ) + repeat_cell(end_fill_cell(), end_fills)
}

/// The cells row `j` of a line viewport shows: fills apply only to the
/// line's first and last row.
pub open spec fn line_row_cells(lv: LineViewport, line: Seq<Glyph>, j: int, width: int) -> Seq<
    Cell,
> {
    row_cells(
        line,
        lv.rows[j],
        if j == 0 {
            lv.start_filled_cols as int
        } else {
            0
        },
        if j == lv.rows.len() - 1 {
            lv.end_filled_cols as int
        } else {
            0
        },
        width,
    )
}

/// A fully blank target row.
pub open spec fn blank_row(width: int) -> Seq<Cell> {
    repeat_cell(blank_cell(), width)
}

/// A well-formed viewport row expands to exactly the target width.
pub proof fn lemma_row_cells_len(
    line: Seq<Glyph>,
    row: RowViewport,
    start_fills: int,
    end_fills: int,
    width: int,
)
    requires
        row.start_char_idx <= row.end_char_idx <= line.len(),
        start_fills >= 0,
        end_fills >= 0,
        width_between(line, row.start_char_idx as int, row.end_char_idx as int) + start_fills
            + end_fills <= width,
    ensures
        row_cells(line, row, start_fills, end_fills, width).len() == width,
{
    lemma_content_cells_len(line, row.start_char_idx as int, row.end_char_idx as int);
    lemma_width_between_nonneg(line, row.start_char_idx as int, row.end_char_idx as int);
}

/// Which shown line owns global row `r`: the index into the line
/// viewports, or `-1` when `r` lies past all of them.
pub open spec fn line_of_row(lines: Seq<LineViewport>, r: int) -> int
    decreases lines.len(),
{
    if lines.len() == 0 {
        -1
    } else if r < lines[0].rows.len() {
        if r >= 0 {
            0
        } else {
            -1
        }
    } else {
        let t = line_of_row(lines.drop_first(), r - lines[0].rows.len());
        if t >= 0 {
            1 + t
        } else {
            -1
        }
    }
}

/// Which row of its line global row `r` is.
pub open spec fn row_in_line(lines: Seq<LineViewport>, r: int) -> int
    decreases lines.len(),
{
    if lines.len() == 0 {
        -1
    } else if r < lines[0].rows.len() {
        r
    } else {
        row_in_line(lines.drop_first(), r - lines[0].rows.len())
    }
}

/// Concatenation splits the row count.
pub proof fn lemma_rows_of_concat(a: Seq<LineViewport>, b: Seq<LineViewport>)
    ensures
        rows_of(a + b) == rows_of(a) + rows_of(b),
    decreases b.len(),
{
    if b.len() == 0 {
        assert(a + b =~= a);
    } else {
        lemma_rows_of_concat(a, b.drop_last());
        assert((a + b).drop_last() =~= a + b.drop_last());
        assert((a + b).last() == b.last());
    }
}

/// Global row `rows_before(k) + j` belongs to line `k`, row `j`.
pub proof fn lemma_line_of_row(lines: Seq<LineViewport>, k: int, j: int)
    requires
        0 <= k < lines.len(),
        0 <= j < lines[k].rows.len(),
    ensures
        line_of_row(lines, rows_of(lines.take(k)) + j) == k,
        row_in_line(lines, rows_of(lines.take(k)) + j) == j,
    decreases k,
{
    if k == 0 {
        assert(lines.take(0) =~= Seq::<LineViewport>::empty());
        assert(rows_of(Seq::<LineViewport>::empty()) == 0);
    } else {
        lemma_line_of_row(lines.drop_first(), k - 1, j);
        assert(lines.take(k) =~= seq![lines[0]] + lines.drop_first().take(k - 1));
        lemma_rows_of_concat(seq![lines[0]], lines.drop_first().take(k - 1));
        assert(seq![lines[0]].drop_last() =~= Seq::<LineViewport>::empty());
        assert(rows_of(Seq::<LineViewport>::empty()) == 0);
        assert(rows_of(seq![lines[0]]) == lines[0].rows.len());
        assert(rows_of(lines.drop_first().take(k - 1)) >= 0) by {
            lemma_rows_of_nonneg(lines.drop_first().take(k - 1));
        }
        assert(lines.drop_first()[k - 1] == lines[k]);
    }
}

/// What one target row shows: the cells of the viewport row that lands
/// there, or a blank row below the shown content.
pub open spec fn spec_target_row(vp: Viewport, text: Text, r: int) -> Seq<Cell> {
    if 0 <= r < rows_of(vp.lines@) {
        let k = line_of_row(vp.lines@, r);
        let j = row_in_line(vp.lines@, r);
        line_row_cells(
            vp.lines[k],
            text.lines[vp.start_line_idx + k].glyphs@,
            j,
            vp.width as int,
        )
    } else {
        blank_row(vp.width as int)
    }
}

/// The cell the renderer leaves at `(cx, cy)`: outside the target, or for
/// an empty or degenerate draw, the old cell; inside it, the cell of the
/// viewport row landing there.
pub open spec fn drawn_cell(
    vp: Viewport,
    text: Text,
    shape: U16Rect,
    oldf: Frame,
    cx: int,
    cy: int,
) -> Cell {
    if vp.spec_is_empty() || shape.spec_width() == 0 || shape.spec_height() == 0 {
        oldf.spec_cell(cx, cy)
    } else if shape.min_x <= cx < shape.max_x && shape.min_y <= cy < shape.max_y {
        spec_target_row(vp, text, cy - shape.min_y)[cx - shape.min_x]
    } else {
        oldf.spec_cell(cx, cy)
    }
}

/// The cells of one glyph inside an expanded run: at offset
/// `width_between(s, i)` sits the glyph's symbol, followed by its
/// continuation cells.
pub proof fn lemma_content_cells_glyph(line: Seq<Glyph>, s: int, e: int, i: int)
    requires
        0 <= s <= i < e <= line.len(),
        line[i].width >= 1,
    ensures
        width_between(line, s, i) + line[i].width <= content_cells(line, s, e).len(),
        content_cells(line, s, e)[width_between(line, s, i)] == (Cell {
            symbol: Symbol::Char(line[i].ch),
        }),
        forall|d: int|
            1 <= d < line[i].width ==> #[trigger] content_cells(line, s, e)[width_between(
                line,
                s,
                i,
            ) + d] == (Cell { symbol: Symbol::Empty }),
    decreases i - s,
{
    lemma_content_cells_len(line, s, e);
    lemma_width_between_split(line, s, i, e);
    lemma_width_between_split(line, i, i + 1, e);
    lemma_width_between_nonneg(line, i + 1, e);
    assert(width_between(line, i, i) == 0);
    assert(width_between(line, i, i + 1) == line[i].width);
    lemma_width_between_nonneg(line, s, i);
    if s == i {
        assert(content_cells(line, s, e) =~= glyph_cells(line[s]) + content_cells(line, s + 1, e));
        assert(width_between(line, s, s) == 0);
        assert(glyph_cells(line[s]).len() == line[s].width);
        assert(glyph_cells(line[s])[0] == (Cell { symbol: Symbol::Char(line[s].ch) }));
        assert(content_cells(line, s, e)[0] == glyph_cells(line[s])[0]);
        assert forall|d: int| 1 <= d < line[i].width implies #[trigger] content_cells(
            line,
            s,
            e,
        )[width_between(line, s, i) + d] == (Cell { symbol: Symbol::Empty }) by {
            assert(glyph_cells(line[s])[d] == repeat_cell(
                Cell { symbol: Symbol::Empty },
                line[s].width - 1,
            )[d - 1]);
            assert(content_cells(line, s, e)[d] == glyph_cells(line[s])[d]);
        }
    } else {
        lemma_content_cells_glyph(line, s + 1, e, i);
        assert(content_cells(line, s, e) =~= glyph_cells(line[s]) + content_cells(line, s + 1, e));
        lemma_content_cells_len(line, s + 1, e);
        assert(glyph_cells(line[s]).len() == line[s].width);
        lemma_width_between_split(line, s, s + 1, i);
        assert(width_between(line, s, s) == 0);
        assert(width_between(line, s, s + 1) == line[s].width);
        let off = width_between(line, s, i);
        let off1 = width_between(line, s + 1, i);
        lemma_width_between_nonneg(line, s + 1, i);
        assert(off == line[s].width + off1);
        assert(content_cells(line, s, e)[off] == content_cells(line, s + 1, e)[off1]);
        assert forall|d: int| 1 <= d < line[i].width implies #[trigger] content_cells(
            line,
            s,
            e,
        )[width_between(line, s, i) + d] == (Cell { symbol: Symbol::Empty }) by {
            assert(content_cells(line, s + 1, e)[width_between(line, s + 1, i) + d] == (Cell {
                symbol: Symbol::Empty,
            }));
            assert(content_cells(line, s, e)[off + d] == content_cells(line, s + 1, e)[off1 + d]);
        }
    }
}

/// The leading fill of row `j` of a line viewport: the line's leading
/// fill on its first row, nothing on the others.
pub open spec fn first_fill(lv: LineViewport, j: int) -> int {
    if j == 0 {
        lv.start_filled_cols as int
    } else {
        0
    }
}

/// Cell-width invariant: in a rendered row, a glyph of display width
/// `w >= 1` occupies exactly one cell carrying its symbol followed by
/// `w - 1` empty cells, and the whole row covers exactly the target
/// width.
pub proof fn lemma_cell_width_invariant(
    lv: LineViewport,
    line: Seq<Glyph>,
    width: int,
    j: int,
    i: int,
)
    requires
        line_wf(lv, line, width),
        0 <= j < lv.rows.len(),
        lv.rows[j].start_char_idx <= i < lv.rows[j].end_char_idx,
        line[i].width >= 1,
    ensures
        line_row_cells(lv, line, j, width).len() == width,
        line_row_cells(lv, line, j, width)[first_fill(lv, j) + width_between(
            line,
            lv.rows[j].start_char_idx as int,
            i,
        )] == (Cell { symbol: Symbol::Char(line[i].ch) }),
        forall|d: int|
            1 <= d < line[i].width ==> #[trigger] line_row_cells(lv, line, j, width)[first_fill(
                lv,
                j,
            ) + width_between(line, lv.rows[j].start_char_idx as int, i) + d] == (Cell {
                symbol: Symbol::Empty,
            }),
{
    let row = lv.rows[j];
    let sf: int = first_fill(lv, j);
    let ef: int = if j == lv.rows.len() - 1 {
        lv.end_filled_cols as int
    } else {
        0
    };
    lemma_row_cells_len(line, row, sf, ef, width);
    lemma_content_cells_glyph(line, row.start_char_idx as int, row.end_char_idx as int, i);
    lemma_content_cells_len(line, row.start_char_idx as int, row.end_char_idx as int);
    lemma_width_between_nonneg(line, row.start_char_idx as int, i);
    let content = content_cells(line, row.start_char_idx as int, row.end_char_idx as int);
    let cells = line_row_cells(lv, line, j, width);
    let off = width_between(line, row.start_char_idx as int, i);
    assert(cells[sf + off] == content[off]);
    assert forall|d: int| 1 <= d < line[i].width implies #[trigger] cells[sf + off + d] == (Cell {
        symbol: Symbol::Empty,
    }) by {
        assert(content[off + d] == (Cell { symbol: Symbol::Empty }));
        assert(cells[sf + off + d] == content[off + d]);
    }
}

/// Idempotent re-render: the cell function fixes every cell from the
/// viewport, the text, the shape and the starting canvas alone, so
/// drawing the same inputs onto two canvases of equal starting state
/// leaves two equal cell grids.
pub proof fn lemma_draw_idempotent(
    vp: Viewport,
    text: Text,
    shape: U16Rect,
    start: Frame,
    f1: Frame,
    f2: Frame,
)
    requires
        f1.width == start.width,
        f1.height == start.height,
        f2.width == start.width,
        f2.height == start.height,
        forall|cx: int, cy: int|
            0 <= cx < start.width && 0 <= cy < start.height ==> #[trigger] f1.spec_cell(cx, cy)
                == drawn_cell(vp, text, shape, start, cx, cy),
        forall|cx: int, cy: int|
            0 <= cx < start.width && 0 <= cy < start.height ==> #[trigger] f2.spec_cell(cx, cy)
                == drawn_cell(vp, text, shape, start, cx, cy),
    ensures
        forall|cx: int, cy: int|
            0 <= cx < start.width && 0 <= cy < start.height ==> #[trigger] f1.spec_cell(cx, cy)
                == f2.spec_cell(cx, cy),
{
}

/// Render the cells of one viewport row.
fn render_row(line: &TextLine, row: RowViewport, start_fills: u16, end_fills: u16, width: u16)
    -> (cells: Vec<Cell>)
    requires
        line.wf(),
        row.start_char_idx <= row.end_char_idx <= line.glyphs@.len(),
        width_between(line.glyphs@, row.start_char_idx as int, row.end_char_idx as int)
            + start_fills + end_fills <= width,
    ensures
        cells@ == row_cells(
            line.glyphs@,
            row,
            start_fills as int,
            end_fills as int,
            width as int,
        ),
        cells@.len() == width,
{
    proof {
        lemma_row_cells_len(line.glyphs@, row, start_fills as int, end_fills as int,
            width as int);
        lemma_content_cells_len(line.glyphs@, row.start_char_idx as int,
            row.end_char_idx as int);
        lemma_width_between_nonneg(line.glyphs@, row.start_char_idx as int,
            row.end_char_idx as int);
    }
    let mut cells: Vec<Cell> = Vec::new();
    let mut f: u16 = 0;
    while f < start_fills
        invariant
            f <= start_fills,
            cells@ =~= repeat_cell(start_fill_cell(), f as int),
        decreases start_fills - f,
    {
        cells.push(Cell::with_symbol('>'));
        proof {
            assert(cells@ =~= repeat_cell(start_fill_cell(), f + 1));
        }
        f += 1;
    }
    let mut i: usize = row.start_char_idx;
    while i < row.end_char_idx
        invariant
            line.wf(),
            row.start_char_idx <= i <= row.end_char_idx <= line.glyphs@.len(),
            cells@ =~= repeat_cell(start_fill_cell(), start_fills as int) + content_cells(
                line.glyphs@,
                row.start_char_idx as int,
                i as int,
            ),
        decreases row.end_char_idx - i,
    {
        let g = line.glyphs[i];
        proof {
            lemma_content_cells_snoc(line.glyphs@, row.start_char_idx as int, i as int);
        }
        if g.width > 0 {
            cells.push(Cell::with_symbol(g.ch));
            let mut d: u16 = 1;
            while d < g.width
                invariant
                    1 <= d <= g.width,
                    cells@ =~= repeat_cell(start_fill_cell(), start_fills as int)
                        + content_cells(
                        line.glyphs@,
                        row.start_char_idx as int,
                        i as int,
                    ) + seq![Cell { symbol: Symbol::Char(g.ch) }] + repeat_cell(
                        Cell { symbol: Symbol::Empty },
                        d - 1,
                    ),
                decreases g.width - d,
            {
                cells.push(Cell::empty());
                proof {
                    assert(cells@ =~= repeat_cell(start_fill_cell(), start_fills as int)
                        + content_cells(
                        line.glyphs@,
                        row.start_char_idx as int,
                        i as int,
                    ) + seq![Cell { symbol: Symbol::Char(g.ch) }] + repeat_cell(
                        Cell { symbol: Symbol::Empty },
                        d as int,
                    ));
                }
                d += 1;
            }
            proof {
                assert(glyph_cells(line.glyphs@[i as int]) =~= seq![
                    Cell { symbol: Symbol::Char(g.ch) },
                ] + repeat_cell(Cell { symbol: Symbol::Empty }, g.width - 1));
                assert(cells@ =~= repeat_cell(start_fill_cell(), start_fills as int)
                    + content_cells(line.glyphs@, row.start_char_idx as int, i + 1));
            }
        } else {
            proof {
                assert(glyph_cells(line.glyphs@[i as int]) =~= Seq::<Cell>::empty());
                assert(cells@ =~= repeat_cell(start_fill_cell(), start_fills as int)
                    + content_cells(line.glyphs@, row.start_char_idx as int, i + 1));
            }
        }
        i += 1;
    }
    let roww = line.width_between(row.start_char_idx, row.end_char_idx);
    let pad: usize = (width as usize) - (start_fills as usize) - (end_fills as usize) - roww;
    let mut p: usize = 0;
    while p < pad
        invariant
            p <= pad,
            cells@ =~= repeat_cell(start_fill_cell(), start_fills as int) + content_cells(
                line.glyphs@,
                row.start_char_idx as int,
                row.end_char_idx as int,
            ) + repeat_cell(blank_cell(), p as int),
        decreases pad - p,
    {
        cells.push(Cell::blank());
        proof {
            assert(cells@ =~= repeat_cell(start_fill_cell(), start_fills as int)
                + content_cells(
                line.glyphs@,
                row.start_char_idx as int,
                row.end_char_idx as int,
            ) + repeat_cell(blank_cell(), p + 1));
        }
        p += 1;
    }
    let mut q: u16 = 0;
    while q < end_fills
        invariant
            q <= end_fills,
            cells@ =~= repeat_cell(start_fill_cell(), start_fills as int) + content_cells(
                line.glyphs@,
                row.start_char_idx as int,
                row.end_char_idx as int,
            ) + repeat_cell(blank_cell(), pad as int) + repeat_cell(end_fill_cell(), q as int),
        decreases end_fills - q,
    {
        cells.push(Cell::with_symbol('<'));
        proof {
            assert(cells@ =~= repeat_cell(start_fill_cell(), start_fills as int)
                + content_cells(
                line.glyphs@,
                row.start_char_idx as int,
                row.end_char_idx as int,
            ) + repeat_cell(blank_cell(), pad as int) + repeat_cell(end_fill_cell(), q + 1));
        }
        q += 1;
    }
    proof {
        assert(cells@ =~= row_cells(line.glyphs@, row, start_fills as int, end_fills as int,
            width as int));
    }
    cells
}

/// Draw a text, through its viewport, onto a canvas at the given actual
/// shape.  A zero-size target or an empty viewport draws nothing; that is
/// always safe.  Every cell of the canvas afterwards equals
/// [`drawn_cell`], so the result is a function of the viewport, the text,
/// the shape, and the canvas drawn into, alone.
pub fn draw(vp: &Viewport, text: &Text, actual_shape: &U16Rect, canvas: &mut Canvas)
    requires
        text.wf(),
        vp.wf(*text),
        actual_shape.wf(),
        old(canvas).wf(),
        actual_shape.max_x <= old(canvas).frame.width,
        actual_shape.max_y <= old(canvas).frame.height,
        vp.width == actual_shape.spec_width(),
        vp.height == actual_shape.spec_height(),
    ensures
        final(canvas).wf(),
        final(canvas).frame.width == old(canvas).frame.width,
        final(canvas).frame.height == old(canvas).frame.height,
        forall|cx: int, cy: int|
            0 <= cx < old(canvas).frame.width && 0 <= cy < old(canvas).frame.height
                ==> final(canvas).frame.spec_cell(cx, cy) == drawn_cell(
                *vp,
                *text,
                *actual_shape,
                old(canvas).frame,
                cx,
                cy,
            ),
{
    let upos = actual_shape.min();
    let height = actual_shape.height();
    let width = actual_shape.width();
    if height == 0 || width == 0 {
        return ;
    }
    if vp.end_line_idx <= vp.start_line_idx {
        return ;
    }
    let mut row_idx: u16 = 0;
    let mut k: usize = 0;
    proof {
        assert(vp.lines@.take(0) =~= Seq::<LineViewport>::empty());
        assert(rows_of(Seq::<LineViewport>::empty()) == 0);
    }
    while k < vp.lines.len()
        invariant
            text.wf(),
            vp.wf(*text),
            actual_shape.wf(),
            !vp.spec_is_empty(),
            width == actual_shape.spec_width() == vp.width,
            height == actual_shape.spec_height() == vp.height,
            width >= 1,
            height >= 1,
            upos.x == actual_shape.min_x,
            upos.y == actual_shape.min_y,
            actual_shape.max_x <= old(canvas).frame.width,
            actual_shape.max_y <= old(canvas).frame.height,
            canvas.wf(),
            canvas.frame.width == old(canvas).frame.width,
            canvas.frame.height == old(canvas).frame.height,
            k <= vp.lines@.len(),
            row_idx == rows_of(vp.lines@.take(k as int)),
            row_idx <= vp.height,
            forall|cx: int, cy: int|
                0 <= cx < old(canvas).frame.width && 0 <= cy < old(canvas).frame.height && !(
                actual_shape.min_x <= cx < actual_shape.max_x && actual_shape.min_y <= cy
                    < actual_shape.min_y + row_idx) ==> canvas.frame.spec_cell(cx, cy) == old(
                    canvas,
                ).frame.spec_cell(cx, cy),
            forall|r: int, col: int|
                0 <= r < row_idx && 0 <= col < width ==> canvas.frame.spec_cell(
                    actual_shape.min_x + col,
                    actual_shape.min_y + r,
                ) == spec_target_row(*vp, *text, r)[col],
        decreases vp.lines@.len() - k,
    {
        let lv = &vp.lines[k];
        let line = text.line(vp.start_line_idx + k);
        proof {
            assert(line_wf(vp.lines[k as int], text.lines[vp.start_line_idx + k].glyphs@,
                vp.width as int));
            lemma_rows_of_prefix_all(vp.lines@, k as int);
        }
        let n = lv.rows.len();
        let mut j: usize = 0;
        while j < n
            invariant
                text.wf(),
                vp.wf(*text),
                actual_shape.wf(),
                !vp.spec_is_empty(),
                width == actual_shape.spec_width() == vp.width,
                height == actual_shape.spec_height() == vp.height,
                width >= 1,
                height >= 1,
                upos.x == actual_shape.min_x,
                upos.y == actual_shape.min_y,
                actual_shape.max_x <= old(canvas).frame.width,
                actual_shape.max_y <= old(canvas).frame.height,
                canvas.wf(),
                canvas.frame.width == old(canvas).frame.width,
                canvas.frame.height == old(canvas).frame.height,
                k < vp.lines@.len(),
                lv == vp.lines@[k as int],
                line == text.lines@[vp.start_line_idx + k],
                j <= n == lv.rows@.len(),
                row_idx == rows_of(vp.lines@.take(k as int)) + j,
                rows_of(vp.lines@.take(k as int)) + lv.rows@.len() <= rows_of(vp.lines@)
                    <= vp.height,
                rows_of(vp.lines@.take(k as int)) >= 0,
                forall|cx: int, cy: int|
                    0 <= cx < old(canvas).frame.width && 0 <= cy < old(canvas).frame.height && !(
                    actual_shape.min_x <= cx < actual_shape.max_x && actual_shape.min_y <= cy
                        < actual_shape.min_y + row_idx) ==> canvas.frame.spec_cell(cx, cy)
                        == old(canvas).frame.spec_cell(cx, cy),
                forall|r: int, col: int|
                    0 <= r < row_idx && 0 <= col < width ==> canvas.frame.spec_cell(
                        actual_shape.min_x + col,
                        actual_shape.min_y + r,
                    ) == spec_target_row(*vp, *text, r)[col],
            decreases n - j,
        {
            let row = lv.rows[j];
            let start_fills: u16 = if j == 0 {
                lv.start_filled_cols
            } else {
                0
            };
            let end_fills: u16 = if j + 1 == n {
                lv.end_filled_cols
            } else {
                0
            };
            proof {
                assert(width_between(line.glyphs@, row.start_char_idx as int,
                    row.end_char_idx as int) + (if j == 0 {
                    lv.start_filled_cols as int
                } else {
                    0
                }) + (if j == lv.rows@.len() - 1 {
                    lv.end_filled_cols as int
                } else {
                    0
                }) <= vp.width);
            }
            let cells = render_row(line, row, start_fills, end_fills, width);
            canvas.frame.set_cells_at(upos.x, upos.y + row_idx, &cells);
            proof {
                lemma_line_of_row(vp.lines@, k as int, j as int);
                assert(spec_target_row(*vp, *text, row_idx as int) == line_row_cells(
                    vp.lines@[k as int],
                    line.glyphs@,
                    j as int,
                    width as int,
                ));
                assert(spec_target_row(*vp, *text, row_idx as int) == cells@);
            }
            row_idx = row_idx + 1;
            j += 1;
        }
        proof {
            assert(vp.lines@.take(k + 1).drop_last() =~= vp.lines@.take(k as int));
            assert(vp.lines@.take(k + 1).last() == vp.lines@[k as int]);
        }
        k += 1;
    }
    proof {
        assert(vp.lines@.take(vp.lines@.len() as int) =~= vp.lines@);
    }
    let mut blanks: Vec<Cell> = Vec::new();
    let mut b: u16 = 0;
    while b < width
        invariant
            b <= width,
            blanks@ =~= repeat_cell(blank_cell(), b as int),
        decreases width - b,
    {
        blanks.push(Cell::blank());
        proof {
            assert(blanks@ =~= repeat_cell(blank_cell(), b + 1));
        }
        b += 1;
    }
    while row_idx < height
        invariant
            text.wf(),
            vp.wf(*text),
            actual_shape.wf(),
            !vp.spec_is_empty(),
            width == actual_shape.spec_width() == vp.width,
            height == actual_shape.spec_height() == vp.height,
            upos.x == actual_shape.min_x,
            upos.y == actual_shape.min_y,
            actual_shape.max_x <= old(canvas).frame.width,
            actual_shape.max_y <= old(canvas).frame.height,
            canvas.wf(),
            canvas.frame.width == old(canvas).frame.width,
            canvas.frame.height == old(canvas).frame.height,
            rows_of(vp.lines@) <= row_idx <= height,
            blanks@ =~= blank_row(width as int),
            forall|cx: int, cy: int|
                0 <= cx < old(canvas).frame.width && 0 <= cy < old(canvas).frame.height && !(
                actual_shape.min_x <= cx < actual_shape.max_x && actual_shape.min_y <= cy
                    < actual_shape.min_y + row_idx) ==> canvas.frame.spec_cell(cx, cy) == old(
                    canvas,
                ).frame.spec_cell(cx, cy),
            forall|r: int, col: int|
                0 <= r < row_idx && 0 <= col < width ==> canvas.frame.spec_cell(
                    actual_shape.min_x + col,
                    actual_shape.min_y + r,
                ) == spec_target_row(*vp, *text, r)[col],
        decreases height - row_idx,
    {
        canvas.frame.set_cells_at(upos.x, upos.y + row_idx, &blanks);
        row_idx = row_idx + 1;
    }
    proof {
        assert forall|cx: int, cy: int|
            0 <= cx < old(canvas).frame.width && 0 <= cy < old(canvas).frame.height implies final(canvas).frame.spec_cell(cx, cy) == drawn_cell(
            *vp,
            *text,
            *actual_shape,
            old(canvas).frame,
            cx,
            cy,
        ) by {
            if actual_shape.min_x <= cx < actual_shape.max_x && actual_shape.min_y <= cy
                < actual_shape.max_y {
                let r = cy - actual_shape.min_y;
                let col = cx - actual_shape.min_x;
                assert(0 <= r < height);
                assert(0 <= col < width);
                assert(canvas.frame.spec_cell(actual_shape.min_x + col, actual_shape.min_y + r)
                    == spec_target_row(*vp, *text, r)[col]);
            }
        }
    }
}

/// A prefix of the shown lines never exceeds the total row count.
pub proof fn lemma_rows_of_prefix_all(lines: Seq<LineViewport>, k: int)
    requires
        0 <= k < lines.len(),
    ensures
        rows_of(lines.take(k)) >= 0,
        rows_of(lines.take(k)) + lines[k].rows.len() <= rows_of(lines),
    decreases lines.len() - k,
{
    lemma_rows_of_nonneg(lines.take(k));
    assert(lines.take(k + 1).drop_last() =~= lines.take(k));
    assert(lines.take(k + 1).last() == lines[k]);
    if k + 1 == lines.len() {
        assert(lines.take(k + 1) =~= lines);
    } else {
        lemma_rows_of_rest(lines, k + 1);
    }
}

/// Rows of a prefix never exceed the rows of the whole.
pub proof fn lemma_rows_of_rest(lines: Seq<LineViewport>, k: int)
    requires
        0 <= k <= lines.len(),
    ensures
        rows_of(lines.take(k)) <= rows_of(lines),
    decreases lines.len() - k,
{
    if k == lines.len() {
        assert(lines.take(k) =~= lines);
    } else {
        lemma_rows_of_rest(lines, k + 1);
        assert(lines.take(k + 1).drop_last() =~= lines.take(k));
        assert(lines.take(k + 1).last() == lines[k]);
    }
}

} // verus!
