//! The viewport engine.
//!
//! A viewport is a derived, read-mostly snapshot describing how a half-open
//! line range of a text source renders into a target rectangle.  Each line
//! in the range owns one or more consecutive rows; each row holds a
//! half-open character range of that line.  When content is clipped at a
//! row edge (horizontal scroll without wrap, or a wide glyph that cannot
//! fit), the viewport records filled placeholder columns at that edge
//! instead of splitting the glyph: a multi-width glyph is either fully
//! placed or fully clipped, never drawn in part.

pub mod draw;

use crate::coord::U16Rect;
use crate::text::{Glyph, Text, TextLine, width_between, lemma_width_between_split,
    lemma_width_between_nonneg};
use crate::ui::widget::window::WindowOptions;
use vstd::prelude::*;

verus! {

/// The half-open character range of one line shown on one terminal row.
#[derive(Clone, Copy, Debug, PartialEq, Eq, Structural)]
pub struct RowViewport {
    pub start_char_idx: usize,
    pub end_char_idx: usize,
}

/// How one line of the text source renders: its rows, and the placeholder
/// columns owed at the first and last row when content is clipped.
#[derive(Clone, Debug)]
pub struct LineViewport {
    pub rows: Vec<RowViewport>,
    pub start_filled_cols: u16,
    pub end_filled_cols: u16,
}

/// How a half-open line range of a text source renders into a
/// `width x height` target.  `lines[k]` describes line
/// `start_line_idx + k`; its rows sit directly below the rows of the lines
/// before it, starting at row 0.
#[derive(Clone, Debug)]
pub struct Viewport {
    pub start_line_idx: usize,
    pub end_line_idx: usize,
    pub lines: Vec<LineViewport>,
    pub width: u16,
    pub height: u16,
}

/// A character this crate treats as a word gap: space or tab.
pub open spec fn spec_is_blank(c: char) -> bool {
    c == ' ' || c == '\t'
}

/// Executable test for [`spec_is_blank`].
pub fn is_blank(c: char) -> (r: bool)
    ensures
        r == spec_is_blank(c),
{
    c == ' ' || c == '\t'
}

/// Greedy row cut: the end of the maximal run of glyphs starting at `s`
/// whose summed display width fits in `budget`.
pub open spec fn greedy_end(line: Seq<Glyph>, s: int, budget: int) -> int
    decreases line.len() - s,
{
    if s >= line.len() {
        s
    } else if line[s].width > budget {
        s
    } else {
        greedy_end(line, s + 1, budget - line[s].width)
    }
}

/// The greedy cut stays within the line and never overruns the budget.
pub proof fn lemma_greedy_end(line: Seq<Glyph>, s: int, budget: int)
    requires
        0 <= s <= line.len(),
        budget >= 0,
    ensures
        s <= greedy_end(line, s, budget) <= line.len(),
        width_between(line, s, greedy_end(line, s, budget)) <= budget,
        greedy_end(line, s, budget) < line.len() ==> width_between(
            line,
            s,
            greedy_end(line, s, budget),
        ) + line[greedy_end(line, s, budget)].width > budget,
    decreases line.len() - s,
{
    if s >= line.len() {
    } else if line[s].width > budget {
        assert(width_between(line, s, s) == 0);
    } else {
        lemma_greedy_end(line, s + 1, budget - line[s].width);
        let e = greedy_end(line, s + 1, budget - line[s].width);
        lemma_width_between_split(line, s, s + 1, e);
        assert(width_between(line, s, s) == 0);
        assert(width_between(line, s, s + 1) == line[s].width);
    }
}

/// The index of the last word-gap glyph in `s <= i < e`, or `s - 1` when
/// there is none.
pub open spec fn last_blank(line: Seq<Glyph>, s: int, e: int) -> int
    decreases e - s,
{
    if e <= s {
        s - 1
    } else if spec_is_blank(line[e - 1].ch) {
        e - 1
    } else {
        last_blank(line, s, e - 1)
    }
}

/// Where there is a gap, the break point lies inside the scanned range.
pub proof fn lemma_last_blank(line: Seq<Glyph>, s: int, e: int)
    requires
        s <= e,
    ensures
        s - 1 <= last_blank(line, s, e) < e,
    decreases e - s,
{
    if e > s && !spec_is_blank(line[e - 1].ch) {
        lemma_last_blank(line, s, e - 1);
    }
}

/// Where one row of a wrapped line ends when it starts at `s`: the greedy
/// cut, pulled back to just after the nearest preceding word gap when
/// `line_break` is set, the cut falls inside the line, and such a gap
/// exists within the row.
pub open spec fn row_end_spec(line: Seq<Glyph>, s: int, width: int, line_break: bool) -> int {
    let e = greedy_end(line, s, width);
    if !line_break || e >= line.len() {
        e
    } else {
        let b = last_blank(line, s, e);
        if b >= s {
            b + 1
        } else {
            e
        }
    }
}

/// The row cut stays within the line and never overruns the width.
pub proof fn lemma_row_end_spec(line: Seq<Glyph>, s: int, width: int, line_break: bool)
    requires
        0 <= s <= line.len(),
        width >= 0,
    ensures
        s <= row_end_spec(line, s, width, line_break) <= line.len(),
        width_between(line, s, row_end_spec(line, s, width, line_break)) <= width,
{
    lemma_greedy_end(line, s, width);
    let e = greedy_end(line, s, width);
    if line_break && e < line.len() {
        lemma_last_blank(line, s, e);
        let b = last_blank(line, s, e);
        if b >= s {
            lemma_width_between_split(line, s, b + 1, e);
            lemma_width_between_nonneg(line, b + 1, e);
        }
    }
}

/// Well-formedness of one line's viewport against its line:
/// at least one row; ranges within the line; ranges of consecutive rows
/// contiguous; every row's content width plus its edge fills within the
/// target width; the leading fill strictly within it.
pub open spec fn line_wf(lv: LineViewport, line: Seq<Glyph>, width: int) -> bool {
    &&& lv.rows.len() >= 1
    &&& forall|j: int|
        0 <= j < lv.rows.len() ==> (#[trigger] lv.rows[j]).start_char_idx
            <= lv.rows[j].end_char_idx <= line.len()
    &&& forall|j: int|
        0 <= j < lv.rows.len() - 1 ==> (#[trigger] lv.rows[j]).end_char_idx == lv.rows[j
            + 1].start_char_idx
    &&& (lv.start_filled_cols as int) < width
    &&& forall|j: int|
        0 <= j < lv.rows.len() ==> width_between(
            line,
            (#[trigger] lv.rows[j]).start_char_idx as int,
            lv.rows[j].end_char_idx as int,
        ) + (if j == 0 {
            lv.start_filled_cols as int
        } else {
            0
        }) + (if j == lv.rows.len() - 1 {
            lv.end_filled_cols as int
        } else {
            0
        }) <= width
}

/// Total number of rows a sequence of line viewports occupies.
pub open spec fn rows_of(lines: Seq<LineViewport>) -> int
    decreases lines.len(),
{
    if lines.len() == 0 {
        0
    } else {
        rows_of(lines.drop_last()) + lines.last().rows.len()
    }
}

/// Appending one line viewport adds exactly its rows.
pub proof fn lemma_rows_of_push(lines: Seq<LineViewport>, lv: LineViewport)
    ensures
        rows_of(lines.push(lv)) == rows_of(lines) + lv.rows.len(),
{
    assert(lines.push(lv).drop_last() =~= lines);
    assert(lines.push(lv).last() == lv);
}

/// Row counts are never negative.
pub proof fn lemma_rows_of_nonneg(lines: Seq<LineViewport>)
    ensures
        rows_of(lines) >= 0,
    decreases lines.len(),
{
    if lines.len() > 0 {
        lemma_rows_of_nonneg(lines.drop_last());
    }
}

/// The number of rows above line `k` of the viewport: the rows of the
/// line viewports before it.
pub open spec fn rows_before(lines: Seq<LineViewport>, k: int) -> int {
    rows_of(lines.take(k))
}

/// Rows of a prefix never exceed the rows of the whole.
pub proof fn lemma_rows_of_prefix(lines: Seq<LineViewport>, k: int)
    requires
        0 <= k <= lines.len(),
    ensures
        rows_of(lines.take(k)) + rows_of_from(lines, k) == rows_of(lines),
    decreases lines.len() - k,
{
    if k == lines.len() {
        assert(lines.take(k) =~= lines);
    } else {
        lemma_rows_of_prefix(lines, k + 1);
        assert(lines.take(k + 1).drop_last() =~= lines.take(k));
        assert(lines.take(k + 1).last() == lines[k]);
    }
}

/// Total rows of the line viewports from `k` on.
pub open spec fn rows_of_from(lines: Seq<LineViewport>, k: int) -> int
    decreases lines.len() - k,
{
    if k < 0 || k >= lines.len() {
        0
    } else {
        lines[k].rows.len() + rows_of_from(lines, k + 1)
    }
}

impl Viewport {
    /// Well-formedness against the text the viewport was derived from.
    pub open spec fn wf(self, text: Text) -> bool {
        &&& self.start_line_idx <= self.end_line_idx <= text.lines.len()
        &&& self.lines.len() == self.end_line_idx - self.start_line_idx
        &&& rows_of(self.lines@) <= self.height
        &&& forall|k: int|
            0 <= k < self.lines.len() ==> line_wf(
                #[trigger] self.lines[k],
                text.lines[self.start_line_idx + k].glyphs@,
                self.width as int,
            )
    }

    /// The viewport shows no line at all.
    pub open spec fn spec_is_empty(self) -> bool {
        self.end_line_idx <= self.start_line_idx
    }

    /// The first line index of the shown range.
    pub fn start_line_idx(&self) -> (r: usize)
        ensures
            r == self.start_line_idx,
    {
        self.start_line_idx
    }

    /// One past the last line index of the shown range.
    pub fn end_line_idx(&self) -> (r: usize)
        ensures
            r == self.end_line_idx,
    {
        self.end_line_idx
    }
}

/// Where the single row of an unwrapped line starts: the anchor character,
/// clamped into the line.
pub open spec fn nowrap_start(line: Seq<Glyph>, anchor: int) -> int {
    if anchor <= line.len() {
        anchor
    } else {
        line.len() as int
    }
}

/// The marker columns owed at the left edge of an unwrapped, horizontally
/// scrolled line: one column, when the scroll is active and the target
/// leaves room to show anything beside the marker.
pub open spec fn nowrap_fill(line: Seq<Glyph>, anchor: int, width: int) -> int {
    if nowrap_start(line, anchor) > 0 && width >= 2 {
        1
    } else {
        0
    }
}

/// Where the single row of an unwrapped line ends: the greedy cut within
/// the width left over by the leading marker.
pub open spec fn nowrap_end(line: Seq<Glyph>, anchor: int, width: int) -> int {
    greedy_end(line, nowrap_start(line, anchor), width - nowrap_fill(line, anchor, width))
}

/// The placeholder columns owed at the right edge of an unwrapped line:
/// all columns the clipped tail leaves unused, or none when the line ends
/// inside the row.
pub open spec fn nowrap_end_fill(line: Seq<Glyph>, anchor: int, width: int) -> int {
    if nowrap_end(line, anchor, width) < line.len() {
        width - nowrap_fill(line, anchor, width) - width_between(
            line,
            nowrap_start(line, anchor),
            nowrap_end(line, anchor, width),
        )
    } else {
        0
    }
}

/// The line viewport an unwrapped line must have.
pub open spec fn nowrap_line_matches(
    lv: LineViewport,
    line: Seq<Glyph>,
    anchor: int,
    width: int,
) -> bool {
    &&& lv.rows.len() == 1
    &&& lv.rows[0].start_char_idx == nowrap_start(line, anchor)
    &&& lv.rows[0].end_char_idx == nowrap_end(line, anchor, width)
    &&& lv.start_filled_cols == nowrap_fill(line, anchor, width)
    &&& lv.end_filled_cols == nowrap_end_fill(line, anchor, width)
}

/// The line viewport a wrapped line must have: rows start at character 0,
/// each row ends at the spec cut for its start, no leading fill, and a
/// trailing fill only for a glyph too wide to ever fit (then the whole
/// row is fill).
pub open spec fn wrap_line_matches(
    lv: LineViewport,
    line: Seq<Glyph>,
    width: int,
    line_break: bool,
) -> bool {
    &&& lv.start_filled_cols == 0
    &&& lv.rows.len() >= 1
    &&& lv.rows[0].start_char_idx == 0
    &&& forall|j: int|
        0 <= j < lv.rows.len() ==> (#[trigger] lv.rows[j]).end_char_idx == row_end_spec(
            line,
            lv.rows[j].start_char_idx as int,
            width,
            line_break,
        )
    &&& lv.end_filled_cols == (if lv.rows@.last().end_char_idx < line.len()
        && lv.rows@.last().end_char_idx == lv.rows@.last().start_char_idx {
        width
    } else {
        0
    })
}

/// Greedy scan of one row: the maximal run of glyphs from `s` whose
/// summed width fits in `budget`, and that summed width.
fn scan_row(line: &TextLine, s: usize, budget: u16) -> (r: (usize, usize))
    requires
        line.wf(),
        s <= line.glyphs@.len(),
    ensures
        r.0 == greedy_end(line.glyphs@, s as int, budget as int),
        r.1 == width_between(line.glyphs@, s as int, r.0 as int),
        r.1 <= budget,
        s <= r.0 <= line.glyphs@.len(),
{
    let len = line.char_count();
    let mut e: usize = s;
    let mut w: usize = 0;
    proof {
        assert(width_between(line.glyphs@, s as int, s as int) == 0);
    }
    loop
        invariant
            line.wf(),
            s <= e <= len == line.glyphs@.len(),
            w == width_between(line.glyphs@, s as int, e as int),
            w <= budget,
            greedy_end(line.glyphs@, s as int, budget as int) == greedy_end(
                line.glyphs@,
                e as int,
                budget - w,
            ),
        decreases len - e,
    {
        if e >= len {
            return (e, w);
        }
        let gw = line.glyphs[e].width;
        if (gw as usize) > (budget as usize) - w {
            return (e, w);
        }
        proof {
            lemma_width_between_split(line.glyphs@, s as int, e as int, e + 1);
            assert(width_between(line.glyphs@, e as int, e + 1) == line.glyphs@[e as int].width);
        }
        w = w + gw as usize;
        e = e + 1;
    }
}

/// One wrapped row's end, as executable code: the greedy cut, pulled back
/// to the nearest word gap when asked and possible.
fn row_end_exec(line: &TextLine, s: usize, width: u16, line_break: bool) -> (r: usize)
    requires
        line.wf(),
        s <= line.glyphs@.len(),
    ensures
        r == row_end_spec(line.glyphs@, s as int, width as int, line_break),
        s <= r <= line.glyphs@.len(),
        width_between(line.glyphs@, s as int, r as int) <= width,
{
    let len = line.char_count();
    let (g, _w) = scan_row(line, s, width);
    proof {
        lemma_row_end_spec(line.glyphs@, s as int, width as int, line_break);
    }
    if !line_break || g >= len {
        return g;
    }
    let mut j: usize = g;
    while j > s
        invariant
            line.wf(),
            s <= j <= g <= line.glyphs@.len(),
            g == greedy_end(line.glyphs@, s as int, width as int),
            g < line.glyphs@.len(),
            line_break,
            last_blank(line.glyphs@, s as int, g as int) == last_blank(
                line.glyphs@,
                s as int,
                j as int,
            ),
        decreases j,
    {
        if is_blank(line.glyphs[j - 1].ch) {
            proof {
                assert(last_blank(line.glyphs@, s as int, j as int) == j - 1);
                lemma_greedy_end(line.glyphs@, s as int, width as int);
                lemma_width_between_split(line.glyphs@, s as int, j as int, g as int);
                lemma_width_between_nonneg(line.glyphs@, j as int, g as int);
            }
            return j;
        }
        j = j - 1;
    }
    proof {
        assert(last_blank(line.glyphs@, s as int, s as int) == s - 1);
    }
    g
}

/// Lay out one line without wrapping: one row, horizontally scrolled to
/// the anchor character and clipped to the width.
fn layout_line_nowrap(line: &TextLine, anchor_char: usize, width: u16) -> (r: LineViewport)
    requires
        line.wf(),
        width >= 1,
    ensures
        line_wf(r, line.glyphs@, width as int),
        nowrap_line_matches(r, line.glyphs@, anchor_char as int, width as int),
{
    let len = line.char_count();
    let s = if anchor_char <= len {
        anchor_char
    } else {
        len
    };
    let fill: u16 = if s > 0 && width >= 2 {
        1
    } else {
        0
    };
    let budget: u16 = width - fill;
    let (e, roww) = scan_row(line, s, budget);
    let end_fill: u16 = if e < len {
        budget - (roww as u16)
    } else {
        0
    };
    let mut rows: Vec<RowViewport> = Vec::new();
    rows.push(RowViewport { start_char_idx: s, end_char_idx: e });
    LineViewport { rows, start_filled_cols: fill, end_filled_cols: end_fill }
}

/// Lay out one line with wrapping: consecutive rows of maximal runs (or
/// word-gap cuts), at most `max_rows` of them.
fn layout_line_wrap(line: &TextLine, width: u16, line_break: bool, max_rows: usize) -> (r:
    LineViewport)
    requires
        line.wf(),
        width >= 1,
        max_rows >= 1,
    ensures
        line_wf(r, line.glyphs@, width as int),
        wrap_line_matches(r, line.glyphs@, width as int, line_break),
        1 <= r.rows.len() <= max_rows,
        // The line ends inside its last row, or a too-wide glyph clipped
        // it, or the row budget ran out.
        r.rows@.last().end_char_idx == line.glyphs@.len() || r.rows@.last().end_char_idx
            == r.rows@.last().start_char_idx || r.rows.len() == max_rows,
{
    let len = line.char_count();
    let mut rows: Vec<RowViewport> = Vec::new();
    let mut s: usize = 0;
    let mut end_fill: u16 = 0;
    loop
        invariant_except_break
            rows.len() < max_rows,
            end_fill == 0,
            rows.len() >= 1 ==> rows@.last().end_char_idx == s,
            rows.len() == 0 ==> s == 0,
            forall|j: int|
                0 <= j < rows.len() ==> (#[trigger] rows[j]).start_char_idx < rows[j].end_char_idx,
        invariant
            line.wf(),
            width >= 1,
            max_rows >= 1,
            s <= len == line.glyphs@.len(),
            rows.len() <= max_rows,
            rows.len() >= 1 ==> rows[0].start_char_idx == 0,
            forall|j: int|
                0 <= j < rows.len() ==> (#[trigger] rows[j]).start_char_idx <= rows[j].end_char_idx
                    <= line.glyphs@.len(),
            forall|j: int|
                0 <= j < rows.len() - 1 ==> (#[trigger] rows[j]).end_char_idx == rows[j
                    + 1].start_char_idx,
            forall|j: int|
                0 <= j < rows.len() ==> (#[trigger] rows[j]).end_char_idx == row_end_spec(
                    line.glyphs@,
                    rows[j].start_char_idx as int,
                    width as int,
                    line_break,
                ),
            forall|j: int|
                0 <= j < rows.len() ==> width_between(
                    line.glyphs@,
                    (#[trigger] rows[j]).start_char_idx as int,
                    rows[j].end_char_idx as int,
                ) <= width,
        ensures
            1 <= rows.len() <= max_rows,
            rows[0].start_char_idx == 0,
            rows@.last().end_char_idx == len || rows@.last().end_char_idx
                == rows@.last().start_char_idx || rows.len() == max_rows,
            end_fill == (if rows@.last().end_char_idx < len && rows@.last().end_char_idx
                == rows@.last().start_char_idx {
                width as int
            } else {
                0
            }),
        decreases len - s,
    {
        let e = row_end_exec(line, s, width, line_break);
        if e == s && s < len {
            // A glyph wider than the whole target: clip it, the row is
            // all placeholder columns.
            rows.push(RowViewport { start_char_idx: s, end_char_idx: s });
            end_fill = width;
            break ;
        }
        rows.push(RowViewport { start_char_idx: s, end_char_idx: e });
        if e >= len {
            break ;
        }
        if rows.len() >= max_rows {
            proof {
                assert(rows@.last().end_char_idx == e);
                assert(e > s);
            }
            break ;
        }
        s = e;
    }
    LineViewport { rows, start_filled_cols: 0, end_filled_cols: end_fill }
}

/// Within one line the row character ranges are ordered: an earlier row
/// ends no later than a later row starts.
pub proof fn lemma_row_ranges_ordered(lv: LineViewport, line: Seq<Glyph>, width: int, j1: int, j2: int)
    requires
        line_wf(lv, line, width),
        0 <= j1 < j2 < lv.rows.len(),
    ensures
        lv.rows[j1].end_char_idx <= lv.rows[j2].start_char_idx,
    decreases j2 - j1,
{
    if j2 == j1 + 1 {
        assert(lv.rows[j1].end_char_idx == lv.rows[j1 + 1].start_char_idx);
    } else {
        lemma_row_ranges_ordered(lv, line, width, j1, j2 - 1);
        assert(lv.rows[j2 - 1].end_char_idx == lv.rows[j2].start_char_idx);
    }
}

/// Viewport coverage: for every line of a well-formed viewport the row
/// character ranges, in row order, are contiguous, non-overlapping and
/// monotonically increasing, and the total rows the viewport occupies
/// never exceed the target height.
pub proof fn lemma_viewport_coverage(vp: Viewport, text: Text, k: int)
    requires
        vp.wf(text),
        0 <= k < vp.lines.len(),
    ensures
        // Contiguous: each row takes over exactly where the previous one
        // ended.
        forall|j: int|
            0 <= j < vp.lines[k].rows.len() - 1 ==> (#[trigger] vp.lines[k].rows[j]).end_char_idx
                == vp.lines[k].rows[j + 1].start_char_idx,
        // Non-overlapping and monotonically increasing.
        forall|j1: int, j2: int|
            0 <= j1 < j2 < vp.lines[k].rows.len() ==> (#[trigger] vp.lines[k].rows[j1]).end_char_idx
                <= (#[trigger] vp.lines[k].rows[j2]).start_char_idx,
        // Within the line, and rows within the height.
        forall|j: int|
            0 <= j < vp.lines[k].rows.len() ==> (#[trigger] vp.lines[k].rows[j]).start_char_idx
                <= vp.lines[k].rows[j].end_char_idx <= text.lines[vp.start_line_idx
                + k].glyphs.len(),
        rows_of(vp.lines@) <= vp.height,
{
    assert(line_wf(vp.lines[k], text.lines[vp.start_line_idx + k].glyphs@, vp.width as int));
    assert forall|j1: int, j2: int| 0 <= j1 < j2 < vp.lines[k].rows.len() implies (
    #[trigger] vp.lines[k].rows[j1]).end_char_idx <= (
    #[trigger] vp.lines[k].rows[j2]).start_char_idx by {
        lemma_row_ranges_ordered(vp.lines[k], text.lines[vp.start_line_idx + k].glyphs@,
            vp.width as int, j1, j2);
    }
}

/// Total rows of the viewports from `k` on are never negative.
pub proof fn lemma_rows_of_from_nonneg(lines: Seq<LineViewport>, k: int)
    ensures
        rows_of_from(lines, k) >= 0,
    decreases lines.len() - k,
{
    if 0 <= k < lines.len() {
        lemma_rows_of_from_nonneg(lines, k + 1);
    }
}

/// The row of a line viewport showing character position `c`: the row
/// whose half-open range holds `c`, or the last row when `c` sits exactly
/// at its end (the position one past the line's shown content), or `-1`
/// when no row shows the position.
pub open spec fn row_of_char(rows: Seq<RowViewport>, c: int) -> int
    decreases rows.len(),
{
    if rows.len() == 0 {
        -1
    } else if rows[0].start_char_idx <= c < rows[0].end_char_idx {
        0
    } else if rows.len() == 1 {
        if c == rows[0].end_char_idx {
            0
        } else {
            -1
        }
    } else {
        let t = row_of_char(rows.drop_first(), c);
        if t >= 0 {
            1 + t
        } else {
            -1
        }
    }
}

/// A found row index lies inside the row sequence.
pub proof fn lemma_row_of_char_bounds(rows: Seq<RowViewport>, c: int)
    ensures
        -1 <= row_of_char(rows, c) < rows.len(),
    decreases rows.len(),
{
    if rows.len() > 1 && !(rows[0].start_char_idx <= c < rows[0].end_char_idx) {
        lemma_row_of_char_bounds(rows.drop_first(), c);
    }
}

/// The column where character position `c` of row `j` renders: the
/// leading fill of the line's first row, plus the width of the glyphs of
/// the row before `c`.
pub open spec fn column_of_char(lv: LineViewport, line: Seq<Glyph>, j: int, c: int) -> int {
    (if j == 0 {
        lv.start_filled_cols as int
    } else {
        0
    }) + width_between(line, lv.rows[j].start_char_idx as int, c)
}

/// The cursor's position inside the rendered coordinate space of the
/// viewport it was derived from.  Always recomputed together with that
/// viewport: `line_idx`/`char_idx` address the text source, while
/// `row_idx`/`column_idx` address the target rectangle.
#[derive(Clone, Copy, Debug, PartialEq, Eq, Structural)]
pub struct CursorViewport {
    pub line_idx: usize,
    pub char_idx: usize,
    pub row_idx: u16,
    pub column_idx: u16,
}

impl CursorViewport {
    /// Consistency with the viewport the cursor was derived from: the
    /// addressed position exists in the text, and on a non-empty viewport
    /// the cursor sits on a drawable cell of the target.
    pub open spec fn wf(self, vp: Viewport, text: Text) -> bool {
        &&& self.line_idx < text.lines.len()
        &&& self.char_idx <= text.lines[self.line_idx as int].glyphs.len()
        &&& !vp.spec_is_empty() ==> {
            &&& vp.start_line_idx <= self.line_idx < vp.end_line_idx
            &&& (self.row_idx as int) < rows_of(vp.lines@)
            &&& (self.column_idx as int) < vp.width
        }
        &&& vp.spec_is_empty() ==> self.row_idx == 0 && self.column_idx == 0
    }

    /// The cursor placed at the first renderable position of a viewport:
    /// the first shown character of the first shown line, at row 0, right
    /// after the leading fill columns.  On an empty viewport the cursor
    /// parks at the viewport anchor, cell (0, 0).
    pub fn from_top_left(vp: &Viewport, text: &Text) -> (r: CursorViewport)
        requires
            text.wf(),
            vp.wf(*text),
            vp.start_line_idx < text.lines@.len(),
        ensures
            r.wf(*vp, *text),
            vp.spec_is_empty() ==> r == (CursorViewport {
                line_idx: vp.start_line_idx,
                char_idx: 0,
                row_idx: 0u16,
                column_idx: 0u16,
            }),
            !vp.spec_is_empty() ==> r == (CursorViewport {
                line_idx: vp.start_line_idx,
                char_idx: vp.lines[0].rows[0].start_char_idx,
                row_idx: 0u16,
                column_idx: vp.lines[0].start_filled_cols,
            }),
    {
        if vp.end_line_idx <= vp.start_line_idx {
            return CursorViewport {
                line_idx: vp.start_line_idx,
                char_idx: 0,
                row_idx: 0,
                column_idx: 0,
            };
        }
        let lv = &vp.lines[0];
        let row = lv.rows[0];
        proof {
            assert(line_wf(vp.lines[0], text.lines[vp.start_line_idx as int].glyphs@,
                vp.width as int));
            assert(vp.lines@[0].rows[0].start_char_idx <= vp.lines@[0].rows[0].end_char_idx
                <= text.lines@[vp.start_line_idx as int].glyphs@.len());
            lemma_rows_of_prefix(vp.lines@, 1);
            lemma_rows_of_from_nonneg(vp.lines@, 1);
            assert(vp.lines@.take(1).drop_last() =~= Seq::<LineViewport>::empty());
            assert(vp.lines@.take(1).last() == vp.lines@[0]);
            assert(rows_of(Seq::<LineViewport>::empty()) == 0);
            assert(rows_of(vp.lines@.take(1)) == vp.lines@[0].rows.len());
            assert(rows_of(vp.lines@) >= vp.lines@[0].rows.len());
            assert(vp.lines@[0].rows.len() >= 1);
            assert((vp.lines@[0].start_filled_cols as int) < vp.width);
        }
        CursorViewport {
            line_idx: vp.start_line_idx,
            char_idx: row.start_char_idx,
            row_idx: 0,
            column_idx: lv.start_filled_cols,
        }
    }

    /// Locate the cursor for text position `(line_idx, char_idx)` inside
    /// a viewport.  Fails — returns `None` — when the position falls
    /// outside the viewport's rendered ranges or its rendered column
    /// falls outside the target width; the caller must then re-anchor
    /// the viewport rather than draw an out-of-range cursor.
    #[verifier::rlimit(60)]
    pub fn locate(vp: &Viewport, text: &Text, line_idx: usize, char_idx: usize) -> (r: Option<
        CursorViewport,
    >)
        requires
            text.wf(),
            vp.wf(*text),
            line_idx < text.lines@.len(),
            char_idx <= text.lines@[line_idx as int].glyphs@.len(),
        ensures
            r.is_some() <==> {
                &&& vp.start_line_idx <= line_idx < vp.end_line_idx
                &&& row_of_char(vp.lines[line_idx - vp.start_line_idx].rows@, char_idx as int)
                    >= 0
                &&& column_of_char(
                    vp.lines[line_idx - vp.start_line_idx],
                    text.lines[line_idx as int].glyphs@,
                    row_of_char(
                        vp.lines[line_idx - vp.start_line_idx].rows@,
                        char_idx as int,
                    ),
                    char_idx as int,
                ) < vp.width
            },
            r.is_some() ==> {
                &&& r.unwrap().wf(*vp, *text)
                &&& r.unwrap().line_idx == line_idx
                &&& r.unwrap().char_idx == char_idx
                &&& r.unwrap().row_idx == rows_before(vp.lines@, line_idx - vp.start_line_idx)
                    + row_of_char(
                    vp.lines[line_idx - vp.start_line_idx].rows@,
                    char_idx as int,
                )
                &&& r.unwrap().column_idx == column_of_char(
                    vp.lines[line_idx - vp.start_line_idx],
                    text.lines[line_idx as int].glyphs@,
                    row_of_char(
                        vp.lines[line_idx - vp.start_line_idx].rows@,
                        char_idx as int,
                    ),
                    char_idx as int,
                )
            },
    {
        if line_idx < vp.start_line_idx || line_idx >= vp.end_line_idx {
            return None;
        }
        let k = line_idx - vp.start_line_idx;
        let lv = &vp.lines[k];
        let line = text.line(line_idx);
        let ghost rows = lv.rows@;
        let ghost c = char_idx as int;
        proof {
            assert(line_wf(vp.lines[k as int], text.lines[line_idx as int].glyphs@,
                vp.width as int));
        }
        // Rows of the shown lines above this one.
        let mut row_base: usize = 0;
        let mut i: usize = 0;
        proof {
            assert(vp.lines@.take(0) =~= Seq::<LineViewport>::empty());
            lemma_rows_of_prefix(vp.lines@, 0);
        }
        while i < k
            invariant
                vp.wf(*text),
                i <= k < vp.lines@.len(),
                row_base == rows_of(vp.lines@.take(i as int)),
                row_base + rows_of_from(vp.lines@, i as int) == rows_of(vp.lines@),
                rows_of(vp.lines@) <= vp.height,
            decreases k - i,
        {
            proof {
                lemma_rows_of_prefix(vp.lines@, i as int);
                lemma_rows_of_prefix(vp.lines@, i + 1);
                assert(vp.lines@.take(i + 1).drop_last() =~= vp.lines@.take(i as int));
                assert(vp.lines@.take(i + 1).last() == vp.lines@[i as int]);
                lemma_rows_of_from_nonneg(vp.lines@, i + 1);
                lemma_rows_of_nonneg(vp.lines@.take(i as int));
            }
            row_base = row_base + vp.lines[i].rows.len();
            i += 1;
        }
        proof {
            lemma_rows_of_from_nonneg(vp.lines@, k + 1);
            lemma_rows_of_nonneg(vp.lines@.take(k as int));
        }
        // Find the row showing the position.
        let n = lv.rows.len();
        let mut j: usize = 0;
        proof {
            assert(rows.skip(0) =~= rows);
        }
        while j < n
            invariant
                vp.wf(*text),
                text.wf(),
                k == line_idx - vp.start_line_idx < vp.lines@.len(),
                vp.start_line_idx <= line_idx < vp.end_line_idx,
                line_idx < text.lines@.len(),
                lv == vp.lines@[k as int],
                line == text.lines@[line_idx as int],
                rows == lv.rows@,
                c == char_idx as int,
                char_idx <= line.glyphs@.len(),
                j <= n == rows.len(),
                row_of_char(rows, c) == (if row_of_char(rows.skip(j as int), c) >= 0 {
                    j + row_of_char(rows.skip(j as int), c)
                } else {
                    -1
                }),
                row_base == rows_of(vp.lines@.take(k as int)),
                row_base + rows_of_from(vp.lines@, k as int) == rows_of(vp.lines@),
                rows_of(vp.lines@) <= vp.height,
            decreases n - j,
        {
            let row = lv.rows[j];
            let hit = (row.start_char_idx <= char_idx && char_idx < row.end_char_idx) || (j + 1
                == n && char_idx == row.end_char_idx);
            proof {
                assert(rows.skip(j as int)[0] == rows[j as int]);
                assert(rows.skip(j as int).len() == n - j);
                if !hit {
                    assert(rows.skip(j as int).drop_first() =~= rows.skip(j + 1));
                }
            }
            if hit {
                proof {
                    assert(row_of_char(rows.skip(j as int), c) == 0);
                    assert(row_of_char(rows, c) == j as int);
                    lemma_row_of_char_bounds(rows, c);
                    // The rendered column fits the width sum of the row.
                    lemma_width_between_nonneg(line.glyphs@, row.start_char_idx as int, c);
                    lemma_width_between_split(line.glyphs@, row.start_char_idx as int, c,
                        row.end_char_idx as int);
                    lemma_width_between_nonneg(line.glyphs@, c, row.end_char_idx as int);
                }
                let fill: usize = if j == 0 {
                    lv.start_filled_cols as usize
                } else {
                    0
                };
                let wb = line.width_between(row.start_char_idx, char_idx);
                let col: usize = fill + wb;
                if col < vp.width as usize {
                    proof {
                        lemma_rows_of_prefix(vp.lines@, k as int);
                        lemma_rows_of_from_nonneg(vp.lines@, k + 1);
                    }
                    return Some(
                        CursorViewport {
                            line_idx,
                            char_idx,
                            row_idx: (row_base + j) as u16,
                            column_idx: col as u16,
                        },
                    );
                } else {
                    return None;
                }
            }
            j += 1;
        }
        proof {
            assert(rows.skip(n as int) =~= Seq::<RowViewport>::empty());
            assert(row_of_char(rows.skip(n as int), c) == -1);
        }
        None
    }
}

/// Compute the viewport of one text source for one target rectangle.
///
/// Starting at `anchor_line`, lines are assigned consecutive rows until
/// the text or the target height runs out.  Without wrap each line takes
/// exactly one row, horizontally scrolled to `anchor_char`; with wrap a
/// line takes as many rows as its width demands and `anchor_char` is
/// ignored.  The result is deterministic in its inputs, never indexes
/// past the text's line count, and never produces overlapping ranges.
pub fn view(
    options: &WindowOptions,
    text: &Text,
    shape: &U16Rect,
    anchor_line: usize,
    anchor_char: usize,
) -> (r: Viewport)
    requires
        options.wf(),
        text.wf(),
        shape.wf(),
    ensures
        r.wf(*text),
        r.width == shape.spec_width(),
        r.height == shape.spec_height(),
        r.start_line_idx == (if anchor_line <= text.lines@.len() {
            anchor_line as int
        } else {
            text.lines@.len() as int
        }),
        (r.width == 0 || r.height == 0) ==> r.end_line_idx == r.start_line_idx,
        (r.width > 0 && r.height > 0) ==> (r.end_line_idx == text.lines@.len() || rows_of(
            r.lines@,
        ) == r.height),
        !options.wrap ==> forall|k: int|
            0 <= k < r.lines.len() ==> nowrap_line_matches(
                #[trigger] r.lines[k],
                text.lines[r.start_line_idx + k].glyphs@,
                anchor_char as int,
                r.width as int,
            ),
        options.wrap ==> forall|k: int|
            0 <= k < r.lines.len() ==> wrap_line_matches(
                #[trigger] r.lines[k],
                text.lines[r.start_line_idx + k].glyphs@,
                r.width as int,
                options.line_break,
            ),
        // Only the last shown line may be cut short by the target height.
        options.wrap ==> forall|k: int|
            0 <= k < r.lines.len() ==> ((#[trigger] r.lines[k]).rows@.last().end_char_idx
                == text.lines[r.start_line_idx + k].glyphs@.len() || r.lines[k].rows@.last().end_char_idx
                == r.lines[k].rows@.last().start_char_idx || (k == r.lines.len() - 1 && rows_of(
                r.lines@,
            ) == r.height)),
{
    let width = shape.width();
    let height = shape.height();
    let count = text.line_count();
    let start = if anchor_line <= count {
        anchor_line
    } else {
        count
    };
    if width == 0 || height == 0 {
        let lines: Vec<LineViewport> = Vec::new();
        return Viewport { start_line_idx: start, end_line_idx: start, lines, width, height };
    }
    let mut lines: Vec<LineViewport> = Vec::new();
    let mut line_idx: usize = start;
    let mut rows_used: usize = 0;
    while line_idx < count && rows_used < height as usize
        invariant
            options.wf(),
            text.wf(),
            width >= 1,
            height >= 1,
            count == text.lines@.len(),
            start <= line_idx <= count,
            lines.len() == line_idx - start,
            rows_of(lines@) == rows_used,
            rows_used <= height,
            forall|k: int|
                0 <= k < lines.len() ==> line_wf(
                    #[trigger] lines[k],
                    text.lines[start + k].glyphs@,
                    width as int,
                ),
            !options.wrap ==> forall|k: int|
                0 <= k < lines.len() ==> nowrap_line_matches(
                    #[trigger] lines[k],
                    text.lines[start + k].glyphs@,
                    anchor_char as int,
                    width as int,
                ),
            options.wrap ==> forall|k: int|
                0 <= k < lines.len() ==> wrap_line_matches(
                    #[trigger] lines[k],
                    text.lines[start + k].glyphs@,
                    width as int,
                    options.line_break,
                ),
            options.wrap ==> forall|k: int|
                0 <= k < lines.len() ==> ((#[trigger] lines[k]).rows@.last().end_char_idx
                    == text.lines[start + k].glyphs@.len() || lines[k].rows@.last().end_char_idx
                    == lines[k].rows@.last().start_char_idx || (k == lines.len() - 1 && rows_used
                    == height)),
        decreases count - line_idx,
    {
        let line = text.line(line_idx);
        let remaining: usize = height as usize - rows_used;
        let lv = if options.wrap {
            layout_line_wrap(line, width, options.line_break, remaining)
        } else {
            layout_line_nowrap(line, anchor_char, width)
        };
        proof {
            lemma_rows_of_push(lines@, lv);
        }
        rows_used = rows_used + lv.rows.len();
        lines.push(lv);
        line_idx = line_idx + 1;
    }
    Viewport { start_line_idx: start, end_line_idx: line_idx, lines, width, height }
}

} // verus!
