//! The primitive cursor operations.
//!
//! The routines each mode calls to apply an operation to a widget's
//! cursor and viewport.  All of them are synchronous, total functions
//! over well-formed inputs: a move beyond a boundary clamps, and a
//! cursor that would fall outside the current viewport re-anchors the
//! viewport first, never draws out of range.

use crate::state::ops::{is_cursor_move_op, Operation};
use crate::text::{width_between, Text, TextLine, MAX_LINE_LEN};
use crate::ui::viewport::{nowrap_line_matches, nowrap_start, row_of_char, rows_of,
    view, CursorViewport};
use crate::ui::widget::command_line::CommandLine;
use vstd::prelude::*;

verus! {

/// A character index clamped into a line: up to the last character in
/// normal style (`clamp_to_line`), up to the end-of-line position
/// otherwise.
pub open spec fn clamp_char(c: int, len: int, clamp_to_line: bool) -> int {
    let maxc = if clamp_to_line {
        if len > 0 {
            len - 1
        } else {
            0
        }
    } else {
        len
    };
    if c < 0 {
        0
    } else if c > maxc {
        maxc
    } else {
        c
    }
}

/// A line index clamped into the buffer's line range.
pub open spec fn clamp_line(l: int, count: int) -> int {
    if l < 0 {
        0
    } else if l >= count {
        count - 1
    } else {
        l
    }
}

/// The line a cursor-move operation targets, before clamping by line
/// length.
pub open spec fn target_line(op: Operation, cur: int, count: int) -> int {
    match op {
        Operation::CursorMoveUpBy(n) => clamp_line(cur - n, count),
        Operation::CursorMoveDownBy(n) => clamp_line(cur + n, count),
        Operation::CursorMoveBy(_, dy) => clamp_line(cur + dy, count),
        Operation::CursorMoveTo(_, l) => clamp_line(l as int, count),
        _ => clamp_line(cur, count),
    }
}

/// The character a cursor-move operation targets within the target line.
pub open spec fn target_char(op: Operation, cur: int, len: int, clamp_to_line: bool) -> int {
    match op {
        Operation::CursorMoveLeftBy(n) => clamp_char(cur - n, len, clamp_to_line),
        Operation::CursorMoveRightBy(n) => clamp_char(cur + n, len, clamp_to_line),
        Operation::CursorMoveBy(dx, _) => clamp_char(cur + dx, len, clamp_to_line),
        Operation::CursorMoveTo(c, _) => clamp_char(c as int, len, clamp_to_line),
        _ => clamp_char(cur, len, clamp_to_line),
    }
}

/// Recompute the widget's viewport anchored at `(tl, tc)` and locate the
/// cursor there.  On a target with room this always succeeds: the
/// command line never wraps, so the anchored character heads its own
/// row.
fn reanchor(cmdline: &mut CommandLine, text: &Text, tl: usize, tc: usize)
    requires
        text.wf(),
        old(cmdline).struct_wf(),
        tl < text.lines@.len(),
        tc <= text.lines@[tl as int].glyphs@.len(),
    ensures
        final(cmdline).wf(*text),
        final(cmdline).cursor_viewport.line_idx == tl,
        final(cmdline).cursor_viewport.char_idx == tc,
        final(cmdline).base == old(cmdline).base,
        final(cmdline).cursor_id == old(cmdline).cursor_id,
        final(cmdline).options == old(cmdline).options,
        final(cmdline).root_id == old(cmdline).root_id,
        final(cmdline).indicator_id == old(cmdline).indicator_id,
        final(cmdline).content_id == old(cmdline).content_id,
{
    let shape = cmdline_content_shape(cmdline);
    let vp = view(&cmdline.options, text, &shape, tl, tc);
    let width = shape.width();
    let height = shape.height();
    if width == 0 || height == 0 {
        cmdline.viewport = vp;
        cmdline.cursor_viewport = CursorViewport {
            line_idx: tl,
            char_idx: tc,
            row_idx: 0,
            column_idx: 0,
        };
        return ;
    }
    proof {
        assert(vp.start_line_idx == tl);
        assert(vp.end_line_idx > tl) by {
            if vp.end_line_idx == tl {
                assert(vp.lines@.len() == 0);
                assert(rows_of(vp.lines@) == 0);
            }
        }
        let line = text.lines@[tl as int].glyphs@;
        assert(nowrap_line_matches(vp.lines[0], line, tc as int, vp.width as int));
        assert(crate::ui::viewport::line_wf(vp.lines[0], line, vp.width as int));
        let rows = vp.lines@[0].rows@;
        assert(rows.len() == 1);
        assert(rows[0].start_char_idx == nowrap_start(line, tc as int));
        assert(rows[0].start_char_idx == tc);
        assert(row_of_char(rows, tc as int) == 0) by {
            if !(rows[0].start_char_idx <= tc < rows[0].end_char_idx) {
                assert(tc == rows[0].start_char_idx);
                assert(rows[0].start_char_idx <= rows[0].end_char_idx);
                assert(tc >= rows[0].end_char_idx);
                assert(tc == rows[0].end_char_idx);
            }
        }
        assert(width_between(line, rows[0].start_char_idx as int, tc as int) == 0);
        assert(crate::ui::viewport::column_of_char(vp.lines[0], line, 0, tc as int)
            == vp.lines[0].start_filled_cols);
        assert((vp.lines[0].start_filled_cols as int) < vp.width);
    }
    let ncv = CursorViewport::locate(&vp, text, tl, tc);
    proof {
        assert(ncv.is_some());
    }
    cmdline.viewport = vp;
    cmdline.cursor_viewport = ncv.unwrap();
}

/// The content region's actual shape, from the structural part alone.
fn cmdline_content_shape(cmdline: &CommandLine) -> (r: crate::coord::U16Rect)
    requires
        cmdline.struct_wf(),
    ensures
        r == crate::ui::tree::node_of(cmdline.base.entries@, cmdline.content_id).actual_shape,
        r.wf(),
{
    proof {
        let s = cmdline.base.entries@;
        let i = crate::ui::tree::index_of_id(s, cmdline.content_id);
    }
    let node = cmdline.base.get(cmdline.content_id);
    node.actual_shape
}

/// Place the cursor node on the cell the cursor snapshot names, when the
/// viewport has any cell at all.
fn sync_cursor_node(cmdline: &mut CommandLine, text: &Text)
    requires
        text.wf(),
        old(cmdline).wf(*text),
        old(cmdline).cursor_id.is_some(),
    ensures
        final(cmdline).wf(*text),
        final(cmdline).cursor_id == old(cmdline).cursor_id,
        final(cmdline).viewport == old(cmdline).viewport,
        final(cmdline).cursor_viewport == old(cmdline).cursor_viewport,
        final(cmdline).options == old(cmdline).options,
        final(cmdline).root_id == old(cmdline).root_id,
        final(cmdline).indicator_id == old(cmdline).indicator_id,
        final(cmdline).content_id == old(cmdline).content_id,
        forall|id2: usize|
            #[trigger] crate::ui::tree::contains_id(final(cmdline).base.entries@, id2)
                == crate::ui::tree::contains_id(old(cmdline).base.entries@, id2),
        crate::ui::tree::node_of(final(cmdline).base.entries@, old(cmdline).indicator_id)
            == crate::ui::tree::node_of(
            old(cmdline).base.entries@,
            old(cmdline).indicator_id,
        ),
        old(cmdline).cursor_id.is_some() ==> crate::ui::tree::node_of(
            final(cmdline).base.entries@,
            old(cmdline).cursor_id.unwrap(),
        ).kind == crate::ui::tree::node_of(
            old(cmdline).base.entries@,
            old(cmdline).cursor_id.unwrap(),
        ).kind,
{
    if cmdline.viewport.end_line_idx() <= cmdline.viewport.start_line_idx() {
        return ;
    }
    let cv = cmdline.cursor_viewport;
    let ghost shape = crate::ui::tree::node_of(
        cmdline.base.entries@,
        cmdline.content_id,
    ).actual_shape;
    proof {
        assert((cv.column_idx as int) < cmdline.viewport.width);
        assert((cv.row_idx as int) < rows_of(cmdline.viewport.lines@));
        assert(rows_of(cmdline.viewport.lines@) <= cmdline.viewport.height);
        assert(shape.min_x + cv.column_idx < shape.max_x <= u16::MAX);
        assert(shape.min_y + cv.row_idx < shape.max_y <= u16::MAX);
    }
    cmdline.move_cursor_to(text, cv.column_idx, cv.row_idx);
}

/// Apply a relative or absolute cursor move to the command line: clamp
/// the target into the buffer, re-anchor the viewport when the target
/// falls outside it, re-derive the cursor snapshot, and move the cursor
/// node onto the new cell.
///
/// Clamping holds for any offset, however large: the resulting line
/// index always lies in `[0, line_count)` and the resulting character
/// index in `[0, line_length]`.
pub fn cursor_move(cmdline: &mut CommandLine, text: &Text, op: &Operation, clamp_to_line: bool)
    requires
        text.wf(),
        old(cmdline).wf(*text),
        old(cmdline).cursor_id.is_some(),
        is_cursor_move_op(*op),
    ensures
        final(cmdline).wf(*text),
        final(cmdline).cursor_id == old(cmdline).cursor_id,
        final(cmdline).options == old(cmdline).options,
        final(cmdline).root_id == old(cmdline).root_id,
        final(cmdline).indicator_id == old(cmdline).indicator_id,
        final(cmdline).content_id == old(cmdline).content_id,
        forall|id2: usize|
            #[trigger] crate::ui::tree::contains_id(final(cmdline).base.entries@, id2)
                == crate::ui::tree::contains_id(old(cmdline).base.entries@, id2),
        crate::ui::tree::node_of(final(cmdline).base.entries@, old(cmdline).indicator_id)
            == crate::ui::tree::node_of(
            old(cmdline).base.entries@,
            old(cmdline).indicator_id,
        ),
        old(cmdline).cursor_id.is_some() ==> crate::ui::tree::node_of(
            final(cmdline).base.entries@,
            old(cmdline).cursor_id.unwrap(),
        ).kind == crate::ui::tree::node_of(
            old(cmdline).base.entries@,
            old(cmdline).cursor_id.unwrap(),
        ).kind,
        // The landing line, then the landing character within it.
        final(cmdline).cursor_viewport.line_idx == target_line(
            *op,
            old(cmdline).cursor_viewport.line_idx as int,
            text.lines@.len() as int,
        ),
        final(cmdline).cursor_viewport.char_idx == target_char(
            *op,
            old(cmdline).cursor_viewport.char_idx as int,
            text.lines@[final(cmdline).cursor_viewport.line_idx as int].glyphs@.len() as int,
            clamp_to_line,
        ),
        // Clamping: the cursor always addresses a position of the text.
        final(cmdline).cursor_viewport.line_idx < text.lines@.len(),
        final(cmdline).cursor_viewport.char_idx <= text.lines@[final(cmdline).cursor_viewport.line_idx as int].glyphs@.len(),
{
    let cv = cmdline.cursor_viewport;
    let count = text.line_count();
    let cur_line = cv.line_idx;
    let tl: usize = match op {
        Operation::CursorMoveUpBy(n) => sat_sub_clamped(cur_line, *n, count),
        Operation::CursorMoveDownBy(n) => sat_add_clamped(cur_line, *n, count),
        Operation::CursorMoveBy(_, dy) => signed_move_clamped(cur_line, *dy, count),
        Operation::CursorMoveTo(_, l) => clamp_line_to(*l, count),
        _ => clamp_line_to(cur_line, count),
    };
    let len = text.line(tl).char_count();
    let maxc: usize = if clamp_to_line {
        if len > 0 {
            len - 1
        } else {
            0
        }
    } else {
        len
    };
    let cur_char = cv.char_idx;
    let tc: usize = match op {
        Operation::CursorMoveLeftBy(n) => sat_sub_capped(cur_char, *n, maxc),
        Operation::CursorMoveRightBy(n) => sat_add_capped(cur_char, *n, maxc),
        Operation::CursorMoveBy(dx, _) => signed_move_capped(cur_char, *dx, maxc),
        Operation::CursorMoveTo(c, _) => cap_exec(*c, maxc),
        _ => cap_exec(cur_char, maxc),
    };
    proof {
        assert(tc <= len);
    }
    match CursorViewport::locate(&cmdline.viewport, text, tl, tc) {
        Some(ncv) => {
            cmdline.cursor_viewport = ncv;
        },
        None => {
            reanchor(cmdline, text, tl, tc);
        },
    }
    sync_cursor_node(cmdline, text);
}

/// `l`, clamped into `[0, count)`.
fn clamp_line_to(l: usize, count: usize) -> (r: usize)
    requires
        count >= 1,
    ensures
        r == clamp_line(l as int, count as int),
{
    if l >= count {
        count - 1
    } else {
        l
    }
}

/// `cur - n`, clamped into `[0, count)`.
fn sat_sub_clamped(cur: usize, n: usize, count: usize) -> (r: usize)
    requires
        count >= 1,
    ensures
        r == clamp_line(cur - n, count as int),
{
    if n >= cur {
        0
    } else if cur - n >= count {
        count - 1
    } else {
        cur - n
    }
}

/// `cur + n`, clamped into `[0, count)`.
fn sat_add_clamped(cur: usize, n: usize, count: usize) -> (r: usize)
    requires
        count >= 1,
    ensures
        r == clamp_line(cur + n, count as int),
{
    if n >= count - 1 || cur >= count - 1 - n {
        count - 1
    } else {
        cur + n
    }
}

/// `cur + d`, clamped into `[0, count)`.
fn signed_move_clamped(cur: usize, d: isize, count: usize) -> (r: usize)
    requires
        count >= 1,
    ensures
        r == clamp_line(cur + d, count as int),
{
    if d >= 0 {
        sat_add_clamped(cur, d as usize, count)
    } else if d == isize::MIN {
        let mag: usize = (isize::MAX as usize) + 1;
        sat_sub_clamped(cur, mag, count)
    } else {
        sat_sub_clamped(cur, (-d) as usize, count)
    }
}

/// `v`, capped at `maxc`.
fn cap_exec(v: usize, maxc: usize) -> (r: usize)
    ensures
        r == (if v > maxc {
            maxc as int
        } else {
            v as int
        }),
{
    if v > maxc {
        maxc
    } else {
        v
    }
}

/// `cur - n`, capped at `maxc` (and at 0 below).
fn sat_sub_capped(cur: usize, n: usize, maxc: usize) -> (r: usize)
    ensures
        r == (if cur - n < 0 {
            0
        } else if cur - n > maxc {
            maxc as int
        } else {
            cur - n
        }),
{
    if n >= cur {
        0
    } else {
        cap_exec(cur - n, maxc)
    }
}

/// `cur + n`, capped at `maxc`.
fn sat_add_capped(cur: usize, n: usize, maxc: usize) -> (r: usize)
    ensures
        r == (if cur + n > maxc {
            maxc as int
        } else {
            cur + n
        }),
{
    if cur >= maxc || n >= maxc - cur {
        maxc
    } else {
        cur + n
    }
}

/// `cur + d`, capped at `maxc` (and at 0 below).
fn signed_move_capped(cur: usize, d: isize, maxc: usize) -> (r: usize)
    ensures
        r == clamp_char_shift(cur as int, d as int, maxc as int),
{
    if d >= 0 {
        sat_add_capped(cur, d as usize, maxc)
    } else if d == isize::MIN {
        let mag: usize = (isize::MAX as usize) + 1;
        sat_sub_capped(cur, mag, maxc)
    } else {
        sat_sub_capped(cur, (-d) as usize, maxc)
    }
}

/// Insert text at the cursor's character position, advance the cursor
/// past the inserted text, and recompute the viewport and cursor
/// snapshot for the changed content.
pub fn cursor_insert(cmdline: &mut CommandLine, text: &mut Text, payload: &TextLine)
    requires
        old(text).wf(),
        payload.wf(),
        old(cmdline).wf(*old(text)),
        old(cmdline).cursor_id.is_some(),
        old(text).lines@[old(cmdline).cursor_viewport.line_idx as int].glyphs@.len()
            + payload.glyphs@.len() <= MAX_LINE_LEN,
    ensures
        final(text).wf(),
        final(cmdline).wf(*final(text)),
        final(cmdline).cursor_id == old(cmdline).cursor_id,
        final(cmdline).options == old(cmdline).options,
        final(cmdline).root_id == old(cmdline).root_id,
        final(cmdline).indicator_id == old(cmdline).indicator_id,
        final(cmdline).content_id == old(cmdline).content_id,
        forall|id2: usize|
            #[trigger] crate::ui::tree::contains_id(final(cmdline).base.entries@, id2)
                == crate::ui::tree::contains_id(old(cmdline).base.entries@, id2),
        crate::ui::tree::node_of(final(cmdline).base.entries@, old(cmdline).indicator_id)
            == crate::ui::tree::node_of(
            old(cmdline).base.entries@,
            old(cmdline).indicator_id,
        ),
        old(cmdline).cursor_id.is_some() ==> crate::ui::tree::node_of(
            final(cmdline).base.entries@,
            old(cmdline).cursor_id.unwrap(),
        ).kind == crate::ui::tree::node_of(
            old(cmdline).base.entries@,
            old(cmdline).cursor_id.unwrap(),
        ).kind,
        // The payload is spliced in at the cursor position; other lines
        // keep their content.
        final(text).lines@.len() == old(text).lines@.len(),
        final(text).lines@[old(cmdline).cursor_viewport.line_idx as int].glyphs@ == old(
            text,
        ).lines@[old(cmdline).cursor_viewport.line_idx as int].glyphs@.take(
            old(cmdline).cursor_viewport.char_idx as int,
        ) + payload.glyphs@ + old(text).lines@[old(
            cmdline,
        ).cursor_viewport.line_idx as int].glyphs@.skip(
            old(cmdline).cursor_viewport.char_idx as int,
        ),
        forall|i: int|
            0 <= i < final(text).lines@.len() && i != old(cmdline).cursor_viewport.line_idx
                ==> #[trigger] final(text).lines@[i] == old(text).lines@[i],
        // The cursor advances past the inserted text.
        final(cmdline).cursor_viewport.line_idx == old(cmdline).cursor_viewport.line_idx,
        final(cmdline).cursor_viewport.char_idx == old(cmdline).cursor_viewport.char_idx
            + payload.glyphs@.len(),
{
    let cv = cmdline.cursor_viewport;
    text.insert(cv.line_idx, cv.char_idx, payload);
    let new_char = cv.char_idx + payload.char_count();
    reanchor(cmdline, text, cv.line_idx, new_char);
    sync_cursor_node(cmdline, text);
}

/// Delete `n` characters next to the cursor: to the left when `n` is
/// negative, to the right when positive, clamped at the line's
/// boundaries.  The cursor lands at the left edge of the deleted range.
pub fn cursor_delete(cmdline: &mut CommandLine, text: &mut Text, n: isize)
    requires
        old(text).wf(),
        old(cmdline).wf(*old(text)),
        old(cmdline).cursor_id.is_some(),
    ensures
        final(text).wf(),
        final(cmdline).wf(*final(text)),
        final(cmdline).cursor_id == old(cmdline).cursor_id,
        final(cmdline).options == old(cmdline).options,
        final(text).lines@.len() == old(text).lines@.len(),
        forall|i: int|
            0 <= i < final(text).lines@.len() && i != old(cmdline).cursor_viewport.line_idx
                ==> #[trigger] final(text).lines@[i] == old(text).lines@[i],
        // The clamped range around the cursor is gone.
        final(text).lines@[old(cmdline).cursor_viewport.line_idx as int].glyphs@ == old(
            text,
        ).lines@[old(cmdline).cursor_viewport.line_idx as int].glyphs@.take(
            delete_start(
                old(cmdline).cursor_viewport.char_idx as int,
                n as int,
                old(text).lines@[old(cmdline).cursor_viewport.line_idx as int].glyphs@.len()
                    as int,
            ),
        ) + old(text).lines@[old(cmdline).cursor_viewport.line_idx as int].glyphs@.skip(
            delete_end(
                old(cmdline).cursor_viewport.char_idx as int,
                n as int,
                old(text).lines@[old(cmdline).cursor_viewport.line_idx as int].glyphs@.len()
                    as int,
            ),
        ),
        final(cmdline).cursor_viewport.line_idx == old(cmdline).cursor_viewport.line_idx,
        final(cmdline).cursor_viewport.char_idx == delete_start(
            old(cmdline).cursor_viewport.char_idx as int,
            n as int,
            old(text).lines@[old(cmdline).cursor_viewport.line_idx as int].glyphs@.len() as int,
        ),
{
    let cv = cmdline.cursor_viewport;
    let len = text.line(cv.line_idx).char_count();
    let c = if cv.char_idx <= len {
        cv.char_idx
    } else {
        len
    };
    proof {
        assert(c == cv.char_idx);
    }
    let s: usize;
    let e: usize;
    if n >= 0 {
        s = c;
        let mag = n as usize;
        e = if mag >= len - c {
            len
        } else {
            c + mag
        };
    } else {
        e = c;
        let mag: usize = if n == isize::MIN {
            (isize::MAX as usize) + 1
        } else {
            (-n) as usize
        };
        s = if mag >= c {
            0
        } else {
            c - mag
        };
    }
    text.delete(cv.line_idx, s, e);
    reanchor(cmdline, text, cv.line_idx, s);
    sync_cursor_node(cmdline, text);
}

/// Where a delete around position `c` starts.
pub open spec fn delete_start(c: int, n: int, len: int) -> int {
    if n >= 0 {
        c
    } else if c + n < 0 {
        0
    } else {
        c + n
    }
}

/// Where a delete around position `c` ends.
pub open spec fn delete_end(c: int, n: int, len: int) -> int {
    if n < 0 {
        c
    } else if c + n > len {
        len
    } else {
        c + n
    }
}

/// Remove all content of the command line's text region and reset the
/// cursor to position 0; used when leaving the command line.
pub fn cursor_clear(cmdline: &mut CommandLine, text: &mut Text)
    requires
        old(text).wf(),
        old(cmdline).wf(*old(text)),
    ensures
        final(text).wf(),
        final(cmdline).wf(*final(text)),
        final(cmdline).cursor_id == old(cmdline).cursor_id,
        final(cmdline).options == old(cmdline).options,
        final(cmdline).root_id == old(cmdline).root_id,
        final(cmdline).indicator_id == old(cmdline).indicator_id,
        final(cmdline).content_id == old(cmdline).content_id,
        // The region reads as empty afterwards.
        final(text).lines@.len() == 1,
        final(text).lines@[0].glyphs@.len() == 0,
        final(cmdline).cursor_viewport.line_idx == 0,
        final(cmdline).cursor_viewport.char_idx == 0,
        forall|id2: usize|
            #[trigger] crate::ui::tree::contains_id(final(cmdline).base.entries@, id2)
                == crate::ui::tree::contains_id(old(cmdline).base.entries@, id2),
        crate::ui::tree::node_of(final(cmdline).base.entries@, old(cmdline).indicator_id)
            == crate::ui::tree::node_of(
            old(cmdline).base.entries@,
            old(cmdline).indicator_id,
        ),
        old(cmdline).cursor_id.is_some() ==> crate::ui::tree::node_of(
            final(cmdline).base.entries@,
            old(cmdline).cursor_id.unwrap(),
        ).kind == crate::ui::tree::node_of(
            old(cmdline).base.entries@,
            old(cmdline).cursor_id.unwrap(),
        ).kind,
{
    text.clear();
    reanchor(cmdline, text, 0, 0);
    if cmdline.cursor_id.is_some() {
        sync_cursor_node(cmdline, text);
    }
}

/// Re-anchor the viewport at the very top left of the buffer and park
/// the cursor snapshot on the first content cell.  Afterwards the
/// viewport is the layout of the buffer anchored at line 0, character
/// 0, and the cursor sits at row 0, column 0 of the content region.
pub fn park_cursor_top_left(cmdline: &mut CommandLine, text: &Text)
    requires
        text.wf(),
        old(cmdline).wf(*text),
    ensures
        final(cmdline).wf(*text),
        final(cmdline).cursor_id == old(cmdline).cursor_id,
        final(cmdline).options == old(cmdline).options,
        final(cmdline).root_id == old(cmdline).root_id,
        final(cmdline).indicator_id == old(cmdline).indicator_id,
        final(cmdline).content_id == old(cmdline).content_id,
        forall|id2: usize|
            #[trigger] crate::ui::tree::contains_id(final(cmdline).base.entries@, id2)
                == crate::ui::tree::contains_id(old(cmdline).base.entries@, id2),
        crate::ui::tree::node_of(final(cmdline).base.entries@, old(cmdline).indicator_id)
            == crate::ui::tree::node_of(
            old(cmdline).base.entries@,
            old(cmdline).indicator_id,
        ),
        old(cmdline).cursor_id.is_some() ==> crate::ui::tree::node_of(
            final(cmdline).base.entries@,
            old(cmdline).cursor_id.unwrap(),
        ).kind == crate::ui::tree::node_of(
            old(cmdline).base.entries@,
            old(cmdline).cursor_id.unwrap(),
        ).kind,
        final(cmdline).cursor_viewport == (CursorViewport {
            line_idx: 0,
            char_idx: 0,
            row_idx: 0u16,
            column_idx: 0u16,
        }),
        // The recomputed viewport is the top-left-anchored layout.
        final(cmdline).viewport.start_line_idx == 0,
        (final(cmdline).viewport.width == 0 || final(cmdline).viewport.height == 0) ==> final(cmdline).viewport.spec_is_empty(),
        (final(cmdline).viewport.width > 0 && final(cmdline).viewport.height > 0) ==> (!final(cmdline).viewport.spec_is_empty() && (final(cmdline).viewport.end_line_idx
            == text.lines@.len() || rows_of(final(cmdline).viewport.lines@) == final(cmdline).viewport.height)),
        forall|k: int|
            0 <= k < final(cmdline).viewport.lines.len() ==> nowrap_line_matches(
                #[trigger] final(cmdline).viewport.lines[k],
                text.lines[k].glyphs@,
                0,
                final(cmdline).viewport.width as int,
            ),
{
    let shape = cmdline_content_shape(cmdline);
    let vp = view(&cmdline.options, text, &shape, 0, 0);
    let width = shape.width();
    let height = shape.height();
    if width == 0 || height == 0 {
        cmdline.viewport = vp;
        cmdline.cursor_viewport = CursorViewport {
            line_idx: 0,
            char_idx: 0,
            row_idx: 0,
            column_idx: 0,
        };
        return ;
    }
    proof {
        assert(vp.start_line_idx == 0);
        assert(vp.end_line_idx > 0) by {
            if vp.end_line_idx == 0 {
                assert(vp.lines@.len() == 0);
                assert(rows_of(vp.lines@) == 0);
            }
        }
        let line = text.lines@[0].glyphs@;
        assert(nowrap_line_matches(vp.lines[0], line, 0, vp.width as int));
        assert(vp.lines@[0].rows@[0].start_char_idx == nowrap_start(line, 0));
        assert(vp.lines@[0].start_filled_cols == 0);
    }
    let cv = CursorViewport::from_top_left(&vp, text);
    proof {
        assert(cv == (CursorViewport { line_idx: 0, char_idx: 0, row_idx: 0u16, column_idx: 0u16 }));
    }
    cmdline.viewport = vp;
    cmdline.cursor_viewport = cv;
    if cmdline.cursor_id.is_some() {
        sync_cursor_node(cmdline, text);
    }
}

/// `cur + d` pushed into `[0, maxc]`.
pub open spec fn clamp_char_shift(cur: int, d: int, maxc: int) -> int {
    if cur + d < 0 {
        0
    } else if cur + d > maxc {
        maxc
    } else {
        cur + d
    }
}

} // verus!
