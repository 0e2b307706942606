use vstd::prelude::*;
use crate::buffer::Buffer;
use crate::mapper::{count_newlines, line_content_len, lemma_count_newlines_bound};
use crate::position::{CursorPosition, ViewportState};

verus! {

/// The cursor addresses a real cell: its line is a terminated line of the
/// document and its column is at most the line's content length (the
/// column equal to the content length addresses the terminator cell).
pub open spec fn cursor_in_doc(s: Seq<char>, first: nat, pos: CursorPosition) -> bool {
    let l = first + pos.row;
    l < count_newlines(s) && pos.col <= line_content_len(s, l as nat)
}

/// The viewport starts on an existing logical line and shows at least
/// one row.
pub open spec fn viewport_in_doc(s: Seq<char>, vp: ViewportState) -> bool {
    vp.first_visible_line < count_newlines(s) && vp.visible_line_count >= 1
}

/// One column left, clamped at column 0.
pub open spec fn spec_move_left(pos: CursorPosition) -> CursorPosition {
    if pos.col == 0 {
        pos
    } else {
        CursorPosition { col: (pos.col - 1) as usize, row: pos.row }
    }
}

/// One column right, never past the terminator cell of the line.
pub open spec fn spec_move_right(s: Seq<char>, first: nat, pos: CursorPosition) -> CursorPosition {
    if pos.col == line_content_len(s, (first + pos.row) as nat) {
        pos
    } else {
        CursorPosition { col: (pos.col + 1) as usize, row: pos.row }
    }
}

/// One row up: a no-op at the very top of the document; at the top row of
/// the window the viewport scrolls up one line and the cursor resets to
/// the window origin; otherwise the column is kept when the line above is
/// long enough, else snapped to its terminator cell.
pub open spec fn spec_move_up(s: Seq<char>, vp: ViewportState, pos: CursorPosition) -> (
    ViewportState,
    CursorPosition,
) {
    let first = vp.first_visible_line;
    let l = first + pos.row;
    if first == 0 && pos.row == 0 {
        (vp, pos)
    } else if pos.row == 0 {
        (
            ViewportState { first_visible_line: (first - 1) as usize, ..vp },
            CursorPosition { col: 0, row: 0 },
        )
    } else {
        let above = line_content_len(s, (l - 1) as nat);
        let col = if pos.col <= above {
            pos.col as int
        } else {
            above
        };
        (vp, CursorPosition { col: col as usize, row: (pos.row - 1) as usize })
    }
}

/// One row down: a no-op on the last terminated line; at the bottom row
/// of the window the viewport scrolls down one line and the cursor resets
/// to column 0 of the last visible row; otherwise the column is kept when
/// the line below is long enough, else snapped to its terminator cell.
pub open spec fn spec_move_down(s: Seq<char>, vp: ViewportState, pos: CursorPosition) -> (
    ViewportState,
    CursorPosition,
) {
    let first = vp.first_visible_line;
    let l = first + pos.row;
    if l + 1 == count_newlines(s) {
        (vp, pos)
    } else if pos.row + 1 == vp.visible_line_count {
        (
            ViewportState { first_visible_line: (first + 1) as usize, ..vp },
            CursorPosition { col: 0, row: (vp.visible_line_count - 1) as usize },
        )
    } else {
        let below = line_content_len(s, (l + 1) as nat);
        let col = if pos.col <= below {
            pos.col as int
        } else {
            below
        };
        (vp, CursorPosition { col: col as usize, row: (pos.row + 1) as usize })
    }
}

/// Column 0 of the current line.
pub open spec fn spec_home(pos: CursorPosition) -> CursorPosition {
    CursorPosition { col: 0, row: pos.row }
}

/// The terminator cell of the current line.
pub open spec fn spec_end(s: Seq<char>, first: nat, pos: CursorPosition) -> CursorPosition {
    CursorPosition { col: line_content_len(s, (first + pos.row) as nat) as usize, row: pos.row }
}

/// The viewport scrolled up by a whole window height, clamped at the top.
pub open spec fn spec_page_up(vp: ViewportState) -> ViewportState {
    let first = if vp.first_visible_line >= vp.visible_line_count {
        vp.first_visible_line - vp.visible_line_count
    } else {
        0int
    };
    ViewportState { first_visible_line: first as usize, ..vp }
}

/// The viewport scrolled down by a whole window height, clamped at the
/// last terminated line.
pub open spec fn spec_page_down(s: Seq<char>, vp: ViewportState) -> ViewportState {
    let first = if vp.first_visible_line + vp.visible_line_count < count_newlines(s) {
        vp.first_visible_line + vp.visible_line_count
    } else {
        count_newlines(s) - 1
    };
    ViewportState { first_visible_line: first as usize, ..vp }
}

/// The last terminated logical line; line 0 when the document is a lone
/// terminator.
pub open spec fn spec_bottom_line(s: Seq<char>) -> int {
    count_newlines(s) - 1
}

/// The cursor moved within its line to the nearest space strictly before
/// it; with no such space the cursor is unchanged.
pub open spec fn word_left_ok(
    s: Seq<char>,
    first: nat,
    oldpos: CursorPosition,
    newpos: CursorPosition,
) -> bool {
    let st = crate::mapper::line_start(s, (first + oldpos.row) as nat);
    &&& newpos.row == oldpos.row
    &&& if exists|j: int| 0 <= j < oldpos.col && s[#[trigger] (st + j)] == ' ' {
        &&& newpos.col < oldpos.col
        &&& s[st + newpos.col] == ' '
        &&& forall|j: int| newpos.col < j < oldpos.col ==> s[#[trigger] (st + j)] != ' '
    } else {
        newpos == oldpos
    }
}

/// The cursor moved within its line to one past the nearest space at or
/// after it; with no such space the cursor is unchanged.
pub open spec fn word_right_ok(
    s: Seq<char>,
    first: nat,
    oldpos: CursorPosition,
    newpos: CursorPosition,
) -> bool {
    let l = (first + oldpos.row) as nat;
    let st = crate::mapper::line_start(s, l);
    let len = line_content_len(s, l);
    &&& newpos.row == oldpos.row
    &&& if exists|j: int| oldpos.col <= j < len && s[#[trigger] (st + j)] == ' ' {
        &&& oldpos.col < newpos.col <= len
        &&& s[st + newpos.col - 1] == ' '
        &&& forall|j: int| oldpos.col <= j < newpos.col - 1 ==> s[#[trigger] (st + j)] != ' '
    } else {
        newpos == oldpos
    }
}

/// Move the cursor one column to the left, clamping at column 0.
/// At column 0 the cursor is left unchanged.
pub fn move_cursor_left(pos: &mut CursorPosition)
    ensures
        *final(pos) == spec_move_left(*old(pos)),
        old(pos).col == 0 ==> *final(pos) == *old(pos),
{
    if pos.col > 0 {
        pos.col = pos.col - 1;
    }
}

/// Move the cursor one column to the right, never past the terminator
/// cell of its line.
pub fn move_cursor_right(buf: &Buffer, first_visible_line: usize, pos: &mut CursorPosition)
    requires
        buf.wf(),
        cursor_in_doc(buf.buf@, first_visible_line as nat, *old(pos)),
    ensures
        *final(pos) == spec_move_right(buf.buf@, first_visible_line as nat, *old(pos)),
        cursor_in_doc(buf.buf@, first_visible_line as nat, *final(pos)),
{
    let _n: usize = buf.buf.len();
    proof {
        lemma_count_newlines_bound(buf.buf@);
    }
    let k = buf.line_len(first_visible_line + pos.row).unwrap();
    if pos.col < k {
        pos.col = pos.col + 1;
    }
}

/// Move the cursor one row up, scrolling the viewport when the cursor is
/// already on its top row.
pub fn move_cursor_up(buf: &Buffer, viewport: &mut ViewportState, pos: &mut CursorPosition)
    requires
        buf.wf(),
        viewport_in_doc(buf.buf@, *old(viewport)),
        cursor_in_doc(buf.buf@, old(viewport).first_visible_line as nat, *old(pos)),
    ensures
        (*final(viewport), *final(pos)) == spec_move_up(buf.buf@, *old(viewport), *old(pos)),
        viewport_in_doc(buf.buf@, *final(viewport)),
        cursor_in_doc(buf.buf@, final(viewport).first_visible_line as nat, *final(pos)),
{
    let _n: usize = buf.buf.len();
    proof {
        lemma_count_newlines_bound(buf.buf@);
    }
    if viewport.first_visible_line == 0 && pos.row == 0 {
        return ;
    }
    if pos.row == 0 {
        viewport.first_visible_line = viewport.first_visible_line - 1;
        pos.col = 0;
        pos.row = 0;
        proof {
            lemma_cursor_at_line_origin(buf.buf@, viewport.first_visible_line as nat);
        }
        return ;
    }
    let above = buf.line_len(viewport.first_visible_line + pos.row - 1).unwrap();
    if pos.col > above {
        pos.col = above;
    }
    pos.row = pos.row - 1;
}

/// Move the cursor one row down, scrolling the viewport when the cursor
/// is already on its bottom row; on the last terminated line a no-op.
pub fn move_cursor_down(buf: &Buffer, viewport: &mut ViewportState, pos: &mut CursorPosition)
    requires
        buf.wf(),
        viewport_in_doc(buf.buf@, *old(viewport)),
        cursor_in_doc(buf.buf@, old(viewport).first_visible_line as nat, *old(pos)),
        old(pos).row < old(viewport).visible_line_count,
    ensures
        (*final(viewport), *final(pos)) == spec_move_down(buf.buf@, *old(viewport), *old(pos)),
        viewport_in_doc(buf.buf@, *final(viewport)),
        cursor_in_doc(buf.buf@, final(viewport).first_visible_line as nat, *final(pos)),
        final(pos).row < final(viewport).visible_line_count,
{
    let _n: usize = buf.buf.len();
    proof {
        lemma_count_newlines_bound(buf.buf@);
    }
    let lc = buf.line_count();
    let l = viewport.first_visible_line + pos.row;
    if l + 1 == lc {
        return ;
    }
    if pos.row + 1 == viewport.visible_line_count {
        viewport.first_visible_line = viewport.first_visible_line + 1;
        pos.col = 0;
        pos.row = viewport.visible_line_count - 1;
        proof {
            lemma_cursor_at_line_origin(buf.buf@, (viewport.first_visible_line + pos.row) as nat);
        }
        return ;
    }
    let below = buf.line_len(l + 1).unwrap();
    if pos.col > below {
        pos.col = below;
    }
    pos.row = pos.row + 1;
}

/// Move the cursor to column 0 of its line.
pub fn cursor_home(pos: &mut CursorPosition)
    ensures
        *final(pos) == spec_home(*old(pos)),
{
    pos.col = 0;
}

/// Move the cursor to the last character cell of its line: the
/// terminator cell, one past the content.
pub fn cursor_end(buf: &Buffer, first_visible_line: usize, pos: &mut CursorPosition)
    requires
        buf.wf(),
        cursor_in_doc(buf.buf@, first_visible_line as nat, *old(pos)),
    ensures
        *final(pos) == spec_end(buf.buf@, first_visible_line as nat, *old(pos)),
        cursor_in_doc(buf.buf@, first_visible_line as nat, *final(pos)),
{
    let _n: usize = buf.buf.len();
    proof {
        lemma_count_newlines_bound(buf.buf@);
    }
    let k = buf.line_len(first_visible_line + pos.row).unwrap();
    pos.col = k;
}

/// Move the cursor within its line to the nearest space strictly before
/// it; with no such space the cursor is unchanged.
pub fn move_cursor_left_word(buf: &Buffer, first_visible_line: usize, pos: &mut CursorPosition)
    requires
        buf.wf(),
        cursor_in_doc(buf.buf@, first_visible_line as nat, *old(pos)),
    ensures
        word_left_ok(buf.buf@, first_visible_line as nat, *old(pos), *final(pos)),
        cursor_in_doc(buf.buf@, first_visible_line as nat, *final(pos)),
{
    let ghost s = buf.buf@;
    let _n: usize = buf.buf.len();
    proof {
        lemma_count_newlines_bound(s);
    }
    let line = first_visible_line + pos.row;
    let start = buf.line_start_offset(line).unwrap();
    proof {
        let l = line as nat;
        crate::mapper::lemma_line_start_exists(s, l);
        crate::mapper::lemma_line_start_unique(s, crate::mapper::line_start(s, l), start as int, l);
    }
    let _k = buf.line_len(line).unwrap();
    let mut j: usize = pos.col;
    while j > 0
        invariant_except_break
            j <= pos.col,
            s == buf.buf@,
            s.len() <= usize::MAX,
            start + pos.col <= s.len(),
            forall|t: int| j <= t < pos.col ==> s[#[trigger] (start + t)] != ' ',
        ensures
            j <= pos.col,
            s == buf.buf@,
            forall|t: int| j <= t < pos.col ==> s[#[trigger] (start + t)] != ' ',
            j > 0 ==> s[start + j - 1] == ' ',
        decreases j,
    {
        if buf.buf[start + j - 1] == ' ' {
            break ;
        }
        j = j - 1;
    }
    if j > 0 {
        pos.col = j - 1;
    }
}

/// Move the cursor within its line to one past the nearest space at or
/// after it; with no such space the cursor is unchanged.
pub fn move_cursor_right_word(buf: &Buffer, first_visible_line: usize, pos: &mut CursorPosition)
    requires
        buf.wf(),
        cursor_in_doc(buf.buf@, first_visible_line as nat, *old(pos)),
    ensures
        word_right_ok(buf.buf@, first_visible_line as nat, *old(pos), *final(pos)),
        cursor_in_doc(buf.buf@, first_visible_line as nat, *final(pos)),
{
    let ghost s = buf.buf@;
    let _n: usize = buf.buf.len();
    proof {
        lemma_count_newlines_bound(s);
    }
    let line = first_visible_line + pos.row;
    let start = buf.line_start_offset(line).unwrap();
    proof {
        let l = line as nat;
        crate::mapper::lemma_line_start_exists(s, l);
        crate::mapper::lemma_line_start_unique(s, crate::mapper::line_start(s, l), start as int, l);
    }
    let k = buf.line_len(line).unwrap();
    let mut j: usize = pos.col;
    while j < k
        invariant_except_break
            pos.col <= j <= k,
            s == buf.buf@,
            s.len() <= usize::MAX,
            start + k < s.len(),
            forall|t: int| pos.col <= t < j ==> s[#[trigger] (start + t)] != ' ',
        ensures
            pos.col <= j <= k,
            s == buf.buf@,
            start + k < s.len(),
            forall|t: int| pos.col <= t < j ==> s[#[trigger] (start + t)] != ' ',
            j < k ==> s[start + j] == ' ',
        decreases k - j,
    {
        if buf.buf[start + j] == ' ' {
            break ;
        }
        j = j + 1;
    }
    if j < k {
        pos.col = j + 1;
    }
}

/// Scroll the viewport up by a whole window height, clamped at the top
/// of the document, and reset the cursor to the window origin.
pub fn page_up(viewport: &mut ViewportState, pos: &mut CursorPosition)
    ensures
        *final(viewport) == spec_page_up(*old(viewport)),
        final(pos).col == 0 && final(pos).row == 0,
{
    if viewport.first_visible_line >= viewport.visible_line_count {
        viewport.first_visible_line = viewport.first_visible_line - viewport.visible_line_count;
    } else {
        viewport.first_visible_line = 0;
    }
    pos.col = 0;
    pos.row = 0;
}

/// Scroll the viewport down by a whole window height, clamped at the
/// last terminated line, and reset the cursor to the window origin.
pub fn page_down(buf: &Buffer, viewport: &mut ViewportState, pos: &mut CursorPosition)
    requires
        buf.wf(),
        viewport_in_doc(buf.buf@, *old(viewport)),
    ensures
        *final(viewport) == spec_page_down(buf.buf@, *old(viewport)),
        final(pos).col == 0 && final(pos).row == 0,
        viewport_in_doc(buf.buf@, *final(viewport)),
        cursor_in_doc(buf.buf@, final(viewport).first_visible_line as nat, *final(pos)),
{
    let _n: usize = buf.buf.len();
    proof {
        lemma_count_newlines_bound(buf.buf@);
    }
    let lc = buf.line_count();
    let last = lc - 1;
    if last - viewport.first_visible_line > viewport.visible_line_count {
        viewport.first_visible_line = viewport.first_visible_line + viewport.visible_line_count;
    } else {
        viewport.first_visible_line = last;
    }
    pos.col = 0;
    pos.row = 0;
    proof {
        lemma_cursor_at_line_origin(buf.buf@, viewport.first_visible_line as nat);
    }
}

/// Scroll to the top of the document and reset the cursor to the window
/// origin.
pub fn go_top(viewport: &mut ViewportState, pos: &mut CursorPosition)
    ensures
        final(viewport).visible_line_count == old(viewport).visible_line_count,
        final(viewport).first_visible_line == 0,
        final(pos).col == 0 && final(pos).row == 0,
{
    viewport.first_visible_line = 0;
    pos.col = 0;
    pos.row = 0;
}

/// Scroll so the last terminated logical line becomes the first visible
/// one and reset the cursor to the window origin. On an empty document
/// (a lone terminator) this resolves to line 0, exactly like `go_top`.
pub fn go_bottom(buf: &Buffer, viewport: &mut ViewportState, pos: &mut CursorPosition)
    requires
        buf.wf(),
    ensures
        final(viewport).visible_line_count == old(viewport).visible_line_count,
        final(viewport).first_visible_line == spec_bottom_line(buf.buf@),
        final(pos).col == 0 && final(pos).row == 0,
        cursor_in_doc(buf.buf@, final(viewport).first_visible_line as nat, *final(pos)),
{
    let lc = buf.line_count();
    viewport.first_visible_line = lc - 1;
    pos.col = 0;
    pos.row = 0;
    proof {
        lemma_cursor_at_line_origin(buf.buf@, viewport.first_visible_line as nat);
    }
}

/// Column 0 of any terminated line is a valid cursor cell.
pub proof fn lemma_cursor_at_line_origin(s: Seq<char>, l: nat)
    requires
        l < count_newlines(s),
    ensures
        line_content_len(s, l) >= 0,
{
    crate::mapper::lemma_line_start_exists(s, l);
    crate::mapper::lemma_line_start_exists(s, (l + 1) as nat);
    let st = crate::mapper::line_start(s, l);
    let st1 = crate::mapper::line_start(s, (l + 1) as nat);
    if st1 <= st {
        crate::mapper::lemma_count_newlines_monotonic(s, st1, st);
        assert(false);
    }
}

} // verus!
