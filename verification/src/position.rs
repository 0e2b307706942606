use vstd::prelude::*;

verus! {

/// A cursor location relative to the viewport: `col` is the character
/// column within the line, `row` the line index within the visible window.
#[derive(Clone, Copy, PartialEq, Eq, Structural, Debug)]
pub struct CursorPosition {
    pub col: usize,
    pub row: usize,
}

/// The scroll window over logical lines: the first visible logical line
/// and how many lines the window shows.
#[derive(Clone, Copy, PartialEq, Eq, Structural, Debug)]
pub struct ViewportState {
    pub first_visible_line: usize,
    pub visible_line_count: usize,
}

impl CursorPosition {
    pub fn new(col: usize, row: usize) -> (r: CursorPosition)
        ensures
            r.col == col,
            r.row == row,
    {
        CursorPosition { col, row }
    }
}

/// Move the cursor one column to the left, clamping at column 0.
/// At column 0 the cursor is left unchanged.
pub fn move_cursor_left(pos: &mut CursorPosition)
    ensures
        final(pos).row == old(pos).row,
        final(pos).col == if old(pos).col == 0 { 0int } else { old(pos).col - 1 },
        old(pos).col == 0 ==> *final(pos) == *old(pos),
{
    if pos.col > 0 {
        pos.col = pos.col - 1;
    }
}

} // verus!
