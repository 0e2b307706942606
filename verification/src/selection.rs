use vstd::prelude::*;
use crate::buffer::Buffer;
use crate::change::{Change, change_keeps_terminated};
use crate::position::CursorPosition;

verus! {

/// One endpoint of a selection: an absolute offset paired with the
/// cursor position it was captured at.
#[derive(Clone, Copy, PartialEq, Eq, Structural, Debug)]
pub struct SelectionEnd {
    pub offset: usize,
    pub pos: CursorPosition,
}

/// A selection: the anchor fixed when the selection began, and the
/// moving endpoint that follows the cursor afterwards.
#[derive(Clone, Copy, PartialEq, Eq, Structural, Debug)]
pub struct SelectionRange {
    pub anchor: SelectionEnd,
    pub moving: SelectionEnd,
}

impl SelectionRange {
    /// Begin a selection at the current cursor: both endpoints coincide.
    pub fn begin(offset: usize, pos: CursorPosition) -> (r: SelectionRange)
        ensures
            r.anchor.offset == offset,
            r.anchor.pos == pos,
            r.moving == r.anchor,
    {
        let end = SelectionEnd { offset, pos };
        SelectionRange { anchor: end, moving: end }
    }

    /// Move the moving endpoint; the anchor never moves.
    pub fn update_moving(&mut self, offset: usize, pos: CursorPosition)
        ensures
            final(self).anchor == old(self).anchor,
            final(self).moving.offset == offset,
            final(self).moving.pos == pos,
    {
        self.moving = SelectionEnd { offset, pos };
    }

    /// A zero-width selection collapses to none.
    pub fn is_collapsed(&self) -> (r: bool)
        ensures
            r == (self.anchor.offset == self.moving.offset),
    {
        self.anchor.offset == self.moving.offset
    }

    /// The two endpoints ordered so the lower offset comes first,
    /// whichever of them is the anchor.
    pub fn range(&self) -> (r: (SelectionEnd, SelectionEnd))
        ensures
            r.0.offset <= r.1.offset,
            (r.0 == self.anchor && r.1 == self.moving) || (r.0 == self.moving && r.1
                == self.anchor),
    {
        if self.anchor.offset <= self.moving.offset {
            (self.anchor, self.moving)
        } else {
            (self.moving, self.anchor)
        }
    }
}

/// Copy the characters of `v` in `[lo, end)` into a fresh vector.
pub fn copy_char_range(v: &Vec<char>, lo: usize, end: usize) -> (r: Vec<char>)
    requires
        lo <= end <= v@.len(),
    ensures
        r@ == v@.subrange(lo as int, end as int),
{
    let mut r: Vec<char> = Vec::new();
    let mut i: usize = lo;
    proof {
        assert(r@ =~= v@.subrange(lo as int, lo as int));
    }
    while i < end
        invariant
            lo <= i <= end <= v@.len(),
            r@ == v@.subrange(lo as int, i as int),
        decreases end - i,
    {
        let c = v[i];
        r.push(c);
        proof {
            assert(v@.subrange(lo as int, i as int).push(v@[i as int]) =~= v@.subrange(
                lo as int,
                i + 1,
            ));
        }
        i = i + 1;
    }
    r
}

/// The one change that deletes the selected span: the characters from
/// the lower offset through the higher one, both inclusive, clamped so
/// that the final terminator is never removed. `None` for a collapsed
/// selection and for one that covers only the final terminator.
pub fn selection_delete_change(sel: &SelectionRange, buf: &Buffer) -> (r: Option<Change>)
    requires
        buf.wf(),
        sel.anchor.offset < buf.buf@.len(),
        sel.moving.offset < buf.buf@.len(),
    ensures
        ({
            let s = buf.buf@;
            let lo = if sel.anchor.offset <= sel.moving.offset {
                sel.anchor.offset
            } else {
                sel.moving.offset
            };
            let hi = if sel.anchor.offset <= sel.moving.offset {
                sel.moving.offset
            } else {
                sel.anchor.offset
            };
            let end = if hi + 1 <= s.len() - 1 {
                hi + 1
            } else {
                s.len() - 1
            };
            match r {
                Some(c) => {
                    &&& sel.anchor.offset != sel.moving.offset
                    &&& lo < s.len() - 1
                    &&& (c matches Change::DeleteSelection(off, t) && off == lo && t@
                        == s.subrange(lo as int, end))
                    &&& change_keeps_terminated(c, s)
                },
                None => sel.anchor.offset == sel.moving.offset || lo == s.len() - 1,
            }
        }),
{
    let n = buf.buf.len();
    if sel.anchor.offset == sel.moving.offset {
        return None;
    }
    let (lo_end, hi_end) = sel.range();
    let lo = lo_end.offset;
    let hi = hi_end.offset;
    if lo == n - 1 {
        return None;
    }
    let end = if hi + 1 <= n - 1 {
        hi + 1
    } else {
        n - 1
    };
    let text = copy_char_range(&buf.buf, lo, end);
    Some(Change::DeleteSelection(lo, text))
}

} // verus!
