use vstd::prelude::*;
use crate::buffer::Buffer;
use crate::position::CursorPosition;

verus! {

/// Number of `'\n'` characters in `s`. Since a well-formed buffer ends
/// with a terminator, this is also its number of terminated lines.
pub open spec fn count_newlines(s: Seq<char>) -> nat
    decreases s.len(),
{
    if s.len() == 0 {
        0
    } else {
        count_newlines(s.drop_last()) + if s.last() == '\n' { 1nat } else { 0nat }
    }
}

/// The logical line containing offset `off`: the number of terminators
/// strictly before it.
pub open spec fn line_of(s: Seq<char>, off: int) -> nat {
    count_newlines(s.take(off))
}

/// `off` is the first offset of logical line `l`: it sits just past a
/// terminator (or at the very beginning) and `l` terminators precede it.
pub open spec fn starts_line(s: Seq<char>, off: int, l: nat) -> bool {
    &&& 0 <= off <= s.len()
    &&& (off == 0 || s[off - 1] == '\n')
    &&& line_of(s, off) == l
}

/// The first offset of logical line `l` (meaningful for `l` up to the
/// number of terminators; see `lemma_line_start_exists`).
pub open spec fn line_start(s: Seq<char>, l: nat) -> int {
    choose|off: int| starts_line(s, off, l)
}

/// The column of offset `off`: its distance from the start of its line.
pub open spec fn col_of(s: Seq<char>, off: int) -> int {
    off - line_start(s, line_of(s, off))
}

pub proof fn lemma_count_newlines_take_succ(s: Seq<char>, i: int)
    requires
        0 <= i < s.len(),
    ensures
        count_newlines(s.take(i + 1)) == count_newlines(s.take(i)) + if s[i] == '\n' {
            1nat
        } else {
            0nat
        },
{
    assert(s.take(i + 1).drop_last() =~= s.take(i));
    assert(s.take(i + 1).last() == s[i]);
}

pub proof fn lemma_count_newlines_bound(s: Seq<char>)
    ensures
        count_newlines(s) <= s.len(),
    decreases s.len(),
{
    if s.len() > 0 {
        lemma_count_newlines_bound(s.drop_last());
    }
}

pub proof fn lemma_count_newlines_monotonic(s: Seq<char>, i: int, j: int)
    requires
        0 <= i <= j <= s.len(),
    ensures
        count_newlines(s.take(i)) <= count_newlines(s.take(j)),
    decreases j - i,
{
    if i < j {
        lemma_count_newlines_monotonic(s, i, j - 1);
        lemma_count_newlines_take_succ(s, j - 1);
    }
}

/// Counting over the whole sequence equals counting over its full take.
pub proof fn lemma_count_newlines_take_all(s: Seq<char>)
    ensures
        count_newlines(s.take(s.len() as int)) == count_newlines(s),
{
    assert(s.take(s.len() as int) =~= s);
}

/// Two starts of the same logical line coincide.
pub proof fn lemma_line_start_unique(s: Seq<char>, o1: int, o2: int, l: nat)
    requires
        starts_line(s, o1, l),
        starts_line(s, o2, l),
    ensures
        o1 == o2,
{
    if o1 < o2 {
        lemma_line_start_unique_increasing(s, o1, o2);
    } else if o2 < o1 {
        lemma_line_start_unique_increasing(s, o2, o1);
    }
}

proof fn lemma_line_start_unique_increasing(s: Seq<char>, o1: int, o2: int)
    requires
        0 <= o1 < o2 <= s.len(),
        o2 == 0 || s[o2 - 1] == '\n',
    ensures
        line_of(s, o1) < line_of(s, o2),
{
    lemma_count_newlines_take_succ(s, o2 - 1);
    lemma_count_newlines_monotonic(s, o1, o2 - 1);
}

/// The line of the start of a line is that line itself, and every offset
/// in between stays on it: the structural facts behind offset/position
/// round trips. `line_start(s, line_of(s, off))` is the nearest line
/// start at or before `off`, with no terminator in between.
pub proof fn lemma_line_start_of_offset(s: Seq<char>, off: int)
    requires
        0 <= off <= s.len(),
    ensures
        starts_line(s, line_start(s, line_of(s, off)), line_of(s, off)),
        line_start(s, line_of(s, off)) <= off,
        forall|k: int|
            line_start(s, line_of(s, off)) <= k < off ==> s[k] != '\n',
    decreases off,
{
    let l = line_of(s, off);
    if off == 0 {
        assert(s.take(0) =~= Seq::<char>::empty());
        assert(starts_line(s, 0, l));
        let st = line_start(s, l);
        assert(starts_line(s, st, l));
        lemma_line_start_unique(s, st, 0, l);
    } else if s[off - 1] == '\n' {
        assert(starts_line(s, off, l));
        let st = line_start(s, l);
        assert(starts_line(s, st, l));
        lemma_line_start_unique(s, st, off, l);
    } else {
        lemma_count_newlines_take_succ(s, off - 1);
        assert(line_of(s, off - 1) == l);
        lemma_line_start_of_offset(s, off - 1);
    }
}

/// Every line index up to the number of terminators has a start.
pub proof fn lemma_line_start_exists(s: Seq<char>, l: nat)
    requires
        l <= count_newlines(s),
    ensures
        starts_line(s, line_start(s, l), l),
        0 <= line_start(s, l) <= s.len(),
    decreases s.len(),
{
    lemma_count_newlines_take_all(s);
    if l == count_newlines(s.take(s.len() as int)) {
        lemma_line_start_of_offset(s, s.len() as int);
        let st = line_start(s, line_of(s, s.len() as int));
        assert(starts_line(s, st, l));
        lemma_line_start_unique(s, line_start(s, l), st, l);
    } else {
        lemma_line_start_exists_strict(s, l, s.len() as int);
    }
}

proof fn lemma_line_start_exists_strict(s: Seq<char>, l: nat, hi: int)
    requires
        0 <= hi <= s.len(),
        l < count_newlines(s.take(hi)),
    ensures
        starts_line(s, line_start(s, l), l),
        0 <= line_start(s, l) <= s.len(),
    decreases hi,
{
    lemma_count_newlines_take_succ(s, hi - 1);
    if l < count_newlines(s.take(hi - 1)) {
        lemma_line_start_exists_strict(s, l, hi - 1);
    } else {
        assert(s[hi - 1] == '\n');
        assert(line_of(s, hi - 1) == l);
        lemma_line_start_of_offset(s, hi - 1);
        let st = line_start(s, line_of(s, hi - 1));
        assert(starts_line(s, st, l));
        lemma_line_start_unique(s, line_start(s, l), st, l);
    }
}

/// An absolute buffer offset paired with the position of the terminator
/// that ends the previous line (`None` when the offset lies on line 0).
#[derive(Clone, Copy, Debug)]
pub struct InternalBufOffset(pub Option<usize>, pub usize);

impl InternalBufOffset {
    /// The previous terminator, if recorded, lies strictly before the offset.
    pub open spec fn wf(&self) -> bool {
        match self.0 {
            Some(lf) => lf < self.1,
            None => true,
        }
    }

    /// The column encoded by this pair: the distance from the start of
    /// the line (the character just past the previous terminator).
    pub open spec fn spec_inline_offset(&self) -> int {
        match self.0 {
            Some(lf) => self.1 - lf - 1,
            None => self.1 as int,
        }
    }

    pub fn get_inline_offset(&self) -> (r: usize)
        requires
            self.wf(),
        ensures
            r == self.spec_inline_offset(),
    {
        match self.0 {
            Some(lf) => self.1 - lf - 1,
            None => self.1,
        }
    }
}

/// If no terminator occurs in `[lo, hi)`, every offset of that range,
/// `hi` included, lies on the same logical line.
pub proof fn lemma_line_of_no_newline(s: Seq<char>, lo: int, hi: int)
    requires
        0 <= lo <= hi <= s.len(),
        forall|k: int| lo <= k < hi ==> s[k] != '\n',
    ensures
        line_of(s, lo) == line_of(s, hi),
    decreases hi - lo,
{
    if lo < hi {
        lemma_count_newlines_take_succ(s, hi - 1);
        lemma_line_of_no_newline(s, lo, hi - 1);
    }
}

impl Buffer {
    /// Number of terminated logical lines in the document; a well-formed
    /// buffer has at least one.
    pub fn line_count(&self) -> (r: usize)
        ensures
            r == count_newlines(self.buf@),
            self.wf() ==> r >= 1,
    {
        let ghost s = self.buf@;
        let mut cnt: usize = 0;
        let mut i: usize = 0;
        proof {
            assert(s.take(0) =~= Seq::<char>::empty());
        }
        while i < self.buf.len()
            invariant
                i <= s.len(),
                s == self.buf@,
                cnt == count_newlines(s.take(i as int)),
                cnt <= i,
            decreases s.len() - i,
        {
            proof {
                lemma_count_newlines_take_succ(s, i as int);
            }
            if self.buf[i] == '\n' {
                cnt = cnt + 1;
            }
            i = i + 1;
        }
        proof {
            lemma_count_newlines_take_all(s);
            if self.wf() {
                assert(s.drop_last().len() + 1 == s.len());
                assert(count_newlines(s) >= 1);
            }
        }
        cnt
    }

    /// One more than the number of terminators: counts the (empty) line
    /// that follows the final terminator as well.
    pub fn logical_line_count(&self) -> (r: usize)
        requires
            self.buf@.len() < usize::MAX,
        ensures
            r == 1 + count_newlines(self.buf@),
    {
        proof {
            lemma_count_newlines_bound(self.buf@);
        }
        1 + self.line_count()
    }

    /// The first offset of logical line `line`, or `None` when the
    /// document has fewer lines.
    pub fn line_start_offset(&self, line: usize) -> (r: Option<usize>)
        ensures
            match r {
                Some(off) => starts_line(self.buf@, off as int, line as nat),
                None => line > count_newlines(self.buf@),
            },
    {
        let ghost s = self.buf@;
        if line == 0 {
            proof {
                assert(s.take(0) =~= Seq::<char>::empty());
            }
            return Some(0);
        }
        let mut cnt: usize = 0;
        let mut i: usize = 0;
        proof {
            assert(s.take(0) =~= Seq::<char>::empty());
        }
        while i < self.buf.len()
            invariant
                i <= s.len(),
                s == self.buf@,
                cnt == count_newlines(s.take(i as int)),
                cnt < line,
                cnt <= i,
            decreases s.len() - i,
        {
            proof {
                lemma_count_newlines_take_succ(s, i as int);
            }
            if self.buf[i] == '\n' {
                if cnt + 1 == line {
                    return Some(i + 1);
                }
                cnt = cnt + 1;
            }
            i = i + 1;
        }
        proof {
            lemma_count_newlines_take_all(s);
        }
        None
    }

    /// The column of `off`: its distance from the nearest line start at
    /// or before it.
    pub fn get_ch_off_to_inline_off(&self, off: usize) -> (r: usize)
        requires
            off <= self.buf@.len(),
        ensures
            r == col_of(self.buf@, off as int),
    {
        let ghost s = self.buf@;
        let mut i: usize = off;
        while i > 0
            invariant_except_break
                i <= off <= s.len(),
                s == self.buf@,
                forall|k: int| i <= k < off ==> s[k] != '\n',
            ensures
                i <= off <= s.len(),
                s == self.buf@,
                forall|k: int| i <= k < off ==> s[k] != '\n',
                i == 0 || s[i - 1] == '\n',
            decreases i,
        {
            if self.buf[i - 1] == '\n' {
                break;
            }
            i = i - 1;
        }
        proof {
            lemma_line_start_of_offset(s, off as int);
            let st = line_start(s, line_of(s, off as int));
            if i < st {
                assert(s[st - 1] == '\n');
            } else if st < i {
                assert(s[i - 1] == '\n');
            }
            assert(i == st);
        }
        off - i
    }

    /// Resolve `offset` to its logical line and column.
    pub fn locate_offset(&self, offset: usize) -> (r: (usize, usize))
        requires
            offset <= self.buf@.len(),
        ensures
            r.0 == line_of(self.buf@, offset as int),
            r.1 == col_of(self.buf@, offset as int),
    {
        let ghost s = self.buf@;
        let mut cnt: usize = 0;
        let mut i: usize = 0;
        proof {
            assert(s.take(0) =~= Seq::<char>::empty());
        }
        while i < offset
            invariant
                i <= offset <= s.len(),
                s == self.buf@,
                cnt == count_newlines(s.take(i as int)),
                cnt <= i,
            decreases offset - i,
        {
            proof {
                lemma_count_newlines_take_succ(s, i as int);
            }
            if self.buf[i] == '\n' {
                cnt = cnt + 1;
            }
            i = i + 1;
        }
        let col = self.get_ch_off_to_inline_off(offset);
        (cnt, col)
    }

    /// Resolve an absolute offset to a viewport-relative cursor position:
    /// the row is the containing line minus the first visible line, the
    /// column the distance from that line's start.
    pub fn position_of(&self, first_visible_line: usize, offset: usize) -> (r: CursorPosition)
        requires
            offset <= self.buf@.len(),
            line_of(self.buf@, offset as int) >= first_visible_line,
        ensures
            r.col == col_of(self.buf@, offset as int),
            r.row == line_of(self.buf@, offset as int) - first_visible_line,
    {
        let (line, col) = self.locate_offset(offset);
        CursorPosition { col, row: line - first_visible_line }
    }

    /// Resolve a viewport-relative cursor position to an absolute offset,
    /// together with the terminator that ends the previous line. `None`
    /// when the addressed line does not exist or the offset does not fit
    /// in a machine word.
    pub fn get_cursor_pos_to_buf_offset(
        &self,
        first_visible_line: usize,
        pos: &CursorPosition,
    ) -> (r: Option<InternalBufOffset>)
        ensures
            match r {
                Some(ibo) => {
                    let line = first_visible_line + pos.row;
                    &&& line <= count_newlines(self.buf@)
                    &&& ibo.1 == line_start(self.buf@, line as nat) + pos.col
                    &&& ibo.wf()
                    &&& ibo.spec_inline_offset() == pos.col
                    &&& (match ibo.0 {
                        Some(lf) => line >= 1 && self.buf@[lf as int] == '\n' && lf + 1
                            == line_start(self.buf@, line as nat),
                        None => line == 0,
                    })
                },
                None => first_visible_line + pos.row > count_newlines(self.buf@)
                    || line_start(self.buf@, (first_visible_line + pos.row) as nat) + pos.col
                    > usize::MAX,
            },
    {
        let ghost s = self.buf@;
        if pos.row > usize::MAX - first_visible_line {
            let _n: usize = self.buf.len();
            proof {
                lemma_count_newlines_bound(s);
            }
            return None;
        }
        let line = first_visible_line + pos.row;
        match self.line_start_offset(line) {
            None => None,
            Some(start) => {
                proof {
                    let l = line as nat;
                    assert(line_of(s, start as int) <= count_newlines(s)) by {
                        lemma_count_newlines_monotonic(s, start as int, s.len() as int);
                        lemma_count_newlines_take_all(s);
                    }
                    lemma_line_start_exists(s, l);
                    lemma_line_start_unique(s, line_start(s, l), start as int, l);
                }
                if pos.col > usize::MAX - start {
                    return None;
                }
                if line == 0 {
                    Some(InternalBufOffset(None, pos.col))
                } else {
                    Some(InternalBufOffset(Some(start - 1), start + pos.col))
                }
            },
        }
    }

    /// Resolve a viewport-relative cursor position to its absolute offset.
    pub fn offset_of(&self, first_visible_line: usize, pos: &CursorPosition) -> (r: Option<usize>)
        ensures
            match r {
                Some(off) => {
                    let line = first_visible_line + pos.row;
                    &&& line <= count_newlines(self.buf@)
                    &&& off == line_start(self.buf@, line as nat) + pos.col
                },
                None => first_visible_line + pos.row > count_newlines(self.buf@)
                    || line_start(self.buf@, (first_visible_line + pos.row) as nat) + pos.col
                    > usize::MAX,
            },
    {
        match self.get_cursor_pos_to_buf_offset(first_visible_line, pos) {
            Some(ibo) => Some(ibo.1),
            None => None,
        }
    }
}

/// The content length of logical line `l`: the number of characters
/// between its start and its terminator, the terminator excluded.
pub open spec fn line_content_len(s: Seq<char>, l: nat) -> int {
    line_start(s, (l + 1) as nat) - 1 - line_start(s, l)
}

impl Buffer {
    /// The content length of line `line` (its terminator excluded), or
    /// `None` when the document has no such terminated line.
    pub fn line_len(&self, line: usize) -> (r: Option<usize>)
        ensures
            match r {
                Some(k) => {
                    let s = self.buf@;
                    let st = line_start(s, line as nat);
                    &&& line < count_newlines(s)
                    &&& k == line_content_len(s, line as nat)
                    &&& starts_line(s, st, line as nat)
                    &&& st + k < s.len()
                    &&& s[st + k] == '\n'
                    &&& forall|j: int| 0 <= j < k ==> s[#[trigger] (st + j)] != '\n'
                },
                None => line >= count_newlines(self.buf@),
            },
    {
        let ghost s = self.buf@;
        match self.line_start_offset(line) {
            None => {
                proof {
                    lemma_count_newlines_bound(s);
                }
                None
            },
            Some(start) => {
                let mut i: usize = start;
                while i < self.buf.len()
                    invariant
                        start <= i <= s.len(),
                        s == self.buf@,
                        starts_line(s, start as int, line as nat),
                        forall|k: int| start <= k < i ==> s[k] != '\n',
                    decreases s.len() - i,
                {
                    if self.buf[i] == '\n' {
                        proof {
                            lemma_line_of_no_newline(s, start as int, i as int);
                            lemma_count_newlines_take_succ(s, i as int);
                            assert(starts_line(s, i + 1, (line + 1) as nat));
                            lemma_count_newlines_monotonic(s, i + 1, s.len() as int);
                            lemma_count_newlines_take_all(s);
                            lemma_line_start_exists(s, (line + 1) as nat);
                            lemma_line_start_unique(
                                s,
                                line_start(s, (line + 1) as nat),
                                i + 1,
                                (line + 1) as nat,
                            );
                            lemma_line_start_exists(s, line as nat);
                            lemma_line_start_unique(
                                s,
                                line_start(s, line as nat),
                                start as int,
                                line as nat,
                            );
                            assert(forall|j: int|
                                0 <= j < i - start ==> s[#[trigger] (start + j)] != '\n');
                        }
                        return Some(i - start);
                    }
                    i = i + 1;
                }
                proof {
                    lemma_line_of_no_newline(s, start as int, s.len() as int);
                    lemma_count_newlines_take_all(s);
                }
                None
            },
        }
    }
}

/// Every offset strictly inside a terminated document lies on a
/// terminated line.
pub proof fn lemma_line_of_lt_count(s: Seq<char>, off: int)
    requires
        s.len() >= 1,
        s.last() == '\n',
        0 <= off < s.len(),
    ensures
        line_of(s, off) < count_newlines(s),
{
    lemma_count_newlines_take_succ(s, s.len() - 1);
    lemma_count_newlines_monotonic(s, off, s.len() - 1);
    lemma_count_newlines_take_all(s);
}

/// An offset strictly inside a terminated document sits at or before the
/// terminator cell of its line: its column never exceeds the line's
/// content length.
pub proof fn lemma_col_within_line(s: Seq<char>, off: int)
    requires
        s.len() >= 1,
        s.last() == '\n',
        0 <= off < s.len(),
    ensures
        line_of(s, off) < count_newlines(s),
        0 <= col_of(s, off) <= line_content_len(s, line_of(s, off)),
{
    lemma_line_of_lt_count(s, off);
    lemma_line_start_of_offset(s, off);
    let l = line_of(s, off);
    let st = line_start(s, l);
    let st1 = line_start(s, (l + 1) as nat);
    lemma_line_start_exists(s, (l + 1) as nat);
    if st1 <= off {
        lemma_count_newlines_monotonic(s, st1, off);
        assert(false);
    }
    if st1 <= st {
        lemma_count_newlines_monotonic(s, st1, st);
        assert(false);
    }
}

/// Round trip of the offset mapper: a valid offset, resolved to its
/// viewport position (line minus first visible line, column from the line
/// start) and back, is returned unchanged.
pub proof fn lemma_offset_position_round_trip(s: Seq<char>, first: nat, off: int)
    requires
        0 <= off <= s.len(),
        line_of(s, off) >= first,
    ensures
        line_of(s, off) <= count_newlines(s),
        line_start(s, line_of(s, off)) + col_of(s, off) == off,
{
    lemma_line_start_of_offset(s, off);
    lemma_count_newlines_monotonic(s, off, s.len() as int);
    lemma_count_newlines_take_all(s);
}

} // verus!
