use vstd::prelude::*;
use crate::buffer::Buffer;
use crate::mapper::{
    count_newlines, line_content_len, line_start, lemma_count_newlines_bound,
    lemma_line_start_exists, lemma_line_start_unique,
};
use crate::position::CursorPosition;

verus! {

/// `l` is the lowercase form of the uppercase ASCII letter `u`.
pub open spec fn is_ascii_lower_of(l: char, u: char) -> bool {
    65 <= u as u32 <= 90 && l as u32 == u as u32 + 32
}

/// Character equality, folding ASCII case when the search is
/// case-insensitive.
pub open spec fn chars_match(a: char, b: char, case_sensitive: bool) -> bool {
    a == b || (!case_sensitive && (is_ascii_lower_of(a, b) || is_ascii_lower_of(b, a)))
}

/// The query `q` occurs in logical line `l` of `s` at column `c`: it fits
/// within the line's content and matches it character by character.
pub open spec fn match_at(s: Seq<char>, q: Seq<char>, l: nat, c: int, case_sensitive: bool) -> bool {
    let st = line_start(s, l);
    &&& 0 <= c
    &&& c + q.len() <= line_content_len(s, l)
    &&& forall|j: int| 0 <= j < q.len() ==> chars_match(s[st + c + j], #[trigger] q[j], case_sensitive)
}

/// Strict reading order on `(column, line)` entries: earlier line first,
/// then earlier column.
pub open spec fn pos_lex_lt(a: (usize, usize), b: (usize, usize)) -> bool {
    a.1 < b.1 || (a.1 == b.1 && a.0 < b.0)
}

fn chars_match_exec(a: char, b: char, case_sensitive: bool) -> (r: bool)
    ensures
        r == chars_match(a, b, case_sensitive),
{
    if a == b {
        true
    } else if case_sensitive {
        false
    } else {
        let au = a as u32;
        let bu = b as u32;
        (65 <= bu && bu <= 90 && au == bu + 32) || (65 <= au && au <= 90 && bu == au + 32)
    }
}

/// The match list is exactly right for document `s`, query `q` and the
/// given case sensitivity: indices count from 0, every entry is a real
/// occurrence, entries come in strict reading order, and every occurrence
/// is listed.
pub open spec fn search_results_ok(
    s: Seq<char>,
    q: Seq<char>,
    case_sensitive: bool,
    r: Seq<(usize, (usize, usize))>,
) -> bool {
    &&& forall|i: int| 0 <= i < r.len() ==> (#[trigger] r[i]).0 == i
    &&& forall|i: int|
        0 <= i < r.len() ==> (#[trigger] r[i]).1.1 < count_newlines(s) && match_at(
            s,
            q,
            r[i].1.1 as nat,
            r[i].1.0 as int,
            case_sensitive,
        )
    &&& forall|i: int| 0 <= i < r.len() - 1 ==> pos_lex_lt((#[trigger] r[i]).1, r[i + 1].1)
    &&& forall|l: nat, c: int|
        l < count_newlines(s) && #[trigger] match_at(s, q, l, c, case_sensitive) ==> exists|i: int|
            0 <= i < r.len() && (#[trigger] r[i]).1 == (c as usize, l as usize)
}

/// Scan every logical line top to bottom and record each occurrence of
/// the query left to right, with consecutive match indices starting at 0.
/// The result lists exactly the occurrences, in reading order.
#[verifier::rlimit(100)]
pub fn search(buf: &Buffer, query: &Vec<char>, case_sensitive: bool) -> (r: Vec<
    (usize, (usize, usize)),
>)
    requires
        buf.wf(),
        query@.len() >= 1,
    ensures
        search_results_ok(buf.buf@, query@, case_sensitive, r@),
{
    let ghost s = buf.buf@;
    let ghost q = query@;
    let _n: usize = buf.buf.len();
    let mut r: Vec<(usize, (usize, usize))> = Vec::new();
    let lc = buf.line_count();
    let mut line: usize = 0;
    while line < lc
        invariant
            line <= lc,
            s == buf.buf@,
            q == query@,
            q.len() >= 1,
            buf.wf(),
            lc == count_newlines(s),
            s.len() <= usize::MAX,
            forall|i: int| 0 <= i < r@.len() ==> (#[trigger] r@[i]).0 == i,
            forall|i: int|
                0 <= i < r@.len() ==> (#[trigger] r@[i]).1.1 < line && match_at(
                    s,
                    q,
                    r@[i].1.1 as nat,
                    r@[i].1.0 as int,
                    case_sensitive,
                ),
            forall|i: int| 0 <= i < r@.len() - 1 ==> pos_lex_lt((#[trigger] r@[i]).1, r@[i + 1].1),
            forall|l: nat, c: int|
                l < line && #[trigger] match_at(s, q, l, c, case_sensitive) ==> exists|i: int|
                    0 <= i < r@.len() && (#[trigger] r@[i]).1 == (c as usize, l as usize),
        decreases lc - line,
    {
        let k = buf.line_len(line).unwrap();
        let start = buf.line_start_offset(line).unwrap();
        proof {
            lemma_line_start_exists(s, line as nat);
            lemma_line_start_unique(s, line_start(s, line as nat), start as int, line as nat);
        }
        if k >= query.len() {
            let bound = k - query.len();
            let mut col: usize = 0;
            while col <= bound
                invariant
                    col <= bound + 1,
                    bound == k - q.len(),
                    q.len() >= 1,
                    s == buf.buf@,
                    q == query@,
                    buf.wf(),
                    lc == count_newlines(s),
                    line < lc,
                    start == line_start(s, line as nat),
                    k == line_content_len(s, line as nat),
                    start + k < s.len(),
                    s.len() <= usize::MAX,
                    forall|i: int| 0 <= i < r@.len() ==> (#[trigger] r@[i]).0 == i,
                    forall|i: int|
                        0 <= i < r@.len() ==> (#[trigger] r@[i]).1.1 < line || (r@[i].1.1 == line
                            && r@[i].1.0 < col),
                    forall|i: int|
                        0 <= i < r@.len() ==> match_at(
                            s,
                            q,
                            (#[trigger] r@[i]).1.1 as nat,
                            r@[i].1.0 as int,
                            case_sensitive,
                        ) && r@[i].1.1 < count_newlines(s),
                    forall|i: int|
                        0 <= i < r@.len() - 1 ==> pos_lex_lt((#[trigger] r@[i]).1, r@[i + 1].1),
                    forall|l: nat, c: int|
                        l < line && #[trigger] match_at(s, q, l, c, case_sensitive) ==> exists|
                            i: int,
                        | 0 <= i < r@.len() && (#[trigger] r@[i]).1 == (c as usize, l as usize),
                    forall|c: int|
                        0 <= c < col && #[trigger] match_at(
                            s,
                            q,
                            line as nat,
                            c,
                            case_sensitive,
                        ) ==> exists|i: int|
                            0 <= i < r@.len() && (#[trigger] r@[i]).1 == (
                                c as usize,
                                line as usize,
                            ),
                decreases bound + 1 - col,
            {
                let mut j: usize = 0;
                let mut is_match = true;
                while j < query.len()
                    invariant
                        j <= q.len(),
                        s == buf.buf@,
                        q == query@,
                        col + q.len() <= k,
                        start == line_start(s, line as nat),
                        k == line_content_len(s, line as nat),
                        start + k < s.len(),
                        s.len() <= usize::MAX,
                        is_match ==> forall|t: int|
                            0 <= t < j ==> chars_match(
                                s[start + col + t],
                                #[trigger] q[t],
                                case_sensitive,
                            ),
                        !is_match ==> !match_at(s, q, line as nat, col as int, case_sensitive),
                    decreases q.len() - j,
                {
                    let a = buf.buf[start + col + j];
                    let b = query[j];
                    if !chars_match_exec(a, b, case_sensitive) {
                        is_match = false;
                    }
                    j = j + 1;
                }
                if is_match {
                    proof {
                        assert(match_at(s, q, line as nat, col as int, case_sensitive));
                    }
                    let idx = r.len();
                    let ghost r0 = r@;
                    r.push((idx, (col, line)));
                    proof {
                        assert(r@ == r0.push((idx, (col as usize, line as usize))));
                        assert(forall|i: int| 0 <= i < r0.len() ==> r@[i] == r0[i]);
                        assert(r@[r0.len() as int].1 == (col as usize, line as usize));
                    }
                }
                col = col + 1;
            }
            proof {
                assert(forall|c: int|
                    bound < c && #[trigger] match_at(s, q, line as nat, c, case_sensitive)
                        ==> false);
            }
        } else {
            proof {
                assert(forall|c: int|
                    #[trigger] match_at(s, q, line as nat, c, case_sensitive) ==> false);
            }
        }
        line = line + 1;
    }
    r
}

/// The ordered match list of the most recent search, the index of the
/// current match, and the query it was computed for. The list is only
/// recomputed when the query text changes; navigation merely rotates the
/// current index.
pub struct SearchState {
    pub results: Vec<(usize, (usize, usize))>,
    pub current: usize,
    pub last_query: Vec<char>,
}

impl SearchState {
    /// The current index addresses a match whenever there are any.
    pub open spec fn wf(&self) -> bool {
        self.results@.len() == 0 || self.current < self.results@.len()
    }

    /// No search yet: no matches, index at 0, empty query.
    pub fn new() -> (r: SearchState)
        ensures
            r.wf(),
            r.results@.len() == 0,
            r.current == 0,
            r.last_query@.len() == 0,
    {
        SearchState { results: Vec::new(), current: 0, last_query: Vec::new() }
    }

    /// Advance the current match forward, wrapping past the last back to
    /// the first; with no matches a no-op.
    pub fn advance(&mut self)
        requires
            old(self).wf(),
        ensures
            final(self).wf(),
            final(self).results == old(self).results,
            final(self).last_query == old(self).last_query,
            final(self).current == if old(self).results@.len() == 0 {
                old(self).current as int
            } else if old(self).current + 1 < old(self).results@.len() {
                old(self).current + 1
            } else {
                0int
            },
    {
        if self.results.len() == 0 {
            return ;
        }
        if self.current + 1 < self.results.len() {
            self.current = self.current + 1;
        } else {
            self.current = 0;
        }
    }

    /// Retreat the current match backward, wrapping past the first back
    /// to the last; with no matches a no-op.
    pub fn retreat(&mut self)
        requires
            old(self).wf(),
        ensures
            final(self).wf(),
            final(self).results == old(self).results,
            final(self).last_query == old(self).last_query,
            final(self).current == if old(self).results@.len() == 0 {
                old(self).current as int
            } else if old(self).current == 0 {
                old(self).results@.len() - 1
            } else {
                old(self).current - 1
            },
    {
        if self.results.len() == 0 {
            return ;
        }
        if self.current == 0 {
            self.current = self.results.len() - 1;
        } else {
            self.current = self.current - 1;
        }
    }

    /// Where jumping to the current match lands: the matched line becomes
    /// the first visible line (row 0) and the column is the match start.
    /// `None` when there are no matches.
    pub fn jump_target(&self) -> (r: Option<(usize, CursorPosition)>)
        requires
            self.wf(),
        ensures
            match r {
                Some(t) => {
                    &&& self.results@.len() > 0
                    &&& t.0 == self.results@[self.current as int].1.1
                    &&& t.1.col == self.results@[self.current as int].1.0
                    &&& t.1.row == 0
                },
                None => self.results@.len() == 0,
            },
    {
        if self.results.len() == 0 {
            return None;
        }
        let entry = self.results[self.current];
        Some((entry.1.1, CursorPosition { col: entry.1.0, row: 0 }))
    }
}

} // verus!
