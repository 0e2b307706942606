use vstd::prelude::*;
use crate::buffer::Buffer;
use crate::mapper::{
    count_newlines, line_start, line_content_len, lemma_count_newlines_bound,
    lemma_line_start_exists, lemma_line_start_unique,
};
use crate::position::ViewportState;

verus! {

/// One positioned character of the rendered viewport: the character and
/// its (column, row) cell, rows counted from the top of the window.
/// Pixel geometry is the renderer's business, not the core's.
#[derive(Clone, Copy, PartialEq, Eq, Debug)]
pub struct Cell {
    pub c: char,
    pub pos: (usize, usize),
}

/// Logical line `l` of the document, terminator included.
pub open spec fn line_seg(s: Seq<char>, l: nat) -> Seq<char> {
    s.subrange(line_start(s, l), line_start(s, (l + 1) as nat))
}

/// The cell of column `j` of a rendered row: the line's character at
/// that column, placed on row `r`.
pub open spec fn cell_at(line: Seq<char>, r: nat, j: int) -> Cell {
    Cell { c: line[j], pos: (j as usize, r as usize) }
}

/// The cells of one rendered row: the characters of `line`, each at its
/// column, all on row `r`.
pub open spec fn row_cells(line: Seq<char>, r: nat) -> Seq<Cell> {
    Seq::new(line.len(), |j: int| cell_at(line, r, j))
}

/// The cells of the first `shown` visible lines, row by row.
pub open spec fn spec_cells(s: Seq<char>, first: nat, shown: nat) -> Seq<Cell>
    decreases shown,
{
    if shown == 0 {
        Seq::empty()
    } else {
        spec_cells(s, first, (shown - 1) as nat) + row_cells(
            line_seg(s, (first + shown - 1) as nat),
            (shown - 1) as nat,
        )
    }
}

/// How many lines the window shows: its height, or what is left of the
/// document below the first visible line if that is less.
pub open spec fn shown_lines(s: Seq<char>, vp: ViewportState) -> nat {
    if vp.first_visible_line >= count_newlines(s) {
        0
    } else if vp.first_visible_line + vp.visible_line_count <= count_newlines(s) {
        vp.visible_line_count as nat
    } else {
        (count_newlines(s) - vp.first_visible_line) as nat
    }
}

/// Lay the visible part of the document out as positioned character
/// cells, terminators included: row `r` holds the characters of logical
/// line `first_visible_line + r`, each at its column.
pub fn from_str_to_cells(buf: &Buffer, viewport: &ViewportState) -> (r: Vec<Cell>)
    requires
        buf.wf(),
    ensures
        r@ == spec_cells(
            buf.buf@,
            viewport.first_visible_line as nat,
            shown_lines(buf.buf@, *viewport),
        ),
{
    let ghost s = buf.buf@;
    let _n: usize = buf.buf.len();
    proof {
        lemma_count_newlines_bound(s);
    }
    let lc = buf.line_count();
    let first = viewport.first_visible_line;
    let shown = if first >= lc {
        0
    } else if lc - first >= viewport.visible_line_count {
        viewport.visible_line_count
    } else {
        lc - first
    };
    let mut cells: Vec<Cell> = Vec::new();
    let mut row: usize = 0;
    proof {
        assert(cells@ =~= spec_cells(s, first as nat, 0));
    }
    while row < shown
        invariant
            row <= shown,
            s == buf.buf@,
            s.len() <= usize::MAX,
            count_newlines(s) <= s.len(),
            buf.wf(),
            shown == shown_lines(s, *viewport),
            first == viewport.first_visible_line,
            shown > 0 ==> first + shown <= count_newlines(s),
            cells@ == spec_cells(s, first as nat, row as nat),
        decreases shown - row,
    {
        let line = first + row;
        let st = buf.line_start_offset(line).unwrap();
        let k = buf.line_len(line).unwrap();
        proof {
            let l = line as nat;
            lemma_line_start_exists(s, l);
            lemma_line_start_unique(s, line_start(s, l), st as int, l);
            assert(line_seg(s, l).len() == k + 1);
        }
        let mut j: usize = 0;
        proof {
            assert(cells@ =~= spec_cells(s, first as nat, row as nat) + row_cells(
                line_seg(s, line as nat),
                row as nat,
            ).take(0));
        }
        while j < k + 1
            invariant
                j <= k + 1,
                s == buf.buf@,
                s.len() <= usize::MAX,
                first + row < count_newlines(s),
                line == first + row,
                st == line_start(s, line as nat),
                k == line_content_len(s, line as nat),
                st + k < s.len(),
                line_seg(s, line as nat).len() == k + 1,
                cells@ == spec_cells(s, first as nat, row as nat) + row_cells(
                    line_seg(s, line as nat),
                    row as nat,
                ).take(j as int),
            decreases k + 1 - j,
        {
            let c = buf.buf[st + j];
            cells.push(Cell { c, pos: (j, row) });
            proof {
                let seg = line_seg(s, line as nat);
                assert(seg[j as int] == s[st + j]);
                assert(Cell { c: s[st + j], pos: (j as usize, row as usize) } == cell_at(
                    seg,
                    row as nat,
                    j as int,
                ));
                assert(row_cells(seg, row as nat).take(j as int).push(
                    cell_at(seg, row as nat, j as int),
                ) =~= row_cells(seg, row as nat).take(j + 1));
                assert(spec_cells(s, first as nat, row as nat) + row_cells(seg, row as nat).take(
                    j as int,
                ).push(cell_at(seg, row as nat, j as int)) =~= spec_cells(s, first as nat, row as nat)
                    + row_cells(seg, row as nat).take(j + 1));
            }
            j = j + 1;
        }
        proof {
            let seg = line_seg(s, line as nat);
            assert(row_cells(seg, row as nat).take(k + 1) =~= row_cells(seg, row as nat));
        }
        row = row + 1;
    }
    cells
}

/// The concatenation of a sequence of lines.
pub open spec fn concat_lines(rs: Seq<Seq<char>>) -> Seq<char>
    decreases rs.len(),
{
    if rs.len() == 0 {
        Seq::empty()
    } else {
        concat_lines(rs.drop_last()) + rs.last()
    }
}

/// Regroup rendered cells into their lines: the characters of the cells,
/// split after every terminator, with a final terminator supplied when
/// the last cell lacks one. Every returned line is non-empty, ends with
/// exactly one terminator, and their concatenation is the cells' text
/// (up to that supplied terminator).
pub fn from_cells_to_string(cells: &Vec<Cell>) -> (r: Vec<Vec<char>>)
    ensures
        forall|i: int|
            0 <= i < r@.len() ==> {
                let v = (#[trigger] r@[i])@;
                v.len() >= 1 && v.last() == '\n' && forall|j: int| 0 <= j < v.len() - 1 ==> v[j]
                    != '\n'
            },
        ({
            let text = cells@.map_values(|c: Cell| c.c);
            concat_lines(r@.map_values(|v: Vec<char>| v@)) == if text.len() == 0 || text.last()
                == '\n' {
                text
            } else {
                text.push('\n')
            }
        }),
{
    let ghost text = cells@.map_values(|c: Cell| c.c);
    let mut r: Vec<Vec<char>> = Vec::new();
    let mut cur: Vec<char> = Vec::new();
    let mut i: usize = 0;
    proof {
        assert(concat_lines(r@.map_values(|v: Vec<char>| v@)) + cur@ =~= text.take(0));
    }
    while i < cells.len()
        invariant
            i <= text.len(),
            text == cells@.map_values(|c: Cell| c.c),
            forall|t: int| 0 <= t < cur@.len() ==> cur@[t] != '\n',
            forall|t: int|
                0 <= t < r@.len() ==> {
                    let v = (#[trigger] r@[t])@;
                    v.len() >= 1 && v.last() == '\n' && forall|j: int|
                        0 <= j < v.len() - 1 ==> v[j] != '\n'
                },
            concat_lines(r@.map_values(|v: Vec<char>| v@)) + cur@ == text.take(i as int),
        decreases text.len() - i,
    {
        let c = cells[i].c;
        let ghost r0 = r@;
        let ghost cur0 = cur@;
        proof {
            assert(text[i as int] == cells@[i as int].c);
            assert(text.take(i + 1) =~= text.take(i as int).push(text[i as int]));
        }
        cur.push(c);
        if c == '\n' {
            r.push(cur);
            cur = Vec::new();
            proof {
                assert(r@.map_values(|v: Vec<char>| v@).drop_last() =~= r0.map_values(
                    |v: Vec<char>| v@,
                ));
                assert(r@.map_values(|v: Vec<char>| v@).last() == cur0.push(c));
                assert(concat_lines(r@.map_values(|v: Vec<char>| v@)) + cur@ =~= text.take(i + 1));
            }
        } else {
            proof {
                assert(concat_lines(r@.map_values(|v: Vec<char>| v@)) + cur@ =~= text.take(i + 1));
            }
        }
        i = i + 1;
    }
    proof {
        assert(text.take(text.len() as int) =~= text);
    }
    if cur.len() > 0 {
        let ghost r0 = r@;
        let ghost cur0 = cur@;
        proof {
            assert(text.last() == cur0.last());
        }
        cur.push('\n');
        r.push(cur);
        proof {
            assert(r@.map_values(|v: Vec<char>| v@).drop_last() =~= r0.map_values(
                |v: Vec<char>| v@,
            ));
            assert(r@.map_values(|v: Vec<char>| v@).last() == cur0.push('\n'));
            assert(concat_lines(r@.map_values(|v: Vec<char>| v@)) =~= text.push('\n'));
        }
    } else {
        proof {
            let rs = r@.map_values(|v: Vec<char>| v@);
            assert(concat_lines(rs) + cur@ =~= concat_lines(rs));
            assert(concat_lines(rs) == text);
            if text.len() > 0 {
                assert(rs.len() > 0);
                assert(rs.last().len() >= 1 && rs.last().last() == '\n') by {
                    assert(rs.last() == r@[r@.len() - 1]@);
                }
                assert(text.last() == rs.last().last());
            }
        }
    }
    r
}

} // verus!
