use vstd::prelude::*;
use crate::buffer::Buffer;

verus! {

/// An invertible description of one document mutation. Every variant
/// carries the absolute offset of the edit and the inserted or removed
/// text, so it can be applied and undone without further context.
#[derive(Clone, PartialEq, Eq, Debug)]
pub enum Change {
    DeleteWord(usize, Vec<char>),
    DeleteSelection(usize, Vec<char>),
    Delete(usize, char),
    Backspace(usize, char),
    Enter(usize),
    InsertLFAbove(usize),
    InsertLFBelow(usize),
    InsertChar(usize, char),
    Paste(usize, Vec<char>),
    CutLine(usize, Vec<char>),
}

/// `s` with `t` inserted at offset `i`.
pub open spec fn seq_insert_text(s: Seq<char>, i: int, t: Seq<char>) -> Seq<char> {
    s.take(i) + t + s.skip(i)
}

/// `s` with the `k` characters starting at offset `i` removed.
pub open spec fn seq_remove_range(s: Seq<char>, i: int, k: int) -> Seq<char> {
    s.take(i) + s.skip(i + k)
}

/// The absolute offset at which the change edits the document.
pub open spec fn change_offset(c: Change) -> int {
    match c {
        Change::DeleteWord(i, _) => i as int,
        Change::DeleteSelection(i, _) => i as int,
        Change::Delete(i, _) => i as int,
        Change::Backspace(i, _) => i as int,
        Change::Enter(i) => i as int,
        Change::InsertLFAbove(i) => i as int,
        Change::InsertLFBelow(i) => i as int,
        Change::InsertChar(i, _) => i as int,
        Change::Paste(i, _) => i as int,
        Change::CutLine(i, _) => i as int,
    }
}

/// Whether applying the change inserts text (as opposed to removing it).
pub open spec fn change_is_insert(c: Change) -> bool {
    match c {
        Change::InsertChar(_, _) => true,
        Change::Enter(_) => true,
        Change::InsertLFAbove(_) => true,
        Change::InsertLFBelow(_) => true,
        Change::Paste(_, _) => true,
        _ => false,
    }
}

/// The text the change inserts, or the text it removes.
pub open spec fn change_text(c: Change) -> Seq<char> {
    match c {
        Change::DeleteWord(_, t) => t@,
        Change::DeleteSelection(_, t) => t@,
        Change::Delete(_, ch) => seq![ch],
        Change::Backspace(_, ch) => seq![ch],
        Change::Enter(_) => seq!['\n'],
        Change::InsertLFAbove(_) => seq!['\n'],
        Change::InsertLFBelow(_) => seq!['\n'],
        Change::InsertChar(_, ch) => seq![ch],
        Change::Paste(_, t) => t@,
        Change::CutLine(_, t) => t@,
    }
}

/// The document after applying the change.
pub open spec fn spec_apply(c: Change, s: Seq<char>) -> Seq<char> {
    if change_is_insert(c) {
        seq_insert_text(s, change_offset(c), change_text(c))
    } else {
        seq_remove_range(s, change_offset(c), change_text(c).len() as int)
    }
}

/// The document after undoing the change.
pub open spec fn spec_undo(c: Change, s: Seq<char>) -> Seq<char> {
    if change_is_insert(c) {
        seq_remove_range(s, change_offset(c), change_text(c).len() as int)
    } else {
        seq_insert_text(s, change_offset(c), change_text(c))
    }
}

/// The change can be applied to `s`: its offsets lie in bounds, a removal
/// really removes the text it carries, and the result fits in a vector.
pub open spec fn change_valid(c: Change, s: Seq<char>) -> bool {
    let i = change_offset(c);
    let t = change_text(c);
    if change_is_insert(c) {
        i <= s.len() && s.len() + t.len() <= usize::MAX
    } else {
        i + t.len() <= s.len() && s.len() <= usize::MAX && s.subrange(i, i + t.len()) == t
    }
}

/// The change can be undone on `s` (its apply-image): the text it inserted
/// is present at the offset, or the removal it made can be re-inserted.
pub open spec fn undo_valid(c: Change, s: Seq<char>) -> bool {
    let i = change_offset(c);
    let t = change_text(c);
    if change_is_insert(c) {
        i + t.len() <= s.len() && s.len() <= usize::MAX && s.subrange(i, i + t.len()) == t
    } else {
        i <= s.len() && s.len() + t.len() <= usize::MAX
    }
}

/// Applying the change to a terminated document leaves it terminated:
/// an insertion at the very end must itself end with a terminator, and a
/// removal reaching the end must start just past one.
pub open spec fn change_keeps_terminated(c: Change, s: Seq<char>) -> bool {
    let i = change_offset(c);
    let t = change_text(c);
    &&& change_valid(c, s)
    &&& if change_is_insert(c) {
        t.len() == 0 || i < s.len() || t.last() == '\n'
    } else {
        t.len() == 0 || i + t.len() < s.len() || (i >= 1 && s[i - 1] == '\n')
    }
}

/// Undoing the change on a terminated document leaves it terminated.
pub open spec fn undo_keeps_terminated(c: Change, s: Seq<char>) -> bool {
    let i = change_offset(c);
    let t = change_text(c);
    &&& undo_valid(c, s)
    &&& if change_is_insert(c) {
        t.len() == 0 || i + t.len() < s.len() || (i >= 1 && s[i - 1] == '\n')
    } else {
        t.len() == 0 || i < s.len() || t.last() == '\n'
    }
}

/// A valid change applied to a terminated document yields a terminated,
/// non-empty document.
pub proof fn lemma_apply_keeps_wf(c: Change, s: Seq<char>)
    requires
        s.len() >= 1,
        s.last() == '\n',
        change_keeps_terminated(c, s),
    ensures
        spec_apply(c, s).len() >= 1,
        spec_apply(c, s).last() == '\n',
{
    let i = change_offset(c);
    let t = change_text(c);
    let r = spec_apply(c, s);
    if change_is_insert(c) {
        assert(r.len() == s.len() + t.len());
        if i < s.len() {
            assert(r.last() == s.last());
        } else if t.len() > 0 {
            assert(r.last() == t.last());
        } else {
            assert(r =~= s);
        }
    } else {
        let k = t.len() as int;
        if k == 0 {
            assert(r =~= s);
        } else if i + k < s.len() {
            assert(r.len() == s.len() - k >= 1);
            assert(r.last() == s.last());
        } else {
            assert(r =~= s.take(i));
            assert(r.last() == s[i - 1]);
        }
    }
}

/// Undoing a change on a terminated document yields a terminated,
/// non-empty document.
pub proof fn lemma_undo_keeps_wf(c: Change, s: Seq<char>)
    requires
        s.len() >= 1,
        s.last() == '\n',
        undo_keeps_terminated(c, s),
    ensures
        spec_undo(c, s).len() >= 1,
        spec_undo(c, s).last() == '\n',
{
    let i = change_offset(c);
    let t = change_text(c);
    let r = spec_undo(c, s);
    if change_is_insert(c) {
        let k = t.len() as int;
        if k == 0 {
            assert(r =~= s);
        } else if i + k < s.len() {
            assert(r.len() == s.len() - k >= 1);
            assert(r.last() == s.last());
        } else {
            assert(r =~= s.take(i));
            assert(r.last() == s[i - 1]);
        }
    } else {
        assert(r.len() == s.len() + t.len());
        if i < s.len() {
            assert(r.last() == s.last());
        } else if t.len() > 0 {
            assert(r.last() == t.last());
        } else {
            assert(r =~= s);
        }
    }
}

/// Undo inverts apply: for any change valid on a document, undoing the
/// applied change is itself possible and restores the document exactly.
pub proof fn lemma_undo_reverts_apply(c: Change, d: Seq<char>)
    requires
        change_valid(c, d),
    ensures
        undo_valid(c, spec_apply(c, d)),
        spec_undo(c, spec_apply(c, d)) == d,
{
    let i = change_offset(c);
    let t = change_text(c);
    let s = spec_apply(c, d);
    if change_is_insert(c) {
        assert(s.subrange(i, i + t.len()) =~= t);
        assert(spec_undo(c, s) =~= d);
    } else {
        let k = t.len() as int;
        assert(spec_undo(c, s) =~= d);
    }
}

/// Apply inverts undo: re-applying an undone change restores the document
/// it was undone from. This is what makes redo exact.
pub proof fn lemma_apply_reverts_undo(c: Change, s: Seq<char>)
    requires
        undo_valid(c, s),
    ensures
        change_valid(c, spec_undo(c, s)),
        spec_apply(c, spec_undo(c, s)) == s,
{
    let i = change_offset(c);
    let t = change_text(c);
    let d = spec_undo(c, s);
    if change_is_insert(c) {
        assert(spec_apply(c, d) =~= s);
    } else {
        assert(d.subrange(i, i + t.len()) =~= t);
        assert(spec_apply(c, d) =~= s);
    }
}

/// A change that keeps a terminated document terminated can, once
/// applied, also be undone without losing the terminator.
pub proof fn lemma_apply_then_undo_keeps(c: Change, d: Seq<char>)
    requires
        d.len() >= 1,
        d.last() == '\n',
        change_keeps_terminated(c, d),
    ensures
        undo_keeps_terminated(c, spec_apply(c, d)),
{
    lemma_undo_reverts_apply(c, d);
    let i = change_offset(c);
    let t = change_text(c);
    let s = spec_apply(c, d);
    if change_is_insert(c) {
        if t.len() > 0 && i + t.len() == s.len() {
            assert(s[i - 1] == d[i - 1]);
        }
    } else {
        if t.len() > 0 && i == s.len() {
            assert(t.last() == d[i + t.len() - 1]);
        }
    }
}

/// A change whose undo keeps the document terminated can, once undone,
/// be re-applied without losing the terminator.
pub proof fn lemma_undo_then_apply_keeps(c: Change, s: Seq<char>)
    requires
        s.len() >= 1,
        s.last() == '\n',
        undo_keeps_terminated(c, s),
    ensures
        change_keeps_terminated(c, spec_undo(c, s)),
{
    lemma_apply_reverts_undo(c, s);
    let i = change_offset(c);
    let t = change_text(c);
    let d = spec_undo(c, s);
    if change_is_insert(c) {
        if t.len() > 0 && i == d.len() {
            assert(t.last() == s[i + t.len() - 1]);
        }
    } else {
        if t.len() > 0 && i + t.len() == d.len() {
            assert(d[i - 1] == s[i - 1]);
        }
    }
}

/// Insert the characters of `t` at index `i`.
fn vec_insert_text(v: &mut Vec<char>, i: usize, t: &Vec<char>)
    requires
        i <= old(v)@.len(),
        old(v)@.len() + t@.len() <= usize::MAX,
    ensures
        final(v)@ == seq_insert_text(old(v)@, i as int, t@),
{
    let ghost s0 = old(v)@;
    let mut j: usize = 0;
    proof {
        assert(s0.take(i as int) + t@.take(0) + s0.skip(i as int) =~= s0);
    }
    while j < t.len()
        invariant
            j <= t@.len(),
            i <= s0.len(),
            s0.len() + t@.len() <= usize::MAX,
            v@ == s0.take(i as int) + t@.take(j as int) + s0.skip(i as int),
        decreases t@.len() - j,
    {
        let c = t[j];
        v.insert(i + j, c);
        proof {
            assert((s0.take(i as int) + t@.take(j as int) + s0.skip(i as int)).insert(
                i + j,
                t@[j as int],
            ) =~= s0.take(i as int) + t@.take(j + 1) + s0.skip(i as int));
        }
        j = j + 1;
    }
    proof {
        assert(t@.take(t@.len() as int) =~= t@);
    }
}

/// Insert a single character at index `i`.
fn vec_insert_one(v: &mut Vec<char>, i: usize, c: char)
    requires
        i <= old(v)@.len(),
        old(v)@.len() + 1 <= usize::MAX,
    ensures
        final(v)@ == seq_insert_text(old(v)@, i as int, seq![c]),
{
    let ghost s0 = old(v)@;
    v.insert(i, c);
    proof {
        assert(s0.insert(i as int, c) =~= seq_insert_text(s0, i as int, seq![c]));
    }
}

/// Remove the `k` characters starting at index `i`.
fn vec_remove_range(v: &mut Vec<char>, i: usize, k: usize)
    requires
        i + k <= old(v)@.len(),
    ensures
        final(v)@ == seq_remove_range(old(v)@, i as int, k as int),
{
    let ghost s0 = old(v)@;
    let mut j: usize = 0;
    proof {
        assert(s0.take(i as int) + s0.skip(i as int) =~= s0);
    }
    while j < k
        invariant
            j <= k,
            i + k <= s0.len(),
            v@ == s0.take(i as int) + s0.skip(i + j),
        decreases k - j,
    {
        v.remove(i);
        proof {
            assert((s0.take(i as int) + s0.skip(i + j)).remove(i as int) =~= s0.take(i as int)
                + s0.skip(i + j + 1));
        }
        j = j + 1;
    }
}

/// Apply the change to the document in place.
pub fn apply_change(buf: &mut Buffer, c: &Change)
    requires
        old(buf).wf(),
        change_keeps_terminated(*c, old(buf).buf@),
    ensures
        final(buf).buf@ == spec_apply(*c, old(buf).buf@),
        final(buf).name@ == old(buf).name@,
        final(buf).wf(),
{
    proof {
        lemma_apply_keeps_wf(*c, buf.buf@);
    }
    match c {
        Change::InsertChar(i, ch) => vec_insert_one(&mut buf.buf, *i, *ch),
        Change::Enter(i) => vec_insert_one(&mut buf.buf, *i, '\n'),
        Change::InsertLFAbove(i) => vec_insert_one(&mut buf.buf, *i, '\n'),
        Change::InsertLFBelow(i) => vec_insert_one(&mut buf.buf, *i, '\n'),
        Change::Paste(i, t) => vec_insert_text(&mut buf.buf, *i, t),
        Change::Delete(i, _) => vec_remove_range(&mut buf.buf, *i, 1),
        Change::Backspace(i, _) => vec_remove_range(&mut buf.buf, *i, 1),
        Change::DeleteWord(i, t) => vec_remove_range(&mut buf.buf, *i, t.len()),
        Change::DeleteSelection(i, t) => vec_remove_range(&mut buf.buf, *i, t.len()),
        Change::CutLine(i, t) => vec_remove_range(&mut buf.buf, *i, t.len()),
    }
}

/// Undo the change on the document in place, restoring the text it
/// removed or removing the text it inserted.
pub fn undo_change(buf: &mut Buffer, c: &Change)
    requires
        old(buf).wf(),
        undo_keeps_terminated(*c, old(buf).buf@),
    ensures
        final(buf).buf@ == spec_undo(*c, old(buf).buf@),
        final(buf).name@ == old(buf).name@,
        final(buf).wf(),
{
    proof {
        lemma_undo_keeps_wf(*c, buf.buf@);
    }
    match c {
        Change::InsertChar(i, _) => vec_remove_range(&mut buf.buf, *i, 1),
        Change::Enter(i) => vec_remove_range(&mut buf.buf, *i, 1),
        Change::InsertLFAbove(i) => vec_remove_range(&mut buf.buf, *i, 1),
        Change::InsertLFBelow(i) => vec_remove_range(&mut buf.buf, *i, 1),
        Change::Paste(i, t) => vec_remove_range(&mut buf.buf, *i, t.len()),
        Change::Delete(i, ch) => vec_insert_one(&mut buf.buf, *i, *ch),
        Change::Backspace(i, ch) => vec_insert_one(&mut buf.buf, *i, *ch),
        Change::DeleteWord(i, t) => vec_insert_text(&mut buf.buf, *i, t),
        Change::DeleteSelection(i, t) => vec_insert_text(&mut buf.buf, *i, t),
        Change::CutLine(i, t) => vec_insert_text(&mut buf.buf, *i, t),
    }
}

} // verus!
