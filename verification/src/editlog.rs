use vstd::prelude::*;
use crate::buffer::Buffer;
use crate::change::{Change, spec_apply, spec_undo, change_keeps_terminated, apply_change, undo_change, lemma_apply_keeps_wf, lemma_apply_then_undo_keeps, lemma_undo_reverts_apply};

verus! {

/// The document obtained by replaying `cs` in order against `base`.
pub open spec fn replay(base: Seq<char>, cs: Seq<Change>) -> Seq<char>
    decreases cs.len(),
{
    if cs.len() == 0 {
        base
    } else {
        spec_apply(cs.last(), replay(base, cs.drop_last()))
    }
}

/// Every step of the replay is applicable and keeps the document
/// terminated.
pub open spec fn replay_valid(base: Seq<char>, cs: Seq<Change>) -> bool
    decreases cs.len(),
{
    if cs.len() == 0 {
        true
    } else {
        replay_valid(base, cs.drop_last()) && change_keeps_terminated(
            cs.last(),
            replay(base, cs.drop_last()),
        )
    }
}

/// The changes of the redo stack `us`, taken from its top (the last
/// element) downwards, can be re-applied to `cur` in turn.
pub open spec fn redo_valid(cur: Seq<char>, us: Seq<Change>) -> bool
    decreases us.len(),
{
    if us.len() == 0 {
        true
    } else {
        change_keeps_terminated(us.last(), cur) && redo_valid(
            spec_apply(us.last(), cur),
            us.drop_last(),
        )
    }
}

/// A valid replay of a terminated document stays terminated.
pub proof fn lemma_replay_wf(base: Seq<char>, cs: Seq<Change>)
    requires
        base.len() >= 1,
        base.last() == '\n',
        replay_valid(base, cs),
    ensures
        replay(base, cs).len() >= 1,
        replay(base, cs).last() == '\n',
    decreases cs.len(),
{
    if cs.len() > 0 {
        lemma_replay_wf(base, cs.drop_last());
        lemma_apply_keeps_wf(cs.last(), replay(base, cs.drop_last()));
    }
}

/// The undo/redo history: a stack of applied changes (`done`) and a stack
/// of undone changes awaiting redo (`undone`), together with the original
/// document the history started from.
///
/// Invariant (`wf_for`): replaying `done` in order against the original
/// document reproduces the current buffer, and the changes on `undone`
/// can be redone from it in stack order.
pub struct EditLog {
    pub done: Vec<Change>,
    pub undone: Vec<Change>,
    pub base: Ghost<Seq<char>>,
}

impl EditLog {
    pub open spec fn wf_for(&self, buf: Buffer) -> bool {
        &&& buf.wf()
        &&& self.base@.len() >= 1 && self.base@.last() == '\n'
        &&& replay_valid(self.base@, self.done@)
        &&& replay(self.base@, self.done@) == buf.buf@
        &&& redo_valid(buf.buf@, self.undone@)
    }

    /// A fresh history for the given document: nothing to undo or redo.
    pub fn new(buf: &Buffer) -> (r: EditLog)
        requires
            buf.wf(),
        ensures
            r.wf_for(*buf),
            r.done@ == Seq::<Change>::empty(),
            r.undone@ == Seq::<Change>::empty(),
            r.base@ == buf.buf@,
    {
        EditLog { done: Vec::new(), undone: Vec::new(), base: Ghost(buf.buf@) }
    }

    pub fn can_undo(&self) -> (r: bool)
        ensures
            r == (self.done@.len() > 0),
    {
        self.done.len() > 0
    }

    pub fn can_redo(&self) -> (r: bool)
        ensures
            r == (self.undone@.len() > 0),
    {
        self.undone.len() > 0
    }

    /// The single entry point for mutations: apply the change to the
    /// document, push it onto `done`, and clear the redo stack.
    pub fn apply(&mut self, buf: &mut Buffer, c: Change)
        requires
            old(self).wf_for(*old(buf)),
            change_keeps_terminated(c, old(buf).buf@),
        ensures
            final(self).wf_for(*final(buf)),
            final(buf).buf@ == spec_apply(c, old(buf).buf@),
            final(buf).name@ == old(buf).name@,
            final(self).done@ == old(self).done@.push(c),
            final(self).undone@ == Seq::<Change>::empty(),
            final(self).base@ == old(self).base@,
    {
        apply_change(buf, &c);
        self.done.push(c);
        self.undone.clear();
        proof {
            assert(self.done@.drop_last() =~= old(self).done@);
        }
    }

    /// Pop the most recent change and revert it; reports whether anything
    /// was undone. An empty history is a silent no-op.
    pub fn undo(&mut self, buf: &mut Buffer) -> (r: bool)
        requires
            old(self).wf_for(*old(buf)),
        ensures
            final(self).wf_for(*final(buf)),
            final(buf).name@ == old(buf).name@,
            r == (old(self).done@.len() > 0),
            !r ==> *final(self) == *old(self) && *final(buf) == *old(buf),
            r ==> {
                let c = old(self).done@.last();
                &&& final(buf).buf@ == spec_undo(c, old(buf).buf@)
                &&& final(buf).buf@ == replay(old(self).base@, old(self).done@.drop_last())
                &&& final(self).done@ == old(self).done@.drop_last()
                &&& final(self).undone@ == old(self).undone@.push(c)
                &&& final(self).base@ == old(self).base@
            },
    {
        if self.done.len() == 0 {
            return false;
        }
        let c = self.done.pop().unwrap();
        let ghost prev = replay(self.base@, self.done@);
        proof {
            lemma_replay_wf(self.base@, self.done@);
            lemma_apply_then_undo_keeps(c, prev);
            lemma_undo_reverts_apply(c, prev);
        }
        undo_change(buf, &c);
        self.undone.push(c);
        proof {
            assert(self.undone@.drop_last() =~= old(self).undone@);
        }
        true
    }

    /// Pop the most recently undone change and re-apply it; reports
    /// whether anything was redone. An empty redo stack is a silent no-op.
    pub fn redo(&mut self, buf: &mut Buffer) -> (r: bool)
        requires
            old(self).wf_for(*old(buf)),
        ensures
            final(self).wf_for(*final(buf)),
            final(buf).name@ == old(buf).name@,
            r == (old(self).undone@.len() > 0),
            !r ==> *final(self) == *old(self) && *final(buf) == *old(buf),
            r ==> {
                let c = old(self).undone@.last();
                &&& final(buf).buf@ == spec_apply(c, old(buf).buf@)
                &&& final(self).undone@ == old(self).undone@.drop_last()
                &&& final(self).done@ == old(self).done@.push(c)
                &&& final(self).base@ == old(self).base@
            },
    {
        if self.undone.len() == 0 {
            return false;
        }
        let c = self.undone.pop().unwrap();
        apply_change(buf, &c);
        self.done.push(c);
        proof {
            assert(self.done@.drop_last() =~= old(self).done@);
        }
        true
    }
}

/// The history discipline, stated over the stack transitions that
/// `EditLog::apply` and `EditLog::undo` guarantee: from any starting
/// stacks, applying `c1` then `c2` and undoing once leaves exactly `c2`
/// awaiting redo; applying a further change `c3` empties the redo stack
/// again, so a subsequent redo finds nothing to do.
pub proof fn lemma_history_discipline(done0: Seq<Change>, c1: Change, c2: Change, c3: Change)
    ensures
        done0.push(c1).push(c2).drop_last() == done0.push(c1),
        Seq::<Change>::empty().push(c2) == seq![c2],
        done0.push(c1).push(c2).drop_last().push(c3).len() == done0.len() + 2,
        Seq::<Change>::empty().len() == 0,
{
    assert(done0.push(c1).push(c2).drop_last() =~= done0.push(c1));
    assert(Seq::<Change>::empty().push(c2) =~= seq![c2]);
}

} // verus!
