use vstd::prelude::*;
use crate::buffer::Buffer;
use crate::change::{Change, change_keeps_terminated, seq_remove_range};
use crate::editlog::EditLog;
use crate::mapper::{
    count_newlines, line_of, line_start, col_of, lemma_count_newlines_bound,
    lemma_line_start_exists, lemma_count_newlines_monotonic, lemma_col_within_line,
};
use crate::navigator::{cursor_in_doc, viewport_in_doc};
use crate::position::{CursorPosition, ViewportState};
use crate::search::SearchState;
use crate::selection::{SelectionRange, copy_char_range};

verus! {

/// The interaction mode the editor is in: plain editing, or one of the
/// modal prompts (go-to-line, the two search modes, the unsaved-changes
/// confirmation, the help page).
#[derive(Clone, Copy, PartialEq, Eq, Structural, Debug)]
pub enum Modes {
    GoToLine,
    FindCaseSensitive,
    FindCaseInSensitive,
    Edit,
    ModifiedPrompt,
    ShowHelp,
}

/// One semantic command per input cycle, as resolved by the input
/// dispatcher.
#[derive(Clone, Copy, PartialEq, Eq, Structural, Debug)]
pub enum Command {
    Exit,
    PageUp,
    PageDown,
    ShiftPageUp,
    ShiftPageDown,
    GoTop,
    GoBottom,
    GoToLine,
    FindCaseSensitive,
    FindInCaseSensitive,
    Home,
    Help,
    End,
    Save,
    MoveLeft,
    OpenDocument,
    MoveRight,
    MoveUp,
    MoveDown,
    WordMoveLeft,
    WordMoveRight,
    MouseLeftClick,
    MouseDown,
    ShiftSelectUp,
    ShiftSelectDown,
    ShiftSelectLeft,
    ShiftSelectRight,
    Undo,
    Redo,
    Copy,
    Paste,
    Cut,
    InsertLFAbove,
    InsertLFBelow,
    Delete,
    Enter,
    Backspace,
    CharPressed(char),
    DeleteWord,
}

/// What the surrounding shell must do after an update step: the outside
/// work the core cannot perform itself.
#[derive(PartialEq, Eq, Debug)]
pub enum Action {
    Nothing,
    Bell,
    SaveFile,
    SetClipboard(Vec<char>),
    GetClipboard,
    OpenFileDialog,
    PromptUnsaved,
    PromptGoToLine,
    PromptFind(bool),
    ShowHelpPage,
    ResolveMouseClick,
    BeginMouseDrag,
}

/// The absolute offset the cursor addresses.
pub open spec fn cursor_offset(s: Seq<char>, first: nat, pos: CursorPosition) -> int {
    line_start(s, (first + pos.row) as nat) + pos.col
}

/// The viewport scrolled just far enough that the line of `off` is
/// visible, and the cursor placed on `off`: above the window the line
/// becomes the first visible one, below it the last.
pub open spec fn spec_reposition(s: Seq<char>, vp: ViewportState, off: int) -> (
    ViewportState,
    CursorPosition,
) {
    let l = line_of(s, off);
    let first = if l < vp.first_visible_line {
        l as int
    } else if l - vp.first_visible_line >= vp.visible_line_count {
        l - vp.visible_line_count + 1
    } else {
        vp.first_visible_line as int
    };
    (
        ViewportState { first_visible_line: first as usize, ..vp },
        CursorPosition { col: col_of(s, off) as usize, row: (l - first) as usize },
    )
}

/// The lower of the two selection offsets.
pub open spec fn sel_lo(sel: SelectionRange) -> int {
    if sel.anchor.offset <= sel.moving.offset {
        sel.anchor.offset as int
    } else {
        sel.moving.offset as int
    }
}

/// The higher of the two selection offsets.
pub open spec fn sel_hi(sel: SelectionRange) -> int {
    if sel.anchor.offset <= sel.moving.offset {
        sel.moving.offset as int
    } else {
        sel.anchor.offset as int
    }
}

/// Whether deleting the selection removes anything: the selection is not
/// collapsed and does not start on the final terminator.
pub open spec fn sel_deletes(s: Seq<char>, osel: Option<SelectionRange>) -> bool {
    &&& osel is Some
    &&& osel->0.anchor.offset != osel->0.moving.offset
    &&& sel_lo(osel->0) < s.len() - 1
}

/// One past the last deleted offset: the selected span is inclusive,
/// clamped so the final terminator survives.
pub open spec fn sel_del_end(s: Seq<char>, sel: SelectionRange) -> int {
    if sel_hi(sel) + 1 <= s.len() - 1 {
        sel_hi(sel) + 1
    } else {
        s.len() - 1
    }
}

/// The document after deleting the selection, if there is one to delete.
pub open spec fn after_sel_delete(s: Seq<char>, osel: Option<SelectionRange>) -> Seq<char> {
    if sel_deletes(s, osel) {
        seq_remove_range(s, sel_lo(osel->0), sel_del_end(s, osel->0) - sel_lo(osel->0))
    } else {
        s
    }
}

/// The whole editor state one update step works on: the document, the
/// scroll window and cursor, the undo/redo history, the active selection,
/// the search state, the interaction mode and the session flags.
pub struct EditorState {
    pub buffer: Buffer,
    pub viewport: ViewportState,
    pub cursor: CursorPosition,
    pub log: EditLog,
    pub selection: Option<SelectionRange>,
    pub search: SearchState,
    pub mode: Modes,
    pub prompt_input: Vec<char>,
    pub is_search_changed: bool,
    pub is_file_changed: bool,
    pub is_exit: bool,
    pub tab_width: u8,
}

impl EditorState {
    /// Everything consistent: the buffer terminated, the history replaying
    /// to it, the cursor on a real cell inside the window, selection
    /// endpoints inside the buffer.
    pub open spec fn wf(&self) -> bool {
        &&& self.buffer.wf()
        &&& self.log.wf_for(self.buffer)
        &&& viewport_in_doc(self.buffer.buf@, self.viewport)
        &&& cursor_in_doc(self.buffer.buf@, self.viewport.first_visible_line as nat, self.cursor)
        &&& self.cursor.row < self.viewport.visible_line_count
        &&& self.search.wf()
        &&& (self.selection matches Some(sel) ==> sel.anchor.offset < self.buffer.buf@.len()
            && sel.moving.offset < self.buffer.buf@.len())
    }

    /// A fresh editor over a loaded document, scrolled to the top.
    pub fn new(buffer: Buffer, visible_line_count: usize, tab_width: u8) -> (r: EditorState)
        requires
            buffer.wf(),
            visible_line_count >= 1,
        ensures
            r.wf(),
            r.buffer == buffer,
            r.viewport.first_visible_line == 0,
            r.viewport.visible_line_count == visible_line_count,
            r.cursor.col == 0 && r.cursor.row == 0,
            r.log.done@.len() == 0 && r.log.undone@.len() == 0,
            r.selection is None,
            r.mode == Modes::Edit,
            !r.is_file_changed && !r.is_exit && !r.is_search_changed,
            r.tab_width == tab_width,
    {
        proof {
            crate::navigator::lemma_cursor_at_line_origin(buffer.buf@, 0);
            assert(buffer.buf@.take(buffer.buf@.len() as int) =~= buffer.buf@);
            assert(count_newlines(buffer.buf@) >= 1) by {
                crate::mapper::lemma_count_newlines_take_succ(buffer.buf@, buffer.buf@.len() - 1);
                lemma_count_newlines_monotonic(buffer.buf@, 0, buffer.buf@.len() - 1);
            }
        }
        let log = EditLog::new(&buffer);
        EditorState {
            buffer,
            viewport: ViewportState { first_visible_line: 0, visible_line_count },
            cursor: CursorPosition { col: 0, row: 0 },
            log,
            selection: None,
            search: SearchState::new(),
            mode: Modes::Edit,
            prompt_input: Vec::new(),
            is_search_changed: false,
            is_file_changed: false,
            is_exit: false,
            tab_width,
        }
    }

    /// The absolute buffer offset the cursor addresses; always strictly
    /// inside the buffer.
    pub fn current_offset(&self) -> (r: usize)
        requires
            self.buffer.wf(),
            viewport_in_doc(self.buffer.buf@, self.viewport),
            cursor_in_doc(self.buffer.buf@, self.viewport.first_visible_line as nat, self.cursor),
        ensures
            r == cursor_offset(
                self.buffer.buf@,
                self.viewport.first_visible_line as nat,
                self.cursor,
            ),
            r < self.buffer.buf@.len(),
    {
        let ghost s = self.buffer.buf@;
        let ghost l = (self.viewport.first_visible_line + self.cursor.row) as nat;
        let _n: usize = self.buffer.buf.len();
        proof {
            lemma_count_newlines_bound(s);
            lemma_line_start_exists(s, l);
            lemma_line_start_exists(s, (l + 1) as nat);
            if line_start(s, (l + 1) as nat) <= line_start(s, l) {
                lemma_count_newlines_monotonic(
                    s,
                    line_start(s, (l + 1) as nat),
                    line_start(s, l),
                );
                assert(false);
            }
        }
        match self.buffer.offset_of(self.viewport.first_visible_line, &self.cursor) {
            Some(off) => off,
            None => {
                proof {
                    assert(false);
                }
                0
            },
        }
    }

    /// Scroll just far enough that the line of `offset` is visible and
    /// place the cursor on `offset`.
    pub fn reposition_to_offset(&mut self, offset: usize)
        requires
            old(self).buffer.wf(),
            offset < old(self).buffer.buf@.len(),
            old(self).viewport.visible_line_count >= 1,
        ensures
            (final(self).viewport, final(self).cursor) == spec_reposition(
                old(self).buffer.buf@,
                old(self).viewport,
                offset as int,
            ),
            final(self).buffer == old(self).buffer,
            final(self).log == old(self).log,
            final(self).selection == old(self).selection,
            final(self).search == old(self).search,
            final(self).mode == old(self).mode,
            final(self).prompt_input == old(self).prompt_input,
            final(self).is_search_changed == old(self).is_search_changed,
            final(self).is_file_changed == old(self).is_file_changed,
            final(self).is_exit == old(self).is_exit,
            final(self).tab_width == old(self).tab_width,
            viewport_in_doc(final(self).buffer.buf@, final(self).viewport),
            cursor_in_doc(
                final(self).buffer.buf@,
                final(self).viewport.first_visible_line as nat,
                final(self).cursor,
            ),
            final(self).cursor.row < final(self).viewport.visible_line_count,
            cursor_offset(
                final(self).buffer.buf@,
                final(self).viewport.first_visible_line as nat,
                final(self).cursor,
            ) == offset,
    {
        let ghost s = self.buffer.buf@;
        proof {
            lemma_col_within_line(s, offset as int);
            crate::mapper::lemma_offset_position_round_trip(
                s,
                spec_reposition(s, self.viewport, offset as int).0.first_visible_line as nat,
                offset as int,
            );
        }
        let (line, col) = self.buffer.locate_offset(offset);
        let first = if line < self.viewport.first_visible_line {
            line
        } else if line - self.viewport.first_visible_line >= self.viewport.visible_line_count {
            line - self.viewport.visible_line_count + 1
        } else {
            self.viewport.first_visible_line
        };
        self.viewport.first_visible_line = first;
        self.cursor.col = col;
        self.cursor.row = line - first;
    }

    /// Delete the selected span, if a selection is active and spans
    /// anything, as one `DeleteSelection` change through the edit log;
    /// the cursor moves to the lower endpoint and the selection is
    /// cleared. Returns the removed text, for the callers that hand it
    /// to the clipboard.
    pub fn delete_selection(&mut self) -> (deleted: Option<Vec<char>>)
        requires
            old(self).wf(),
        ensures
            final(self).wf(),
            final(self).buffer.buf@ == after_sel_delete(old(self).buffer.buf@, old(self).selection),
            final(self).buffer.name@ == old(self).buffer.name@,
            final(self).selection is None,
            final(self).search == old(self).search,
            final(self).mode == old(self).mode,
            final(self).prompt_input == old(self).prompt_input,
            final(self).is_search_changed == old(self).is_search_changed,
            final(self).is_file_changed == old(self).is_file_changed,
            final(self).is_exit == old(self).is_exit,
            final(self).tab_width == old(self).tab_width,
            if sel_deletes(old(self).buffer.buf@, old(self).selection) {
                let s = old(self).buffer.buf@;
                let sel = old(self).selection->0;
                let lo = sel_lo(sel);
                let end = sel_del_end(s, sel);
                &&& final(self).log.done@.len() == old(self).log.done@.len() + 1
                &&& final(self).log.done@.drop_last() == old(self).log.done@
                &&& (final(self).log.done@.last() matches Change::DeleteSelection(off, t) && off
                    == lo && t@ == s.subrange(lo, end))
                &&& final(self).log.undone@.len() == 0
                &&& (final(self).viewport, final(self).cursor) == spec_reposition(
                    final(self).buffer.buf@,
                    old(self).viewport,
                    lo,
                )
                &&& cursor_offset(
                    final(self).buffer.buf@,
                    final(self).viewport.first_visible_line as nat,
                    final(self).cursor,
                ) == lo
                &&& (deleted matches Some(t) && t@ == s.subrange(lo, end))
            } else {
                &&& final(self).log == old(self).log
                &&& final(self).viewport == old(self).viewport
                &&& final(self).cursor == old(self).cursor
                &&& deleted is None
            },
    {
        let n = self.buffer.buf.len();
        let osel = self.selection;
        match osel {
            None => None,
            Some(sel) => {
                if sel.anchor.offset == sel.moving.offset {
                    self.selection = None;
                    return None;
                }
                let (lo_end, hi_end) = sel.range();
                let lo = lo_end.offset;
                let hi = hi_end.offset;
                if lo == n - 1 {
                    self.selection = None;
                    return None;
                }
                let end = if hi + 1 <= n - 1 {
                    hi + 1
                } else {
                    n - 1
                };
                let text = copy_char_range(&self.buffer.buf, lo, end);
                let removed = copy_char_range(&self.buffer.buf, lo, end);
                let c = Change::DeleteSelection(lo, text);
                proof {
                    assert(change_keeps_terminated(c, self.buffer.buf@));
                }
                self.log.apply(&mut self.buffer, c);
                self.reposition_to_offset(lo);
                self.selection = None;
                Some(removed)
            },
        }
    }
}

/// `n` space characters: what a typed tab expands to.
pub open spec fn spaces(n: nat) -> Seq<char> {
    Seq::new(n, |i: int| ' ')
}

/// The UI-side state an edit operation never touches.
pub open spec fn same_ui(a: EditorState, b: EditorState) -> bool {
    &&& a.mode == b.mode
    &&& a.prompt_input == b.prompt_input
    &&& a.search == b.search
    &&& a.is_search_changed == b.is_search_changed
    &&& a.is_exit == b.is_exit
    &&& a.is_file_changed == b.is_file_changed
    &&& a.tab_width == b.tab_width
    &&& a.buffer.name@ == b.buffer.name@
}

/// The history extended by exactly `c`, with the redo stack cleared.
pub open spec fn log_extended(a: EditLog, b: EditLog, c: Change) -> bool {
    &&& b.done@ == a.done@.push(c)
    &&& b.undone@.len() == 0
    &&& b.base@ == a.base@
}

impl EditorState {
    /// Insert the typed character at the cursor and move the cursor past
    /// it; a tab is recorded as one paste of `tab_width` spaces, undone
    /// atomically. A buffer already at the address-space limit is left
    /// unchanged.
    pub fn type_char(&mut self, c: char)
        requires
            old(self).wf(),
        ensures
            final(self).wf(),
            same_ui(*old(self), *final(self)),
            ({
                let s = old(self).buffer.buf@;
                let off = cursor_offset(s, old(self).viewport.first_visible_line as nat, old(self).cursor);
                let t = if c == '\t' {
                    spaces(old(self).tab_width as nat)
                } else {
                    seq![c]
                };
                if s.len() + t.len() <= usize::MAX && t.len() >= 1 {
                    &&& final(self).selection is None
                    &&& final(self).buffer.buf@ == crate::change::seq_insert_text(s, off, t)
                    &&& log_extended(old(self).log, final(self).log, final(self).log.done@.last())
                    &&& (if c == '\t' {
                        final(self).log.done@.last() matches Change::Paste(o, w) && o == off && w@
                            == t
                    } else {
                        final(self).log.done@.last() == Change::InsertChar(off as usize, c)
                    })
                    &&& (final(self).viewport, final(self).cursor) == spec_reposition(
                        final(self).buffer.buf@,
                        old(self).viewport,
                        off + t.len(),
                    )
                } else {
                    *final(self) == *old(self)
                }
            }),
    {
        let off = self.current_offset();
        let ghost s = self.buffer.buf@;
        let n = self.buffer.buf.len();
        if c == '\t' {
            let width = self.tab_width as usize;
            if width == 0 || n > usize::MAX - width {
                return ;
            }
            let mut t: Vec<char> = Vec::new();
            let mut i: usize = 0;
            proof {
                assert(t@ =~= spaces(0));
            }
            while i < width
                invariant
                    i <= width,
                    t@ == spaces(i as nat),
                decreases width - i,
            {
                t.push(' ');
                proof {
                    assert(spaces(i as nat).push(' ') =~= spaces((i + 1) as nat));
                }
                i = i + 1;
            }
            let ch = Change::Paste(off, t);
            self.log.apply(&mut self.buffer, ch);
            self.reposition_to_offset(off + width);
            self.selection = None;
        } else {
            if n == usize::MAX {
                return ;
            }
            let ch = Change::InsertChar(off, c);
            proof {
                assert(change_keeps_terminated(ch, s));
            }
            self.log.apply(&mut self.buffer, ch);
            self.reposition_to_offset(off + 1);
            self.selection = None;
        }
    }

    /// Split the line at the cursor: insert a terminator and move the
    /// cursor to the start of the new line below.
    pub fn enter_key(&mut self)
        requires
            old(self).wf(),
        ensures
            final(self).wf(),
            same_ui(*old(self), *final(self)),
            ({
                let s = old(self).buffer.buf@;
                let off = cursor_offset(s, old(self).viewport.first_visible_line as nat, old(self).cursor);
                if s.len() < usize::MAX {
                    &&& final(self).selection is None
                    &&& final(self).buffer.buf@ == crate::change::seq_insert_text(s, off, seq!['\n'])
                    &&& log_extended(old(self).log, final(self).log, Change::Enter(off as usize))
                    &&& (final(self).viewport, final(self).cursor) == spec_reposition(
                        final(self).buffer.buf@,
                        old(self).viewport,
                        off + 1,
                    )
                } else {
                    *final(self) == *old(self)
                }
            }),
    {
        let off = self.current_offset();
        let n = self.buffer.buf.len();
        if n == usize::MAX {
            return ;
        }
        let ch = Change::Enter(off);
        self.log.apply(&mut self.buffer, ch);
        self.reposition_to_offset(off + 1);
        self.selection = None;
    }

    /// Remove the character before the cursor; at the very start of the
    /// document a silent no-op.
    pub fn backspace_key(&mut self)
        requires
            old(self).wf(),
        ensures
            final(self).wf(),
            same_ui(*old(self), *final(self)),
            ({
                let s = old(self).buffer.buf@;
                let off = cursor_offset(s, old(self).viewport.first_visible_line as nat, old(self).cursor);
                if off == 0 {
                    *final(self) == *old(self)
                } else {
                    &&& final(self).selection is None
                    &&& final(self).buffer.buf@ == seq_remove_range(s, off - 1, 1)
                    &&& log_extended(
                        old(self).log,
                        final(self).log,
                        Change::Backspace((off - 1) as usize, s[off - 1]),
                    )
                    &&& (final(self).viewport, final(self).cursor) == spec_reposition(
                        final(self).buffer.buf@,
                        old(self).viewport,
                        off - 1,
                    )
                }
            }),
    {
        let off = self.current_offset();
        let ghost s = self.buffer.buf@;
        let _n: usize = self.buffer.buf.len();
        if off == 0 {
            return ;
        }
        let c = self.buffer.buf[off - 1];
        let ch = Change::Backspace(off - 1, c);
        proof {
            assert(s.subrange(off - 1, off as int) =~= seq![s[off - 1]]);
        }
        self.log.apply(&mut self.buffer, ch);
        self.reposition_to_offset(off - 1);
        self.selection = None;
    }

    /// Remove the character under the cursor; on the final terminator a
    /// silent no-op.
    pub fn delete_key(&mut self)
        requires
            old(self).wf(),
        ensures
            final(self).wf(),
            same_ui(*old(self), *final(self)),
            ({
                let s = old(self).buffer.buf@;
                let off = cursor_offset(s, old(self).viewport.first_visible_line as nat, old(self).cursor);
                if off == s.len() - 1 {
                    *final(self) == *old(self)
                } else {
                    &&& final(self).selection is None
                    &&& final(self).buffer.buf@ == seq_remove_range(s, off, 1)
                    &&& log_extended(
                        old(self).log,
                        final(self).log,
                        Change::Delete(off as usize, s[off]),
                    )
                    &&& (final(self).viewport, final(self).cursor) == spec_reposition(
                        final(self).buffer.buf@,
                        old(self).viewport,
                        off,
                    )
                }
            }),
    {
        let off = self.current_offset();
        let ghost s = self.buffer.buf@;
        let n = self.buffer.buf.len();
        if off == n - 1 {
            return ;
        }
        let c = self.buffer.buf[off];
        let ch = Change::Delete(off, c);
        proof {
            assert(s.subrange(off as int, off + 1) =~= seq![s[off as int]]);
        }
        self.log.apply(&mut self.buffer, ch);
        self.reposition_to_offset(off);
        self.selection = None;
    }

    /// Delete from the nearest space before the cursor (inclusive) up to
    /// the cursor, as one change; with no space before the cursor on its
    /// line, a silent no-op.
    pub fn delete_word(&mut self)
        requires
            old(self).wf(),
        ensures
            final(self).wf(),
            same_ui(*old(self), *final(self)),
            ({
                let s = old(self).buffer.buf@;
                let first = old(self).viewport.first_visible_line as nat;
                let st = line_start(s, (first + old(self).cursor.row) as nat);
                let off = cursor_offset(s, first, old(self).cursor);
                if exists|j: int| 0 <= j < old(self).cursor.col && s[#[trigger] (st + j)] == ' ' {
                    (final(self).log.done@.last() matches Change::DeleteWord(o, t) && st <= o < off
                        && s[o as int] == ' ' && (forall|u: int| o < u < off ==> s[u] != ' ') && t@
                        == s.subrange(o as int, off) && final(self).buffer.buf@ == seq_remove_range(
                        s,
                        o as int,
                        off - o,
                    ) && log_extended(old(self).log, final(self).log, final(self).log.done@.last())
                        && final(self).selection is None && (final(self).viewport, final(self).cursor)
                        == spec_reposition(final(self).buffer.buf@, old(self).viewport, o as int))
                } else {
                    *final(self) == *old(self)
                }
            }),
    {
        let ghost s = self.buffer.buf@;
        let _n: usize = self.buffer.buf.len();
        proof {
            lemma_count_newlines_bound(s);
        }
        let line = self.viewport.first_visible_line + self.cursor.row;
        let start = self.buffer.line_start_offset(line).unwrap();
        proof {
            let l = line as nat;
            lemma_line_start_exists(s, l);
            crate::mapper::lemma_line_start_unique(s, line_start(s, l), start as int, l);
        }
        let _k = self.buffer.line_len(line).unwrap();
        let off = self.current_offset();
        let mut j: usize = self.cursor.col;
        while j > 0
            invariant_except_break
                j <= self.cursor.col,
                s == self.buffer.buf@,
                s.len() <= usize::MAX,
                start + self.cursor.col <= s.len(),
                forall|t: int| j <= t < self.cursor.col ==> s[#[trigger] (start + t)] != ' ',
            ensures
                j <= self.cursor.col,
                s == self.buffer.buf@,
                forall|t: int| j <= t < self.cursor.col ==> s[#[trigger] (start + t)] != ' ',
                j > 0 ==> s[start + j - 1] == ' ',
            decreases j,
        {
            if self.buffer.buf[start + j - 1] == ' ' {
                break ;
            }
            j = j - 1;
        }
        if j == 0 {
            return ;
        }
        let from = start + j - 1;
        proof {
            assert(exists|jj: int|
                0 <= jj < self.cursor.col && s[#[trigger] (start as int + jj)] == ' ') by {
                assert(s[start as int + (j - 1)] == ' ');
            }
            assert forall|u: int| from < u < start + self.cursor.col implies s[u] != ' ' by {
                let tt = u - start;
                assert(s[start as int + tt] != ' ');
            }
        }
        let text = copy_char_range(&self.buffer.buf, from, off);
        let ch = Change::DeleteWord(from, text);
        proof {
            assert(change_keeps_terminated(ch, s));
        }
        self.log.apply(&mut self.buffer, ch);
        self.reposition_to_offset(from);
        self.selection = None;
    }

    /// Insert an empty line above the cursor's line and put the cursor on
    /// it. A buffer at the address-space limit is left unchanged.
    pub fn insert_lf_above(&mut self)
        requires
            old(self).wf(),
        ensures
            final(self).wf(),
            same_ui(*old(self), *final(self)),
            ({
                let s = old(self).buffer.buf@;
                let first = old(self).viewport.first_visible_line as nat;
                let st = line_start(s, (first + old(self).cursor.row) as nat);
                if s.len() < usize::MAX {
                    &&& final(self).buffer.buf@ == crate::change::seq_insert_text(s, st, seq!['\n'])
                    &&& log_extended(
                        old(self).log,
                        final(self).log,
                        Change::InsertLFAbove(st as usize),
                    )
                    &&& final(self).selection is None
                    &&& (final(self).viewport, final(self).cursor) == spec_reposition(
                        final(self).buffer.buf@,
                        old(self).viewport,
                        st,
                    )
                } else {
                    *final(self) == *old(self)
                }
            }),
    {
        let ghost s = self.buffer.buf@;
        let n = self.buffer.buf.len();
        proof {
            lemma_count_newlines_bound(s);
        }
        if n == usize::MAX {
            return ;
        }
        let line = self.viewport.first_visible_line + self.cursor.row;
        let st = self.buffer.line_start_offset(line).unwrap();
        proof {
            let l = line as nat;
            lemma_count_newlines_bound(s);
            lemma_line_start_exists(s, l);
            crate::mapper::lemma_line_start_unique(s, line_start(s, l), st as int, l);
            lemma_line_start_exists(s, (l + 1) as nat);
            if line_start(s, (l + 1) as nat) <= st as int {
                lemma_count_newlines_monotonic(s, line_start(s, (l + 1) as nat), st as int);
                assert(false);
            }
        }
        let ch = Change::InsertLFAbove(st);
        self.log.apply(&mut self.buffer, ch);
        self.reposition_to_offset(st);
        self.selection = None;
    }

    /// Insert an empty line below the cursor's line and put the cursor on
    /// it. A buffer at the address-space limit is left unchanged.
    pub fn insert_lf_below(&mut self)
        requires
            old(self).wf(),
        ensures
            final(self).wf(),
            same_ui(*old(self), *final(self)),
            ({
                let s = old(self).buffer.buf@;
                let first = old(self).viewport.first_visible_line as nat;
                let nxt = line_start(s, (first + old(self).cursor.row + 1) as nat);
                if s.len() < usize::MAX {
                    &&& final(self).buffer.buf@ == crate::change::seq_insert_text(s, nxt, seq!['\n'])
                    &&& log_extended(
                        old(self).log,
                        final(self).log,
                        Change::InsertLFBelow(nxt as usize),
                    )
                    &&& final(self).selection is None
                    &&& (final(self).viewport, final(self).cursor) == spec_reposition(
                        final(self).buffer.buf@,
                        old(self).viewport,
                        nxt,
                    )
                } else {
                    *final(self) == *old(self)
                }
            }),
    {
        let ghost s = self.buffer.buf@;
        let n = self.buffer.buf.len();
        proof {
            lemma_count_newlines_bound(s);
        }
        if n == usize::MAX {
            return ;
        }
        let line = self.viewport.first_visible_line + self.cursor.row;
        let st = self.buffer.line_start_offset(line).unwrap();
        let k = self.buffer.line_len(line).unwrap();
        proof {
            let l = line as nat;
            lemma_count_newlines_bound(s);
            lemma_line_start_exists(s, l);
            crate::mapper::lemma_line_start_unique(s, line_start(s, l), st as int, l);
        }
        let nxt = st + k + 1;
        let ch = Change::InsertLFBelow(nxt);
        self.log.apply(&mut self.buffer, ch);
        self.reposition_to_offset(nxt);
        self.selection = None;
    }

    /// The cursor's whole logical line, terminator included.
    pub fn get_curr_line(&self) -> (r: Vec<char>)
        requires
            self.wf(),
        ensures
            ({
                let s = self.buffer.buf@;
                let l = (self.viewport.first_visible_line + self.cursor.row) as nat;
                r@ == s.subrange(line_start(s, l), line_start(s, (l + 1) as nat))
            }),
    {
        let ghost s = self.buffer.buf@;
        let _n: usize = self.buffer.buf.len();
        proof {
            lemma_count_newlines_bound(s);
        }
        let line = self.viewport.first_visible_line + self.cursor.row;
        let st = self.buffer.line_start_offset(line).unwrap();
        let k = self.buffer.line_len(line).unwrap();
        proof {
            let l = line as nat;
            lemma_line_start_exists(s, l);
            crate::mapper::lemma_line_start_unique(s, line_start(s, l), st as int, l);
        }
        copy_char_range(&self.buffer.buf, st, st + k + 1)
    }

    /// Cut the cursor's whole line, terminator included, as one change;
    /// on the last terminated line a silent no-op, so the document never
    /// loses its final terminator.
    pub fn delete_curr_line(&mut self)
        requires
            old(self).wf(),
        ensures
            final(self).wf(),
            same_ui(*old(self), *final(self)),
            ({
                let s = old(self).buffer.buf@;
                let l = (old(self).viewport.first_visible_line + old(self).cursor.row) as nat;
                let st = line_start(s, l);
                let nxt = line_start(s, (l + 1) as nat);
                if l + 1 < count_newlines(s) {
                    &&& final(self).buffer.buf@ == seq_remove_range(s, st, nxt - st)
                    &&& (final(self).log.done@.last() matches Change::CutLine(o, t) && o == st && t@
                        == s.subrange(st, nxt))
                    &&& log_extended(old(self).log, final(self).log, final(self).log.done@.last())
                    &&& final(self).selection is None
                    &&& (final(self).viewport, final(self).cursor) == spec_reposition(
                        final(self).buffer.buf@,
                        old(self).viewport,
                        st,
                    )
                } else {
                    *final(self) == *old(self)
                }
            }),
    {
        let ghost s = self.buffer.buf@;
        let _n: usize = self.buffer.buf.len();
        let lc = self.buffer.line_count();
        let line = self.viewport.first_visible_line + self.cursor.row;
        if line + 1 >= lc {
            return ;
        }
        let st = self.buffer.line_start_offset(line).unwrap();
        let k = self.buffer.line_len(line).unwrap();
        proof {
            let l = line as nat;
            lemma_count_newlines_bound(s);
            lemma_line_start_exists(s, l);
            crate::mapper::lemma_line_start_unique(s, line_start(s, l), st as int, l);
            crate::navigator::lemma_cursor_at_line_origin(s, (l + 1) as nat);
            let st2 = line_start(s, (l + 2) as nat);
            lemma_line_start_exists(s, (l + 2) as nat);
            if st2 <= line_start(s, (l + 1) as nat) {
                lemma_count_newlines_monotonic(s, st2, line_start(s, (l + 1) as nat));
                assert(false);
            }
            assert(line_start(s, (l + 2) as nat) <= s.len());
        }
        let text = copy_char_range(&self.buffer.buf, st, st + k + 1);
        let ch = Change::CutLine(st, text);
        proof {
            assert(change_keeps_terminated(ch, s));
        }
        self.log.apply(&mut self.buffer, ch);
        self.reposition_to_offset(st);
        self.selection = None;
    }

    /// Insert the pasted text at the cursor as one change, undone
    /// atomically; empty text, or a buffer that cannot grow by that much,
    /// is a silent no-op.
    pub fn paste_text(&mut self, t: &Vec<char>)
        requires
            old(self).wf(),
        ensures
            final(self).wf(),
            same_ui(*old(self), *final(self)),
            ({
                let s = old(self).buffer.buf@;
                let off = cursor_offset(s, old(self).viewport.first_visible_line as nat, old(self).cursor);
                if t@.len() >= 1 && s.len() + t@.len() <= usize::MAX {
                    &&& final(self).buffer.buf@ == crate::change::seq_insert_text(s, off, t@)
                    &&& (final(self).log.done@.last() matches Change::Paste(o, w) && o == off && w@
                        == t@)
                    &&& log_extended(old(self).log, final(self).log, final(self).log.done@.last())
                    &&& final(self).selection is None
                    &&& (final(self).viewport, final(self).cursor) == spec_reposition(
                        final(self).buffer.buf@,
                        old(self).viewport,
                        off,
                    )
                } else {
                    *final(self) == *old(self)
                }
            }),
    {
        let n = self.buffer.buf.len();
        if t.len() == 0 || n > usize::MAX - t.len() {
            return ;
        }
        let off = self.current_offset();
        let text = copy_char_range(t, 0, t.len());
        proof {
            assert(t@.subrange(0, t@.len() as int) =~= t@);
        }
        let ch = Change::Paste(off, text);
        self.log.apply(&mut self.buffer, ch);
        self.reposition_to_offset(off);
        self.selection = None;
    }

    /// The text a copy hands to the clipboard: the selected span, both
    /// endpoints inclusive, or the cursor's whole line when nothing is
    /// selected. Copying clears the selection and changes nothing else.
    pub fn copy_text(&mut self) -> (r: Vec<char>)
        requires
            old(self).wf(),
        ensures
            final(self).wf(),
            same_ui(*old(self), *final(self)),
            final(self).buffer == old(self).buffer,
            final(self).log == old(self).log,
            final(self).viewport == old(self).viewport,
            final(self).cursor == old(self).cursor,
            final(self).selection is None,
            ({
                let s = old(self).buffer.buf@;
                match old(self).selection {
                    Some(sel) => r@ == s.subrange(sel_lo(sel), sel_hi(sel) + 1),
                    None => {
                        let l = (old(self).viewport.first_visible_line
                            + old(self).cursor.row) as nat;
                        r@ == s.subrange(line_start(s, l), line_start(s, (l + 1) as nat))
                    },
                }
            }),
    {
        let _n: usize = self.buffer.buf.len();
        let r = match self.selection {
            Some(sel) => {
                let (lo_end, hi_end) = sel.range();
                copy_char_range(&self.buffer.buf, lo_end.offset, hi_end.offset + 1)
            },
            None => self.get_curr_line(),
        };
        self.selection = None;
        r
    }
}

/// The exec offset a change edits at.
fn change_offset_exec(c: &Change) -> (r: usize)
    ensures
        r == crate::change::change_offset(*c),
{
    match c {
        Change::DeleteWord(i, _) => *i,
        Change::DeleteSelection(i, _) => *i,
        Change::Delete(i, _) => *i,
        Change::Backspace(i, _) => *i,
        Change::Enter(i) => *i,
        Change::InsertLFAbove(i) => *i,
        Change::InsertLFBelow(i) => *i,
        Change::InsertChar(i, _) => *i,
        Change::Paste(i, _) => *i,
        Change::CutLine(i, _) => *i,
    }
}

/// The edit's original offset, clamped into the document it is applied
/// to, so the cursor can be placed there.
pub open spec fn clamp_to_doc(off: int, len: int) -> int {
    if off < len {
        off
    } else {
        len - 1
    }
}

impl EditorState {
    /// Undo the most recent change: revert the document, move the change
    /// to the redo stack, and put the cursor at the edit's original
    /// offset. With nothing to undo, a silent no-op.
    pub fn undo(&mut self)
        requires
            old(self).wf(),
        ensures
            final(self).wf(),
            same_ui(*old(self), *final(self)),
            ({
                if old(self).log.done@.len() == 0 {
                    *final(self) == *old(self)
                } else {
                    let c = old(self).log.done@.last();
                    &&& final(self).buffer.buf@ == crate::change::spec_undo(
                        c,
                        old(self).buffer.buf@,
                    )
                    &&& final(self).log.done@ == old(self).log.done@.drop_last()
                    &&& final(self).log.undone@ == old(self).log.undone@.push(c)
                    &&& final(self).selection is None
                    &&& (final(self).viewport, final(self).cursor) == spec_reposition(
                        final(self).buffer.buf@,
                        old(self).viewport,
                        clamp_to_doc(
                            crate::change::change_offset(c),
                            final(self).buffer.buf@.len() as int,
                        ),
                    )
                }
            }),
    {
        if !self.log.can_undo() {
            return ;
        }
        self.log.undo(&mut self.buffer);
        let idx = self.log.undone.len() - 1;
        let t = change_offset_exec(&self.log.undone[idx]);
        let n = self.buffer.buf.len();
        let target = if t < n {
            t
        } else {
            n - 1
        };
        self.reposition_to_offset(target);
        self.selection = None;
    }

    /// Redo the most recently undone change: re-apply it, move it back to
    /// the history, and put the cursor at the edit's original offset.
    /// With nothing to redo, a silent no-op.
    pub fn redo(&mut self)
        requires
            old(self).wf(),
        ensures
            final(self).wf(),
            same_ui(*old(self), *final(self)),
            ({
                if old(self).log.undone@.len() == 0 {
                    *final(self) == *old(self)
                } else {
                    let c = old(self).log.undone@.last();
                    &&& final(self).buffer.buf@ == crate::change::spec_apply(
                        c,
                        old(self).buffer.buf@,
                    )
                    &&& final(self).log.undone@ == old(self).log.undone@.drop_last()
                    &&& final(self).log.done@ == old(self).log.done@.push(c)
                    &&& final(self).selection is None
                    &&& (final(self).viewport, final(self).cursor) == spec_reposition(
                        final(self).buffer.buf@,
                        old(self).viewport,
                        clamp_to_doc(
                            crate::change::change_offset(c),
                            final(self).buffer.buf@.len() as int,
                        ),
                    )
                }
            }),
    {
        if !self.log.can_redo() {
            return ;
        }
        self.log.redo(&mut self.buffer);
        let idx = self.log.done.len() - 1;
        let t = change_offset_exec(&self.log.done[idx]);
        let n = self.buffer.buf.len();
        let target = if t < n {
            t
        } else {
            n - 1
        };
        self.reposition_to_offset(target);
        self.selection = None;
    }

    /// Capture a selection anchor at the current cursor when no selection
    /// is active; an active selection keeps its anchor.
    fn begin_selection_if_none(&mut self)
        requires
            old(self).wf(),
        ensures
            final(self).wf(),
            same_ui(*old(self), *final(self)),
            final(self).buffer == old(self).buffer,
            final(self).log == old(self).log,
            final(self).viewport == old(self).viewport,
            final(self).cursor == old(self).cursor,
            (final(self).selection matches Some(sel) && sel.anchor == (match old(self).selection {
                Some(osel) => osel.anchor,
                None => crate::selection::SelectionEnd {
                    offset: cursor_offset(
                        old(self).buffer.buf@,
                        old(self).viewport.first_visible_line as nat,
                        old(self).cursor,
                    ) as usize,
                    pos: old(self).cursor,
                },
            }) && sel.moving == (match old(self).selection {
                Some(osel) => osel.moving,
                None => sel.anchor,
            })),
    {
        if self.selection.is_none() {
            let off = self.current_offset();
            self.selection = Some(SelectionRange::begin(off, self.cursor));
        }
    }

    /// Set the moving endpoint of the active selection to the current
    /// cursor.
    fn update_moving_to_cursor(&mut self)
        requires
            old(self).wf(),
            old(self).selection is Some,
        ensures
            final(self).wf(),
            same_ui(*old(self), *final(self)),
            final(self).buffer == old(self).buffer,
            final(self).log == old(self).log,
            final(self).viewport == old(self).viewport,
            final(self).cursor == old(self).cursor,
            (final(self).selection matches Some(sel) && sel.anchor == old(self).selection->0.anchor
                && sel.moving.offset == cursor_offset(
                old(self).buffer.buf@,
                old(self).viewport.first_visible_line as nat,
                old(self).cursor,
            ) && sel.moving.pos == old(self).cursor),
    {
        let off = self.current_offset();
        match &mut self.selection {
            Some(sel) => sel.update_moving(off, self.cursor),
            None => (),
        }
    }

    /// Extend (or begin) the selection with a one-column move to the left.
    pub fn shift_select_left(&mut self)
        requires
            old(self).wf(),
        ensures
            final(self).wf(),
            same_ui(*old(self), *final(self)),
            final(self).buffer == old(self).buffer,
            final(self).log == old(self).log,
            final(self).viewport == old(self).viewport,
            final(self).cursor == crate::navigator::spec_move_left(old(self).cursor),
            shift_selection_ok(*old(self), *final(self)),
    {
        self.begin_selection_if_none();
        crate::navigator::move_cursor_left(&mut self.cursor);
        self.update_moving_to_cursor();
    }

    /// Extend (or begin) the selection with a one-column move to the
    /// right.
    pub fn shift_select_right(&mut self)
        requires
            old(self).wf(),
        ensures
            final(self).wf(),
            same_ui(*old(self), *final(self)),
            final(self).buffer == old(self).buffer,
            final(self).log == old(self).log,
            final(self).viewport == old(self).viewport,
            final(self).cursor == crate::navigator::spec_move_right(
                old(self).buffer.buf@,
                old(self).viewport.first_visible_line as nat,
                old(self).cursor,
            ),
            shift_selection_ok(*old(self), *final(self)),
    {
        self.begin_selection_if_none();
        crate::navigator::move_cursor_right(
            &self.buffer,
            self.viewport.first_visible_line,
            &mut self.cursor,
        );
        self.update_moving_to_cursor();
    }

    /// Extend (or begin) the selection with a one-row move up.
    pub fn shift_select_up(&mut self)
        requires
            old(self).wf(),
        ensures
            final(self).wf(),
            same_ui(*old(self), *final(self)),
            final(self).buffer == old(self).buffer,
            final(self).log == old(self).log,
            (final(self).viewport, final(self).cursor) == crate::navigator::spec_move_up(
                old(self).buffer.buf@,
                old(self).viewport,
                old(self).cursor,
            ),
            shift_selection_ok(*old(self), *final(self)),
    {
        self.begin_selection_if_none();
        crate::navigator::move_cursor_up(&self.buffer, &mut self.viewport, &mut self.cursor);
        self.update_moving_to_cursor();
    }

    /// Extend (or begin) the selection with a one-row move down.
    pub fn shift_select_down(&mut self)
        requires
            old(self).wf(),
        ensures
            final(self).wf(),
            same_ui(*old(self), *final(self)),
            final(self).buffer == old(self).buffer,
            final(self).log == old(self).log,
            (final(self).viewport, final(self).cursor) == crate::navigator::spec_move_down(
                old(self).buffer.buf@,
                old(self).viewport,
                old(self).cursor,
            ),
            shift_selection_ok(*old(self), *final(self)),
    {
        self.begin_selection_if_none();
        crate::navigator::move_cursor_down(&self.buffer, &mut self.viewport, &mut self.cursor);
        self.update_moving_to_cursor();
    }
}

/// After a shift-modified movement: the anchor is the old one (or the old
/// cursor when the selection just began) and the moving endpoint is the
/// cursor after the move.
pub open spec fn shift_selection_ok(a: EditorState, b: EditorState) -> bool {
    b.selection matches Some(sel) && sel.anchor == (match a.selection {
        Some(osel) => osel.anchor,
        None => crate::selection::SelectionEnd {
            offset: cursor_offset(
                a.buffer.buf@,
                a.viewport.first_visible_line as nat,
                a.cursor,
            ) as usize,
            pos: a.cursor,
        },
    }) && sel.moving.offset == cursor_offset(
        b.buffer.buf@,
        b.viewport.first_visible_line as nat,
        b.cursor,
    ) && sel.moving.pos == b.cursor
}

/// The cursor cell a mouse position resolves to, clamped into the
/// document: the row into the window and onto a terminated line, the
/// column onto a real cell of that line.
pub open spec fn spec_click(s: Seq<char>, vp: ViewportState, pos: CursorPosition) -> CursorPosition {
    let row0 = if pos.row < vp.visible_line_count {
        pos.row as int
    } else {
        vp.visible_line_count - 1
    };
    let l = if vp.first_visible_line + row0 < count_newlines(s) {
        vp.first_visible_line + row0
    } else {
        count_newlines(s) - 1
    };
    let k = crate::mapper::line_content_len(s, l as nat);
    let col = if pos.col <= k {
        pos.col as int
    } else {
        k
    };
    CursorPosition { col: col as usize, row: (l - vp.first_visible_line) as usize }
}

impl EditorState {
    /// Place the cursor on the cell a mouse position resolved to, clamped
    /// into the document, and clear the selection.
    pub fn click_at(&mut self, pos: CursorPosition)
        requires
            old(self).wf(),
        ensures
            final(self).wf(),
            same_ui(*old(self), *final(self)),
            final(self).buffer == old(self).buffer,
            final(self).log == old(self).log,
            final(self).viewport == old(self).viewport,
            final(self).selection is None,
            final(self).cursor == spec_click(old(self).buffer.buf@, old(self).viewport, pos),
    {
        let ghost s = self.buffer.buf@;
        let _n: usize = self.buffer.buf.len();
        proof {
            lemma_count_newlines_bound(s);
        }
        let lc = self.buffer.line_count();
        let row0 = if pos.row < self.viewport.visible_line_count {
            pos.row
        } else {
            self.viewport.visible_line_count - 1
        };
        let l = if row0 <= lc - 1 - self.viewport.first_visible_line {
            self.viewport.first_visible_line + row0
        } else {
            lc - 1
        };
        let k = self.buffer.line_len(l).unwrap();
        let col = if pos.col <= k {
            pos.col
        } else {
            k
        };
        self.cursor.col = col;
        self.cursor.row = l - self.viewport.first_visible_line;
        self.selection = None;
    }

    /// Begin a drag selection at the current cursor if none is active.
    pub fn begin_drag(&mut self)
        requires
            old(self).wf(),
        ensures
            final(self).wf(),
            same_ui(*old(self), *final(self)),
            final(self).buffer == old(self).buffer,
            final(self).log == old(self).log,
            final(self).viewport == old(self).viewport,
            final(self).cursor == old(self).cursor,
            (final(self).selection matches Some(sel) && sel.anchor == (match old(self).selection {
                Some(osel) => osel.anchor,
                None => crate::selection::SelectionEnd {
                    offset: cursor_offset(
                        old(self).buffer.buf@,
                        old(self).viewport.first_visible_line as nat,
                        old(self).cursor,
                    ) as usize,
                    pos: old(self).cursor,
                },
            })),
    {
        self.begin_selection_if_none();
    }

    /// Track a drag: move the cursor to the resolved cell and extend the
    /// moving endpoint of the selection to it.
    pub fn drag_to(&mut self, pos: CursorPosition)
        requires
            old(self).wf(),
        ensures
            final(self).wf(),
            same_ui(*old(self), *final(self)),
            final(self).buffer == old(self).buffer,
            final(self).log == old(self).log,
            final(self).viewport == old(self).viewport,
            final(self).cursor == spec_click(old(self).buffer.buf@, old(self).viewport, pos),
            shift_selection_ok(*old(self), *final(self)),
    {
        self.begin_selection_if_none();
        let sel = self.selection;
        self.click_at(pos);
        self.selection = sel;
        self.update_moving_to_cursor();
    }

    /// Finish a drag: a zero-width selection collapses to none.
    pub fn end_drag(&mut self)
        requires
            old(self).wf(),
        ensures
            final(self).wf(),
            same_ui(*old(self), *final(self)),
            final(self).buffer == old(self).buffer,
            final(self).log == old(self).log,
            final(self).viewport == old(self).viewport,
            final(self).cursor == old(self).cursor,
            final(self).selection == (match old(self).selection {
                Some(sel) => if sel.anchor.offset == sel.moving.offset {
                    None::<SelectionRange>
                } else {
                    Some(sel)
                },
                None => None::<SelectionRange>,
            }),
    {
        match self.selection {
            Some(sel) => {
                if sel.is_collapsed() {
                    self.selection = None;
                }
            },
            None => (),
        }
    }
}

/// A key event inside a modal prompt (go-to-line, find).
#[derive(Clone, Copy, PartialEq, Eq, Structural, Debug)]
pub enum PromptEvent {
    Escape,
    Enter,
    Backspace,
    Char(char),
}

/// A digit character.
pub open spec fn is_digit(c: char) -> bool {
    48 <= c as u32 <= 57
}

/// Every character of `q` is a digit.
pub open spec fn all_digits(q: Seq<char>) -> bool {
    forall|i: int| 0 <= i < q.len() ==> is_digit(#[trigger] q[i])
}

/// The number the digit string `q` denotes, most significant digit first.
pub open spec fn digits_val(q: Seq<char>) -> int
    decreases q.len(),
{
    if q.len() == 0 {
        0
    } else {
        digits_val(q.drop_last()) * 10 + (q.last() as u32 - 48)
    }
}

/// A character the find prompt accepts into the query: printable ASCII
/// or ASCII whitespace.
pub open spec fn is_find_input_char(c: char) -> bool {
    let u = c as u32;
    (33 <= u <= 126) || u == 32 || u == 9 || u == 10 || u == 13 || u == 11 || u == 12
}

fn is_find_input_char_exec(c: char) -> (r: bool)
    ensures
        r == is_find_input_char(c),
{
    let u = c as u32;
    (33 <= u && u <= 126) || u == 32 || u == 9 || u == 10 || u == 13 || u == 11 || u == 12
}

/// Parse the prompt as a decimal line number: `None` on an empty string,
/// a non-digit, or a value that does not fit in a machine word.
pub fn parse_line_number(q: &Vec<char>) -> (r: Option<usize>)
    ensures
        match r {
            Some(v) => q@.len() >= 1 && all_digits(q@) && v == digits_val(q@),
            None => q@.len() == 0 || !all_digits(q@) || digits_val(q@) > usize::MAX,
        },
{
    if q.len() == 0 {
        return None;
    }
    let ghost qs = q@;
    let mut v: u128 = 0;
    let mut i: usize = 0;
    proof {
        assert(qs.take(0) =~= Seq::<char>::empty());
    }
    while i < q.len()
        invariant
            i <= qs.len(),
            qs == q@,
            all_digits(qs.take(i as int)),
            v == digits_val(qs.take(i as int)),
            v <= usize::MAX,
        decreases qs.len() - i,
    {
        let c = q[i];
        let u = c as u32;
        if !(48 <= u && u <= 57) {
            return None;
        }
        let d = (u - 48) as u128;
        let next: u128 = v * 10 + d;
        proof {
            assert(qs.take(i + 1).drop_last() =~= qs.take(i as int));
            assert(qs.take(i + 1).last() == qs[i as int]);
            assert forall|t: int| 0 <= t < i + 1 implies is_digit(#[trigger] qs.take(i + 1)[t]) by {
                if t < i {
                    assert(qs.take(i + 1)[t] == qs.take(i as int)[t]);
                }
            }
        }
        if next > usize::MAX as u128 {
            proof {
                if all_digits(qs) {
                    lemma_digits_val_grows(qs, i + 1);
                }
            }
            return None;
        }
        v = next;
        i = i + 1;
    }
    proof {
        assert(qs.take(qs.len() as int) =~= qs);
    }
    Some(v as usize)
}

/// A string of digits denotes a non-negative number.
proof fn lemma_digits_val_nonneg(q: Seq<char>)
    requires
        all_digits(q),
    ensures
        digits_val(q) >= 0,
    decreases q.len(),
{
    if q.len() > 0 {
        assert forall|t: int| 0 <= t < q.drop_last().len() implies is_digit(
            #[trigger] q.drop_last()[t],
        ) by {
            assert(q.drop_last()[t] == q[t]);
        }
        lemma_digits_val_nonneg(q.drop_last());
        assert(is_digit(q.last()));
    }
}

/// A digit string's value only grows as digits are appended.
proof fn lemma_digits_val_grows(q: Seq<char>, i: int)
    requires
        0 <= i <= q.len(),
        all_digits(q),
    ensures
        digits_val(q) >= digits_val(q.take(i)),
    decreases q.len() - i,
{
    if i < q.len() {
        assert(q.take(i + 1).drop_last() =~= q.take(i));
        assert(q.take(i + 1).last() == q[i]);
        assert forall|t: int| 0 <= t < i implies is_digit(#[trigger] q.take(i)[t]) by {
            assert(q.take(i)[t] == q[t]);
        }
        lemma_digits_val_nonneg(q.take(i));
        assert(is_digit(q[i]));
        assert(digits_val(q.take(i + 1)) >= digits_val(q.take(i)));
        lemma_digits_val_grows(q, i + 1);
    } else {
        assert(q.take(i) =~= q);
    }
}

impl EditorState {
    /// Recompute the match list for the current prompt text. An empty
    /// query yields no matches. The current-match index is kept when it
    /// still addresses a match, else reset to the first.
    pub fn run_search(&mut self, case_sensitive: bool)
        requires
            old(self).wf(),
        ensures
            final(self).wf(),
            final(self).buffer == old(self).buffer,
            final(self).log == old(self).log,
            final(self).viewport == old(self).viewport,
            final(self).cursor == old(self).cursor,
            final(self).selection == old(self).selection,
            final(self).mode == old(self).mode,
            final(self).prompt_input == old(self).prompt_input,
            final(self).is_search_changed == old(self).is_search_changed,
            final(self).is_file_changed == old(self).is_file_changed,
            final(self).is_exit == old(self).is_exit,
            final(self).tab_width == old(self).tab_width,
            final(self).search.last_query@ == old(self).prompt_input@,
            if old(self).prompt_input@.len() >= 1 {
                crate::search::search_results_ok(
                    old(self).buffer.buf@,
                    old(self).prompt_input@,
                    case_sensitive,
                    final(self).search.results@,
                )
            } else {
                final(self).search.results@.len() == 0
            },
            final(self).search.current == if old(self).search.current
                < final(self).search.results@.len() {
                old(self).search.current as int
            } else {
                0int
            },
    {
        let results = if self.prompt_input.len() >= 1 {
            crate::search::search(&self.buffer, &self.prompt_input, case_sensitive)
        } else {
            Vec::new()
        };
        let lq = copy_char_range(&self.prompt_input, 0, self.prompt_input.len());
        proof {
            assert(self.prompt_input@.subrange(0, self.prompt_input@.len() as int)
                =~= self.prompt_input@);
        }
        self.search.results = results;
        self.search.last_query = lq;
        if !(self.search.current < self.search.results.len()) {
            self.search.current = 0;
        }
    }

    /// Scroll so the current match's line becomes the window's first row
    /// and put the cursor at the match start, both clamped defensively
    /// into the document in case the match list is stale. With no matches
    /// a no-op.
    pub fn jump_to_current_match(&mut self)
        requires
            old(self).wf(),
        ensures
            final(self).wf(),
            final(self).buffer == old(self).buffer,
            final(self).log == old(self).log,
            final(self).selection == old(self).selection,
            final(self).search == old(self).search,
            final(self).mode == old(self).mode,
            final(self).prompt_input == old(self).prompt_input,
            final(self).is_search_changed == old(self).is_search_changed,
            final(self).is_file_changed == old(self).is_file_changed,
            final(self).is_exit == old(self).is_exit,
            final(self).tab_width == old(self).tab_width,
            final(self).viewport.visible_line_count == old(self).viewport.visible_line_count,
            ({
                let s = old(self).buffer.buf@;
                if old(self).search.results@.len() == 0 {
                    final(self).viewport == old(self).viewport && final(self).cursor == old(
                        self,
                    ).cursor
                } else {
                    let e = old(self).search.results@[old(self).search.current as int];
                    let l = if e.1.1 < count_newlines(s) {
                        e.1.1 as int
                    } else {
                        count_newlines(s) - 1
                    };
                    let k = crate::mapper::line_content_len(s, l as nat);
                    let col = if e.1.0 <= k {
                        e.1.0 as int
                    } else {
                        k
                    };
                    &&& final(self).viewport.first_visible_line == l
                    &&& final(self).cursor.col == col
                    &&& final(self).cursor.row == 0
                }
            }),
    {
        let ghost s = self.buffer.buf@;
        if self.search.results.len() == 0 {
            return ;
        }
        let _n: usize = self.buffer.buf.len();
        proof {
            lemma_count_newlines_bound(s);
        }
        let lc = self.buffer.line_count();
        let e = self.search.results[self.search.current];
        let l = if e.1.1 < lc {
            e.1.1
        } else {
            lc - 1
        };
        let k = self.buffer.line_len(l).unwrap();
        let col = if e.1.0 <= k {
            e.1.0
        } else {
            k
        };
        self.viewport.first_visible_line = l;
        self.cursor.col = col;
        self.cursor.row = 0;
    }

    /// One key of the find prompt. Escape leaves find mode; typing edits
    /// the query and marks it changed; Enter recomputes the matches when
    /// the query changed, and otherwise steps to the next (or, searching
    /// backwards, previous) match, wrapping around, and jumps to it.
    /// Returns whether the prompt is finished.
    pub fn find_step(&mut self, ev: PromptEvent, backwards: bool, case_sensitive: bool) -> (done:
        bool)
        requires
            old(self).wf(),
        ensures
            final(self).wf(),
            final(self).buffer == old(self).buffer,
            final(self).log == old(self).log,
            final(self).selection == old(self).selection,
            final(self).is_file_changed == old(self).is_file_changed,
            final(self).is_exit == old(self).is_exit,
            final(self).tab_width == old(self).tab_width,
            ({
                match ev {
                    PromptEvent::Escape => {
                        &&& done
                        &&& final(self).mode == Modes::Edit
                        &&& final(self).prompt_input@.len() == 0
                        &&& !final(self).is_search_changed
                        &&& final(self).viewport == old(self).viewport
                        &&& final(self).cursor == old(self).cursor
                        &&& final(self).search == old(self).search
                    },
                    PromptEvent::Backspace => {
                        &&& !done
                        &&& final(self).prompt_input@ == (if old(self).prompt_input@.len() > 0 {
                            old(self).prompt_input@.drop_last()
                        } else {
                            old(self).prompt_input@
                        })
                        &&& final(self).search.last_query@ == final(self).prompt_input@
                        &&& final(self).search.results == old(self).search.results
                        &&& (old(self).prompt_input@.len() > 0 ==> final(self).is_search_changed)
                        &&& final(self).viewport == old(self).viewport
                        &&& final(self).cursor == old(self).cursor
                        &&& final(self).mode == old(self).mode
                    },
                    PromptEvent::Char(c) => {
                        &&& !done
                        &&& (if is_find_input_char(c) {
                            &&& final(self).prompt_input@ == old(self).prompt_input@.push(c)
                            &&& final(self).is_search_changed
                            &&& final(self).search.last_query@ == final(self).prompt_input@
                            &&& final(self).search.results == old(self).search.results
                        } else {
                            &&& final(self).prompt_input == old(self).prompt_input
                            &&& final(self).search == old(self).search
                            &&& final(self).is_search_changed == old(self).is_search_changed
                        })
                        &&& final(self).viewport == old(self).viewport
                        &&& final(self).cursor == old(self).cursor
                        &&& final(self).mode == old(self).mode
                    },
                    PromptEvent::Enter => {
                        if old(self).is_search_changed {
                            &&& !done
                            &&& !final(self).is_search_changed
                            &&& final(self).search.last_query@ == old(self).prompt_input@
                            &&& (if old(self).prompt_input@.len() >= 1 {
                                crate::search::search_results_ok(
                                    old(self).buffer.buf@,
                                    old(self).prompt_input@,
                                    case_sensitive,
                                    final(self).search.results@,
                                )
                            } else {
                                final(self).search.results@.len() == 0
                            })
                            &&& final(self).viewport == old(self).viewport
                            &&& final(self).cursor == old(self).cursor
                            &&& final(self).mode == old(self).mode
                        } else if old(self).search.results@.len() == 0 {
                            &&& done
                            &&& final(self).mode == Modes::Edit
                            &&& final(self).viewport == old(self).viewport
                            &&& final(self).cursor == old(self).cursor
                            &&& final(self).search == old(self).search
                        } else {
                            &&& !done
                            &&& final(self).search.results == old(self).search.results
                            &&& final(self).search.current == (if backwards {
                                if old(self).search.current == 0 {
                                    old(self).search.results@.len() - 1
                                } else {
                                    old(self).search.current - 1
                                }
                            } else {
                                if old(self).search.current + 1 < old(self).search.results@.len() {
                                    old(self).search.current + 1
                                } else {
                                    0int
                                }
                            })
                            &&& final(self).cursor.row == 0
                            &&& final(self).mode == old(self).mode
                        }
                    },
                }
            }),
    {
        match ev {
            PromptEvent::Escape => {
                self.prompt_input = Vec::new();
                self.is_search_changed = false;
                self.mode = Modes::Edit;
                true
            },
            PromptEvent::Backspace => {
                let had = self.prompt_input.len() > 0;
                if had {
                    self.prompt_input.pop();
                    self.is_search_changed = true;
                }
                let lq = copy_char_range(&self.prompt_input, 0, self.prompt_input.len());
                proof {
                    assert(self.prompt_input@.subrange(0, self.prompt_input@.len() as int)
                        =~= self.prompt_input@);
                }
                self.search.last_query = lq;
                false
            },
            PromptEvent::Char(c) => {
                if is_find_input_char_exec(c) {
                    self.prompt_input.push(c);
                    self.is_search_changed = true;
                    let lq = copy_char_range(&self.prompt_input, 0, self.prompt_input.len());
                    proof {
                        assert(self.prompt_input@.subrange(0, self.prompt_input@.len() as int)
                            =~= self.prompt_input@);
                    }
                    self.search.last_query = lq;
                }
                false
            },
            PromptEvent::Enter => {
                if self.is_search_changed {
                    self.run_search(case_sensitive);
                    self.is_search_changed = false;
                    false
                } else if self.search.results.len() == 0 {
                    self.mode = Modes::Edit;
                    true
                } else {
                    if backwards {
                        self.search.retreat();
                    } else {
                        self.search.advance();
                    }
                    self.jump_to_current_match();
                    false
                }
            },
        }
    }

    /// One key of the go-to-line prompt: digits accumulate, backspace
    /// erases, Escape cancels, Enter jumps to the entered line (the
    /// current one when the input is empty or malformed), clamped into
    /// the document; the entered number is 1-based. Returns whether the
    /// prompt is finished.
    pub fn go_to_line_step(&mut self, ev: PromptEvent) -> (done: bool)
        requires
            old(self).wf(),
        ensures
            final(self).wf(),
            final(self).buffer == old(self).buffer,
            final(self).log == old(self).log,
            final(self).selection == old(self).selection,
            final(self).search == old(self).search,
            final(self).is_file_changed == old(self).is_file_changed,
            final(self).is_exit == old(self).is_exit,
            final(self).tab_width == old(self).tab_width,
            final(self).viewport.visible_line_count == old(self).viewport.visible_line_count,
            ({
                match ev {
                    PromptEvent::Escape => {
                        &&& done
                        &&& final(self).mode == Modes::Edit
                        &&& final(self).prompt_input@.len() == 0
                        &&& final(self).viewport == old(self).viewport
                        &&& final(self).cursor == old(self).cursor
                    },
                    PromptEvent::Backspace => {
                        &&& !done
                        &&& final(self).prompt_input@ == (if old(self).prompt_input@.len() > 0 {
                            old(self).prompt_input@.drop_last()
                        } else {
                            old(self).prompt_input@
                        })
                        &&& final(self).viewport == old(self).viewport
                        &&& final(self).cursor == old(self).cursor
                        &&& final(self).mode == old(self).mode
                    },
                    PromptEvent::Char(c) => {
                        &&& !done
                        &&& final(self).prompt_input@ == (if is_digit(c) {
                            old(self).prompt_input@.push(c)
                        } else {
                            old(self).prompt_input@
                        })
                        &&& final(self).viewport == old(self).viewport
                        &&& final(self).cursor == old(self).cursor
                        &&& final(self).mode == old(self).mode
                    },
                    PromptEvent::Enter => {
                        let s = old(self).buffer.buf@;
                        let q = old(self).prompt_input@;
                        let lc = count_newlines(s);
                        let entered = if q.len() >= 1 && all_digits(q) && digits_val(q)
                            <= usize::MAX {
                            digits_val(q)
                        } else {
                            old(self).viewport.first_visible_line + old(self).cursor.row + 1
                        };
                        let clamped = if entered > lc {
                            lc as int
                        } else if entered < 1 {
                            1int
                        } else {
                            entered
                        };
                        &&& done
                        &&& final(self).mode == Modes::Edit
                        &&& final(self).prompt_input@.len() == 0
                        &&& final(self).viewport.first_visible_line == clamped - 1
                        &&& final(self).cursor.col == 0 && final(self).cursor.row == 0
                    },
                }
            }),
    {
        match ev {
            PromptEvent::Escape => {
                self.prompt_input = Vec::new();
                self.mode = Modes::Edit;
                true
            },
            PromptEvent::Backspace => {
                if self.prompt_input.len() > 0 {
                    self.prompt_input.pop();
                }
                false
            },
            PromptEvent::Char(c) => {
                let u = c as u32;
                if 48 <= u && u <= 57 {
                    self.prompt_input.push(c);
                }
                false
            },
            PromptEvent::Enter => {
                let ghost s = self.buffer.buf@;
                let _n: usize = self.buffer.buf.len();
                proof {
                    lemma_count_newlines_bound(s);
                }
                let lc = self.buffer.line_count();
                let entered = match parse_line_number(&self.prompt_input) {
                    Some(v) => v,
                    None => self.viewport.first_visible_line + self.cursor.row + 1,
                };
                let clamped = if entered > lc {
                    lc
                } else if entered < 1 {
                    1
                } else {
                    entered
                };
                self.viewport.first_visible_line = clamped - 1;
                self.cursor.col = 0;
                self.cursor.row = 0;
                self.prompt_input = Vec::new();
                self.mode = Modes::Edit;
                proof {
                    crate::navigator::lemma_cursor_at_line_origin(
                        s,
                        self.viewport.first_visible_line as nat,
                    );
                }
                true
            },
        }
    }

    /// One key of the unsaved-changes confirmation: `y` quits without
    /// saving, `n` returns to editing, anything else is ignored. Returns
    /// whether the prompt is finished.
    pub fn prompt_unsaved_step(&mut self, c: char) -> (done: bool)
        requires
            old(self).wf(),
        ensures
            final(self).wf(),
            final(self).buffer == old(self).buffer,
            final(self).log == old(self).log,
            final(self).viewport == old(self).viewport,
            final(self).cursor == old(self).cursor,
            final(self).selection == old(self).selection,
            final(self).search == old(self).search,
            final(self).prompt_input == old(self).prompt_input,
            final(self).is_file_changed == old(self).is_file_changed,
            final(self).tab_width == old(self).tab_width,
            if c == 'y' {
                done && final(self).is_exit && final(self).mode == Modes::Edit
            } else if c == 'n' {
                done && final(self).is_exit == old(self).is_exit && final(self).mode == Modes::Edit
            } else {
                !done && *final(self) == *old(self)
            },
    {
        if c == 'y' {
            self.is_exit = true;
            self.mode = Modes::Edit;
            true
        } else if c == 'n' {
            self.mode = Modes::Edit;
            true
        } else {
            false
        }
    }

    /// Leave the help page (or any modal view) and return to editing.
    pub fn close_modal(&mut self)
        requires
            old(self).wf(),
        ensures
            final(self).wf(),
            final(self).mode == Modes::Edit,
            final(self).buffer == old(self).buffer,
            final(self).log == old(self).log,
            final(self).viewport == old(self).viewport,
            final(self).cursor == old(self).cursor,
            final(self).selection == old(self).selection,
            final(self).search == old(self).search,
            final(self).prompt_input == old(self).prompt_input,
            final(self).is_search_changed == old(self).is_search_changed,
            final(self).is_file_changed == old(self).is_file_changed,
            final(self).is_exit == old(self).is_exit,
            final(self).tab_width == old(self).tab_width,
    {
        self.mode = Modes::Edit;
    }

    /// Replace the document with freshly read raw text: the content is
    /// normalized, the view returns to the top, and history, selection
    /// and search state start over.
    pub fn load_document(&mut self, raw: &Vec<char>)
        requires
            old(self).wf(),
        ensures
            final(self).wf(),
            final(self).buffer.buf@ == crate::buffer::normalized_content(raw@),
            final(self).buffer.name@ == old(self).buffer.name@,
            final(self).viewport.first_visible_line == 0,
            final(self).viewport.visible_line_count == old(self).viewport.visible_line_count,
            final(self).cursor.col == 0 && final(self).cursor.row == 0,
            final(self).log.done@.len() == 0 && final(self).log.undone@.len() == 0,
            final(self).selection is None,
            final(self).search.results@.len() == 0,
            final(self).mode == Modes::Edit,
            !final(self).is_file_changed,
            final(self).is_exit == old(self).is_exit,
            final(self).tab_width == old(self).tab_width,
    {
        self.buffer.load_chars(raw);
        proof {
            let s = self.buffer.buf@;
            crate::mapper::lemma_count_newlines_take_succ(s, s.len() - 1);
            lemma_count_newlines_monotonic(s, 0, s.len() - 1);
            assert(s.take(s.len() as int) =~= s);
            crate::navigator::lemma_cursor_at_line_origin(s, 0);
        }
        self.viewport.first_visible_line = 0;
        self.cursor.col = 0;
        self.cursor.row = 0;
        self.log = EditLog::new(&self.buffer);
        self.selection = None;
        self.search = SearchState::new();
        self.prompt_input = Vec::new();
        self.is_search_changed = false;
        self.is_file_changed = false;
        self.mode = Modes::Edit;
    }
}

/// The session-side state (prompt, search, flags, document name) that a
/// command leaves alone.
pub open spec fn session_frame(a: EditorState, b: EditorState) -> bool {
    &&& b.prompt_input == a.prompt_input
    &&& b.search == a.search
    &&& b.is_search_changed == a.is_search_changed
    &&& b.is_exit == a.is_exit
    &&& b.tab_width == a.tab_width
    &&& b.buffer.name@ == a.buffer.name@
}

/// A pure navigation command: document, history, mode and session state
/// are untouched.
pub open spec fn nav_frame(a: EditorState, b: EditorState) -> bool {
    &&& b.buffer == a.buffer
    &&& b.log == a.log
    &&& b.mode == a.mode
    &&& b.is_file_changed == a.is_file_changed
    &&& session_frame(a, b)
}

/// What one update step does, command by command. `a` is the state the
/// command arrived in, `b` the state it left, `act` the outside work the
/// step asks the shell to perform.
pub open spec fn update_ok(a: EditorState, b: EditorState, cmd: Command, act: Action) -> bool {
    let s = a.buffer.buf@;
    let first = a.viewport.first_visible_line as nat;
    match cmd {
        Command::MoveLeft => {
            &&& act == Action::Nothing
            &&& nav_frame(a, b)
            &&& b.selection is None
            &&& b.viewport == a.viewport
            &&& b.cursor == crate::navigator::spec_move_left(a.cursor)
        },
        Command::MoveRight => {
            &&& act == Action::Nothing
            &&& nav_frame(a, b)
            &&& b.selection is None
            &&& b.viewport == a.viewport
            &&& b.cursor == crate::navigator::spec_move_right(s, first, a.cursor)
        },
        Command::MoveUp => {
            &&& act == Action::Nothing
            &&& nav_frame(a, b)
            &&& b.selection is None
            &&& (b.viewport, b.cursor) == crate::navigator::spec_move_up(s, a.viewport, a.cursor)
        },
        Command::MoveDown => {
            &&& act == Action::Nothing
            &&& nav_frame(a, b)
            &&& b.selection is None
            &&& (b.viewport, b.cursor) == crate::navigator::spec_move_down(s, a.viewport, a.cursor)
        },
        Command::WordMoveLeft => {
            &&& act == Action::Nothing
            &&& nav_frame(a, b)
            &&& b.selection is None
            &&& b.viewport == a.viewport
            &&& crate::navigator::word_left_ok(s, first, a.cursor, b.cursor)
        },
        Command::WordMoveRight => {
            &&& act == Action::Nothing
            &&& nav_frame(a, b)
            &&& b.selection is None
            &&& b.viewport == a.viewport
            &&& crate::navigator::word_right_ok(s, first, a.cursor, b.cursor)
        },
        Command::Home => {
            &&& act == Action::Nothing
            &&& nav_frame(a, b)
            &&& b.selection is None
            &&& b.viewport == a.viewport
            &&& b.cursor == crate::navigator::spec_home(a.cursor)
        },
        Command::End => {
            &&& act == Action::Nothing
            &&& nav_frame(a, b)
            &&& b.selection is None
            &&& b.viewport == a.viewport
            &&& b.cursor == crate::navigator::spec_end(s, first, a.cursor)
        },
        Command::PageUp => {
            &&& act == Action::Nothing
            &&& nav_frame(a, b)
            &&& b.selection is None
            &&& b.viewport == crate::navigator::spec_page_up(a.viewport)
            &&& b.cursor.col == 0 && b.cursor.row == 0
        },
        Command::PageDown => {
            &&& act == Action::Nothing
            &&& nav_frame(a, b)
            &&& b.selection is None
            &&& b.viewport == crate::navigator::spec_page_down(s, a.viewport)
            &&& b.cursor.col == 0 && b.cursor.row == 0
        },
        Command::GoTop => {
            &&& act == Action::Nothing
            &&& nav_frame(a, b)
            &&& b.selection is None
            &&& b.viewport.first_visible_line == 0
            &&& b.viewport.visible_line_count == a.viewport.visible_line_count
            &&& b.cursor.col == 0 && b.cursor.row == 0
        },
        Command::GoBottom => {
            &&& act == Action::Nothing
            &&& nav_frame(a, b)
            &&& b.selection is None
            &&& b.viewport.first_visible_line == crate::navigator::spec_bottom_line(s)
            &&& b.viewport.visible_line_count == a.viewport.visible_line_count
            &&& b.cursor.col == 0 && b.cursor.row == 0
        },
        Command::ShiftSelectLeft => {
            &&& act == Action::Nothing
            &&& nav_frame(a, b)
            &&& b.viewport == a.viewport
            &&& b.cursor == crate::navigator::spec_move_left(a.cursor)
            &&& shift_selection_ok(a, b)
        },
        Command::ShiftSelectRight => {
            &&& act == Action::Nothing
            &&& nav_frame(a, b)
            &&& b.viewport == a.viewport
            &&& b.cursor == crate::navigator::spec_move_right(s, first, a.cursor)
            &&& shift_selection_ok(a, b)
        },
        Command::ShiftSelectUp => {
            &&& act == Action::Nothing
            &&& nav_frame(a, b)
            &&& (b.viewport, b.cursor) == crate::navigator::spec_move_up(s, a.viewport, a.cursor)
            &&& shift_selection_ok(a, b)
        },
        Command::ShiftSelectDown => {
            &&& act == Action::Nothing
            &&& nav_frame(a, b)
            &&& (b.viewport, b.cursor) == crate::navigator::spec_move_down(s, a.viewport, a.cursor)
            &&& shift_selection_ok(a, b)
        },
        Command::ShiftPageUp => act == Action::Nothing && b == a,
        Command::ShiftPageDown => act == Action::Nothing && b == a,
        Command::Undo => {
            if a.log.done@.len() == 0 {
                act == Action::Bell && b == a
            } else {
                let c = a.log.done@.last();
                &&& act == Action::Nothing
                &&& same_ui(a, b)
                &&& b.buffer.buf@ == crate::change::spec_undo(c, s)
                &&& b.log.done@ == a.log.done@.drop_last()
                &&& b.log.undone@ == a.log.undone@.push(c)
                &&& b.selection is None
                &&& (b.viewport, b.cursor) == spec_reposition(
                    b.buffer.buf@,
                    a.viewport,
                    clamp_to_doc(crate::change::change_offset(c), b.buffer.buf@.len() as int),
                )
            }
        },
        Command::Redo => {
            if a.log.undone@.len() == 0 {
                act == Action::Bell && b == a
            } else {
                let c = a.log.undone@.last();
                &&& act == Action::Nothing
                &&& same_ui(a, b)
                &&& b.buffer.buf@ == crate::change::spec_apply(c, s)
                &&& b.log.undone@ == a.log.undone@.drop_last()
                &&& b.log.done@ == a.log.done@.push(c)
                &&& b.selection is None
                &&& (b.viewport, b.cursor) == spec_reposition(
                    b.buffer.buf@,
                    a.viewport,
                    clamp_to_doc(crate::change::change_offset(c), b.buffer.buf@.len() as int),
                )
            }
        },
        Command::Copy => {
            &&& same_ui(a, b)
            &&& b.buffer == a.buffer
            &&& b.log == a.log
            &&& b.viewport == a.viewport
            &&& b.cursor == a.cursor
            &&& b.selection is None
            &&& (act matches Action::SetClipboard(t) && t@ == (match a.selection {
                Some(sel) => s.subrange(sel_lo(sel), sel_hi(sel) + 1),
                None => s.subrange(
                    line_start(s, (first + a.cursor.row) as nat),
                    line_start(s, (first + a.cursor.row + 1) as nat),
                ),
            }))
        },
        Command::Cut => {
            &&& b.is_file_changed
            &&& b.selection is None
            &&& session_frame(a, b)
            &&& b.mode == a.mode
            &&& (match a.selection {
                Some(sel) => {
                    &&& b.buffer.buf@ == after_sel_delete(s, a.selection)
                    &&& (act matches Action::SetClipboard(t) && t@ == (if sel_deletes(
                        s,
                        a.selection,
                    ) {
                        s.subrange(sel_lo(sel), sel_del_end(s, sel))
                    } else {
                        Seq::<char>::empty()
                    }))
                },
                None => {
                    let l = (first + a.cursor.row) as nat;
                    let st = line_start(s, l);
                    let nxt = line_start(s, (l + 1) as nat);
                    &&& (act matches Action::SetClipboard(t) && t@ == s.subrange(st, nxt))
                    &&& b.cursor.col == 0
                    &&& (if first + a.cursor.row + 1 < count_newlines(s) {
                        b.buffer.buf@ == seq_remove_range(s, st, nxt - st)
                    } else {
                        b.buffer.buf@ == s
                    })
                },
            })
        },
        Command::Paste => {
            &&& act == Action::GetClipboard
            &&& b.is_file_changed
            &&& b.selection is None
            &&& session_frame(a, b)
            &&& b.mode == a.mode
            &&& b.buffer.buf@ == after_sel_delete(s, a.selection)
            &&& (if sel_deletes(s, a.selection) {
                (b.viewport, b.cursor) == spec_reposition(
                    b.buffer.buf@,
                    a.viewport,
                    sel_lo(a.selection->0),
                )
            } else {
                b.viewport == a.viewport && b.cursor == a.cursor
            })
        },
        Command::CharPressed(c) => {
            let s1 = after_sel_delete(s, a.selection);
            let vp1 = if sel_deletes(s, a.selection) {
                spec_reposition(s1, a.viewport, sel_lo(a.selection->0)).0
            } else {
                a.viewport
            };
            let off1 = if sel_deletes(s, a.selection) {
                sel_lo(a.selection->0)
            } else {
                cursor_offset(s, first, a.cursor)
            };
            let t = if c == '\t' {
                spaces(a.tab_width as nat)
            } else {
                seq![c]
            };
            &&& act == Action::Nothing
            &&& b.is_file_changed
            &&& b.selection is None
            &&& session_frame(a, b)
            &&& b.mode == a.mode
            &&& (if s1.len() + t.len() <= usize::MAX && t.len() >= 1 {
                b.buffer.buf@ == crate::change::seq_insert_text(s1, off1, t) && (b.viewport,
                b.cursor) == spec_reposition(b.buffer.buf@, vp1, off1 + t.len())
            } else {
                b.buffer.buf@ == s1
            })
        },
        Command::Enter => {
            let s1 = after_sel_delete(s, a.selection);
            let vp1 = if sel_deletes(s, a.selection) {
                spec_reposition(s1, a.viewport, sel_lo(a.selection->0)).0
            } else {
                a.viewport
            };
            let off1 = if sel_deletes(s, a.selection) {
                sel_lo(a.selection->0)
            } else {
                cursor_offset(s, first, a.cursor)
            };
            &&& act == Action::Nothing
            &&& b.is_file_changed
            &&& b.selection is None
            &&& session_frame(a, b)
            &&& b.mode == Modes::Edit
            &&& (if s1.len() < usize::MAX {
                b.buffer.buf@ == crate::change::seq_insert_text(s1, off1, seq!['\n']) && (
                b.viewport, b.cursor) == spec_reposition(b.buffer.buf@, vp1, off1 + 1)
            } else {
                b.buffer.buf@ == s1
            })
        },
        Command::Backspace => {
            &&& act == Action::Nothing
            &&& session_frame(a, b)
            &&& b.mode == a.mode
            &&& (match a.selection {
                Some(_) => {
                    &&& b.is_file_changed
                    &&& b.selection is None
                    &&& b.buffer.buf@ == after_sel_delete(s, a.selection)
                },
                None => {
                    let off = cursor_offset(s, first, a.cursor);
                    if off == 0 {
                        b == a
                    } else {
                        &&& b.is_file_changed
                        &&& b.buffer.buf@ == seq_remove_range(s, off - 1, 1)
                        &&& (b.viewport, b.cursor) == spec_reposition(
                            b.buffer.buf@,
                            a.viewport,
                            off - 1,
                        )
                    }
                },
            })
        },
        Command::Delete => {
            &&& act == Action::Nothing
            &&& session_frame(a, b)
            &&& b.mode == a.mode
            &&& (match a.selection {
                Some(_) => {
                    &&& b.is_file_changed
                    &&& b.selection is None
                    &&& b.buffer.buf@ == after_sel_delete(s, a.selection)
                },
                None => {
                    let off = cursor_offset(s, first, a.cursor);
                    if off == s.len() - 1 {
                        b == a
                    } else {
                        &&& b.is_file_changed
                        &&& b.buffer.buf@ == seq_remove_range(s, off, 1)
                        &&& (b.viewport, b.cursor) == spec_reposition(b.buffer.buf@, a.viewport, off)
                    }
                },
            })
        },
        Command::DeleteWord => {
            let st = line_start(s, (first + a.cursor.row) as nat);
            let off = cursor_offset(s, first, a.cursor);
            &&& act == Action::Nothing
            &&& b.is_file_changed
            &&& b.selection is None
            &&& session_frame(a, b)
            &&& b.mode == a.mode
            &&& (if exists|j: int| 0 <= j < a.cursor.col && s[#[trigger] (st + j)] == ' ' {
                (b.log.done@.last() matches Change::DeleteWord(o, t) && st <= o < off && s[o as int]
                    == ' ' && (forall|u: int| o < u < off ==> s[u] != ' ') && b.buffer.buf@
                    == seq_remove_range(s, o as int, off - o) && (b.viewport, b.cursor)
                    == spec_reposition(b.buffer.buf@, a.viewport, o as int))
            } else {
                b.buffer.buf@ == s && b.viewport == a.viewport && b.cursor == a.cursor
            })
        },
        Command::InsertLFAbove => {
            let st = line_start(s, (first + a.cursor.row) as nat);
            if a.mode == Modes::Edit {
                &&& act == Action::Nothing
                &&& b.is_file_changed
                &&& session_frame(a, b)
                &&& b.mode == a.mode
                &&& (if s.len() < usize::MAX {
                    b.buffer.buf@ == crate::change::seq_insert_text(s, st, seq!['\n']) && (
                    b.viewport, b.cursor) == spec_reposition(b.buffer.buf@, a.viewport, st)
                        && b.selection is None
                } else {
                    b.buffer.buf@ == s
                })
            } else {
                act == Action::Nothing && b == a
            }
        },
        Command::InsertLFBelow => {
            let nxt = line_start(s, (first + a.cursor.row + 1) as nat);
            if a.mode == Modes::Edit {
                &&& act == Action::Nothing
                &&& b.is_file_changed
                &&& session_frame(a, b)
                &&& b.mode == a.mode
                &&& (if s.len() < usize::MAX {
                    b.buffer.buf@ == crate::change::seq_insert_text(s, nxt, seq!['\n']) && (
                    b.viewport, b.cursor) == spec_reposition(b.buffer.buf@, a.viewport, nxt)
                        && b.selection is None
                } else {
                    b.buffer.buf@ == s
                })
            } else {
                act == Action::Nothing && b == a
            }
        },
        Command::Exit => {
            if !a.is_file_changed {
                act == Action::Nothing && b == EditorState { is_exit: true, ..a }
            } else {
                act == Action::PromptUnsaved && b == EditorState { mode: Modes::ModifiedPrompt, ..a }
            }
        },
        Command::Save => {
            if a.is_file_changed {
                act == Action::SaveFile && b == EditorState { is_file_changed: false, ..a }
            } else {
                act == Action::Nothing && b == a
            }
        },
        Command::Help => act == Action::ShowHelpPage && b == EditorState {
            mode: Modes::ShowHelp,
            ..a
        },
        Command::GoToLine => {
            &&& act == Action::PromptGoToLine
            &&& b.mode == Modes::GoToLine
            &&& b.prompt_input@.len() == 0
            &&& b.buffer == a.buffer && b.log == a.log && b.viewport == a.viewport && b.cursor
                == a.cursor && b.selection == a.selection && b.search == a.search
        },
        Command::FindCaseSensitive => {
            &&& act == Action::PromptFind(true)
            &&& b.mode == Modes::FindCaseSensitive
            &&& b.prompt_input@ == a.search.last_query@
            &&& b.buffer == a.buffer && b.log == a.log && b.viewport == a.viewport && b.cursor
                == a.cursor && b.selection == a.selection && b.search == a.search
        },
        Command::FindInCaseSensitive => {
            &&& act == Action::PromptFind(false)
            &&& b.mode == Modes::FindCaseInSensitive
            &&& b.prompt_input@ == a.search.last_query@
            &&& b.buffer == a.buffer && b.log == a.log && b.viewport == a.viewport && b.cursor
                == a.cursor && b.selection == a.selection && b.search == a.search
        },
        Command::OpenDocument => act == Action::OpenFileDialog && b == a,
        Command::MouseLeftClick => act == Action::ResolveMouseClick && b == EditorState {
            selection: None,
            ..a
        },
        Command::MouseDown => act == Action::BeginMouseDrag && b == a,
    }
}

impl EditorState {
    /// Resolve one semantic command: mutate the editor state as the
    /// command demands and report the outside work (saving, clipboard,
    /// dialogs, modal prompts) the shell must do, exactly as `update_ok`
    /// states per command.
    #[verifier::rlimit(100)]
    pub fn update_state(&mut self, cmd: Command) -> (act: Action)
        requires
            old(self).wf(),
        ensures
            final(self).wf(),
            update_ok(*old(self), *final(self), cmd, act),
    {
        match cmd {
            Command::MoveLeft => {
                self.selection = None;
                crate::navigator::move_cursor_left(&mut self.cursor);
                Action::Nothing
            },
            Command::MoveRight => {
                self.selection = None;
                crate::navigator::move_cursor_right(
                    &self.buffer,
                    self.viewport.first_visible_line,
                    &mut self.cursor,
                );
                Action::Nothing
            },
            Command::MoveUp => {
                self.selection = None;
                crate::navigator::move_cursor_up(
                    &self.buffer,
                    &mut self.viewport,
                    &mut self.cursor,
                );
                Action::Nothing
            },
            Command::MoveDown => {
                self.selection = None;
                crate::navigator::move_cursor_down(
                    &self.buffer,
                    &mut self.viewport,
                    &mut self.cursor,
                );
                Action::Nothing
            },
            Command::WordMoveLeft => {
                self.selection = None;
                crate::navigator::move_cursor_left_word(
                    &self.buffer,
                    self.viewport.first_visible_line,
                    &mut self.cursor,
                );
                Action::Nothing
            },
            Command::WordMoveRight => {
                self.selection = None;
                crate::navigator::move_cursor_right_word(
                    &self.buffer,
                    self.viewport.first_visible_line,
                    &mut self.cursor,
                );
                Action::Nothing
            },
            Command::Home => {
                self.selection = None;
                crate::navigator::cursor_home(&mut self.cursor);
                proof {
                    crate::navigator::lemma_cursor_at_line_origin(
                        self.buffer.buf@,
                        (self.viewport.first_visible_line + self.cursor.row) as nat,
                    );
                }
                Action::Nothing
            },
            Command::End => {
                self.selection = None;
                crate::navigator::cursor_end(
                    &self.buffer,
                    self.viewport.first_visible_line,
                    &mut self.cursor,
                );
                Action::Nothing
            },
            Command::PageUp => {
                self.selection = None;
                crate::navigator::page_up(&mut self.viewport, &mut self.cursor);
                proof {
                    crate::navigator::lemma_cursor_at_line_origin(
                        self.buffer.buf@,
                        self.viewport.first_visible_line as nat,
                    );
                }
                Action::Nothing
            },
            Command::PageDown => {
                self.selection = None;
                crate::navigator::page_down(&self.buffer, &mut self.viewport, &mut self.cursor);
                Action::Nothing
            },
            Command::GoTop => {
                self.selection = None;
                crate::navigator::go_top(&mut self.viewport, &mut self.cursor);
                proof {
                    crate::navigator::lemma_cursor_at_line_origin(self.buffer.buf@, 0);
                }
                Action::Nothing
            },
            Command::GoBottom => {
                self.selection = None;
                crate::navigator::go_bottom(&self.buffer, &mut self.viewport, &mut self.cursor);
                Action::Nothing
            },
            Command::ShiftSelectLeft => {
                self.shift_select_left();
                Action::Nothing
            },
            Command::ShiftSelectRight => {
                self.shift_select_right();
                Action::Nothing
            },
            Command::ShiftSelectUp => {
                self.shift_select_up();
                Action::Nothing
            },
            Command::ShiftSelectDown => {
                self.shift_select_down();
                Action::Nothing
            },
            // Page-wise selection is not a supported gesture; inside the
            // edit loop an unsupported command degrades to a no-op.
            Command::ShiftPageUp => Action::Nothing,
            Command::ShiftPageDown => Action::Nothing,
            Command::Undo => {
                if !self.log.can_undo() {
                    return Action::Bell;
                }
                self.undo();
                Action::Nothing
            },
            Command::Redo => {
                if !self.log.can_redo() {
                    return Action::Bell;
                }
                self.redo();
                Action::Nothing
            },
            Command::Copy => {
                let t = self.copy_text();
                Action::SetClipboard(t)
            },
            Command::Cut => {
                self.is_file_changed = true;
                match self.selection {
                    Some(_) => {
                        let deleted = self.delete_selection();
                        match deleted {
                            Some(t) => Action::SetClipboard(t),
                            None => Action::SetClipboard(Vec::new()),
                        }
                    },
                    None => {
                        let line = self.get_curr_line();
                        self.delete_curr_line();
                        crate::navigator::cursor_home(&mut self.cursor);
                        proof {
                            crate::navigator::lemma_cursor_at_line_origin(
                                self.buffer.buf@,
                                (self.viewport.first_visible_line + self.cursor.row) as nat,
                            );
                        }
                        Action::SetClipboard(line)
                    },
                }
            },
            Command::Paste => {
                self.is_file_changed = true;
                let _ = self.delete_selection();
                Action::GetClipboard
            },
            Command::CharPressed(c) => {
                self.is_file_changed = true;
                let _ = self.delete_selection();
                self.type_char(c);
                Action::Nothing
            },
            Command::Enter => {
                self.is_file_changed = true;
                let _ = self.delete_selection();
                self.mode = Modes::Edit;
                self.enter_key();
                Action::Nothing
            },
            Command::Backspace => {
                match self.selection {
                    Some(_) => {
                        self.is_file_changed = true;
                        let _ = self.delete_selection();
                    },
                    None => {
                        let off = self.current_offset();
                        if off > 0 {
                            self.is_file_changed = true;
                        }
                        self.backspace_key();
                    },
                }
                Action::Nothing
            },
            Command::Delete => {
                match self.selection {
                    Some(_) => {
                        self.is_file_changed = true;
                        let _ = self.delete_selection();
                    },
                    None => {
                        let off = self.current_offset();
                        let n = self.buffer.buf.len();
                        if off != n - 1 {
                            self.is_file_changed = true;
                        }
                        self.delete_key();
                    },
                }
                Action::Nothing
            },
            Command::DeleteWord => {
                self.selection = None;
                self.is_file_changed = true;
                self.delete_word();
                Action::Nothing
            },
            Command::InsertLFAbove => {
                if self.mode == Modes::Edit {
                    self.is_file_changed = true;
                    self.insert_lf_above();
                }
                Action::Nothing
            },
            Command::InsertLFBelow => {
                if self.mode == Modes::Edit {
                    self.is_file_changed = true;
                    self.insert_lf_below();
                }
                Action::Nothing
            },
            Command::Exit => {
                if !self.is_file_changed {
                    self.is_exit = true;
                    Action::Nothing
                } else {
                    self.mode = Modes::ModifiedPrompt;
                    Action::PromptUnsaved
                }
            },
            Command::Save => {
                if self.is_file_changed {
                    self.is_file_changed = false;
                    Action::SaveFile
                } else {
                    Action::Nothing
                }
            },
            Command::Help => {
                self.mode = Modes::ShowHelp;
                Action::ShowHelpPage
            },
            Command::GoToLine => {
                self.mode = Modes::GoToLine;
                self.prompt_input = Vec::new();
                Action::PromptGoToLine
            },
            Command::FindCaseSensitive => {
                self.mode = Modes::FindCaseSensitive;
                let lq = copy_char_range(&self.search.last_query, 0, self.search.last_query.len());
                proof {
                    assert(self.search.last_query@.subrange(
                        0,
                        self.search.last_query@.len() as int,
                    ) =~= self.search.last_query@);
                }
                self.prompt_input = lq;
                Action::PromptFind(true)
            },
            Command::FindInCaseSensitive => {
                self.mode = Modes::FindCaseInSensitive;
                let lq = copy_char_range(&self.search.last_query, 0, self.search.last_query.len());
                proof {
                    assert(self.search.last_query@.subrange(
                        0,
                        self.search.last_query@.len() as int,
                    ) =~= self.search.last_query@);
                }
                self.prompt_input = lq;
                Action::PromptFind(false)
            },
            Command::OpenDocument => Action::OpenFileDialog,
            Command::MouseLeftClick => {
                self.selection = None;
                Action::ResolveMouseClick
            },
            Command::MouseDown => Action::BeginMouseDrag,
        }
    }
}

} // verus!
