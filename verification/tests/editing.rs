use rustyed::buffer::Buffer;
use rustyed::change::{apply_change, undo_change, Change};
use rustyed::editlog::EditLog;
use rustyed::position::CursorPosition;
use rustyed::selection::{selection_delete_change, SelectionRange};

fn chars(s: &str) -> Vec<char> {
    s.chars().collect()
}

fn buffer_with(s: &str) -> Buffer {
    let mut b = Buffer::new(String::from("doc"));
    b.load_chars(&chars(s));
    b
}

fn round_trips(doc: &str, c: Change) {
    let mut b = buffer_with(doc);
    let before = b.buf.clone();
    apply_change(&mut b, &c);
    assert_ne!(b.buf, before);
    undo_change(&mut b, &c);
    assert_eq!(b.buf, before);
}

#[test]
fn undo_reverts_insert_char() {
    round_trips("hello\n", Change::InsertChar(2, 'x'));
}

#[test]
fn undo_reverts_enter() {
    round_trips("hello\n", Change::Enter(3));
}

#[test]
fn undo_reverts_delete_and_backspace() {
    round_trips("hello\n", Change::Delete(1, 'e'));
    round_trips("hello\n", Change::Backspace(0, 'h'));
}

#[test]
fn undo_reverts_paste_and_ranges() {
    round_trips("hello\n", Change::Paste(5, chars(" world")));
    round_trips("foo bar\n", Change::DeleteWord(3, chars(" bar")));
    round_trips("abcdef\n", Change::DeleteSelection(1, chars("bcd")));
    round_trips("ab\ncd\n", Change::CutLine(0, chars("ab\n")));
    round_trips("ab\n", Change::InsertLFAbove(0));
    round_trips("ab\n", Change::InsertLFBelow(3));
}

#[test]
fn apply_inserts_and_removes() {
    let mut b = buffer_with("hello\n");
    apply_change(&mut b, &Change::InsertChar(5, '!'));
    assert_eq!(b.buf, chars("hello!\n"));
    apply_change(&mut b, &Change::DeleteSelection(0, chars("hel")));
    assert_eq!(b.buf, chars("lo!\n"));
}

#[test]
fn history_apply_undo_redo() {
    let mut b = buffer_with("ab\n");
    let mut log = EditLog::new(&b);
    let c1 = Change::InsertChar(0, 'x');
    let c2 = Change::InsertChar(1, 'y');
    log.apply(&mut b, c1.clone());
    log.apply(&mut b, c2.clone());
    assert_eq!(b.buf, chars("xyab\n"));
    assert!(log.undo(&mut b));
    assert_eq!(b.buf, chars("xab\n"));
    assert_eq!(log.undone, vec![c2.clone()]);
    assert_eq!(log.done, vec![c1.clone()]);
    assert!(log.redo(&mut b));
    assert_eq!(b.buf, chars("xyab\n"));
    assert_eq!(log.undone, Vec::<Change>::new());
}

#[test]
fn new_change_clears_redo_stack() {
    let mut b = buffer_with("ab\n");
    let mut log = EditLog::new(&b);
    log.apply(&mut b, Change::InsertChar(0, 'x'));
    log.apply(&mut b, Change::InsertChar(1, 'y'));
    assert!(log.undo(&mut b));
    assert_eq!(log.undone.len(), 1);
    log.apply(&mut b, Change::InsertChar(0, 'z'));
    assert_eq!(log.undone.len(), 0);
    assert!(!log.redo(&mut b));
    assert_eq!(b.buf, chars("zxab\n"));
}

#[test]
fn undo_underflow_is_noop() {
    let mut b = buffer_with("ab\n");
    let mut log = EditLog::new(&b);
    assert!(!log.can_undo());
    assert!(!log.undo(&mut b));
    assert!(!log.redo(&mut b));
    assert_eq!(b.buf, chars("ab\n"));
}

#[test]
fn selection_range_orders_endpoints() {
    let mut sel = SelectionRange::begin(5, CursorPosition { col: 5, row: 0 });
    sel.update_moving(2, CursorPosition { col: 2, row: 0 });
    let (lo, hi) = sel.range();
    assert_eq!(lo.offset, 2);
    assert_eq!(hi.offset, 5);
    assert!(!sel.is_collapsed());
}

#[test]
fn collapsed_selection_yields_no_change() {
    let b = buffer_with("abcdef\n");
    let sel = SelectionRange::begin(3, CursorPosition { col: 3, row: 0 });
    assert!(selection_delete_change(&sel, &b).is_none());
}

#[test]
fn selection_on_final_terminator_yields_no_change() {
    let b = buffer_with("ab\n");
    let mut sel = SelectionRange::begin(2, CursorPosition { col: 2, row: 0 });
    sel.update_moving(2, CursorPosition { col: 2, row: 0 });
    assert!(selection_delete_change(&sel, &b).is_none());
}

#[test]
fn selection_delete_is_one_undoable_change() {
    // Selecting offsets [2,5] inclusive deletes the four characters
    // "cdef"; one undo restores all of them.
    let mut b = buffer_with("abcdefg\n");
    let before = b.buf.clone();
    let mut sel = SelectionRange::begin(2, CursorPosition { col: 2, row: 0 });
    sel.update_moving(5, CursorPosition { col: 5, row: 0 });
    let c = selection_delete_change(&sel, &b).unwrap();
    match &c {
        Change::DeleteSelection(off, text) => {
            assert_eq!(*off, 2);
            assert_eq!(text, &chars("cdef"));
        },
        _ => panic!("expected a selection deletion"),
    }
    let mut log = EditLog::new(&b);
    log.apply(&mut b, c);
    assert_eq!(b.buf, chars("abg\n"));
    assert_eq!(log.done.len(), 1);
    assert!(log.undo(&mut b));
    assert_eq!(b.buf, before);
}

#[test]
fn selection_delete_clamps_to_keep_terminator() {
    let mut b = buffer_with("abc\n");
    let mut sel = SelectionRange::begin(1, CursorPosition { col: 1, row: 0 });
    sel.update_moving(3, CursorPosition { col: 3, row: 0 });
    let c = selection_delete_change(&sel, &b).unwrap();
    let mut log = EditLog::new(&b);
    log.apply(&mut b, c);
    assert_eq!(b.buf, chars("a\n"));
}
