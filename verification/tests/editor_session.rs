use rustyed::buffer::Buffer;
use rustyed::editor::{Action, Command, EditorState, Modes, PromptEvent};
use rustyed::position::CursorPosition;
use rustyed::search::{search, SearchState};

fn chars(s: &str) -> Vec<char> {
    s.chars().collect()
}

fn editor_with(s: &str, height: usize) -> EditorState {
    let mut b = Buffer::new(String::from("doc"));
    b.load_chars(&chars(s));
    EditorState::new(b, height, 2)
}

#[test]
fn move_down_twice_then_type() {
    // From offset 0, two rows down and one typed character.
    let mut ed = editor_with("line1\nline2\nline3\n", 10);
    assert_eq!(ed.update_state(Command::MoveDown), Action::Nothing);
    assert_eq!(ed.update_state(Command::MoveDown), Action::Nothing);
    assert_eq!(ed.update_state(Command::CharPressed('X')), Action::Nothing);
    assert_eq!(ed.buffer.buf, chars("line1\nline2\nXline3\n"));
}

#[test]
fn move_left_at_column_zero_is_noop() {
    let mut ed = editor_with("ab\n", 5);
    let before = ed.cursor;
    ed.update_state(Command::MoveLeft);
    assert_eq!(ed.cursor, before);
    ed.update_state(Command::MoveRight);
    ed.update_state(Command::MoveLeft);
    assert_eq!(ed.cursor, before);
}

#[test]
fn go_to_bottom_and_top_on_empty_document() {
    let mut ed = editor_with("", 5);
    ed.update_state(Command::GoBottom);
    assert_eq!(ed.viewport.first_visible_line, 0);
    assert_eq!(ed.cursor, CursorPosition { col: 0, row: 0 });
    ed.update_state(Command::GoTop);
    assert_eq!(ed.viewport.first_visible_line, 0);
    assert_eq!(ed.cursor, CursorPosition { col: 0, row: 0 });
}

#[test]
fn search_finds_ordered_matches() {
    // Case-sensitive search of "abc" in "abcabc".
    let mut b = Buffer::new(String::from("doc"));
    b.load_chars(&chars("abcabc"));
    let r = search(&b, &chars("abc"), true);
    assert_eq!(r, vec![(0, (0, 0)), (1, (3, 0))]);
}

#[test]
fn search_is_case_sensitive_when_asked() {
    let mut b = Buffer::new(String::from("doc"));
    b.load_chars(&chars("ABCabc\nxabC\n"));
    let sensitive = search(&b, &chars("abc"), true);
    assert_eq!(sensitive, vec![(0, (3, 0))]);
    let insensitive = search(&b, &chars("abc"), false);
    assert_eq!(insensitive, vec![(0, (0, 0)), (1, (3, 0)), (2, (1, 1))]);
}

#[test]
fn search_spans_lines_in_reading_order() {
    let mut b = Buffer::new(String::from("doc"));
    b.load_chars(&chars("xx\nxyx\n"));
    let r = search(&b, &chars("x"), true);
    assert_eq!(r, vec![(0, (0, 0)), (1, (1, 0)), (2, (0, 1)), (3, (2, 1))]);
}

#[test]
fn match_navigation_wraps() {
    let mut st = SearchState::new();
    st.results = vec![(0, (0, 0)), (1, (3, 0)), (2, (0, 1))];
    st.current = 1;
    st.advance();
    assert_eq!(st.current, 2);
    st.advance();
    assert_eq!(st.current, 0);
    st.retreat();
    assert_eq!(st.current, 2);
    let (line, pos) = st.jump_target().unwrap();
    assert_eq!(line, 1);
    assert_eq!(pos, CursorPosition { col: 0, row: 0 });
}

#[test]
fn empty_match_list_makes_navigation_noop() {
    let mut st = SearchState::new();
    st.advance();
    st.retreat();
    assert_eq!(st.current, 0);
    assert!(st.jump_target().is_none());
}

#[test]
fn find_session_recomputes_then_jumps() {
    let mut ed = editor_with("abcabc\n", 5);
    assert_eq!(ed.update_state(Command::FindCaseSensitive), Action::PromptFind(true));
    assert_eq!(ed.mode, Modes::FindCaseSensitive);
    for c in "abc".chars() {
        assert!(!ed.find_step(PromptEvent::Char(c), false, true));
    }
    // First Enter recomputes the matches for the changed query.
    assert!(!ed.find_step(PromptEvent::Enter, false, true));
    assert_eq!(ed.search.results, vec![(0, (0, 0)), (1, (3, 0))]);
    // The next Enter advances and jumps.
    assert!(!ed.find_step(PromptEvent::Enter, false, true));
    assert_eq!(ed.search.current, 1);
    assert_eq!(ed.cursor, CursorPosition { col: 3, row: 0 });
    assert!(ed.find_step(PromptEvent::Escape, false, true));
    assert_eq!(ed.mode, Modes::Edit);
}

#[test]
fn go_to_line_session_clamps() {
    let mut ed = editor_with("a\nb\nc\n", 5);
    assert_eq!(ed.update_state(Command::GoToLine), Action::PromptGoToLine);
    assert!(!ed.go_to_line_step(PromptEvent::Char('9')));
    assert!(ed.go_to_line_step(PromptEvent::Enter));
    assert_eq!(ed.viewport.first_visible_line, 2);
    assert_eq!(ed.mode, Modes::Edit);
    ed.update_state(Command::GoToLine);
    assert!(!ed.go_to_line_step(PromptEvent::Char('2')));
    assert!(!ed.go_to_line_step(PromptEvent::Backspace));
    assert!(!ed.go_to_line_step(PromptEvent::Char('1')));
    assert!(ed.go_to_line_step(PromptEvent::Enter));
    assert_eq!(ed.viewport.first_visible_line, 0);
}

#[test]
fn typing_tab_inserts_tab_width_spaces_as_one_change() {
    let mut ed = editor_with("ab\n", 5);
    ed.update_state(Command::CharPressed('\t'));
    assert_eq!(ed.buffer.buf, chars("  ab\n"));
    assert_eq!(ed.cursor, CursorPosition { col: 2, row: 0 });
    ed.update_state(Command::Undo);
    assert_eq!(ed.buffer.buf, chars("ab\n"));
}

#[test]
fn enter_splits_line_and_moves_to_next() {
    let mut ed = editor_with("abcd\n", 5);
    ed.update_state(Command::MoveRight);
    ed.update_state(Command::MoveRight);
    ed.update_state(Command::Enter);
    assert_eq!(ed.buffer.buf, chars("ab\ncd\n"));
    assert_eq!(ed.cursor, CursorPosition { col: 0, row: 1 });
}

#[test]
fn backspace_and_delete() {
    let mut ed = editor_with("abc\n", 5);
    ed.update_state(Command::Delete);
    assert_eq!(ed.buffer.buf, chars("bc\n"));
    ed.update_state(Command::MoveRight);
    ed.update_state(Command::Backspace);
    assert_eq!(ed.buffer.buf, chars("c\n"));
    // Backspace at the very start is a no-op.
    ed.update_state(Command::Backspace);
    assert_eq!(ed.buffer.buf, chars("c\n"));
    // Delete on the final terminator is a no-op.
    ed.update_state(Command::MoveRight);
    ed.update_state(Command::Delete);
    assert_eq!(ed.buffer.buf, chars("c\n"));
}

#[test]
fn word_movement() {
    let mut ed = editor_with("foo bar baz\n", 5);
    ed.update_state(Command::WordMoveRight);
    assert_eq!(ed.cursor.col, 4);
    ed.update_state(Command::WordMoveRight);
    assert_eq!(ed.cursor.col, 8);
    ed.update_state(Command::WordMoveRight);
    assert_eq!(ed.cursor.col, 8);
    ed.update_state(Command::WordMoveLeft);
    assert_eq!(ed.cursor.col, 7);
    ed.update_state(Command::Home);
    assert_eq!(ed.cursor.col, 0);
    ed.update_state(Command::End);
    assert_eq!(ed.cursor.col, 11);
}

#[test]
fn delete_word_removes_back_to_space() {
    let mut ed = editor_with("foo bar\n", 5);
    ed.update_state(Command::End);
    ed.update_state(Command::DeleteWord);
    assert_eq!(ed.buffer.buf, chars("foo\n"));
    ed.update_state(Command::Undo);
    assert_eq!(ed.buffer.buf, chars("foo bar\n"));
}

#[test]
fn page_and_scroll_clamp() {
    let mut ed = editor_with("a\nb\nc\nd\ne\n", 2);
    ed.update_state(Command::PageDown);
    assert_eq!(ed.viewport.first_visible_line, 2);
    ed.update_state(Command::PageDown);
    assert_eq!(ed.viewport.first_visible_line, 4);
    ed.update_state(Command::PageDown);
    assert_eq!(ed.viewport.first_visible_line, 4);
    ed.update_state(Command::PageUp);
    assert_eq!(ed.viewport.first_visible_line, 2);
    ed.update_state(Command::PageUp);
    ed.update_state(Command::PageUp);
    assert_eq!(ed.viewport.first_visible_line, 0);
}

#[test]
fn move_down_scrolls_at_window_bottom() {
    let mut ed = editor_with("a\nb\nc\nd\n", 2);
    ed.update_state(Command::MoveDown);
    assert_eq!(ed.cursor.row, 1);
    assert_eq!(ed.viewport.first_visible_line, 0);
    ed.update_state(Command::MoveDown);
    assert_eq!(ed.viewport.first_visible_line, 1);
    assert_eq!(ed.cursor.row, 1);
    ed.update_state(Command::MoveUp);
    assert_eq!(ed.viewport.first_visible_line, 1);
    assert_eq!(ed.cursor.row, 0);
    ed.update_state(Command::MoveUp);
    assert_eq!(ed.viewport.first_visible_line, 0);
    assert_eq!(ed.cursor.row, 0);
}

#[test]
fn ragged_lines_snap_column() {
    let mut ed = editor_with("long line\nab\n", 5);
    ed.update_state(Command::End);
    assert_eq!(ed.cursor.col, 9);
    ed.update_state(Command::MoveDown);
    assert_eq!(ed.cursor, CursorPosition { col: 2, row: 1 });
}

#[test]
fn copy_without_selection_takes_line() {
    let mut ed = editor_with("ab\ncd\n", 5);
    match ed.update_state(Command::Copy) {
        Action::SetClipboard(t) => assert_eq!(t, chars("ab\n")),
        other => panic!("unexpected action {:?}", other),
    }
}

#[test]
fn cut_line_removes_it_and_undo_restores() {
    let mut ed = editor_with("ab\ncd\n", 5);
    match ed.update_state(Command::Cut) {
        Action::SetClipboard(t) => assert_eq!(t, chars("ab\n")),
        other => panic!("unexpected action {:?}", other),
    }
    assert_eq!(ed.buffer.buf, chars("cd\n"));
    assert!(ed.is_file_changed);
    ed.update_state(Command::Undo);
    assert_eq!(ed.buffer.buf, chars("ab\ncd\n"));
}

#[test]
fn cut_on_last_line_copies_but_keeps_it() {
    let mut ed = editor_with("ab\n", 5);
    match ed.update_state(Command::Cut) {
        Action::SetClipboard(t) => assert_eq!(t, chars("ab\n")),
        other => panic!("unexpected action {:?}", other),
    }
    assert_eq!(ed.buffer.buf, chars("ab\n"));
}

#[test]
fn paste_flow_inserts_clipboard() {
    let mut ed = editor_with("ab\n", 5);
    assert_eq!(ed.update_state(Command::Paste), Action::GetClipboard);
    ed.paste_text(&chars("xy"));
    assert_eq!(ed.buffer.buf, chars("xyab\n"));
    ed.update_state(Command::Undo);
    assert_eq!(ed.buffer.buf, chars("ab\n"));
}

#[test]
fn shift_selection_then_typing_replaces() {
    let mut ed = editor_with("abcd\n", 5);
    ed.update_state(Command::ShiftSelectRight);
    ed.update_state(Command::ShiftSelectRight);
    let sel = ed.selection.expect("selection should be active");
    assert_eq!(sel.anchor.offset, 0);
    assert_eq!(sel.moving.offset, 2);
    ed.update_state(Command::CharPressed('Z'));
    // Typing over the selection deletes the selected span (offsets 0..=2,
    // three characters) and inserts the typed one.
    assert_eq!(ed.buffer.buf, chars("Zd\n"));
    assert!(ed.selection.is_none());
    // Two undo steps restore: first the insertion, then the deletion.
    ed.update_state(Command::Undo);
    ed.update_state(Command::Undo);
    assert_eq!(ed.buffer.buf, chars("abcd\n"));
}

#[test]
fn unmodified_movement_clears_selection() {
    let mut ed = editor_with("abcd\n", 5);
    ed.update_state(Command::ShiftSelectRight);
    assert!(ed.selection.is_some());
    ed.update_state(Command::MoveLeft);
    assert!(ed.selection.is_none());
}

#[test]
fn click_and_drag_select() {
    let mut ed = editor_with("abc\ndef\n", 5);
    assert_eq!(ed.update_state(Command::MouseLeftClick), Action::ResolveMouseClick);
    ed.click_at(CursorPosition { col: 2, row: 1 });
    assert_eq!(ed.cursor, CursorPosition { col: 2, row: 1 });
    assert_eq!(ed.update_state(Command::MouseDown), Action::BeginMouseDrag);
    ed.begin_drag();
    ed.drag_to(CursorPosition { col: 0, row: 0 });
    ed.end_drag();
    let sel = ed.selection.expect("drag should select");
    assert_eq!(sel.anchor.offset, 6);
    assert_eq!(sel.moving.offset, 0);
}

#[test]
fn click_is_clamped_into_document() {
    let mut ed = editor_with("ab\n", 3);
    ed.click_at(CursorPosition { col: 99, row: 99 });
    assert_eq!(ed.cursor, CursorPosition { col: 2, row: 0 });
}

#[test]
fn drag_collapse_clears_selection() {
    let mut ed = editor_with("abc\n", 5);
    ed.begin_drag();
    ed.drag_to(CursorPosition { col: 0, row: 0 });
    ed.end_drag();
    assert!(ed.selection.is_none());
}

#[test]
fn insert_line_above_and_below() {
    let mut ed = editor_with("ab\ncd\n", 5);
    ed.update_state(Command::MoveDown);
    ed.update_state(Command::InsertLFAbove);
    assert_eq!(ed.buffer.buf, chars("ab\n\ncd\n"));
    assert_eq!(ed.cursor, CursorPosition { col: 0, row: 1 });
    ed.update_state(Command::Undo);
    assert_eq!(ed.buffer.buf, chars("ab\ncd\n"));
    ed.update_state(Command::InsertLFBelow);
    assert_eq!(ed.buffer.buf, chars("ab\ncd\n\n"));
    assert_eq!(ed.cursor, CursorPosition { col: 0, row: 2 });
}

#[test]
fn save_and_exit_flow() {
    let mut ed = editor_with("ab\n", 5);
    assert_eq!(ed.update_state(Command::Save), Action::Nothing);
    ed.update_state(Command::CharPressed('x'));
    assert!(ed.is_file_changed);
    assert_eq!(ed.update_state(Command::Save), Action::SaveFile);
    assert!(!ed.is_file_changed);
    assert_eq!(ed.update_state(Command::Exit), Action::Nothing);
    assert!(ed.is_exit);
}

#[test]
fn exit_with_unsaved_changes_prompts() {
    let mut ed = editor_with("ab\n", 5);
    ed.update_state(Command::CharPressed('x'));
    assert_eq!(ed.update_state(Command::Exit), Action::PromptUnsaved);
    assert_eq!(ed.mode, Modes::ModifiedPrompt);
    assert!(!ed.prompt_unsaved_step('q'));
    assert!(ed.prompt_unsaved_step('n'));
    assert!(!ed.is_exit);
    assert_eq!(ed.mode, Modes::Edit);
    ed.update_state(Command::Exit);
    assert!(ed.prompt_unsaved_step('y'));
    assert!(ed.is_exit);
}

#[test]
fn undo_with_empty_history_rings_bell() {
    let mut ed = editor_with("ab\n", 5);
    assert_eq!(ed.update_state(Command::Undo), Action::Bell);
    assert_eq!(ed.update_state(Command::Redo), Action::Bell);
}

#[test]
fn undo_repositions_cursor_to_edit_offset() {
    let mut ed = editor_with("ab\ncd\n", 5);
    ed.update_state(Command::MoveDown);
    ed.update_state(Command::CharPressed('x'));
    ed.update_state(Command::GoTop);
    ed.update_state(Command::Undo);
    assert_eq!(ed.buffer.buf, chars("ab\ncd\n"));
    assert_eq!(ed.cursor, CursorPosition { col: 0, row: 1 });
}

#[test]
fn load_document_resets_session() {
    let mut ed = editor_with("ab\n", 5);
    ed.update_state(Command::CharPressed('x'));
    ed.load_document(&chars("new text\r\nhere"));
    assert_eq!(ed.buffer.buf, chars("new text\nhere\n"));
    assert_eq!(ed.viewport.first_visible_line, 0);
    assert_eq!(ed.cursor, CursorPosition { col: 0, row: 0 });
    assert!(!ed.is_file_changed);
    assert_eq!(ed.update_state(Command::Undo), Action::Bell);
}

#[test]
fn help_mode_round_trip() {
    let mut ed = editor_with("ab\n", 5);
    assert_eq!(ed.update_state(Command::Help), Action::ShowHelpPage);
    assert_eq!(ed.mode, Modes::ShowHelp);
    ed.close_modal();
    assert_eq!(ed.mode, Modes::Edit);
}

#[test]
fn find_with_no_matches_closes_on_second_enter() {
    let mut ed = editor_with("abc\n", 5);
    ed.update_state(Command::FindCaseSensitive);
    assert!(!ed.find_step(PromptEvent::Char('z'), false, true));
    assert!(!ed.find_step(PromptEvent::Enter, false, true));
    assert!(ed.search.results.is_empty());
    assert!(ed.find_step(PromptEvent::Enter, false, true));
    assert_eq!(ed.mode, Modes::Edit);
}

#[test]
fn backwards_find_retreats_with_wrap() {
    let mut ed = editor_with("aa\n", 5);
    ed.update_state(Command::FindCaseSensitive);
    assert!(!ed.find_step(PromptEvent::Char('a'), false, true));
    assert!(!ed.find_step(PromptEvent::Enter, true, true));
    assert_eq!(ed.search.current, 0);
    assert!(!ed.find_step(PromptEvent::Enter, true, true));
    assert_eq!(ed.search.current, 1);
    assert_eq!(ed.cursor, CursorPosition { col: 1, row: 0 });
}
