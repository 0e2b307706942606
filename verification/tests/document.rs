use rustyed::buffer::Buffer;
use rustyed::cells::{from_cells_to_string, from_str_to_cells, Cell};
use rustyed::config::{color_ascii_to_4u8, parse_config, ConfigParseError, Rgba};
use rustyed::editor::parse_line_number;
use rustyed::position::{CursorPosition, ViewportState};

fn chars(s: &str) -> Vec<char> {
    s.chars().collect()
}

fn buffer_with(s: &str) -> Buffer {
    let mut b = Buffer::new(String::from("doc"));
    b.load_chars(&chars(s));
    b
}

#[test]
fn new_buffer_is_single_terminator() {
    let b = Buffer::new(String::from("doc"));
    assert_eq!(b.buf, vec!['\n']);
}

#[test]
fn load_normalizes_crlf() {
    let b = buffer_with("a\r\nb\r\n");
    assert_eq!(b.buf, chars("a\nb\n"));
}

#[test]
fn load_appends_missing_terminator() {
    let b = buffer_with("abc");
    assert_eq!(b.buf, chars("abc\n"));
}

#[test]
fn load_keeps_single_terminator() {
    let b = buffer_with("abc\n");
    assert_eq!(b.buf, chars("abc\n"));
}

#[test]
fn load_empty_gets_terminator() {
    let b = buffer_with("");
    assert_eq!(b.buf, vec!['\n']);
}

#[test]
fn line_counts() {
    let b = buffer_with("line1\nline2\nline3\n");
    assert_eq!(b.line_count(), 3);
    assert_eq!(b.logical_line_count(), 4);
    let empty = buffer_with("");
    assert_eq!(empty.line_count(), 1);
    assert_eq!(empty.logical_line_count(), 2);
}

#[test]
fn line_starts_and_lengths() {
    let b = buffer_with("ab\ncd\n");
    assert_eq!(b.line_start_offset(0), Some(0));
    assert_eq!(b.line_start_offset(1), Some(3));
    assert_eq!(b.line_start_offset(2), Some(6));
    assert_eq!(b.line_start_offset(3), None);
    assert_eq!(b.line_len(0), Some(2));
    assert_eq!(b.line_len(1), Some(2));
    assert_eq!(b.line_len(2), None);
}

#[test]
fn inline_offset_of_offset() {
    let b = buffer_with("ab\ncd\n");
    assert_eq!(b.get_ch_off_to_inline_off(0), 0);
    assert_eq!(b.get_ch_off_to_inline_off(2), 2);
    assert_eq!(b.get_ch_off_to_inline_off(3), 0);
    assert_eq!(b.get_ch_off_to_inline_off(4), 1);
}

#[test]
fn internal_buf_offset_inline() {
    let b = buffer_with("ab\ncd\n");
    let pos = CursorPosition { col: 1, row: 1 };
    let ibo = b.get_cursor_pos_to_buf_offset(0, &pos).unwrap();
    assert_eq!(ibo.1, 4);
    assert_eq!(ibo.0, Some(2));
    assert_eq!(ibo.get_inline_offset(), 1);
    let top = b
        .get_cursor_pos_to_buf_offset(0, &CursorPosition { col: 1, row: 0 })
        .unwrap();
    assert_eq!(top.0, None);
    assert_eq!(top.get_inline_offset(), 1);
}

#[test]
fn offset_position_round_trip_all_offsets() {
    let b = buffer_with("line1\nline2\nline3\n");
    for o in 0..b.buf.len() {
        let pos = b.position_of(0, o);
        assert_eq!(b.offset_of(0, &pos), Some(o));
    }
}

#[test]
fn position_of_respects_viewport() {
    let b = buffer_with("ab\ncd\nef\n");
    let pos = b.position_of(1, 4);
    assert_eq!(pos, CursorPosition { col: 1, row: 0 });
}

#[test]
fn missing_line_resolves_to_none() {
    let b = buffer_with("ab\n");
    let pos = CursorPosition { col: 0, row: 5 };
    assert!(b.get_cursor_pos_to_buf_offset(0, &pos).is_none());
}

#[test]
fn cells_layout() {
    let b = buffer_with("ab\nc\n");
    let vp = ViewportState { first_visible_line: 0, visible_line_count: 5 };
    let cells = from_str_to_cells(&b, &vp);
    let expect = vec![
        Cell { c: 'a', pos: (0, 0) },
        Cell { c: 'b', pos: (1, 0) },
        Cell { c: '\n', pos: (2, 0) },
        Cell { c: 'c', pos: (0, 1) },
        Cell { c: '\n', pos: (1, 1) },
    ];
    assert_eq!(cells, expect);
}

#[test]
fn cells_respect_scroll_and_height() {
    let b = buffer_with("a\nb\nc\n");
    let vp = ViewportState { first_visible_line: 1, visible_line_count: 1 };
    let cells = from_str_to_cells(&b, &vp);
    assert_eq!(cells, vec![Cell { c: 'b', pos: (0, 0) }, Cell { c: '\n', pos: (1, 0) }]);
}

#[test]
fn cells_to_string_round() {
    let cells = vec![
        Cell { c: 'a', pos: (0, 0) },
        Cell { c: '\n', pos: (1, 0) },
        Cell { c: 'b', pos: (0, 1) },
    ];
    let lines = from_cells_to_string(&cells);
    assert_eq!(lines, vec![chars("a\n"), chars("b\n")]);
}

#[test]
fn parse_config_reads_options() {
    let lines = vec![
        chars("font = Mono Sans  ; the family"),
        chars("; a full comment line"),
        chars("   "),
        chars("tab_width=4"),
        chars("tab_width = 8"),
        chars("eof_indicator = true"),
    ];
    let c = parse_config(&lines).unwrap();
    assert_eq!(c.font, Some(chars("Mono Sans")));
    assert_eq!(c.tab_width, Some(chars("8")));
    assert_eq!(c.eof_indicator, Some(chars("true")));
    assert_eq!(c.bg_col, None);
    assert_eq!(c.font_col, None);
}

#[test]
fn parse_config_rejects_line_without_equals() {
    let lines = vec![chars("font = Mono"), chars("what is this")];
    assert_eq!(parse_config(&lines).err(), Some(ConfigParseError));
}

#[test]
fn color_parses_four_channels() {
    let c = color_ascii_to_4u8(&chars(" 255, 0 , 10,5")).ok().unwrap();
    assert_eq!(c, Rgba { r: 255, g: 0, b: 10, a: 5 });
}

#[test]
fn color_rejects_wrong_arity() {
    assert_eq!(color_ascii_to_4u8(&chars("1,2,3")).err(), Some(ConfigParseError));
    assert_eq!(color_ascii_to_4u8(&chars("1,2,3,4,5")).err(), Some(ConfigParseError));
}

#[test]
fn color_rejects_out_of_range_or_junk() {
    assert_eq!(color_ascii_to_4u8(&chars("300,0,0,0")).err(), Some(ConfigParseError));
    assert_eq!(color_ascii_to_4u8(&chars("a,0,0,0")).err(), Some(ConfigParseError));
    assert_eq!(color_ascii_to_4u8(&chars("1,,3,4")).err(), Some(ConfigParseError));
}

#[test]
fn line_number_parsing() {
    assert_eq!(parse_line_number(&chars("42")), Some(42));
    assert_eq!(parse_line_number(&chars("007")), Some(7));
    assert_eq!(parse_line_number(&chars("")), None);
    assert_eq!(parse_line_number(&chars("4a")), None);
    assert_eq!(parse_line_number(&chars("99999999999999999999999999")), None);
}

#[test]
fn parse_config_reads_colors_and_flags() {
    let lines = vec![
        chars("bg_col = 0,0,0,255"),
        chars("select_col = 55, 95, 25, 5"),
        chars("cursor_line = true"),
    ];
    let c = parse_config(&lines).unwrap();
    assert_eq!(c.bg_col, Some(chars("0,0,0,255")));
    assert_eq!(c.select_col, Some(chars("55, 95, 25, 5")));
    assert_eq!(c.cursor_line, Some(chars("true")));
    let rgba = color_ascii_to_4u8(&c.select_col.unwrap()).ok().unwrap();
    assert_eq!(rgba, Rgba { r: 55, g: 95, b: 25, a: 5 });
}
