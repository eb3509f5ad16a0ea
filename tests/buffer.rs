use tedit::buffer::{char_limit, name_or_placeholder};
use tedit::line::line_spans;
use tedit::{Buffer, Line, Rgb};

fn buffer_of(text: &str) -> Buffer {
    Buffer::from_contents(text.chars().collect(), None, 0, 0, 80, 24)
}

fn at(text: &str, pos: usize) -> Buffer {
    let mut b = buffer_of(text);
    b.cursor_pos = pos;
    b
}

fn span(start: usize, end: usize) -> Line {
    Line { start, end }
}

#[test]
fn empty_buffer_has_one_degenerate_line() {
    let b = Buffer::new(0, 0, 80, 24);
    assert!(b.data.is_empty());
    assert_eq!(b.lines, vec![span(0, 0)]);
    assert_eq!(b.current_line(), 0);
    assert_eq!(b.bg_color, Rgb { r: 30, g: 30, b: 30 });
    assert_eq!(b.fg_color, Rgb { r: 210, g: 210, b: 210 });
}

#[test]
fn two_lines_spans_and_current_line() {
    let b = at("ab\ncd", 4);
    assert_eq!(b.lines, vec![span(0, 2), span(3, 4)]);
    assert_eq!(b.current_line(), 1);
}

#[test]
fn move_up_keeps_column_when_it_fits() {
    let mut b = at("abc\nd", 5);
    b.move_cursor_up(1);
    assert_eq!(b.cursor_pos, 1);
    assert_eq!(b.sticky_column, None);
    let mut b = at("abc\nd", 4);
    b.move_cursor_up(1);
    assert_eq!(b.cursor_pos, 0);
    assert_eq!(b.sticky_column, None);
}

#[test]
fn move_down_clamps_and_remembers_column() {
    let mut b = at("ab\nc", 2);
    b.move_cursor_down(1);
    assert_eq!(b.cursor_pos, 3);
    assert_eq!(b.sticky_column, Some(2));
    b.move_cursor_up(1);
    assert_eq!(b.cursor_pos, 2);
}

#[test]
fn spans_rejoin_to_the_data() {
    for text in ["", "a", "ab\ncd", "ab\n", "\n\n", "x\ny\nzz\n", "\nq"] {
        let data: Vec<char> = text.chars().collect();
        let lines = line_spans(&data);
        let mut joined: Vec<char> = Vec::new();
        for l in &lines {
            let hi = if l.end < data.len() { l.end + 1 } else { data.len() };
            joined.extend_from_slice(&data[l.start..hi]);
        }
        assert_eq!(joined, data);
    }
}

#[test]
fn trailing_newline_gives_empty_last_line() {
    let data: Vec<char> = "ab\n".chars().collect();
    assert_eq!(line_spans(&data), vec![span(0, 2), span(3, 2)]);
    let data: Vec<char> = "\n\n".chars().collect();
    assert_eq!(line_spans(&data), vec![span(0, 0), span(1, 1), span(2, 1)]);
}

#[test]
fn every_offset_has_its_unique_line() {
    let text = "ab\n\ncde\nf";
    let len = text.chars().count();
    for p in 0..len {
        let b = at(text, p);
        let i = b.current_line();
        let holding: Vec<usize> = (0..b.lines.len())
            .filter(|&j| b.lines[j].start <= p && p <= b.lines[j].end)
            .collect();
        assert_eq!(holding, vec![i]);
    }
    assert_eq!(at(text, len).current_line(), 3);
    assert_eq!(at("ab\n", 3).current_line(), 1);
}

#[test]
fn down_then_up_restores_cursor() {
    let mut b = at("hello\nhi\nworld", 4);
    b.move_cursor_down(1);
    assert_eq!(b.cursor_pos, 8);
    assert_eq!(b.sticky_column, Some(4));
    b.move_cursor_down(1);
    assert_eq!(b.cursor_pos, 13);
    b.move_cursor_up(1);
    b.move_cursor_up(1);
    assert_eq!(b.cursor_pos, 4);

    let mut b = at("abc\nabc", 1);
    b.move_cursor_down(1);
    assert_eq!(b.cursor_pos, 5);
    b.move_cursor_up(1);
    assert_eq!(b.cursor_pos, 1);
}

#[test]
fn up_then_down_restores_cursor() {
    let mut b = at("a\nxyz", 4);
    b.move_cursor_up(1);
    assert_eq!(b.cursor_pos, 1);
    b.move_cursor_down(1);
    assert_eq!(b.cursor_pos, 4);
}

#[test]
fn vertical_moves_stop_at_first_and_last_line() {
    let mut b = at("ab\ncd", 1);
    b.move_cursor_up(1);
    assert_eq!(b.cursor_pos, 1);
    b.move_cursor_down(5);
    assert_eq!(b.cursor_pos, 1);
    b.move_cursor_down(1);
    assert_eq!(b.cursor_pos, 4);
}

#[test]
fn move_down_onto_empty_last_line() {
    let mut b = at("abc\n", 2);
    b.move_cursor_down(1);
    assert_eq!(b.cursor_pos, 4);
    assert_eq!(b.sticky_column, Some(2));
}

#[test]
fn horizontal_moves_clamp_and_clear_sticky() {
    let mut b = at("abc", 1);
    b.sticky_column = Some(7);
    b.move_cursor_right(100);
    assert_eq!(b.cursor_pos, 3);
    assert_eq!(b.sticky_column, None);
    b.move_cursor_left(1);
    assert_eq!(b.cursor_pos, 2);
    b.move_cursor_left(100);
    assert_eq!(b.cursor_pos, 0);
    b.move_cursor_right(2);
    assert_eq!(b.cursor_pos, 2);
}

#[test]
fn scroll_brings_cursor_into_view() {
    let text = "0\n1\n2\n3\n4\n5\n6\n7\n8\n9";
    let mut b = Buffer::from_contents(text.chars().collect(), None, 2, 1, 4, 3);
    b.cursor_pos = 16;
    assert_eq!(b.cursor_xy(), (2, 9));
    b.scroll();
    assert_eq!(b.offset_y, 6);
    assert_eq!(b.cursor_xy(), (2, 3));
    b.cursor_pos = 2;
    b.scroll();
    assert_eq!(b.offset_y, 1);
    assert_eq!(b.cursor_xy(), (2, 1));
}

#[test]
fn scroll_horizontally() {
    let mut b = Buffer::from_contents("abcdefghij".chars().collect(), None, 0, 0, 4, 2);
    b.cursor_pos = 9;
    b.scroll();
    assert_eq!(b.offset_x, 6);
    assert_eq!(b.cursor_xy(), (3, 0));
    b.cursor_pos = 1;
    assert_eq!(b.cursor_xy(), (-5, 0));
    b.scroll();
    assert_eq!(b.offset_x, 1);
    assert_eq!(b.cursor_xy(), (0, 0));
}

#[test]
fn cursor_xy_at_end_of_data() {
    let mut b = at("ab\ncd", 5);
    b.offset_x = 1;
    assert_eq!(b.cursor_xy(), (1, 1));
}

#[test]
fn insert_then_backspace_restores() {
    let mut b = at("abc", 1);
    b.insert_ch('x');
    assert_eq!(b.data, vec!['a', 'x', 'b', 'c']);
    assert_eq!(b.cursor_pos, 2);
    b.backspace();
    assert_eq!(b.data, vec!['a', 'b', 'c']);
    assert_eq!(b.cursor_pos, 1);
}

#[test]
fn insert_then_left_and_delete_restores() {
    let mut b = at("abc", 3);
    b.insert_ch('\n');
    assert_eq!(b.lines, vec![span(0, 3), span(4, 3)]);
    b.move_cursor_left(1);
    b.delete();
    assert_eq!(b.data, vec!['a', 'b', 'c']);
    assert_eq!(b.cursor_pos, 3);
    assert_eq!(b.lines, vec![span(0, 2)]);
}

#[test]
fn edits_at_the_boundaries_do_nothing() {
    let mut b = at("ab", 0);
    b.backspace();
    assert_eq!(b.data, vec!['a', 'b']);
    assert_eq!(b.cursor_pos, 0);
    b.cursor_pos = 2;
    b.delete();
    assert_eq!(b.data, vec!['a', 'b']);
    assert_eq!(b.cursor_pos, 2);
}

#[test]
fn edits_clear_sticky_column() {
    let mut b = at("ab\nc", 2);
    b.move_cursor_down(1);
    assert_eq!(b.sticky_column, Some(2));
    b.insert_ch('z');
    assert_eq!(b.sticky_column, None);
}

#[test]
fn carriage_returns_are_stripped() {
    let b = Buffer::from_contents("a\r\nb\r\n".chars().collect(), Some("x.txt".to_string()), 0, 0, 5, 5);
    assert_eq!(b.data, vec!['a', '\n', 'b', '\n']);
    assert_eq!(b.lines, vec![span(0, 1), span(2, 3), span(4, 3)]);
}

#[test]
fn file_name_is_last_component() {
    let b = Buffer::from_contents(vec![], Some("dir/notes.txt".to_string()), 0, 0, 5, 5);
    assert_eq!(b.file_name(), "notes.txt");
    let b = Buffer::from_contents(vec![], Some("..".to_string()), 0, 0, 5, 5);
    assert_eq!(b.file_name(), "NO NAME");
    assert_eq!(Buffer::new(0, 0, 1, 1).file_name(), "NO NAME");
    assert_eq!(name_or_placeholder(Some("a.rs".to_string())), "a.rs");
    assert_eq!(name_or_placeholder(None), "NO NAME");
}

#[test]
fn move_to_and_resize_set_geometry() {
    let mut b = Buffer::new(0, 0, 1, 1);
    b.move_to(3, 4);
    b.resize(10, 20);
    assert_eq!((b.x, b.y, b.width, b.height), (3, 4, 10, 20));
}

#[test]
fn line_len_counts_offsets() {
    assert_eq!(span(3, 5).len(), 3);
    assert_eq!(span(4, 3).len(), 0);
}

#[test]
fn visible_rows_are_clipped_and_padded() {
    let mut b = Buffer::from_contents("hello\nab\nxyz".chars().collect(), None, 0, 0, 3, 2);
    b.offset_x = 1;
    b.offset_y = 1;
    let rows = b.visible_rows();
    assert_eq!(rows, vec![vec!['b', ' ', ' '], vec!['y', 'z', ' ']]);
    b.offset_y = 0;
    b.offset_x = 0;
    assert_eq!(b.visible_rows(), vec![vec!['h', 'e', 'l'], vec!['a', 'b', ' ']]);
    assert!(Buffer::new(0, 0, 4, 4).visible_rows().is_empty());
    let b = Buffer::from_contents("a\n".chars().collect(), None, 0, 0, 2, 5);
    assert_eq!(b.visible_rows(), vec![vec!['a', ' '], vec![' ', ' ']]);
}

#[test]
fn cursor_on_screen_only_inside_viewport() {
    let mut b = Buffer::from_contents("abc\ndef".chars().collect(), None, 5, 2, 2, 1);
    b.cursor_pos = 1;
    assert_eq!(b.cursor_on_screen(), Some((6, 2)));
    b.cursor_pos = 2;
    assert_eq!(b.cursor_on_screen(), None);
    b.cursor_pos = 4;
    assert_eq!(b.cursor_on_screen(), None);
}

#[test]
fn char_limit_is_large() {
    assert_eq!(char_limit(), (isize::MAX / 4) as usize);
}
