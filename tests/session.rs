use tedit::editor::{apply_command, command_for};
use tedit::{Buffer, Command, Display, Input, Key, Modifiers, Outcome, Rgb, StatusLine};

fn key(key: Key, modifiers: Modifiers) -> Input {
    Input::Key { key, modifiers, press: true }
}

#[test]
fn key_bindings() {
    assert_eq!(command_for(key(Key::Char('q'), Modifiers::Control)), Command::Quit);
    assert_eq!(
        command_for(Input::Key { key: Key::Char('s'), modifiers: Modifiers::Control, press: false }),
        Command::Save
    );
    assert_eq!(command_for(key(Key::Left, Modifiers::Plain)), Command::Left);
    assert_eq!(command_for(key(Key::Down, Modifiers::Plain)), Command::Down);
    assert_eq!(command_for(key(Key::Char('a'), Modifiers::Plain)), Command::Insert('a'));
    assert_eq!(command_for(key(Key::Char('a'), Modifiers::Shift)), Command::Insert('A'));
    assert_eq!(command_for(key(Key::Char('7'), Modifiers::Shift)), Command::Insert('7'));
    assert_eq!(command_for(key(Key::Enter, Modifiers::Plain)), Command::Insert('\n'));
    assert_eq!(command_for(key(Key::Backspace, Modifiers::Plain)), Command::Backspace);
    assert_eq!(command_for(key(Key::Delete, Modifiers::Plain)), Command::Delete);
    assert_eq!(
        command_for(Input::Key { key: Key::Left, modifiers: Modifiers::Plain, press: false }),
        Command::Nothing
    );
    assert_eq!(command_for(key(Key::Up, Modifiers::Shift)), Command::Nothing);
    assert_eq!(command_for(Input::Resize { width: 8, height: 9 }), Command::Resize(8, 9));
    assert_eq!(command_for(Input::Other), Command::Nothing);
}

#[test]
fn commands_update_state() {
    let mut display = Display::from_parts(Vec::<u8>::new(), 80, 25);
    let mut buffer = Buffer::new(0, 0, 80, 24);
    let mut status = StatusLine::new(0, 25, 80, 1, "NO NAME");
    for c in "ab\ncd".chars() {
        let out = apply_command(&mut display, &mut buffer, &mut status, Command::Insert(c));
        assert_eq!(out, Outcome::Continue);
    }
    assert_eq!(buffer.data, "ab\ncd".chars().collect::<Vec<char>>());
    assert_eq!(buffer.lines.len(), 2);
    apply_command(&mut display, &mut buffer, &mut status, Command::Up);
    assert_eq!(buffer.cursor_pos, 2);
    apply_command(&mut display, &mut buffer, &mut status, Command::Backspace);
    assert_eq!(buffer.data, "a\ncd".chars().collect::<Vec<char>>());
    assert_eq!(apply_command(&mut display, &mut buffer, &mut status, Command::Save), Outcome::Save);
    assert_eq!(apply_command(&mut display, &mut buffer, &mut status, Command::Quit), Outcome::Quit);
}

#[test]
fn resize_propagates_and_scrolls() {
    let mut display = Display::from_parts(Vec::<u8>::new(), 80, 25);
    let mut buffer = Buffer::from_contents("a\nb\nc\nd".chars().collect(), None, 0, 0, 80, 24);
    buffer.cursor_pos = 6;
    let mut status = StatusLine::new(0, 24, 80, 1, "f");
    apply_command(&mut display, &mut buffer, &mut status, Command::Resize(10, 3));
    assert_eq!((display.width, display.height), (10, 3));
    assert_eq!((buffer.width, buffer.height), (10, 2));
    assert_eq!(buffer.offset_y, 2);
    assert_eq!((status.x, status.y, status.width, status.height), (0, 2, 10, 1));
}

#[test]
fn status_line_text_is_padded() {
    let s = StatusLine::new(0, 0, 8, 1, "ab.c");
    assert_eq!(s.get_text(), " ab.c   ");
    assert_eq!(s.bg_color, Rgb { r: 40, g: 40, b: 40 });
    let mut s = StatusLine::new(0, 0, 6, 1, "abcd");
    assert_eq!(s.get_text(), " abcd ");
    s.move_to(1, 2);
    s.resize(7, 1);
    assert_eq!((s.x, s.y, s.width, s.height), (1, 2, 7, 1));
    assert_eq!(s.get_text(), " abcd  ");
}

#[test]
fn display_resize() {
    let mut d = Display::from_parts(Vec::<u8>::new(), 1, 2);
    d.resize(30, 40);
    assert_eq!((d.width, d.height), (30, 40));
}
