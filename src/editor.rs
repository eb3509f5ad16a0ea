use vstd::prelude::*;

use crate::buffer::{max_chars, Buffer, char_limit};
use crate::display::Display;
use crate::status_line::StatusLine;

verus! {

/// A key as the editor sees it.
#[derive(Debug, Clone, Copy, PartialEq, Eq, Structural)]
pub enum Key {
    Char(char),
    Left,
    Right,
    Up,
    Down,
    Enter,
    Backspace,
    Delete,
    Other,
}

/// Modifier keys held with a key.
#[derive(Debug, Clone, Copy, PartialEq, Eq, Structural)]
pub enum Modifiers {
    Plain,
    Shift,
    Control,
    Other,
}

/// One event from the terminal.
#[derive(Debug, Clone, Copy, PartialEq, Eq, Structural)]
pub enum Input {
    /// A key event; `press` tells a press from a repeat or release.
    Key { key: Key, modifiers: Modifiers, press: bool },
    /// The terminal now has this many columns and rows.
    Resize { width: u16, height: u16 },
    Other,
}

/// What an input asks the editor to do.
#[derive(Debug, Clone, Copy, PartialEq, Eq, Structural)]
pub enum Command {
    Quit,
    Save,
    Resize(u16, u16),
    Left,
    Right,
    Up,
    Down,
    Insert(char),
    Backspace,
    Delete,
    Nothing,
}

/// What the caller has to do after a command was applied.
#[derive(Debug, Clone, Copy, PartialEq, Eq, Structural)]
pub enum Outcome {
    Quit,
    Save,
    Continue,
}

/// Upper-case form of an ASCII lower-case letter; any other character is
/// kept.
pub open spec fn ascii_upper(c: char) -> char {
    if 'a' <= c <= 'z' {
        ((c as u32) - 32) as char
    } else {
        c
    }
}

/// Relies on `char::to_ascii_uppercase`: `'a'..='z'` become `'A'..='Z'`,
/// every other character is returned as it is.
#[verifier::external_body]
fn to_ascii_upper(c: char) -> (r: char)
    ensures
        r == ascii_upper(c),
{
    c.to_ascii_uppercase()
}

/// Key bindings: control-q quits and control-s saves on any key event;
/// arrows, typing, enter, backspace and delete act on a plain press (shift
/// gives the upper-case letter).
pub open spec fn command_of(input: Input) -> Command {
    match input {
        Input::Key { key, modifiers, press } => {
            if key == Key::Char('q') && modifiers == Modifiers::Control {
                Command::Quit
            } else if key == Key::Char('s') && modifiers == Modifiers::Control {
                Command::Save
            } else if !press {
                Command::Nothing
            } else {
                match (key, modifiers) {
                    (Key::Left, Modifiers::Plain) => Command::Left,
                    (Key::Right, Modifiers::Plain) => Command::Right,
                    (Key::Up, Modifiers::Plain) => Command::Up,
                    (Key::Down, Modifiers::Plain) => Command::Down,
                    (Key::Char(c), Modifiers::Plain) => Command::Insert(c),
                    (Key::Char(c), Modifiers::Shift) => Command::Insert(ascii_upper(c)),
                    (Key::Enter, Modifiers::Plain) => Command::Insert('\n'),
                    (Key::Backspace, Modifiers::Plain) => Command::Backspace,
                    (Key::Delete, Modifiers::Plain) => Command::Delete,
                    _ => Command::Nothing,
                }
            }
        },
        Input::Resize { width, height } => Command::Resize(width, height),
        Input::Other => Command::Nothing,
    }
}

/// The command bound to `input`.
pub fn command_for(input: Input) -> (r: Command)
    ensures
        r == command_of(input),
{
    match input {
        Input::Key { key, modifiers, press } => {
            if key == Key::Char('q') && modifiers == Modifiers::Control {
                Command::Quit
            } else if key == Key::Char('s') && modifiers == Modifiers::Control {
                Command::Save
            } else if !press {
                Command::Nothing
            } else {
                match (key, modifiers) {
                    (Key::Left, Modifiers::Plain) => Command::Left,
                    (Key::Right, Modifiers::Plain) => Command::Right,
                    (Key::Up, Modifiers::Plain) => Command::Up,
                    (Key::Down, Modifiers::Plain) => Command::Down,
                    (Key::Char(c), Modifiers::Plain) => Command::Insert(c),
                    (Key::Char(c), Modifiers::Shift) => Command::Insert(to_ascii_upper(c)),
                    (Key::Enter, Modifiers::Plain) => Command::Insert('\n'),
                    (Key::Backspace, Modifiers::Plain) => Command::Backspace,
                    (Key::Delete, Modifiers::Plain) => Command::Delete,
                    _ => Command::Nothing,
                }
            }
        },
        Input::Resize { width, height } => Command::Resize(width, height),
        Input::Other => Command::Nothing,
    }
}

/// Applies one command to the editor's state. The buffer's line index is
/// rebuilt after each edit and the viewport scrolled after each command
/// that changes the buffer; quitting and saving are left to the caller.
pub fn apply_command<W>(
    display: &mut Display<W>,
    buffer: &mut Buffer,
    status_line: &mut StatusLine,
    cmd: Command,
) -> (r: Outcome)
    requires
        old(buffer).wf(),
        cmd matches Command::Resize(_, h) ==> h >= 1,
    ensures
        final(buffer).wf(),
        r == match cmd {
            Command::Quit => Outcome::Quit,
            Command::Save => Outcome::Save,
            _ => Outcome::Continue,
        },
        match cmd {
            Command::Resize(w, h) => {
                &&& final(display).width == w && final(display).height == h
                &&& final(display).out == old(display).out
                &&& *final(buffer) == (Buffer {
                    width: w as usize,
                    height: (h - 1) as usize,
                    ..*old(buffer)
                }).scrolled()
                &&& *final(status_line) == (StatusLine {
                    x: 0,
                    y: (h - 1) as u16,
                    width: w as usize,
                    height: 1,
                    ..*old(status_line)
                })
            },
            _ => *final(display) == *old(display) && *final(status_line) == *old(status_line),
        },
        match cmd {
            Command::Left => *final(buffer) == old(buffer).after_move_left(1).scrolled(),
            Command::Right => *final(buffer) == old(buffer).after_move_right(1).scrolled(),
            Command::Up => *final(buffer) == old(buffer).after_move_up(1).scrolled(),
            Command::Down => *final(buffer) == old(buffer).after_move_down(1).scrolled(),
            Command::Insert(c) => if old(buffer).data@.len() < max_chars() {
                &&& final(buffer).data@ == old(buffer).data@.insert(
                    old(buffer).cursor_pos as int,
                    c,
                )
                &&& final(buffer).cursor_pos == old(buffer).cursor_pos + 1
                &&& final(buffer).sticky_column is None
                &&& *final(buffer) == (Buffer {
                    offset_x: old(buffer).offset_x,
                    offset_y: old(buffer).offset_y,
                    ..*final(buffer)
                }).scrolled()
            } else {
                *final(buffer) == old(buffer).scrolled()
            },
            Command::Backspace => if old(buffer).cursor_pos > 0 {
                &&& final(buffer).data@ == old(buffer).data@.remove(old(buffer).cursor_pos - 1)
                &&& final(buffer).cursor_pos == old(buffer).cursor_pos - 1
                &&& final(buffer).sticky_column is None
                &&& *final(buffer) == (Buffer {
                    offset_x: old(buffer).offset_x,
                    offset_y: old(buffer).offset_y,
                    ..*final(buffer)
                }).scrolled()
            } else {
                *final(buffer) == old(buffer).scrolled()
            },
            Command::Delete => if old(buffer).cursor_pos < old(buffer).data@.len() {
                &&& final(buffer).data@ == old(buffer).data@.remove(old(buffer).cursor_pos as int)
                &&& final(buffer).cursor_pos == old(buffer).cursor_pos
                &&& final(buffer).sticky_column is None
                &&& *final(buffer) == (Buffer {
                    offset_x: old(buffer).offset_x,
                    offset_y: old(buffer).offset_y,
                    ..*final(buffer)
                }).scrolled()
            } else {
                *final(buffer) == old(buffer).scrolled()
            },
            Command::Resize(_, _) => true,
            _ => *final(buffer) == *old(buffer),
        },
{
    match cmd {
        Command::Quit => {
            return Outcome::Quit;
        },
        Command::Save => {
            return Outcome::Save;
        },
        Command::Nothing => {
            return Outcome::Continue;
        },
        Command::Resize(w, h) => {
            display.resize(w, h);
            buffer.resize(w as usize, (h - 1) as usize);
            status_line.resize(w as usize, 1);
            status_line.move_to(0, h - 1);
        },
        Command::Left => buffer.move_cursor_left(1),
        Command::Right => buffer.move_cursor_right(1),
        Command::Up => buffer.move_cursor_up(1),
        Command::Down => buffer.move_cursor_down(1),
        Command::Insert(c) => {
            if buffer.data.len() < char_limit() {
                buffer.insert_ch(c);
            }
        },
        Command::Backspace => buffer.backspace(),
        Command::Delete => buffer.delete(),
    }
    buffer.scroll();
    Outcome::Continue
}

} // verus!
