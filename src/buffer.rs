use vstd::prelude::*;

use crate::line::{
    contains, is_line_index, is_line_of, lemma_line_bounds, lemma_line_of,
    lemma_line_of_exists, lemma_start_at_least_index, line_containing, line_of, line_spans, Line,
};

verus! {

/// A colour as red, green and blue intensities.
#[derive(Debug, Clone, Copy, PartialEq, Eq, Structural)]
pub struct Rgb {
    pub r: u8,
    pub g: u8,
    pub b: u8,
}

/// Largest number of characters a buffer holds: small enough that every
/// screen coordinate derived from an offset fits an `isize`.
pub open spec fn max_chars() -> int {
    isize::MAX as int / 4
}

/// The value of `max_chars`.
pub fn char_limit() -> (r: usize)
    ensures
        r == max_chars(),
{
    (isize::MAX / 4) as usize
}

/// `data` with every occurrence of `c` removed.
pub open spec fn without(data: Seq<char>, c: char) -> Seq<char>
    decreases data.len(),
{
    if data.len() == 0 {
        Seq::empty()
    } else if data.last() == c {
        without(data.drop_last(), c)
    } else {
        without(data.drop_last(), c).push(data.last())
    }
}

/// `data` without its carriage returns.
pub open spec fn strip_cr(data: Seq<char>) -> Seq<char> {
    without(data, '\r')
}

/// Removing characters never lengthens a sequence.
pub proof fn lemma_without_len(data: Seq<char>, c: char)
    ensures
        without(data, c).len() <= data.len(),
    decreases data.len(),
{
    if data.len() > 0 {
        lemma_without_len(data.drop_last(), c);
    }
}

/// New scroll offset along one axis: the smallest change that brings
/// position `pos` into the `extent` cells that start at `offset`.
pub open spec fn scroll_axis(offset: int, pos: int, extent: int) -> int {
    if pos < offset {
        pos
    } else if pos - offset >= extent {
        pos - extent + 1
    } else {
        offset
    }
}

/// Text buffer: characters, their line index, a cursor and a viewport.
pub struct Buffer {
    /// The characters held
    pub data: Vec<char>,
    /// The line index of `data`
    pub lines: Vec<Line>,
    /// Screen column of the viewport's top left corner
    pub x: u16,
    /// Screen row of the viewport's top left corner
    pub y: u16,
    /// Width of the viewport in cells
    pub width: usize,
    /// Height of the viewport in cells
    pub height: usize,
    /// Lines scrolled off above the viewport
    pub offset_y: usize,
    /// Columns scrolled off left of the viewport
    pub offset_x: usize,
    /// Cursor offset into `data`
    pub cursor_pos: usize,
    /// Column remembered across vertical moves through shorter lines
    pub sticky_column: Option<usize>,
    /// Where the contents are saved, if anywhere
    pub file_path: Option<String>,
    /// Background colour
    pub bg_color: Rgb,
    /// Foreground colour
    pub fg_color: Rgb,
}

/// Default background colour of a buffer.
pub open spec fn default_bg() -> Rgb {
    Rgb { r: 30, g: 30, b: 30 }
}

/// Default foreground colour of a buffer.
pub open spec fn default_fg() -> Rgb {
    Rgb { r: 210, g: 210, b: 210 }
}

impl Buffer {
    /// The line index matches the data, the cursor is inside the data, and
    /// sizes stay within `max_chars`.
    pub open spec fn wf(self) -> bool {
        &&& is_line_index(self.data@, self.lines@)
        &&& self.cursor_pos <= self.data@.len()
        &&& self.data@.len() <= max_chars()
        &&& self.offset_x <= max_chars() + 1
        &&& self.offset_y <= max_chars() + 1
    }

    /// Index of the line holding the cursor.
    pub open spec fn cursor_line(self) -> int {
        line_of(self.lines@, self.cursor_pos as int)
    }

    /// Column of the cursor within its line.
    pub open spec fn cursor_column(self) -> int {
        self.cursor_pos - self.lines@[self.cursor_line()].start
    }

    /// Cursor column on screen.
    pub open spec fn screen_x(self) -> int {
        self.cursor_column() - self.offset_x + self.x
    }

    /// Cursor row on screen.
    pub open spec fn screen_y(self) -> int {
        self.cursor_line() - self.offset_y + self.y
    }

    /// Column a vertical move aims for: the remembered one, else the
    /// cursor's own.
    pub open spec fn desired_column(self) -> int {
        match self.sticky_column {
            Some(c) => c as int,
            None => self.cursor_column(),
        }
    }

    /// The buffer after the cursor moved to line `t`: it keeps the desired
    /// column where the line is long enough, and otherwise lands on the
    /// line's last position and remembers the column.
    pub open spec fn moved_to_line(self, t: int) -> Buffer {
        let l = self.lines@[t];
        let d = self.desired_column();
        if d >= l.spec_len() {
            Buffer {
                cursor_pos: (l.start + if l.spec_len() == 0 {
                    0
                } else {
                    l.spec_len() - 1
                }) as usize,
                sticky_column: Some(d as usize),
                ..self
            }
        } else {
            Buffer { cursor_pos: (l.start + d) as usize, ..self }
        }
    }

    /// The buffer after moving the cursor `dy` lines up; unchanged where
    /// there are fewer than `dy` lines above.
    pub open spec fn after_move_up(self, dy: int) -> Buffer {
        if self.cursor_line() < dy {
            self
        } else {
            self.moved_to_line(self.cursor_line() - dy)
        }
    }

    /// The buffer after moving the cursor `dy` lines down; unchanged where
    /// there are fewer than `dy` lines below.
    pub open spec fn after_move_down(self, dy: int) -> Buffer {
        if self.cursor_line() + dy >= self.lines@.len() {
            self
        } else {
            self.moved_to_line(self.cursor_line() + dy)
        }
    }

    /// The buffer after moving the cursor `dx` characters right, stopping at
    /// the end of the data; the remembered column is forgotten.
    pub open spec fn after_move_right(self, dx: int) -> Buffer {
        Buffer {
            cursor_pos: if self.cursor_pos + dx <= self.data@.len() {
                (self.cursor_pos + dx) as usize
            } else {
                self.data@.len() as usize
            },
            sticky_column: None,
            ..self
        }
    }

    /// The buffer after moving the cursor `dx` characters left, stopping at
    /// the start of the data; the remembered column is forgotten.
    pub open spec fn after_move_left(self, dx: int) -> Buffer {
        Buffer {
            cursor_pos: if self.cursor_pos >= dx {
                (self.cursor_pos - dx) as usize
            } else {
                0
            },
            sticky_column: None,
            ..self
        }
    }

    /// The buffer with both scroll offsets adjusted to show the cursor.
    pub open spec fn scrolled(self) -> Buffer {
        Buffer {
            offset_x: scroll_axis(
                self.offset_x as int,
                self.cursor_column(),
                self.width as int,
            ) as usize,
            offset_y: scroll_axis(
                self.offset_y as int,
                self.cursor_line(),
                self.height as int,
            ) as usize,
            ..self
        }
    }

    /// An empty buffer with its viewport at `(x, y)` of size `width` by
    /// `height`.
    pub fn new(x: u16, y: u16, width: usize, height: usize) -> (r: Buffer)
        ensures
            r.wf(),
            r.data@.len() == 0,
            r.lines@ == seq![Line { start: 0, end: 0 }],
            r.cursor_pos == 0,
            r.x == x && r.y == y && r.width == width && r.height == height,
            r.offset_x == 0 && r.offset_y == 0,
            r.sticky_column is None,
            r.file_path is None,
            r.bg_color == default_bg() && r.fg_color == default_fg(),
    {
        Buffer::from_contents(Vec::new(), None, x, y, width, height)
    }

    /// A buffer holding `contents` with carriage returns removed, saved to
    /// `file_path`, with the cursor at the start.
    pub fn from_contents(
        contents: Vec<char>,
        file_path: Option<String>,
        x: u16,
        y: u16,
        width: usize,
        height: usize,
    ) -> (r: Buffer)
        requires
            contents@.len() <= max_chars(),
        ensures
            r.wf(),
            r.data@ == strip_cr(contents@),
            r.cursor_pos == 0,
            r.x == x && r.y == y && r.width == width && r.height == height,
            r.offset_x == 0 && r.offset_y == 0,
            r.sticky_column is None,
            r.file_path == file_path,
            r.bg_color == default_bg() && r.fg_color == default_fg(),
    {
        let mut data: Vec<char> = Vec::new();
        let mut i: usize = 0;
        while i < contents.len()
            invariant
                i <= contents@.len(),
                data@ == strip_cr(contents@.take(i as int)),
            decreases contents.len() - i,
        {
            assert(contents@.take(i + 1).drop_last() =~= contents@.take(i as int));
            let c = contents[i];
            if c != '\r' {
                data.push(c);
            }
            i = i + 1;
        }
        assert(contents@.take(contents@.len() as int) =~= contents@);
        proof {
            lemma_without_len(contents@, '\r');
        }
        let lines = line_spans(&data);
        let r = Buffer {
            data,
            lines,
            x,
            y,
            width,
            height,
            offset_y: 0,
            offset_x: 0,
            cursor_pos: 0,
            sticky_column: None,
            file_path,
            bg_color: Rgb { r: 30, g: 30, b: 30 },
            fg_color: Rgb { r: 210, g: 210, b: 210 },
        };
        r
    }

    /// Moves the viewport's top left corner to `(x, y)`.
    pub fn move_to(&mut self, x: u16, y: u16)
        ensures
            *final(self) == (Buffer { x, y, ..*old(self) }),
    {
        self.x = x;
        self.y = y;
    }

    /// Sets the viewport's size.
    pub fn resize(&mut self, w: usize, h: usize)
        ensures
            *final(self) == (Buffer { width: w, height: h, ..*old(self) }),
    {
        self.width = w;
        self.height = h;
    }

    /// Rebuilds the line index from the data.
    pub fn recalculate_lines(&mut self)
        ensures
            is_line_index(final(self).data@, final(self).lines@),
            *final(self) == (Buffer { lines: final(self).lines, ..*old(self) }),
    {
        self.lines = line_spans(&self.data);
    }

    /// Index of the line holding the cursor; the end of the data belongs to
    /// the last line.
    pub fn current_line(&self) -> (r: usize)
        requires
            self.wf(),
        ensures
            r == self.cursor_line(),
            r < self.lines@.len(),
            is_line_of(self.lines@, self.cursor_pos as int, r as int),
            self.cursor_pos < self.data@.len() || self.data@.len() == 0 ==> contains(
                self.lines@[r as int],
                self.cursor_pos as int,
            ),
            self.cursor_pos == self.data@.len() ==> r == self.lines@.len() - 1,
    {
        let r = line_containing(&self.lines, self.cursor_pos, Ghost(self.data@));
        assert(is_line_of(self.lines@, self.cursor_pos as int, r as int));
        r
    }

    /// Screen position of the cursor, which lies outside the viewport when
    /// a scroll is due.
    pub fn cursor_xy(&self) -> (r: (isize, isize))
        requires
            self.wf(),
        ensures
            r.0 == self.screen_x(),
            r.1 == self.screen_y(),
    {
        let cl = self.current_line();
        proof {
            lemma_start_at_least_index(self.data@, self.lines@, cl as int);
        }
        let column = self.cursor_pos - self.lines[cl].start;
        let x = column as isize - self.offset_x as isize + self.x as isize;
        let y = cl as isize - self.offset_y as isize + self.y as isize;
        (x, y)
    }

    /// Adjusts the scroll offsets by the least amount that brings the cursor
    /// into the viewport.
    pub fn scroll(&mut self)
        requires
            old(self).wf(),
        ensures
            final(self).wf(),
            *final(self) == old(self).scrolled(),
            final(self).width >= 1 ==> final(self).x <= final(self).screen_x() < final(self).x
                + final(self).width,
            final(self).height >= 1 ==> final(self).y <= final(self).screen_y() < final(self).y
                + final(self).height,
    {
        proof {
            lemma_line_of_exists(self.data@, self.lines@, self.cursor_pos as int);
            lemma_start_at_least_index(self.data@, self.lines@, self.cursor_line());
            assert(0 <= self.cursor_column() <= max_chars());
        }
        let (x, y) = self.cursor_xy();
        let w = self.width;
        let h = self.height;
        let y = y - self.y as isize;
        let x = x - self.x as isize;
        if y < 0 {
            let dy = (-y) as usize;
            self.offset_y = if dy <= self.offset_y {
                self.offset_y - dy
            } else {
                0
            };
        } else if y as usize >= h {
            let dy = y as usize - h + 1;
            self.offset_y = self.offset_y + dy;
        }
        if x < 0 {
            let dx = (-x) as usize;
            self.offset_x = if dx <= self.offset_x {
                self.offset_x - dx
            } else {
                0
            };
        } else if x as usize >= w {
            let dx = x as usize - w + 1;
            self.offset_x = self.offset_x + dx;
        }
    }

    /// Moves the cursor `dx` characters right, stopping at the end of the
    /// data, and forgets the remembered column.
    pub fn move_cursor_right(&mut self, dx: usize)
        requires
            old(self).wf(),
        ensures
            final(self).wf(),
            *final(self) == old(self).after_move_right(dx as int),
    {
        if dx <= self.data.len() - self.cursor_pos {
            self.cursor_pos = self.cursor_pos + dx;
        } else {
            self.cursor_pos = self.data.len();
        }
        self.sticky_column = None;
    }

    /// Moves the cursor `dx` characters left, stopping at the start of the
    /// data, and forgets the remembered column.
    pub fn move_cursor_left(&mut self, dx: usize)
        requires
            old(self).wf(),
        ensures
            final(self).wf(),
            *final(self) == old(self).after_move_left(dx as int),
    {
        if self.cursor_pos >= dx {
            self.cursor_pos = self.cursor_pos - dx;
        } else {
            self.cursor_pos = 0;
        }
        self.sticky_column = None;
    }

    fn move_to_line(&mut self, target: usize)
        requires
            old(self).wf(),
            target < old(self).lines@.len(),
        ensures
            final(self).wf(),
            *final(self) == old(self).moved_to_line(target as int),
    {
        let cl = self.current_line();
        let desired = match self.sticky_column {
            Some(c) => c,
            None => self.cursor_pos - self.lines[cl].start,
        };
        let line = self.lines[target];
        proof {
            lemma_line_bounds(self.data@, self.lines@, target as int);
        }
        let len = line.len();
        let column = if desired >= len {
            self.sticky_column = Some(desired);
            if len == 0 {
                0
            } else {
                len - 1
            }
        } else {
            desired
        };
        self.cursor_pos = line.start + column;
    }

    /// Moves the cursor `dy` lines up, aiming for the remembered column or
    /// else the current one; does nothing with fewer than `dy` lines above.
    pub fn move_cursor_up(&mut self, dy: usize)
        requires
            old(self).wf(),
        ensures
            final(self).wf(),
            *final(self) == old(self).after_move_up(dy as int),
    {
        let cl = self.current_line();
        if cl >= dy {
            self.move_to_line(cl - dy);
        }
    }

    /// Moves the cursor `dy` lines down, aiming for the remembered column or
    /// else the current one; does nothing with fewer than `dy` lines below.
    pub fn move_cursor_down(&mut self, dy: usize)
        requires
            old(self).wf(),
        ensures
            final(self).wf(),
            *final(self) == old(self).after_move_down(dy as int),
    {
        let cl = self.current_line();
        if dy < self.lines.len() - cl {
            self.move_to_line(cl + dy);
        }
    }

    /// Inserts `ch` at the cursor and moves the cursor past it.
    pub fn insert_ch(&mut self, ch: char)
        requires
            old(self).wf(),
            old(self).data@.len() < max_chars(),
        ensures
            final(self).wf(),
            final(self).data@ == old(self).data@.insert(old(self).cursor_pos as int, ch),
            final(self).cursor_pos == old(self).cursor_pos + 1,
            *final(self) == (Buffer {
                data: final(self).data,
                lines: final(self).lines,
                cursor_pos: final(self).cursor_pos,
                sticky_column: None,
                ..*old(self)
            }),
    {
        self.data.insert(self.cursor_pos, ch);
        self.cursor_pos = self.cursor_pos + 1;
        self.sticky_column = None;
        self.recalculate_lines();
    }

    /// Removes the character before the cursor and moves the cursor onto
    /// its place; does nothing at the start of the data.
    pub fn backspace(&mut self)
        requires
            old(self).wf(),
        ensures
            final(self).wf(),
            old(self).cursor_pos == 0 ==> *final(self) == *old(self),
            old(self).cursor_pos > 0 ==> {
                &&& final(self).data@ == old(self).data@.remove(old(self).cursor_pos - 1)
                &&& final(self).cursor_pos == old(self).cursor_pos - 1
                &&& *final(self) == (Buffer {
                    data: final(self).data,
                    lines: final(self).lines,
                    cursor_pos: final(self).cursor_pos,
                    sticky_column: None,
                    ..*old(self)
                })
            },
    {
        if self.cursor_pos > 0 {
            self.cursor_pos = self.cursor_pos - 1;
            self.data.remove(self.cursor_pos);
            self.sticky_column = None;
            self.recalculate_lines();
        }
    }

    /// Removes the character at the cursor; does nothing at the end of the
    /// data.
    pub fn delete(&mut self)
        requires
            old(self).wf(),
        ensures
            final(self).wf(),
            old(self).cursor_pos == old(self).data@.len() ==> *final(self) == *old(self),
            old(self).cursor_pos < old(self).data@.len() ==> {
                &&& final(self).data@ == old(self).data@.remove(old(self).cursor_pos as int)
                &&& *final(self) == (Buffer {
                    data: final(self).data,
                    lines: final(self).lines,
                    sticky_column: None,
                    ..*old(self)
                })
            },
    {
        if self.cursor_pos < self.data.len() {
            self.data.remove(self.cursor_pos);
            self.sticky_column = None;
            self.recalculate_lines();
        }
    }
}

/// Final component of a path as text, where it has one.
pub uninterp spec fn path_file_name(path: Seq<char>) -> Option<Seq<char>>;

/// Relies on `std::path::Path::file_name`: the final component of the path,
/// `None` where there is none (the path ends in `..`, is a root, or is
/// empty). The name is valid UTF-8, as it comes from a `&str`.
#[verifier::external_body]
fn file_name_of(path: &str) -> (r: Option<String>)
    ensures
        path_file_name(path@) == match r {
            Some(n) => Some(n@),
            None => None::<Seq<char>>,
        },
{
    match std::path::Path::new(path).file_name() {
        Some(n) => n.to_str().map(String::from),
        None => None,
    }
}

/// Name shown for a buffer whose path gives no file name.
pub open spec fn no_name() -> Seq<char> {
    "NO NAME"@
}

/// The name itself, or the placeholder where there is none.
pub fn name_or_placeholder(name: Option<String>) -> (r: String)
    ensures
        r@ == match name {
            Some(n) => n@,
            None => no_name(),
        },
{
    match name {
        Some(n) => n,
        None => String::from_str("NO NAME"),
    }
}

impl Buffer {
    /// File name of the buffer's path, or the placeholder.
    pub fn file_name(&self) -> (r: String)
        ensures
            r@ == match self.file_path {
                Some(p) => match path_file_name(p@) {
                    Some(n) => n,
                    None => no_name(),
                },
                None => no_name(),
            },
    {
        match &self.file_path {
            Some(path) => name_or_placeholder(file_name_of(path.as_str())),
            None => name_or_placeholder(None),
        }
    }
}

/// Moving the cursor one line down and back up returns it to its offset,
/// whether the line below is long enough for its column or, being shorter,
/// leaves the column remembered.
pub proof fn lemma_down_up_restores(b: Buffer)
    requires
        b.wf(),
        b.sticky_column is None,
        contains(b.lines@[b.cursor_line()], b.cursor_pos as int),
        b.cursor_line() + 1 < b.lines@.len(),
    ensures
        b.after_move_down(1).after_move_up(1).cursor_pos == b.cursor_pos,
{
    lemma_line_of_exists(b.data@, b.lines@, b.cursor_pos as int);
    let cl = b.cursor_line();
    let b1 = b.after_move_down(1);
    lemma_landing_line(b, cl + 1);
    assert(b1.cursor_line() == cl + 1);
}

/// Moving the cursor one line up and back down returns it to its offset,
/// whether the line above is long enough for its column or, being shorter,
/// leaves the column remembered.
pub proof fn lemma_up_down_restores(b: Buffer)
    requires
        b.wf(),
        b.sticky_column is None,
        contains(b.lines@[b.cursor_line()], b.cursor_pos as int),
        b.cursor_line() >= 1,
    ensures
        b.after_move_up(1).after_move_down(1).cursor_pos == b.cursor_pos,
{
    lemma_line_of_exists(b.data@, b.lines@, b.cursor_pos as int);
    let cl = b.cursor_line();
    let b1 = b.after_move_up(1);
    lemma_landing_line(b, cl - 1);
    assert(b1.cursor_line() == cl - 1);
}

/// After a vertical move to line `t` the cursor lies on line `t`.
proof fn lemma_landing_line(b: Buffer, t: int)
    requires
        b.wf(),
        0 <= t < b.lines@.len(),
    ensures
        b.moved_to_line(t).cursor_line() == t,
{
    lemma_line_bounds(b.data@, b.lines@, t);
    lemma_line_of_exists(b.data@, b.lines@, b.cursor_pos as int);
    let b1 = b.moved_to_line(t);
    assert(is_line_of(b.lines@, b1.cursor_pos as int, t));
    lemma_line_of(b.data@, b.lines@, b1.cursor_pos as int, t);
}

/// Typing a character and then pressing backspace gives back the data and
/// the cursor position.
pub proof fn lemma_insert_then_backspace(before: Buffer, typed: Buffer, after: Buffer, ch: char)
    requires
        before.wf(),
        typed.data@ == before.data@.insert(before.cursor_pos as int, ch),
        typed.cursor_pos == before.cursor_pos + 1,
        after.data@ == typed.data@.remove(typed.cursor_pos - 1),
        after.cursor_pos == typed.cursor_pos - 1,
    ensures
        after.data@ == before.data@,
        after.cursor_pos == before.cursor_pos,
{
    assert(before.data@.insert(before.cursor_pos as int, ch).remove(before.cursor_pos as int)
        =~= before.data@);
}

/// Typing a character, stepping one character left and pressing delete
/// gives back the data and the cursor position.
pub proof fn lemma_insert_then_delete(before: Buffer, typed: Buffer, after: Buffer, ch: char)
    requires
        before.wf(),
        typed.data@ == before.data@.insert(before.cursor_pos as int, ch),
        typed.cursor_pos == before.cursor_pos + 1,
        after.data@ == typed.data@.remove(typed.after_move_left(1).cursor_pos as int),
        after.cursor_pos == typed.after_move_left(1).cursor_pos,
    ensures
        after.data@ == before.data@,
        after.cursor_pos == before.cursor_pos,
{
    assert(before.data@.insert(before.cursor_pos as int, ch).remove(before.cursor_pos as int)
        =~= before.data@);
}

} // verus!
