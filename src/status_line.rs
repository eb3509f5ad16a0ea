use vstd::prelude::*;
use vstd::utf8::encode_utf8;

use crate::buffer::Rgb;

verus! {

/// The one-row bar under the buffer that shows the file name.
pub struct StatusLine {
    /// Screen column of the top left corner
    pub x: u16,
    /// Screen row of the top left corner
    pub y: u16,
    /// Width in cells
    pub width: usize,
    /// Height in cells
    pub height: usize,
    /// Name of the file being edited
    pub filename: String,
    /// Background colour
    pub bg_color: Rgb,
    /// Foreground colour
    pub fg_color: Rgb,
}

/// `n` spaces.
pub open spec fn spaces(n: int) -> Seq<char> {
    Seq::new(n as nat, |_i: int| ' ')
}

impl StatusLine {
    /// A status line at `(x, y)` of the given size showing `filename`.
    pub fn new(x: u16, y: u16, width: usize, height: usize, filename: &str) -> (r: StatusLine)
        ensures
            r.x == x && r.y == y && r.width == width && r.height == height,
            r.filename@ == filename@,
            r.bg_color == (Rgb { r: 40, g: 40, b: 40 }),
            r.fg_color == (Rgb { r: 210, g: 210, b: 210 }),
    {
        StatusLine {
            x,
            y,
            width,
            height,
            filename: filename.to_owned(),
            bg_color: Rgb { r: 40, g: 40, b: 40 },
            fg_color: Rgb { r: 210, g: 210, b: 210 },
        }
    }

    /// Moves the top left corner to `(x, y)`.
    pub fn move_to(&mut self, x: u16, y: u16)
        ensures
            *final(self) == (StatusLine { x, y, ..*old(self) }),
    {
        self.x = x;
        self.y = y;
    }

    /// Sets the size.
    pub fn resize(&mut self, w: usize, h: usize)
        ensures
            *final(self) == (StatusLine { width: w, height: h, ..*old(self) }),
    {
        self.width = w;
        self.height = h;
    }

    /// The row's text: the file name after one space, padded with spaces so
    /// that its byte length plus the two margins fills the width.
    pub fn get_text(&self) -> (r: String)
        requires
            encode_utf8(self.filename@).len() + 2 <= self.width,
        ensures
            r@ == seq![' '] + self.filename@ + spaces(
                self.width - encode_utf8(self.filename@).len() - 2,
            ) + seq![' '],
    {
        proof {
            reveal_strlit(" ");
            assert(" "@ =~= seq![' ']);
        }
        let padding: usize = 1;
        let content_width = self.filename.as_str().len();
        let mut line = String::new();
        line.append(" ");
        line.append(self.filename.as_str());
        let fill = self.width - padding - content_width - padding;
        let ghost head = line@;
        let mut k: usize = 0;
        while k < fill
            invariant
                k <= fill,
                " "@ == seq![' '],
                line@ == head + spaces(k as int),
            decreases fill - k,
        {
            line.append(" ");
            k = k + 1;
            assert(line@ =~= head + spaces(k as int));
        }
        line.append(" ");
        line
    }
}

} // verus!
