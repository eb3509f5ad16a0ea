use vstd::prelude::*;

use crate::buffer::{lemma_without_len, without, Buffer};
use crate::line::{lemma_line_bounds, Line};

verus! {

/// Characters of line `l` that fall in a viewport scrolled `offset_x`
/// columns right and `width` columns wide.
pub open spec fn visible_segment(data: Seq<char>, l: Line, offset_x: int, width: int) -> Seq<char> {
    let lo = l.start + offset_x;
    let hi = if l.end + 1 < lo + width {
        l.end + 1
    } else {
        lo + width
    };
    if lo >= hi {
        Seq::empty()
    } else {
        data.subrange(lo, hi)
    }
}

/// Text of one screen row: the visible characters of line `l` without the
/// newline, padded with spaces to `width`.
pub open spec fn row_text(data: Seq<char>, l: Line, offset_x: int, width: int) -> Seq<char> {
    let shown = without(visible_segment(data, l, offset_x, width), '\n');
    shown + Seq::new((width - shown.len()) as nat, |_i: int| ' ')
}

impl Buffer {
    /// Index one past the last line the viewport shows.
    pub open spec fn visible_end(self) -> int {
        if self.offset_y + self.height < self.lines@.len() {
            self.offset_y + self.height
        } else {
            self.lines@.len() as int
        }
    }

    /// Number of rows the viewport fills: none for empty data.
    pub open spec fn visible_count(self) -> int {
        if self.data@.len() == 0 || self.visible_end() <= self.offset_y {
            0
        } else {
            self.visible_end() - self.offset_y
        }
    }

    /// One padded row of text for each line the viewport shows, top first.
    pub fn visible_rows(&self) -> (r: Vec<Vec<char>>)
        requires
            self.wf(),
        ensures
            r@.len() == self.visible_count(),
            forall|k: int|
                0 <= k < r@.len() ==> #[trigger] r@[k]@ == row_text(
                    self.data@,
                    self.lines@[self.offset_y + k],
                    self.offset_x as int,
                    self.width as int,
                ),
    {
        let mut rows: Vec<Vec<char>> = Vec::new();
        let n = self.lines.len();
        let len = self.data.len();
        if len == 0 {
            return rows;
        }
        let mut i: usize = self.offset_y;
        while i < n && i - self.offset_y < self.height
            invariant
                self.wf(),
                n == self.lines@.len(),
                len == self.data@.len(),
                len > 0,
                self.offset_y <= i,
                i <= self.visible_end() || i == self.offset_y,
                rows@.len() == i - self.offset_y,
                forall|k: int|
                    0 <= k < rows@.len() ==> #[trigger] rows@[k]@ == row_text(
                        self.data@,
                        self.lines@[self.offset_y + k],
                        self.offset_x as int,
                        self.width as int,
                    ),
            decreases n - i,
        {
            let row = self.row(i);
            rows.push(row);
            i = i + 1;
        }
        rows
    }

    fn row(&self, i: usize) -> (r: Vec<char>)
        requires
            self.wf(),
            self.data@.len() > 0,
            i < self.lines@.len(),
        ensures
            r@ == row_text(self.data@, self.lines@[i as int], self.offset_x as int, self.width as int),
    {
        let line = self.lines[i];
        proof {
            lemma_line_bounds(self.data@, self.lines@, i as int);
        }
        let ghost seg = visible_segment(
            self.data@,
            line,
            self.offset_x as int,
            self.width as int,
        );
        let mut r: Vec<char> = Vec::new();
        let lo = line.start + self.offset_x;
        if lo <= line.end {
            let mut j: usize = lo;
            let mut taken: usize = 0;
            while j <= line.end && taken < self.width
                invariant
                    self.wf(),
                    i < self.lines@.len(),
                    line == self.lines@[i as int],
                    line.end < self.data@.len(),
                    lo == line.start + self.offset_x,
                    lo <= line.end,
                    j == lo + taken,
                    taken <= self.width,
                    j <= line.end + 1,
                    r@ == without(self.data@.subrange(lo as int, j as int), '\n'),
                decreases self.width - taken,
            {
                assert(self.data@.subrange(lo as int, j + 1).drop_last() =~= self.data@.subrange(
                    lo as int,
                    j as int,
                ));
                let c = self.data[j];
                if c != '\n' {
                    r.push(c);
                }
                j = j + 1;
                taken = taken + 1;
            }
            if lo >= j {
                assert(self.data@.subrange(lo as int, j as int) =~= Seq::<char>::empty());
            } else {
                assert(seg == self.data@.subrange(lo as int, j as int));
            }
            proof {
                lemma_without_len(self.data@.subrange(lo as int, j as int), '\n');
            }
        }
        assert(r@ == without(seg, '\n'));
        let ghost shown = r@;
        while r.len() < self.width
            invariant
                shown.len() <= r@.len() <= self.width,
                r@ == shown + Seq::new((r@.len() - shown.len()) as nat, |_i: int| ' '),
            decreases self.width - r.len(),
        {
            r.push(' ');
            assert(r@ =~= shown + Seq::new((r@.len() - shown.len()) as nat, |_i: int| ' '));
        }
        r
    }

    /// Screen position of the cursor where it lies inside the viewport.
    pub fn cursor_on_screen(&self) -> (r: Option<(u16, u16)>)
        requires
            self.wf(),
        ensures
            r == if self.x <= self.screen_x() < self.x + self.width && self.y <= self.screen_y()
                < self.y + self.height && self.screen_x() <= u16::MAX && self.screen_y()
                <= u16::MAX {
                Some((self.screen_x() as u16, self.screen_y() as u16))
            } else {
                None
            },
    {
        let (cx, cy) = self.cursor_xy();
        let x = self.x as isize;
        let y = self.y as isize;
        if cx >= x && cy >= y && ((cx - x) as usize) < self.width && ((cy - y) as usize) < self.height
            && cx <= 65535 && cy <= 65535 {
            Some((cx as u16, cy as u16))
        } else {
            None
        }
    }
}

} // verus!
