use vstd::prelude::*;

verus! {

/// A terminal screen: its size in cells and the output it is drawn to.
pub struct Display<W> {
    pub width: u16,
    pub height: u16,
    pub out: W,
}

impl<W> Display<W> {
    /// A display of `width` by `height` cells drawing to `out`.
    pub fn from_parts(out: W, width: u16, height: u16) -> (r: Display<W>)
        ensures
            r.width == width,
            r.height == height,
            r.out == out,
    {
        Display { width, height, out }
    }

    /// Records a new screen size.
    pub fn resize(&mut self, w: u16, h: u16)
        ensures
            final(self).width == w,
            final(self).height == h,
            final(self).out == old(self).out,
    {
        self.width = w;
        self.height = h;
    }
}

} // verus!
