//! The raster type shared by every pipeline stage: a row-major flat buffer
//! of samples together with its dimensions.
use vstd::prelude::*;

use crate::{transparent, Color};

verus! {

/// A row-major raster of [`Color`] samples.
#[derive(Clone)]
pub struct Sprite {
    pub width: usize,
    pub height: usize,
    pub data: Vec<Color>,
}

impl Sprite {
    /// The buffer holds exactly one sample per grid cell.
    pub open spec fn wf(self) -> bool {
        self.data@.len() == self.width * self.height
    }

    /// The sample at flat index `y * width + x`, or `None` past the buffer.
    pub fn get_pixel(&self, x: usize, y: usize) -> (r: Option<Color>)
        requires
            y * self.width + x <= usize::MAX,
        ensures
            r == if y * self.width + x < self.data@.len() {
                Some(self.data@[y * self.width + x])
            } else {
                None::<Color>
            },
    {
        let i: usize = y * self.width + x;
        if i < self.data.len() {
            Some(self.data[i])
        } else {
            None
        }
    }

    /// Overwrites the sample at flat index `y * width + x`; writes past the
    /// buffer are ignored.
    pub fn set_pixel(&mut self, x: usize, y: usize, color: Color)
        requires
            y * old(self).width + x <= usize::MAX,
        ensures
            final(self).width == old(self).width,
            final(self).height == old(self).height,
            final(self).data@ == if y * old(self).width + x < old(self).data@.len() {
                old(self).data@.update(y * old(self).width + x, color)
            } else {
                old(self).data@
            },
    {
        let i: usize = y * self.width + x;
        if i < self.data.len() {
            self.data.set(i, color);
        }
    }
}

impl Default for Sprite {
    /// An empty raster.
    fn default() -> (s: Sprite)
        ensures
            s.width == 0,
            s.height == 0,
            s.data@ == Seq::<Color>::empty(),
            s.wf(),
    {
        Sprite { width: 0, height: 0, data: Vec::new() }
    }
}

/// The sample of a `w`-by-`h` row-major buffer at grid position `(x, y)`,
/// or the transparent sentinel when `(x, y)` lies outside the raster.
pub open spec fn pixel_at(data: Seq<Color>, w: int, h: int, x: int, y: int) -> Color {
    if 0 <= x < w && 0 <= y < h && 0 <= y * w + x < data.len() {
        data[y * w + x]
    } else {
        transparent()
    }
}

/// Fetches `pixel_at` for possibly out-of-raster signed coordinates.
pub fn pixel_or_default(s: &Sprite, x: i64, y: i64) -> (c: Color)
    requires
        s.wf(),
        s.width <= 0xffff,
        s.height <= 0xffff,
    ensures
        c == pixel_at(s.data@, s.width as int, s.height as int, x as int, y as int),
{
    let n: usize = s.data.len();
    if 0 <= x && x < s.width as i64 && 0 <= y && y < s.height as i64 {
        assert((y as int) * (s.width as int) + (x as int) < n) by (nonlinear_arith)
            requires
                0 <= y as int,
                y < s.height as int,
                0 <= x as int,
                x < s.width as int,
                n == s.width * s.height,
        ;
        let i: usize = (y as usize) * s.width + (x as usize);
        s.data[i]
    } else {
        Color::new(0, 0, 0, 0)
    }
}

} // verus!
