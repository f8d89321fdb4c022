//! A grid of one-byte cells, the size of the terminal, filled before it is shown.
use vstd::prelude::*;

verus! {

/// `width * height` cells, row by row, each holding the low byte of a glyph.
pub struct FrameBuffer {
    pub width: usize,
    pub height: usize,
    pub data: Vec<u8>,
}

/// The byte a buffer cell holds for a glyph.
pub open spec fn glyph_byte(c: char) -> u8 {
    ((c as u32) % 256) as u8
}

impl FrameBuffer {
    pub open spec fn wf(self) -> bool {
        self.data@.len() == self.width * self.height
    }

    /// A buffer of `width` by `height` blank cells.
    pub fn new(width: usize, height: usize) -> (r: FrameBuffer)
        requires
            width * height <= usize::MAX,
        ensures
            r.wf(),
            r.width == width,
            r.height == height,
            forall|i: int| 0 <= i < r.data@.len() ==> r.data@[i] == 32u8,
    {
        let n = width * height;
        let mut data: Vec<u8> = Vec::new();
        let mut i: usize = 0;
        while i < n
            invariant
                0 <= i <= n,
                data@.len() == i,
                forall|k: int| 0 <= k < i ==> data@[k] == 32u8,
            decreases n - i,
        {
            data.push(32u8);
            i = i + 1;
        }
        FrameBuffer { width, height, data }
    }

    /// Writes the low byte of `c` at column `x`, row `y`; a cell outside the
    /// buffer is ignored.
    pub fn set_pixel(&mut self, x: usize, y: usize, c: char)
        requires
            old(self).wf(),
        ensures
            final(self).wf(),
            final(self).width == old(self).width,
            final(self).height == old(self).height,
            final(self).data@ == if x < old(self).width && y < old(self).height {
                old(self).data@.update(y * old(self).width + x, glyph_byte(c))
            } else {
                old(self).data@
            },
    {
        let total = self.data.len();
        if x < self.width && y < self.height {
            assert(y * self.width + x < self.width * self.height) by (nonlinear_arith)
                requires x < self.width, y < self.height;
            assert(y * self.width + x < total);
            let i = y * self.width + x;
            self.data.set(i, ((c as u32) % 256) as u8);
        }
    }

    /// The rows of the buffer, top first.
    pub fn render(&self) -> (r: Vec<Vec<u8>>)
        requires
            self.wf(),
        ensures
            r@.len() == self.height,
            forall|y: int| 0 <= y < self.height ==> (#[trigger] r@[y])@ == self.data@.subrange(
                y * self.width,
                (y + 1) * self.width,
            ),
    {
        let total = self.data.len();
        let mut rows: Vec<Vec<u8>> = Vec::new();
        let mut y: usize = 0;
        while y < self.height
            invariant
                self.wf(),
                total == self.data@.len(),
                0 <= y <= self.height,
                rows@.len() == y,
                forall|k: int| 0 <= k < y ==> (#[trigger] rows@[k])@ == self.data@.subrange(
                    k * self.width,
                    (k + 1) * self.width,
                ),
            decreases self.height - y,
        {
            assert((y + 1) * self.width <= self.width * self.height) by (nonlinear_arith)
                requires y < self.height;
            assert((y + 1) * self.width == y * self.width + self.width) by (nonlinear_arith);
            assert(y * self.width + self.width <= total);
            let start = y * self.width;
            let mut row: Vec<u8> = Vec::new();
            let mut x: usize = 0;
            while x < self.width
                invariant
                    self.wf(),
                    total == self.data@.len(),
                    0 <= x <= self.width,
                    start == y * self.width,
                    start + self.width <= self.data@.len(),
                    row@ == self.data@.subrange(start as int, start + x),
                decreases self.width - x,
            {
                row.push(self.data[start + x]);
                x = x + 1;
                proof {
                    assert(row@ =~= self.data@.subrange(start as int, start + x));
                }
            }
            rows.push(row);
            y = y + 1;
        }
        rows
    }
}

} // verus!
