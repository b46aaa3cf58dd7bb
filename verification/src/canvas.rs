//! Pixel buffers and the shapes that are drawn on them.
//!
//! A buffer is a dense row-major array of packed colours, eight bits per
//! channel, red in the most significant byte and alpha in the least. Shapes
//! are clipped: a pixel outside the buffer is silently skipped.

use vstd::prelude::*;
use crate::texture::{alpha_of, blue_of, green_of, red_of};

verus! {

/// Largest number of pixels that a buffer may hold.
pub const MAX_PIXELS: usize = 268435456;

/// A `width` by `height` image of packed RGBA pixels, row by row.
#[derive(Debug)]
pub struct PixelBuffer {
    pub width: u32,
    pub height: u32,
    pub data: Vec<u32>,
}

/// The index of pixel `(x, y)` lies inside a buffer that holds it.
pub proof fn lemma_pixel_index(width: int, height: int, x: int, y: int)
    by (nonlinear_arith)
    requires
        0 <= x < width,
        0 <= y < height,
    ensures
        0 <= y * width <= y * width + x < width * height,
{
    assert(y * width + width <= height * width) by {
        assert((y + 1) * width <= height * width);
    }
}

/// Two different pixels of one buffer have different indices.
pub proof fn lemma_pixel_index_distinct(width: int, x: int, y: int, px: int, py: int)
    by (nonlinear_arith)
    requires
        0 <= x < width,
        0 <= px < width,
        x != px || y != py,
    ensures
        y * width + x != py * width + px,
{
    if y < py {
        assert((y + 1) * width <= py * width);
    } else if py < y {
        assert((py + 1) * width <= y * width);
    }
}

impl PixelBuffer {
    /// The buffer's invariant: it holds exactly `width * height` pixels,
    /// and no more than `MAX_PIXELS`.
    pub open spec fn wf(&self) -> bool {
        self.data@.len() == self.width * self.height && self.data@.len() <= MAX_PIXELS
    }

    /// Whether `(x, y)` is a pixel of the buffer.
    pub open spec fn holds(&self, x: int, y: int) -> bool {
        0 <= x < self.width && 0 <= y < self.height
    }

    /// The colour of pixel `(x, y)`.
    pub open spec fn pixel(&self, x: int, y: int) -> u32 {
        self.data@[y * self.width + x]
    }

    /// Whether `other` has the same dimensions as this buffer.
    pub open spec fn same_shape(&self, other: &PixelBuffer) -> bool {
        self.width == other.width && self.height == other.height
    }

    /// Whether this buffer holds exactly `width * height` pixels and no
    /// more than `MAX_PIXELS`.
    pub fn is_valid(&self) -> (valid: bool)
        ensures
            valid == self.wf(),
    {
        assert(0 <= self.width * self.height <= 0xffff_ffff * 0xffff_ffff) by (nonlinear_arith)
            requires
                0 <= self.width <= 0xffff_ffff,
                0 <= self.height <= 0xffff_ffff,
        ;
        self.data.len() as u64 == (self.width as u64) * (self.height as u64) && self.data.len() <= MAX_PIXELS
    }

    /// A buffer of the given dimensions with every pixel zero, or `None`
    /// when the number of pixels exceeds `MAX_PIXELS`.
    pub fn new(width: u32, height: u32) -> (result: Option<PixelBuffer>)
        ensures
            result is Some <==> width * height <= MAX_PIXELS,
            match result {
                Some(buffer) => {
                    &&& buffer.wf()
                    &&& buffer.width == width
                    &&& buffer.height == height
                    &&& forall|i: int| 0 <= i < buffer.data@.len() ==> buffer.data@[i] == 0
                },
                None => true,
            },
    {
        assert(0 <= width * height <= 0xffff_ffff * 0xffff_ffff) by (nonlinear_arith)
            requires
                0 <= width <= 0xffff_ffff,
                0 <= height <= 0xffff_ffff,
        ;
        let count: u64 = (width as u64) * (height as u64);
        if count > MAX_PIXELS as u64 {
            return None;
        }
        let data: Vec<u32> = vec![0u32; count as usize];
        Some(PixelBuffer { width, height, data })
    }

    /// Sets pixel `(x, y)` to `colour`; does nothing when the buffer has no
    /// such pixel.
    pub fn set_pixel(&mut self, x: i64, y: i64, colour: u32)
        requires
            old(self).wf(),
        ensures
            final(self).wf(),
            final(self).same_shape(old(self)),
            forall|px: int, py: int|
                old(self).holds(px, py) ==> #[trigger] final(self).pixel(px, py) == (if px == x && py == y {
                    colour
                } else {
                    old(self).pixel(px, py)
                }),
    {
        if x < 0 || y < 0 || x >= self.width as i64 || y >= self.height as i64 {
            return ;
        }
        let count: usize = self.data.len();
        proof {
            lemma_pixel_index(self.width as int, self.height as int, x as int, y as int);
            assert(y * self.width + x < count);
        }
        let index: usize = (y as usize) * (self.width as usize) + (x as usize);
        self.data.set(index, colour);
        proof {
            assert forall|px: int, py: int| old(self).holds(px, py) implies #[trigger] self.pixel(px, py) == (if px
                == x && py == y {
                colour
            } else {
                old(self).pixel(px, py)
            }) by {
                lemma_pixel_index(self.width as int, self.height as int, px, py);
                if px != x || py != y {
                    lemma_pixel_index_distinct(self.width as int, x as int, y as int, px, py);
                }
            }
        }
    }
}

/// Whether the horizontal run from `x_from` to `x_to`, both included, on row
/// `y` covers pixel `(px, py)`.
pub open spec fn run_covers(x_from: int, x_to: int, y: int, px: int, py: int) -> bool {
    py == y && x_from <= px <= x_to
}

/// Whether the rectangle with corner `(x0, y0)`, `w` pixels wide and `h`
/// pixels high, covers pixel `(px, py)`.
pub open spec fn rect_covers(x0: int, y0: int, w: int, h: int, px: int, py: int) -> bool {
    x0 <= px < x0 + w && y0 <= py < y0 + h
}

/// Whether the square stamp of side `thickness` that is put down for the
/// point `(cx, cy)` covers pixel `(px, py)`.
pub open spec fn stamp_covers(cx: int, cy: int, thickness: int, px: int, py: int) -> bool {
    rect_covers(cx - thickness / 2, cy - thickness / 2, thickness, thickness, px, py)
}

impl PixelBuffer {
    /// Paints the horizontal run from `x_from` to `x_to`, both included, on
    /// row `y`.
    pub fn draw_run(&mut self, x_from: i64, x_to: i64, y: i64, colour: u32)
        requires
            old(self).wf(),
        ensures
            final(self).wf(),
            final(self).same_shape(old(self)),
            forall|px: int, py: int|
                old(self).holds(px, py) ==> #[trigger] final(self).pixel(px, py) == (if run_covers(
                    x_from as int,
                    x_to as int,
                    y as int,
                    px,
                    py,
                ) {
                    colour
                } else {
                    old(self).pixel(px, py)
                }),
    {
        if y < 0 || y >= self.height as i64 || self.width == 0 {
            return ;
        }
        let first: i64 = if x_from < 0 {
            0
        } else {
            x_from
        };
        let last: i64 = if x_to >= self.width as i64 {
            self.width as i64 - 1
        } else {
            x_to
        };
        if last < first {
            return ;
        }
        let mut x: i64 = first;
        while x <= last
            invariant
                first <= x <= last + 1,
                last < self.width,
                self.wf(),
                self.same_shape(old(self)),
                forall|px: int, py: int|
                    old(self).holds(px, py) ==> #[trigger] self.pixel(px, py) == (if run_covers(
                        first as int,
                        x - 1,
                        y as int,
                        px,
                        py,
                    ) {
                        colour
                    } else {
                        old(self).pixel(px, py)
                    }),
            decreases last - x + 1,
        {
            self.set_pixel(x, y, colour);
            x = x + 1;
        }
    }

    /// Paints the rectangle with corner `(x0, y0)`, `w` pixels wide and `h`
    /// pixels high. Nothing is painted when `w` or `h` is not positive.
    pub fn fill_rect(&mut self, x0: i64, y0: i64, w: i64, h: i64, colour: u32)
        requires
            old(self).wf(),
        ensures
            final(self).wf(),
            final(self).same_shape(old(self)),
            forall|px: int, py: int|
                old(self).holds(px, py) ==> #[trigger] final(self).pixel(px, py) == (if rect_covers(
                    x0 as int,
                    y0 as int,
                    w as int,
                    h as int,
                    px,
                    py,
                ) {
                    colour
                } else {
                    old(self).pixel(px, py)
                }),
    {
        if w <= 0 || h <= 0 || self.width == 0 || self.height == 0 {
            return ;
        }
        let x_end: i128 = x0 as i128 + w as i128;
        let y_end: i128 = y0 as i128 + h as i128;
        if x_end <= 0 || y_end <= 0 || x0 >= self.width as i64 || y0 >= self.height as i64 {
            return ;
        }
        let x_first: i64 = if x0 < 0 {
            0
        } else {
            x0
        };
        let x_last: i64 = if x_end > self.width as i128 {
            self.width as i64 - 1
        } else {
            (x_end - 1) as i64
        };
        let y_first: i64 = if y0 < 0 {
            0
        } else {
            y0
        };
        let y_stop: i64 = if y_end > self.height as i128 {
            self.height as i64
        } else {
            y_end as i64
        };
        let mut y: i64 = y_first;
        while y < y_stop
            invariant
                y_first <= y <= y_stop,
                0 <= y_first,
                y_stop <= self.height,
                y_first == (if y0 < 0 {
                    0
                } else {
                    y0 as int
                }),
                y_stop == (if y0 + h > self.height {
                    self.height as int
                } else {
                    y0 + h
                }),
                x_first == (if x0 < 0 {
                    0
                } else {
                    x0 as int
                }),
                x_last == (if x0 + w > self.width {
                    self.width - 1
                } else {
                    x0 + w - 1
                }),
                self.wf(),
                self.same_shape(old(self)),
                forall|px: int, py: int|
                    old(self).holds(px, py) ==> #[trigger] self.pixel(px, py) == (if rect_covers(
                        x0 as int,
                        y0 as int,
                        w as int,
                        h as int,
                        px,
                        py,
                    ) && py < y {
                        colour
                    } else {
                        old(self).pixel(px, py)
                    }),
            decreases y_stop - y,
        {
            self.draw_run(x_first, x_last, y, colour);
            y = y + 1;
        }
    }

    /// The pixels as bytes, four a pixel in the order red, green, blue,
    /// alpha, row by row: the form in which a picture is handed over for
    /// display.
    pub fn to_rgba_bytes(&self) -> (bytes: Vec<u8>)
        requires
            self.wf(),
        ensures
            bytes@.len() == 4 * self.data@.len(),
            forall|i: int|
                0 <= i < self.data@.len() ==> {
                    &&& bytes@[4 * i] == red_of(#[trigger] self.data@[i] as int)
                    &&& bytes@[4 * i + 1] == green_of(self.data@[i] as int)
                    &&& bytes@[4 * i + 2] == blue_of(self.data@[i] as int)
                    &&& bytes@[4 * i + 3] == alpha_of(self.data@[i] as int)
                },
    {
        let count: usize = self.data.len();
        let mut bytes: Vec<u8> = Vec::with_capacity(count * 4);
        let mut i: usize = 0;
        while i < count
            invariant
                i <= count,
                count == self.data@.len(),
                bytes@.len() == 4 * i,
                forall|k: int|
                    0 <= k < i ==> {
                        &&& bytes@[4 * k] == red_of(#[trigger] self.data@[k] as int)
                        &&& bytes@[4 * k + 1] == green_of(self.data@[k] as int)
                        &&& bytes@[4 * k + 2] == blue_of(self.data@[k] as int)
                        &&& bytes@[4 * k + 3] == alpha_of(self.data@[k] as int)
                    },
            decreases count - i,
        {
            let colour: u32 = self.data[i];
            let red: u32 = colour >> 24;
            let green: u32 = (colour >> 16) & 0xff;
            let blue: u32 = (colour >> 8) & 0xff;
            let alpha: u32 = colour & 0xff;
            assert(red == colour / 16777216 && green == (colour / 65536) % 256 && blue == (colour / 256) % 256
                && alpha == colour % 256 && red < 256) by (bit_vector)
                requires
                    red == colour >> 24,
                    green == (colour >> 16) & 0xff,
                    blue == (colour >> 8) & 0xff,
                    alpha == colour & 0xff,
            ;
            bytes.push(red as u8);
            bytes.push(green as u8);
            bytes.push(blue as u8);
            bytes.push(alpha as u8);
            i += 1;
        }
        bytes
    }

    /// Sets every pixel to zero.
    pub fn clear(&mut self)
        requires
            old(self).wf(),
        ensures
            final(self).wf(),
            final(self).same_shape(old(self)),
            forall|px: int, py: int| old(self).holds(px, py) ==> #[trigger] final(self).pixel(px, py) == 0,
    {
        self.fill_rect(0, 0, self.width as i64, self.height as i64, 0);
    }
}

} // verus!
