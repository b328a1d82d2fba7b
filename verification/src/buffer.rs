use vstd::prelude::*;

verus! {

/// The color every surface starts with and is cleared to, packed as
/// 24-bit RGB.
pub const BACKGROUND: u32 = 0;

/// The color the ball and paddles are drawn in.
pub const WHITE: u32 = 0x00FF_FFFF;

/// Largest accepted surface edge, in pixels.
pub const MAX_BUFFER_DIM: usize = 16384;

/// The off-screen frame: a row-major color buffer sized to the display,
/// allocated once at startup. Every draw call clips silently to the
/// surface, so transiently out-of-range game coordinates never fault.
pub struct Buffer {
    pub width: usize,
    pub height: usize,
    pub pixels: Vec<u32>,
}

/// Whether a filled or outlined rectangle at `(x, y)` of size `w` by
/// `h` covers the pixel `(px, py)`: inside the rectangle, and for the
/// outline on one of its four edge lines.
pub open spec fn rect_covers(
    x: usize,
    y: usize,
    w: usize,
    h: usize,
    filled: bool,
    px: int,
    py: int,
) -> bool {
    &&& x <= px < x + w
    &&& y <= py < y + h
    &&& (filled || px == x || px == x + w - 1 || py == y || py == y + h - 1)
}

impl Buffer {
    /// The buffer really holds one color per pixel of the surface.
    pub open spec fn wf(self) -> bool {
        &&& self.pixels@.len() == self.width * self.height
        &&& 1 <= self.width <= MAX_BUFFER_DIM
        &&& 1 <= self.height <= MAX_BUFFER_DIM
    }

    /// The color at `(px, py)`, by the row-major layout.
    pub open spec fn pixel(self, px: int, py: int) -> u32 {
        self.pixels@[py * self.width + px]
    }

    /// Allocates a surface of the given size, every pixel background.
    pub fn new(width: usize, height: usize) -> (r: Buffer)
        requires
            1 <= width <= MAX_BUFFER_DIM,
            1 <= height <= MAX_BUFFER_DIM,
        ensures
            r.wf(),
            r.width == width,
            r.height == height,
            forall|px: int, py: int|
                0 <= px < width && 0 <= py < height ==> #[trigger] r.pixel(px, py) == BACKGROUND,
    {
        proof {
            assert(width * height <= MAX_BUFFER_DIM * MAX_BUFFER_DIM) by (nonlinear_arith)
                requires
                    width <= MAX_BUFFER_DIM,
                    height <= MAX_BUFFER_DIM,
            ;
        }
        let n: usize = width * height;
        let mut pixels: Vec<u32> = Vec::new();
        while pixels.len() < n
            invariant
                pixels@.len() <= n,
                forall|i: int| 0 <= i < pixels@.len() ==> pixels@[i] == BACKGROUND,
            decreases n - pixels@.len(),
        {
            pixels.push(BACKGROUND);
        }
        let r = Buffer { width, height, pixels };
        proof {
            lemma_index_in_buffer(width as int, height as int);
        }
        r
    }

    /// Overwrites every pixel with the background color.
    pub fn clear(&mut self)
        requires
            old(self).wf(),
        ensures
            final(self).wf(),
            final(self).width == old(self).width,
            final(self).height == old(self).height,
            forall|px: int, py: int|
                0 <= px < final(self).width && 0 <= py < final(self).height
                    ==> #[trigger] final(self).pixel(px, py) == BACKGROUND,
    {
        let n = self.pixels.len();
        let mut i: usize = 0;
        while i < n
            invariant
                old(self).wf(),
                self.width == old(self).width,
                self.height == old(self).height,
                self.pixels@.len() == n,
                n == old(self).pixels@.len(),
                i <= n,
                forall|j: int| 0 <= j < i ==> self.pixels@[j] == BACKGROUND,
            decreases n - i,
        {
            self.pixels[i] = BACKGROUND;
            i = i + 1;
        }
        proof {
            lemma_index_in_buffer(self.width as int, self.height as int);
        }
    }

    /// Draws a rectangle, filled or as a one-pixel outline. Whatever
    /// part of it lies outside the surface is silently clipped, never
    /// an error: covered pixels take the color, all others keep theirs.
    pub fn rectangle(&mut self, x: usize, y: usize, w: usize, h: usize, color: u32, filled: bool)
        requires
            old(self).wf(),
            x + w <= usize::MAX,
            y + h <= usize::MAX,
        ensures
            final(self).wf(),
            final(self).width == old(self).width,
            final(self).height == old(self).height,
            forall|px: int, py: int|
                0 <= px < final(self).width && 0 <= py < final(self).height
                    ==> #[trigger] final(self).pixel(px, py) == (if rect_covers(
                    x, y, w, h, filled, px, py) {
                    color
                } else {
                    old(self).pixel(px, py)
                }),
    {
        let ghost orig = *old(self);
        let y_end: usize = if h > self.height || y + h > self.height {
            self.height
        } else {
            y + h
        };
        let x_end: usize = if w > self.width || x + w > self.width {
            self.width
        } else {
            x + w
        };
        let mut py: usize = y;
        while py < y_end
            invariant
                orig.wf(),
                self.width == orig.width,
                self.height == orig.height,
                self.pixels@.len() == orig.pixels@.len(),
                x + w <= usize::MAX,
                y + h <= usize::MAX,
                x_end == if x + w <= self.width { x + w } else { self.width as int },
                y_end == if y + h <= self.height { y + h } else { self.height as int },
                y <= py,
                py <= y_end || py == y,
                forall|qx: int, qy: int|
                    0 <= qx < self.width && 0 <= qy < self.height ==> #[trigger] self.pixel(qx, qy)
                        == (if rect_covers(x, y, w, h, filled, qx, qy) && qy < py {
                        color
                    } else {
                        orig.pixel(qx, qy)
                    }),
            decreases y_end - py,
        {
            let mut px: usize = x;
            while px < x_end
                invariant
                    orig.wf(),
                    self.width == orig.width,
                    self.height == orig.height,
                    self.pixels@.len() == orig.pixels@.len(),
                    x + w <= usize::MAX,
                    y + h <= usize::MAX,
                    x_end == if x + w <= self.width { x + w } else { self.width as int },
                    y_end == if y + h <= self.height { y + h } else { self.height as int },
                    y <= py < y_end,
                    x <= px,
                    px <= x_end || px == x,
                    forall|qx: int, qy: int|
                        0 <= qx < self.width && 0 <= qy < self.height ==> #[trigger] self.pixel(
                            qx,
                            qy,
                        ) == (if rect_covers(x, y, w, h, filled, qx, qy) && (qy < py || (qy == py
                            && qx < px)) {
                            color
                        } else {
                            orig.pixel(qx, qy)
                        }),
                decreases x_end - px,
            {
                if filled || px == x || px == x + w - 1 || py == y || py == y + h - 1 {
                    proof {
                        assert(py * self.width + px < self.width * self.height && py * self.width
                            + px <= 16384 * 16384) by (nonlinear_arith)
                            requires
                                0 <= px < self.width,
                                0 <= py < self.height,
                                self.width <= 16384,
                                self.height <= 16384,
                        ;
                    }
                    let idx: usize = py * self.width + px;
                    let ghost prev = *self;
                    self.pixels[idx] = color;
                    proof {
                        assert forall|qx: int, qy: int|
                            0 <= qx < self.width && 0 <= qy < self.height && !(qx == px && qy
                                == py) implies #[trigger] self.pixel(qx, qy) == prev.pixel(
                            qx,
                            qy,
                        ) by {
                            lemma_row_major_distinct(
                                self.width as int,
                                qx,
                                qy,
                                px as int,
                                py as int,
                            );
                            assert(0 <= qy * self.width + qx < self.width * self.height) by (
                            nonlinear_arith)
                                requires
                                    0 <= qx < self.width,
                                    0 <= qy < self.height,
                            ;
                        }
                        assert(self.pixel(px as int, py as int) == color);
                    }
                }
                px = px + 1;
            }
            py = py + 1;
        }
    }
}

/// Distinct pixels have distinct row-major indices.
proof fn lemma_row_major_distinct(width: int, px1: int, py1: int, px2: int, py2: int)
    requires
        0 < width,
        0 <= px1 < width,
        0 <= px2 < width,
        0 <= py1,
        0 <= py2,
        !(px1 == px2 && py1 == py2),
    ensures
        py1 * width + px1 != py2 * width + px2,
{
    assert(py1 * width + px1 != py2 * width + px2) by (nonlinear_arith)
        requires
            0 < width,
            0 <= px1 < width,
            0 <= px2 < width,
            !(px1 == px2 && py1 == py2),
    ;
}

/// Every in-surface pixel's row-major index lies within the buffer.
proof fn lemma_index_in_buffer(width: int, height: int)
    requires
        0 <= width,
        0 <= height,
    ensures
        forall|px: int, py: int|
            0 <= px < width && 0 <= py < height ==> 0 <= #[trigger] (py * width + px) < width
                * height,
{
    assert forall|px: int, py: int| 0 <= px < width && 0 <= py < height implies 0 <= #[trigger] (py
        * width + px) < width * height by {
        assert(0 <= py * width + px < width * height) by (nonlinear_arith)
            requires
                0 <= px < width,
                0 <= py < height,
        ;
    }
}

} // verus!
