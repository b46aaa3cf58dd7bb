//! Straight lines by Bresenham's integer stepper.
//!
//! The pen starts on the first end point and moves one pixel at a time,
//! along one axis or along both, until it stands on the second end point.
//! An error term decides which axes move. At every point that the pen
//! visits, a square stamp of the stroke's thickness is painted.

use vstd::prelude::*;
use crate::canvas::{stamp_covers, PixelBuffer};
use crate::fixed::lemma_product_bound;

verus! {

/// The end points of a line.
pub struct Segment {
    pub x0: int,
    pub y0: int,
    pub x1: int,
    pub y1: int,
}

/// A state of the pen: where it stands and the error term.
pub struct Pen {
    pub x: int,
    pub y: int,
    pub err: int,
}

/// Distance between two coordinates.
pub open spec fn gap(a: int, b: int) -> int {
    if a < b {
        b - a
    } else {
        a - b
    }
}

/// Direction in which the pen moves from `a` to reach `b`.
pub open spec fn heading(a: int, b: int) -> int {
    if a < b {
        1
    } else {
        -1
    }
}

/// The coordinate `k` pixels from `a` in the direction of `b`.
pub open spec fn moved(a: int, b: int, k: int) -> int {
    if a < b {
        a + k
    } else {
        a - k
    }
}

impl Segment {
    /// Horizontal extent of the line.
    pub open spec fn dx(&self) -> int {
        gap(self.x0, self.x1)
    }

    /// Vertical extent of the line.
    pub open spec fn dy(&self) -> int {
        gap(self.y0, self.y1)
    }

    /// The pen on the first end point.
    pub open spec fn start(&self) -> Pen {
        Pen { x: self.x0, y: self.y0, err: self.dx() - self.dy() }
    }

    /// Whether the pen stands on the second end point.
    pub open spec fn done(&self, pen: Pen) -> bool {
        pen.x == self.x1 && pen.y == self.y1
    }

    /// The pen after one move.
    pub open spec fn step(&self, pen: Pen) -> Pen {
        let doubled = 2 * pen.err;
        let across = doubled > -self.dy();
        let down = doubled < self.dx();
        Pen {
            x: if across {
                pen.x + heading(self.x0, self.x1)
            } else {
                pen.x
            },
            y: if down {
                pen.y + heading(self.y0, self.y1)
            } else {
                pen.y
            },
            err: pen.err - (if across {
                self.dy()
            } else {
                0
            }) + (if down {
                self.dx()
            } else {
                0
            }),
        }
    }

    /// What holds of every state that the pen reaches: it lies between the
    /// end points on both axes, and the error term is the one that belongs
    /// to the moves made so far.
    pub open spec fn reachable(&self, pen: Pen) -> bool {
        let i = gap(self.x0, pen.x);
        let j = gap(self.y0, pen.y);
        &&& i <= self.dx()
        &&& j <= self.dy()
        &&& pen.x == moved(self.x0, self.x1, i)
        &&& pen.y == moved(self.y0, self.y1, j)
        &&& pen.err == self.dx() - self.dy() - i * self.dy() + j * self.dx()
    }

    /// Number of single-axis moves that separate the pen from the second
    /// end point.
    pub open spec fn remaining(&self, pen: Pen) -> int {
        gap(pen.x, self.x1) + gap(pen.y, self.y1)
    }

    /// Whether a stroke of the given thickness, drawn from `pen` to the
    /// second end point, covers pixel `(px, py)`.
    pub open spec fn covers_from(&self, pen: Pen, thickness: int, px: int, py: int) -> bool
        decreases self.remaining(pen),
        when self.reachable(pen)
    {
        stamp_covers(pen.x, pen.y, thickness, px, py) || (!self.done(pen) && {
            proof {
                self.lemma_step(pen);
            }
            self.covers_from(self.step(pen), thickness, px, py)
        })
    }

    /// Whether a stroke of the given thickness along the whole line covers
    /// pixel `(px, py)`.
    pub open spec fn covers(&self, thickness: int, px: int, py: int) -> bool {
        self.covers_from(self.start(), thickness, px, py)
    }

    /// A stroke from a reachable state covers what the stamp of that state
    /// covers and, short of the end, what the stroke from the next state
    /// covers.
    pub proof fn lemma_covers_from(&self, pen: Pen, thickness: int, px: int, py: int)
        requires
            self.reachable(pen),
        ensures
            self.covers_from(pen, thickness, px, py) == (stamp_covers(pen.x, pen.y, thickness, px, py) || (
            !self.done(pen) && self.covers_from(self.step(pen), thickness, px, py))),
    {
        if !self.done(pen) {
            self.lemma_step(pen);
        }
    }

    /// The pen starts in a reachable state.
    pub proof fn lemma_start(&self)
        ensures
            self.reachable(self.start()),
    {
        assert(0 * self.dy() == 0);
        assert(0 * self.dx() == 0);
    }

    /// A move from a reachable state short of the end leads to a reachable
    /// state that is nearer to the end, at most one pixel away on each axis.
    pub proof fn lemma_step(&self, pen: Pen)
        requires
            self.reachable(pen),
            !self.done(pen),
        ensures
            self.reachable(self.step(pen)),
            self.remaining(self.step(pen)) < self.remaining(pen),
            gap(pen.x, self.step(pen).x) <= 1,
            gap(pen.y, self.step(pen).y) <= 1,
    {
        let i = gap(self.x0, pen.x);
        let j = gap(self.y0, pen.y);
        lemma_error_term(self.dx(), self.dy(), i, j, pen.err);
        let next = self.step(pen);
        let across = 2 * pen.err > -self.dy();
        let down = 2 * pen.err < self.dx();
        if across {
            assert(gap(self.x0, next.x) == i + 1);
        } else {
            assert(gap(self.x0, next.x) == i);
        }
        if down {
            assert(gap(self.y0, next.y) == j + 1);
        } else {
            assert(gap(self.y0, next.y) == j);
        }
    }
}

impl Segment {
    /// A stroke from any reachable state covers the stamp of the second end
    /// point.
    pub proof fn lemma_reaches_end(&self, pen: Pen, thickness: int, px: int, py: int)
        requires
            self.reachable(pen),
            stamp_covers(self.x1, self.y1, thickness, px, py),
        ensures
            self.covers_from(pen, thickness, px, py),
        decreases self.remaining(pen),
    {
        self.lemma_covers_from(pen, thickness, px, py);
        if !self.done(pen) {
            self.lemma_step(pen);
            self.lemma_reaches_end(self.step(pen), thickness, px, py);
        }
    }

    /// Every pixel that a stroke from a reachable state covers lies under
    /// the stamp of some point between the two end points of the line.
    pub proof fn lemma_stays_inside(&self, pen: Pen, thickness: int, px: int, py: int)
        requires
            self.reachable(pen),
            self.covers_from(pen, thickness, px, py),
        ensures
            exists|x: int, y: int|
                gap(self.x0, x) + gap(x, self.x1) == self.dx() && gap(self.y0, y) + gap(y, self.y1) == self.dy()
                    && #[trigger] stamp_covers(x, y, thickness, px, py),
        decreases self.remaining(pen),
    {
        self.lemma_covers_from(pen, thickness, px, py);
        if stamp_covers(pen.x, pen.y, thickness, px, py) {
        } else {
            self.lemma_step(pen);
            self.lemma_stays_inside(self.step(pen), thickness, px, py);
        }
    }

    /// A stroke covers the stamps of both end points of its line, and
    /// nothing that is not under the stamp of a point between them.
    pub proof fn lemma_covers_ends(&self, thickness: int, px: int, py: int)
        ensures
            stamp_covers(self.x0, self.y0, thickness, px, py) ==> self.covers(thickness, px, py),
            stamp_covers(self.x1, self.y1, thickness, px, py) ==> self.covers(thickness, px, py),
            self.covers(thickness, px, py) ==> exists|x: int, y: int|
                gap(self.x0, x) + gap(x, self.x1) == self.dx() && gap(self.y0, y) + gap(y, self.y1) == self.dy()
                    && #[trigger] stamp_covers(x, y, thickness, px, py),
    {
        self.lemma_start();
        self.lemma_covers_from(self.start(), thickness, px, py);
        if stamp_covers(self.x1, self.y1, thickness, px, py) {
            self.lemma_reaches_end(self.start(), thickness, px, py);
        }
        if self.covers(thickness, px, py) {
            self.lemma_stays_inside(self.start(), thickness, px, py);
        }
    }
}

/// The arithmetic of the error term. With `i` moves across and `j` moves
/// down behind it, short of the end, the pen moves along at least one axis,
/// never beyond the extent of an axis, and the error term follows.
proof fn lemma_error_term(dx: int, dy: int, i: int, j: int, err: int)
    by (nonlinear_arith)
    requires
        0 <= i <= dx,
        0 <= j <= dy,
        err == dx - dy - i * dy + j * dx,
        i != dx || j != dy,
    ensures
        2 * err > -dy ==> i < dx,
        2 * err < dx ==> j < dy,
        2 * err > -dy || 2 * err < dx,
        err - dy == dx - dy - (i + 1) * dy + j * dx,
        err + dx == dx - dy - i * dy + (j + 1) * dx,
        err - dy + dx == dx - dy - (i + 1) * dy + (j + 1) * dx,
{
    if i == dx {
        assert(dx * (1 - dy + j) <= 0);
        assert(err == dx * (1 - dy + j) - dy);
    }
    if j == dy {
        assert(dy * (dx - 1 - i) >= 0);
        assert(err == dx + dy * (dx - 1 - i));
    }
}

/// The line between two points with `i32` coordinates.
pub open spec fn segment(x0: i32, y0: i32, x1: i32, y1: i32) -> Segment {
    Segment { x0: x0 as int, y0: y0 as int, x1: x1 as int, y1: y1 as int }
}

impl PixelBuffer {
    /// Paints the square stamp of side `thickness` for the point `(cx, cy)`.
    fn stamp(&mut self, cx: i64, cy: i64, thickness: i32, colour: u32)
        requires
            old(self).wf(),
            i32::MIN <= cx <= i32::MAX,
            i32::MIN <= cy <= i32::MAX,
        ensures
            final(self).wf(),
            final(self).same_shape(old(self)),
            forall|px: int, py: int|
                old(self).holds(px, py) ==> #[trigger] final(self).pixel(px, py) == (if stamp_covers(
                    cx as int,
                    cy as int,
                    thickness as int,
                    px,
                    py,
                ) {
                    colour
                } else {
                    old(self).pixel(px, py)
                }),
    {
        if thickness <= 0 {
            return ;
        }
        let half: i64 = (thickness / 2) as i64;
        self.fill_rect(cx - half, cy - half, thickness as i64, thickness as i64, colour);
    }

    /// Draws the line from `(x0, y0)` to `(x1, y1)` with a stroke of the
    /// given thickness: every pixel that the stroke covers takes `colour`,
    /// every other pixel keeps its own. A thickness that is not positive
    /// paints nothing.
    pub fn draw_line(&mut self, x0: i32, y0: i32, x1: i32, y1: i32, thickness: i32, colour: u32)
        requires
            old(self).wf(),
        ensures
            final(self).wf(),
            final(self).same_shape(old(self)),
            forall|px: int, py: int|
                old(self).holds(px, py) ==> #[trigger] final(self).pixel(px, py) == (if segment(
                    x0,
                    y0,
                    x1,
                    y1,
                ).covers(thickness as int, px, py) {
                    colour
                } else {
                    old(self).pixel(px, py)
                }),
    {
        let ghost seg = segment(x0, y0, x1, y1);
        let ghost t = thickness as int;
        let dx: i64 = if x0 < x1 {
            x1 as i64 - x0 as i64
        } else {
            x0 as i64 - x1 as i64
        };
        let dy: i64 = if y0 < y1 {
            y1 as i64 - y0 as i64
        } else {
            y0 as i64 - y1 as i64
        };
        let sx: i64 = if x0 < x1 {
            1
        } else {
            -1
        };
        let sy: i64 = if y0 < y1 {
            1
        } else {
            -1
        };
        let mut err: i128 = dx as i128 - dy as i128;
        let mut x: i64 = x0 as i64;
        let mut y: i64 = y0 as i64;
        proof {
            seg.lemma_start();
        }
        self.stamp(x, y, thickness, colour);
        proof {
            assert forall|px: int, py: int| old(self).holds(px, py) implies {
                let now = #[trigger] self.pixel(px, py);
                let pen = seg.start();
                &&& now == colour || now == old(self).pixel(px, py)
                &&& now != old(self).pixel(px, py) ==> seg.covers(t, px, py)
                &&& seg.covers(t, px, py) ==> now == colour || (!seg.done(pen) && seg.covers_from(
                    seg.step(pen),
                    t,
                    px,
                    py,
                ))
            } by {
                seg.lemma_covers_from(seg.start(), t, px, py);
            }
        }
        while x != x1 as i64 || y != y1 as i64
            invariant
                seg == segment(x0, y0, x1, y1),
                t == thickness,
                dx == seg.dx(),
                dy == seg.dy(),
                sx == heading(seg.x0, seg.x1),
                sy == heading(seg.y0, seg.y1),
                seg.reachable(Pen { x: x as int, y: y as int, err: err as int }),
                self.wf(),
                self.same_shape(old(self)),
                forall|px: int, py: int|
                    old(self).holds(px, py) ==> {
                        let now = #[trigger] self.pixel(px, py);
                        let pen = Pen { x: x as int, y: y as int, err: err as int };
                        &&& now == colour || now == old(self).pixel(px, py)
                        &&& now != old(self).pixel(px, py) ==> seg.covers(t, px, py)
                        &&& seg.covers(t, px, py) ==> now == colour || (!seg.done(pen) && seg.covers_from(
                            seg.step(pen),
                            t,
                            px,
                            py,
                        ))
                    },
                forall|px: int, py: int| #[trigger]
                    seg.covers_from(Pen { x: x as int, y: y as int, err: err as int }, t, px, py) ==> seg.covers(
                        t,
                        px,
                        py,
                    ),
            decreases seg.remaining(Pen { x: x as int, y: y as int, err: err as int }),
        {
            let ghost pen = Pen { x: x as int, y: y as int, err: err as int };
            let ghost before = *self;
            proof {
                seg.lemma_step(pen);
                lemma_product_bound(gap(seg.x0, pen.x), seg.dy(), 0x1_0000_0000, 0x1_0000_0000);
                lemma_product_bound(gap(seg.y0, pen.y), seg.dx(), 0x1_0000_0000, 0x1_0000_0000);
            }
            let doubled: i128 = 2 * err;
            if doubled > -(dy as i128) {
                err = err - dy as i128;
                x = x + sx;
            }
            if doubled < dx as i128 {
                err = err + dx as i128;
                y = y + sy;
            }
            let ghost next = Pen { x: x as int, y: y as int, err: err as int };
            assert(next == seg.step(pen));
            self.stamp(x, y, thickness, colour);
            proof {
                assert forall|px: int, py: int| #[trigger] seg.covers_from(next, t, px, py) implies seg.covers(
                    t,
                    px,
                    py,
                ) by {
                    seg.lemma_covers_from(pen, t, px, py);
                }
                assert forall|px: int, py: int| old(self).holds(px, py) implies {
                    let now = #[trigger] self.pixel(px, py);
                    &&& now == colour || now == old(self).pixel(px, py)
                    &&& now != old(self).pixel(px, py) ==> seg.covers(t, px, py)
                    &&& seg.covers(t, px, py) ==> now == colour || (!seg.done(next) && seg.covers_from(
                        seg.step(next),
                        t,
                        px,
                        py,
                    ))
                } by {
                    let was = before.pixel(px, py);
                    seg.lemma_covers_from(next, t, px, py);
                    assert(was == colour || was == old(self).pixel(px, py));
                }
            }
        }
    }
}

} // verus!
