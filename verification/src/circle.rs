//! Filled circles by the midpoint algorithm.
//!
//! The algorithm walks one octant of the circle, from the point right of
//! the centre upwards, and for every point `(x, y)` that it visits paints
//! four horizontal runs: the rows `y` above and below the centre from `-x`
//! to `x`, and the rows `x` above and below the centre from `-y` to `y`.

use vstd::prelude::*;
use crate::canvas::{run_covers, PixelBuffer};

verus! {

/// A state of the walk along the octant: the point, relative to the
/// centre, and the error term that decides when `x` shrinks.
pub struct ArcPoint {
    pub x: int,
    pub y: int,
    pub err: int,
}

/// The state in which the walk for a circle of the given radius starts.
pub open spec fn arc_start(radius: int) -> ArcPoint {
    ArcPoint { x: radius, y: 0, err: 1 - radius }
}

/// The state after one move: `y` grows by one, and `x` shrinks by one
/// unless the error term is negative.
pub open spec fn arc_step(arc: ArcPoint) -> ArcPoint {
    if arc.err < 0 {
        ArcPoint { x: arc.x, y: arc.y + 1, err: arc.err + 2 * (arc.y + 1) + 1 }
    } else {
        ArcPoint { x: arc.x - 1, y: arc.y + 1, err: arc.err + 2 * ((arc.y + 1) - (arc.x - 1) + 1) }
    }
}

/// Whether one of the four runs that are painted for the state `arc` of a
/// circle centred on `(cx, cy)` covers pixel `(px, py)`.
pub open spec fn arc_covers(cx: int, cy: int, arc: ArcPoint, px: int, py: int) -> bool {
    ||| run_covers(cx - arc.x, cx + arc.x, cy + arc.y, px, py)
    ||| run_covers(cx - arc.x, cx + arc.x, cy - arc.y, px, py)
    ||| run_covers(cx - arc.y, cx + arc.y, cy + arc.x, px, py)
    ||| run_covers(cx - arc.y, cx + arc.y, cy - arc.x, px, py)
}

/// Whether the runs painted from the state `arc` on cover pixel `(px, py)`.
/// The walk ends when `y` has passed `x`.
pub open spec fn disc_covers_from(cx: int, cy: int, arc: ArcPoint, px: int, py: int) -> bool
    decreases arc.x - arc.y + 2,
{
    if arc.x < arc.y {
        false
    } else {
        arc_covers(cx, cy, arc, px, py) || disc_covers_from(cx, cy, arc_step(arc), px, py)
    }
}

/// Whether the filled circle of the given radius centred on `(cx, cy)`
/// covers pixel `(px, py)`.
pub open spec fn disc_covers(cx: int, cy: int, radius: int, px: int, py: int) -> bool {
    disc_covers_from(cx, cy, arc_start(radius), px, py)
}

/// What holds of every state of the walk for a circle of the given radius.
pub open spec fn arc_reachable(radius: int, arc: ArcPoint) -> bool {
    &&& 0 <= arc.y
    &&& arc.x <= radius
    &&& arc.y <= arc.x + 2
    &&& -2 * radius - 1 <= arc.err <= 2 * radius + 3 + 6 * arc.y
}

/// A move from a reachable state leads to a reachable state.
pub proof fn lemma_arc_step(radius: int, arc: ArcPoint)
    requires
        arc_reachable(radius, arc),
        arc.x >= arc.y,
    ensures
        arc_reachable(radius, arc_step(arc)),
{
}

/// Every pixel that the runs from a reachable state on cover lies in the
/// square that encloses the circle.
pub proof fn lemma_disc_inside(cx: int, cy: int, radius: int, arc: ArcPoint, px: int, py: int)
    requires
        arc_reachable(radius, arc),
        disc_covers_from(cx, cy, arc, px, py),
    ensures
        cx - radius <= px <= cx + radius,
        cy - radius <= py <= cy + radius,
    decreases arc.x - arc.y + 2,
{
    if !arc_covers(cx, cy, arc, px, py) {
        lemma_arc_step(radius, arc);
        lemma_disc_inside(cx, cy, radius, arc_step(arc), px, py);
    }
}

/// A filled circle covers its horizontal and its vertical diameter, and
/// nothing outside the square that encloses it.
pub proof fn lemma_disc_extent(cx: int, cy: int, radius: int, px: int, py: int)
    requires
        0 <= radius,
    ensures
        py == cy && cx - radius <= px <= cx + radius ==> disc_covers(cx, cy, radius, px, py),
        px == cx && cy - radius <= py <= cy + radius ==> disc_covers(cx, cy, radius, px, py),
        disc_covers(cx, cy, radius, px, py) ==> cx - radius <= px <= cx + radius && cy - radius <= py <= cy
            + radius,
{
    if disc_covers(cx, cy, radius, px, py) {
        lemma_disc_inside(cx, cy, radius, arc_start(radius), px, py);
    }
    if px == cx && cy - radius <= py <= cy + radius {
        lemma_column_covered(cx, cy, radius, arc_start(radius), px, py);
    }
}

/// The runs from a reachable state on cover the part of the vertical
/// diameter that is at least `arc.y` away from the centre.
proof fn lemma_column_covered(cx: int, cy: int, radius: int, arc: ArcPoint, px: int, py: int)
    requires
        arc_reachable(radius, arc),
        arc.y <= arc.x,
        px == cx,
        arc.y <= py - cy <= arc.x || arc.y <= cy - py <= arc.x,
    ensures
        disc_covers_from(cx, cy, arc, px, py),
    decreases arc.x - arc.y + 2,
{
    let off = if py >= cy {
        py - cy
    } else {
        cy - py
    };
    if off == arc.y || off == arc.x {
    } else {
        lemma_arc_step(radius, arc);
        let next = arc_step(arc);
        if next.y <= next.x {
            lemma_column_covered(cx, cy, radius, next, px, py);
        }
    }
}

impl PixelBuffer {
    /// Draws the filled circle of the given radius centred on `(cx, cy)`:
    /// every pixel that it covers takes `colour`, every other pixel keeps
    /// its own.
    pub fn draw_filled_circle(&mut self, cx: u32, cy: u32, radius: u32, colour: u32)
        requires
            old(self).wf(),
        ensures
            final(self).wf(),
            final(self).same_shape(old(self)),
            forall|px: int, py: int|
                old(self).holds(px, py) ==> #[trigger] final(self).pixel(px, py) == (if disc_covers(
                    cx as int,
                    cy as int,
                    radius as int,
                    px,
                    py,
                ) {
                    colour
                } else {
                    old(self).pixel(px, py)
                }),
    {
        let centre_x: i64 = cx as i64;
        let centre_y: i64 = cy as i64;
        let mut x: i64 = radius as i64;
        let mut y: i64 = 0;
        let mut err: i64 = 1 - x;
        let ghost r = radius as int;
        while x >= y
            invariant
                r == radius,
                centre_x == cx,
                centre_y == cy,
                arc_reachable(r, ArcPoint { x: x as int, y: y as int, err: err as int }),
                self.wf(),
                self.same_shape(old(self)),
                forall|px: int, py: int|
                    old(self).holds(px, py) ==> {
                        let now = #[trigger] self.pixel(px, py);
                        let arc = ArcPoint { x: x as int, y: y as int, err: err as int };
                        &&& now == colour || now == old(self).pixel(px, py)
                        &&& now != old(self).pixel(px, py) ==> disc_covers(cx as int, cy as int, r, px, py)
                        &&& disc_covers(cx as int, cy as int, r, px, py) ==> now == colour || disc_covers_from(
                            cx as int,
                            cy as int,
                            arc,
                            px,
                            py,
                        )
                    },
                forall|px: int, py: int| #[trigger]
                    disc_covers_from(cx as int, cy as int, ArcPoint { x: x as int, y: y as int, err: err as int }, px, py)
                        ==> disc_covers(cx as int, cy as int, r, px, py),
            decreases x - y + 2,
        {
            let ghost arc = ArcPoint { x: x as int, y: y as int, err: err as int };
            let ghost before = *self;
            self.draw_run(centre_x - x, centre_x + x, centre_y + y, colour);
            self.draw_run(centre_x - x, centre_x + x, centre_y - y, colour);
            self.draw_run(centre_x - y, centre_x + y, centre_y + x, colour);
            self.draw_run(centre_x - y, centre_x + y, centre_y - x, colour);
            proof {
                lemma_arc_step(r, arc);
            }
            y = y + 1;
            if err < 0 {
                err = err + 2 * y + 1;
            } else {
                x = x - 1;
                err = err + 2 * (y - x + 1);
            }
            let ghost next = ArcPoint { x: x as int, y: y as int, err: err as int };
            assert(next == arc_step(arc));
            proof {
                assert forall|px: int, py: int| #[trigger]
                    disc_covers_from(cx as int, cy as int, next, px, py) implies disc_covers(
                    cx as int,
                    cy as int,
                    r,
                    px,
                    py,
                ) by {
                    assert(disc_covers_from(cx as int, cy as int, arc, px, py));
                }
                assert forall|px: int, py: int| old(self).holds(px, py) implies {
                    let now = #[trigger] self.pixel(px, py);
                    &&& now == colour || now == old(self).pixel(px, py)
                    &&& now != old(self).pixel(px, py) ==> disc_covers(cx as int, cy as int, r, px, py)
                    &&& disc_covers(cx as int, cy as int, r, px, py) ==> now == colour || disc_covers_from(
                        cx as int,
                        cy as int,
                        next,
                        px,
                        py,
                    )
                } by {
                    let was = before.pixel(px, py);
                    assert(was == colour || was == old(self).pixel(px, py));
                    if arc_covers(cx as int, cy as int, arc, px, py) {
                        assert(disc_covers_from(cx as int, cy as int, arc, px, py));
                    }
                }
            }
        }
    }
}

} // verus!
