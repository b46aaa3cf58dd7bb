//! The minimap: a top-down picture of the world, one square block per
//! cell, with the player's marker, heading and rays drawn over it.
//!
//! The picture is turned against the map: the horizontal pixel axis shows
//! the second map coordinate, the vertical pixel axis the first, so that a
//! row of the grid appears as a row of blocks.

use vstd::prelude::*;
use crate::canvas::PixelBuffer;
use crate::circle::disc_covers;
use crate::fixed::lemma_product_bound;
use crate::line::{segment, Segment};
use crate::player::Player;
use crate::raycast::{HitModel, RayHit};
use crate::render::{cell_colour, RenderContext};
use crate::world::{scanned_before, World};

verus! {

/// Colour of the rays on the minimap.
pub const RAY_COLOUR: u32 = 0xffff_ffff;

/// Colour of the heading line on the minimap.
pub const HEADING_COLOUR: u32 = 0x00ff_00ff;

/// Colour of the player's marker on the minimap.
pub const MARKER_COLOUR: u32 = 0xff00_00ff;

/// Radius of the player's marker, in pixels.
pub const MARKER_RADIUS: u32 = 3;

/// Thickness of the lines on the minimap, in pixels.
pub const STROKE: i32 = 2;

/// Length of the heading line, in cells.
pub const HEADING_CELLS: i64 = 3;

/// Every how many columns a ray is drawn on the minimap.
pub const RAY_STRIDE: u32 = 5;

/// Quotient rounded toward zero.
pub open spec fn toward_zero(a: int, d: int) -> int {
    if a >= 0 {
        a / d
    } else {
        -((-a) / d)
    }
}

/// `value` limited to the range from `low` to `high`.
pub open spec fn limited(value: int, low: int, high: int) -> int {
    if value < low {
        low
    } else if value > high {
        high
    } else {
        value
    }
}

/// The pixel coordinate of a map coordinate on a minimap with cells of
/// `cell` pixels: the product, rounded toward zero and limited to the range
/// of an `i32`.
pub open spec fn pixel_of(raw: int, cell: int) -> int {
    limited(toward_zero(raw * cell, 65536), i32::MIN as int, i32::MAX as int)
}

/// The pixel coordinate of the player's marker for a map coordinate: as
/// `pixel_of`, but never negative.
pub open spec fn marker_of(raw: int, cell: int) -> int {
    limited(toward_zero(raw * cell, 65536), 0, i32::MAX as int)
}

/// The line that shows the ray of a hit: from the point where the ray met
/// the wall to the player's marker.
pub open spec fn ray_segment(player: Player, hit: HitModel, cell: int) -> Segment {
    Segment {
        x0: pixel_of(hit.point_y, cell),
        y0: pixel_of(hit.point_x, cell),
        x1: marker_of(player.position.y.raw as int, cell),
        y1: marker_of(player.position.x.raw as int, cell),
    }
}

/// The line that shows the heading: from the player's marker to the point
/// `HEADING_CELLS` cells along the view direction.
pub open spec fn heading_segment(player: Player, cell: int) -> Segment {
    let x0 = marker_of(player.position.y.raw as int, cell);
    let y0 = marker_of(player.position.x.raw as int, cell);
    Segment {
        x0,
        y0,
        x1: limited(x0 + pixel_of(player.camera_direction.y.raw as int, cell * 3), i32::MIN as int, i32::MAX as int),
        y1: limited(y0 + pixel_of(player.camera_direction.x.raw as int, cell * 3), i32::MIN as int, i32::MAX as int),
    }
}

/// Code of the world cell whose block holds pixel `(px, py)`, or zero when
/// no block does.
pub open spec fn cell_under(world: World, cell: int, px: int, py: int) -> int {
    if cell > 0 && px >= 0 && py >= 0 {
        world.code(py / cell, px / cell)
    } else {
        0
    }
}

/// A pixel lies in the block of cell `k` along an axis exactly if its
/// coordinate divided by the block size is `k`.
pub proof fn lemma_block(cell: int, k: int, p: int)
    by (nonlinear_arith)
    requires
        cell > 0,
        0 <= p,
    ensures
        (k * cell <= p < k * cell + cell) <==> p / cell == k,
{
    let q = p / cell;
    assert(q * cell <= p < q * cell + cell);
    if k < q {
        assert((k + 1) * cell <= q * cell);
    }
    if k > q {
        assert((q + 1) * cell <= k * cell);
    }
}

/// Converts a map coordinate into a pixel coordinate.
pub fn to_pixel(raw: i64, cell: i64) -> (pixel: i32)
    ensures
        pixel == pixel_of(raw as int, cell as int),
{
    proof {
        lemma_product_bound(raw as int, cell as int, 0x8000_0000_0000_0000, 0x8000_0000_0000_0000);
    }
    let scaled: i128 = (raw as i128 * cell as i128) / 65536;
    if scaled < i32::MIN as i128 {
        i32::MIN
    } else if scaled > i32::MAX as i128 {
        i32::MAX
    } else {
        scaled as i32
    }
}

/// Converts a map coordinate into a pixel coordinate of the marker.
pub fn to_marker(raw: i64, cell: i64) -> (pixel: i32)
    ensures
        pixel == marker_of(raw as int, cell as int),
        0 <= pixel,
{
    let pixel: i32 = to_pixel(raw, cell);
    if pixel < 0 {
        0
    } else {
        pixel
    }
}

impl PixelBuffer {
    /// Draws the ray of a hit: a white line from the point where the ray
    /// met the wall to the player's marker.
    pub fn draw_ray(&mut self, player: &Player, hit: &RayHit, cell: u32)
        requires
            old(self).wf(),
        ensures
            final(self).wf(),
            final(self).same_shape(old(self)),
            forall|px: int, py: int|
                old(self).holds(px, py) ==> #[trigger] final(self).pixel(px, py) == (if ray_segment(
                    *player,
                    hit@,
                    cell as int,
                ).covers(STROKE as int, px, py) {
                    RAY_COLOUR
                } else {
                    old(self).pixel(px, py)
                }),
    {
        let x0: i32 = to_pixel(hit.point.y.raw, cell as i64);
        let y0: i32 = to_pixel(hit.point.x.raw, cell as i64);
        let x1: i32 = to_marker(player.position.y.raw, cell as i64);
        let y1: i32 = to_marker(player.position.x.raw, cell as i64);
        assert(segment(x0, y0, x1, y1) == ray_segment(*player, hit@, cell as int));
        self.draw_line(x0, y0, x1, y1, STROKE, RAY_COLOUR);
    }

    /// Draws a block for every cell of the world that is not open, in the
    /// colour of its code.
    pub fn draw_minimap_cells(&mut self, context: &RenderContext, world: &World)
        requires
            old(self).wf(),
            world.wf(),
        ensures
            final(self).wf(),
            final(self).same_shape(old(self)),
            forall|px: int, py: int|
                old(self).holds(px, py) ==> #[trigger] final(self).pixel(px, py) == (if cell_under(
                    *world,
                    context.minimap_scale as int,
                    px,
                    py,
                ) != 0 {
                    cell_colour(cell_under(*world, context.minimap_scale as int, px, py))
                } else {
                    old(self).pixel(px, py)
                }),
    {
        let cell: i64 = context.minimap_scale as i64;
        if cell == 0 {
            return ;
        }
        let size: usize = world.size;
        let mut y: usize = 0;
        while y < size
            invariant
                y <= size,
                size == world.size,
                world.wf(),
                cell == context.minimap_scale,
                cell > 0,
                self.wf(),
                self.same_shape(old(self)),
                forall|px: int, py: int|
                    old(self).holds(px, py) ==> #[trigger] self.pixel(px, py) == (if cell_under(
                        *world,
                        cell as int,
                        px,
                        py,
                    ) != 0 && py / (cell as int) < y {
                        cell_colour(cell_under(*world, cell as int, px, py))
                    } else {
                        old(self).pixel(px, py)
                    }),
            decreases size - y,
        {
            let mut x: usize = 0;
            while x < size
                invariant
                    x <= size,
                    y < size,
                    size == world.size,
                    world.wf(),
                    cell == context.minimap_scale,
                    cell > 0,
                    self.wf(),
                    self.same_shape(old(self)),
                    forall|px: int, py: int|
                        old(self).holds(px, py) ==> #[trigger] self.pixel(px, py) == (if cell_under(
                            *world,
                            cell as int,
                            px,
                            py,
                        ) != 0 && scanned_before(py / (cell as int), px / (cell as int), y as int, x as int) {
                            cell_colour(cell_under(*world, cell as int, px, py))
                        } else {
                            old(self).pixel(px, py)
                        }),
                decreases size - x,
            {
                assert(world.grid()[y as int] == world.cells@[y as int]@);
                let code: i32 = world.cells[y][x];
                let ghost before = *self;
                if code != 0 {
                    let colour: u32 = context.colour_mapping(code);
                    assert(x * cell <= 16384 * 0x1_0000_0000 && y * cell <= 16384 * 0x1_0000_0000)
                        by (nonlinear_arith)
                        requires
                            0 <= x <= 16384,
                            0 <= y <= 16384,
                            0 <= cell <= 0x1_0000_0000,
                    ;
                    self.fill_rect(x as i64 * cell, y as i64 * cell, cell, cell, colour);
                }
                proof {
                    assert forall|px: int, py: int| old(self).holds(px, py) implies #[trigger] self.pixel(px, py)
                        == (if cell_under(*world, cell as int, px, py) != 0 && scanned_before(
                        py / (cell as int),
                        px / (cell as int),
                        y as int,
                        x + 1,
                    ) {
                        cell_colour(cell_under(*world, cell as int, px, py))
                    } else {
                        old(self).pixel(px, py)
                    }) by {
                        lemma_block(cell as int, x as int, px);
                        lemma_block(cell as int, y as int, py);
                        assert(before.holds(px, py));
                    }
                }
                x += 1;
            }
            y += 1;
        }
    }

    /// Draws the player on the minimap: a green line along the heading,
    /// and over it a red disc where the player stands.
    pub fn draw_player_on_minimap(&mut self, context: &RenderContext, player: &Player)
        requires
            old(self).wf(),
        ensures
            final(self).wf(),
            final(self).same_shape(old(self)),
            forall|px: int, py: int|
                old(self).holds(px, py) ==> #[trigger] final(self).pixel(px, py) == (if disc_covers(
                    marker_of(player.position.y.raw as int, context.minimap_scale as int),
                    marker_of(player.position.x.raw as int, context.minimap_scale as int),
                    MARKER_RADIUS as int,
                    px,
                    py,
                ) {
                    MARKER_COLOUR
                } else if heading_segment(*player, context.minimap_scale as int).covers(STROKE as int, px, py) {
                    HEADING_COLOUR
                } else {
                    old(self).pixel(px, py)
                }),
    {
        let cell: i64 = context.minimap_scale as i64;
        let x0: i32 = to_marker(player.position.y.raw, cell);
        let y0: i32 = to_marker(player.position.x.raw, cell);
        let reach_x: i64 = x0 as i64 + to_pixel(player.camera_direction.y.raw, cell * HEADING_CELLS) as i64;
        let reach_y: i64 = y0 as i64 + to_pixel(player.camera_direction.x.raw, cell * HEADING_CELLS) as i64;
        let x1: i32 = if reach_x < i32::MIN as i64 {
            i32::MIN
        } else if reach_x > i32::MAX as i64 {
            i32::MAX
        } else {
            reach_x as i32
        };
        let y1: i32 = if reach_y < i32::MIN as i64 {
            i32::MIN
        } else if reach_y > i32::MAX as i64 {
            i32::MAX
        } else {
            reach_y as i32
        };
        assert(segment(x0, y0, x1, y1) == heading_segment(*player, cell as int));
        self.draw_line(x0, y0, x1, y1, STROKE, HEADING_COLOUR);
        let ghost lined = *self;
        self.draw_filled_circle(x0 as u32, y0 as u32, MARKER_RADIUS, MARKER_COLOUR);
        proof {
            assert forall|px: int, py: int| old(self).holds(px, py) implies #[trigger] self.pixel(px, py) == (
            if disc_covers(x0 as int, y0 as int, MARKER_RADIUS as int, px, py) {
                MARKER_COLOUR
            } else if heading_segment(*player, cell as int).covers(STROKE as int, px, py) {
                HEADING_COLOUR
            } else {
                old(self).pixel(px, py)
            }) by {
                assert(lined.holds(px, py));
            }
        }
    }
}

} // verus!
