//! The ray caster: for one screen column, the walk from the player's cell
//! through the grid to the first cell that is not open.
//!
//! The walk is a digital differential analysis. Along each axis the ray
//! crosses grid lines at a fixed spacing (the axis' delta); the walk keeps,
//! for each axis, the ray distance to the next crossing (the axis' side
//! distance) and always advances the axis whose crossing is nearer.

use vstd::prelude::*;
use crate::fixed::{cell_of, fixed_mul, frac_of, lemma_product_bound, magnitude, mul_wide, Fixed, ONE};
use crate::player::{within, Player};
use crate::util::Vector2;
use crate::world::World;

verus! {

/// Spacing that stands for "never": the delta and the side distance of an
/// axis along which the ray does not move. It exceeds every distance that a
/// moving axis can reach inside a world of the largest size.
pub const DIST_INFINITE: i64 = 281474976710656;

/// Which kind of grid line the ray crossed last, and so which face of the
/// wall it hit: `X` when the last step advanced the first map coordinate,
/// `Y` when it advanced the second.
#[derive(Clone, Copy, Debug, PartialEq, Eq, Structural)]
pub enum HitSide {
    X,
    Y,
}

/// What the caster reports for a column whose ray ends on a cell of the grid.
#[derive(Debug)]
pub struct RayHit {
    /// First map coordinate of the cell that was hit.
    pub map_x: usize,
    /// Second map coordinate of the cell that was hit.
    pub map_y: usize,
    /// The face that was hit.
    pub side: HitSide,
    /// Distance to the wall, measured perpendicular to the camera plane.
    pub distance: Fixed,
    /// The point where the ray meets the wall, in map coordinates.
    pub point: Vector2<Fixed>,
    /// Position of that point along the face, in `[0, 1)`.
    pub offset: Fixed,
    /// Code of the cell that was hit.
    pub code: i32,
}

/// The direction of a ray, as raw fixed-point counts.
pub struct RayDir {
    pub x: int,
    pub y: int,
}

/// A state of the walk: the current cell, the side distances and the axis
/// that was advanced last.
pub struct Probe {
    pub map_x: int,
    pub map_y: int,
    pub side_x: int,
    pub side_y: int,
    pub facing: HitSide,
}

/// The model of a [`RayHit`].
pub struct HitModel {
    pub map_x: int,
    pub map_y: int,
    pub side: HitSide,
    pub distance: int,
    pub point_x: int,
    pub point_y: int,
    pub offset: int,
    pub code: int,
}

impl View for RayHit {
    type V = HitModel;

    open spec fn view(&self) -> HitModel {
        HitModel {
            map_x: self.map_x as int,
            map_y: self.map_y as int,
            side: self.side,
            distance: self.distance.raw as int,
            point_x: self.point.x.raw as int,
            point_y: self.point.y.raw as int,
            offset: self.offset.raw as int,
            code: self.code as int,
        }
    }
}

/// Camera-space coordinate of a column: columns `0..width` map to `[-1, 1)`.
pub open spec fn camera_x(column: int, width: int) -> int {
    (2 * column * 65536int) / width - 65536
}

/// One component of the ray direction: the view direction plus the camera
/// plane scaled by the camera-space coordinate.
pub open spec fn ray_component(direction: int, plane: int, camera: int) -> int {
    direction + fixed_mul(plane, camera)
}

/// Ray distance between two crossings of an axis: `|1 / r|`, or the
/// infinite spacing when the ray does not move along the axis.
pub open spec fn delta_dist(r: int) -> int {
    if r == 0 {
        DIST_INFINITE as int
    } else {
        4294967296int / magnitude(r)
    }
}

/// Direction of the steps along an axis.
pub open spec fn step_of(r: int) -> int {
    if r < 0 {
        -1
    } else {
        1
    }
}

/// Ray distance from the position to the first crossing of an axis.
pub open spec fn first_side(position: int, r: int) -> int {
    if r == 0 {
        DIST_INFINITE as int
    } else if r < 0 {
        fixed_mul(frac_of(position), delta_dist(r))
    } else {
        fixed_mul(65536 - frac_of(position), delta_dist(r))
    }
}

/// The direction of the ray through column `column` of a view `width`
/// columns wide.
pub open spec fn ray_dir(player: Player, column: int, width: int) -> RayDir {
    let camera = camera_x(column, width);
    RayDir {
        x: ray_component(player.camera_direction.x.raw as int, player.camera_plane.x.raw as int, camera),
        y: ray_component(player.camera_direction.y.raw as int, player.camera_plane.y.raw as int, camera),
    }
}

/// The state in which the walk of a ray starts: in the player's cell.
pub open spec fn start_probe(player: Player, dir: RayDir) -> Probe {
    Probe {
        map_x: cell_of(player.position.x.raw as int),
        map_y: cell_of(player.position.y.raw as int),
        side_x: first_side(player.position.x.raw as int, dir.x),
        side_y: first_side(player.position.y.raw as int, dir.y),
        facing: HitSide::Y,
    }
}

/// One step of the walk: the axis with the nearer crossing advances by one
/// cell; on a tie the second axis advances.
pub open spec fn advance(dir: RayDir, p: Probe) -> Probe {
    if p.side_x < p.side_y {
        Probe { map_x: p.map_x + step_of(dir.x), side_x: p.side_x + delta_dist(dir.x), facing: HitSide::X, ..p }
    } else {
        Probe { map_y: p.map_y + step_of(dir.y), side_y: p.side_y + delta_dist(dir.y), facing: HitSide::Y, ..p }
    }
}

/// Number of steps after which a walk from `p` has certainly left a grid of
/// side `size`.
pub open spec fn exit_distance(size: int, dir: RayDir, p: Probe) -> int {
    (if dir.x < 0 {
        p.map_x + 1
    } else {
        size - p.map_x
    }) + (if dir.y < 0 {
        p.map_y + 1
    } else {
        size - p.map_y
    })
}

/// The state in which the walk from `p` stops: the first state after `p`
/// whose cell is not an open cell of the grid. A walk that starts outside
/// the grid stops at once.
pub open spec fn walk(world: World, dir: RayDir, p: Probe) -> Probe
    decreases exit_distance(world.size as int, dir, p),
{
    if !world.contains(p.map_x, p.map_y) {
        p
    } else {
        let q = advance(dir, p);
        if world.traversable(q.map_x, q.map_y) {
            walk(world, dir, q)
        } else {
            q
        }
    }
}

/// Perpendicular distance of the wall: the side distance of the axis that
/// was advanced last, without the last step.
pub open spec fn perpendicular(dir: RayDir, q: Probe) -> int {
    match q.facing {
        HitSide::X => q.side_x - delta_dist(dir.x),
        HitSide::Y => q.side_y - delta_dist(dir.y),
    }
}

/// First coordinate of the point where the ray meets the wall.
pub open spec fn hit_point_x(player: Player, dir: RayDir, q: Probe) -> int {
    match q.facing {
        HitSide::X => if dir.x < 0 {
            (q.map_x + 1) * 65536
        } else {
            q.map_x * 65536
        },
        HitSide::Y => player.position.x.raw + fixed_mul(perpendicular(dir, q), dir.x),
    }
}

/// Second coordinate of the point where the ray meets the wall.
pub open spec fn hit_point_y(player: Player, dir: RayDir, q: Probe) -> int {
    match q.facing {
        HitSide::X => player.position.y.raw + fixed_mul(perpendicular(dir, q), dir.y),
        HitSide::Y => if dir.y < 0 {
            (q.map_y + 1) * 65536
        } else {
            q.map_y * 65536
        },
    }
}

/// What is reported for a walk that stopped at `q`, a cell of the grid.
pub open spec fn hit_model(world: World, player: Player, dir: RayDir, q: Probe) -> HitModel {
    let point_x = hit_point_x(player, dir, q);
    let point_y = hit_point_y(player, dir, q);
    HitModel {
        map_x: q.map_x,
        map_y: q.map_y,
        side: q.facing,
        distance: perpendicular(dir, q),
        point_x,
        point_y,
        offset: match q.facing {
            HitSide::X => frac_of(point_y),
            HitSide::Y => frac_of(point_x),
        },
        code: world.code(q.map_x, q.map_y),
    }
}

/// The result of casting the ray of column `column`: the hit, or `None` when
/// the walk ends outside the grid.
pub open spec fn cast(world: World, player: Player, column: int, width: int) -> Option<HitModel> {
    let dir = ray_dir(player, column, width);
    let stop = walk(world, dir, start_probe(player, dir));
    if world.contains(stop.map_x, stop.map_y) {
        Some(hit_model(world, player, dir, stop))
    } else {
        None
    }
}

/// A distance that is at most `count` spacings, scaled by a direction
/// component whose spacing it is, stays within `count` squared units.
proof fn lemma_reach(distance: int, count: int, delta: int, r: int)
    by (nonlinear_arith)
    requires
        0 <= distance <= count * delta,
        0 <= count,
        0 <= delta,
        r != 0 ==> delta * magnitude(r) <= 4294967296,
    ensures
        -(count * 4294967296) <= distance * r <= count * 4294967296,
{
    if r > 0 {
        assert(distance * r <= count * delta * r);
        assert(count * delta * r == count * (delta * r));
        assert(count * (delta * r) <= count * 4294967296);
    } else if r < 0 {
        assert(distance * (-r) <= count * delta * (-r));
        assert(count * delta * (-r) == count * (delta * (-r)));
        assert(count * (delta * (-r)) <= count * 4294967296);
    }
}

/// One component of the ray direction.
fn ray_axis(direction: i64, plane: i64, camera: i64) -> (r: i64)
    requires
        within(direction as int, 1048576),
        within(plane as int, 1048576),
        within(camera as int, 65536),
    ensures
        r == ray_component(direction as int, plane as int, camera as int),
        within(r as int, 2097152),
{
    let scaled: i128 = mul_wide(plane, camera);
    proof {
        lemma_product_bound(plane as int, camera as int, 1048576, 65536);
    }
    direction + (scaled as i64)
}

/// The spacing of crossings along an axis.
fn axis_delta(r: i64) -> (delta: i64)
    requires
        within(r as int, 2097152),
    ensures
        delta == delta_dist(r as int),
        0 <= delta <= DIST_INFINITE,
        r != 0 ==> delta * magnitude(r as int) <= 4294967296,
{
    if r == 0 {
        DIST_INFINITE
    } else {
        let m: i64 = if r < 0 {
            -r
        } else {
            r
        };
        let delta: i64 = 4294967296 / m;
        assert(0 <= delta <= 4294967296 && delta * m <= 4294967296) by (nonlinear_arith)
            requires
                m >= 1,
                delta == 4294967296int / (m as int),
        ;
        delta
    }
}

/// The distance to the first crossing of an axis.
fn axis_first_side(position: i64, r: i64, delta: i64) -> (side: i64)
    requires
        delta == delta_dist(r as int),
        0 <= delta <= DIST_INFINITE,
    ensures
        side == first_side(position as int, r as int),
        0 <= side <= delta,
{
    if r == 0 {
        DIST_INFINITE
    } else {
        let frac: i64 = (Fixed { raw: position }).fract().raw;
        let part: i64 = if r < 0 {
            frac
        } else {
            ONE - frac
        };
        let side: i128 = mul_wide(part, delta);
        assert(0 <= part * delta <= 65536 * delta) by (nonlinear_arith)
            requires
                0 <= part <= 65536,
                0 <= delta,
        ;
        side as i64
    }
}

/// Casts the ray of column `column` of a view `width` columns wide: walks
/// from the player's cell to the first cell that is not open and reports
/// where and how the ray met it. The result is `None` when the walk ends
/// outside the grid, which happens only if the player does not stand in an
/// open cell of it.
pub fn cast_ray(world: &World, player: &Player, column: u32, width: u32) -> (result: Option<RayHit>)
    requires
        world.wf(),
        player.wf(),
        column < width,
    ensures
        match result {
            Some(hit) => cast(*world, *player, column as int, width as int) == Some(hit@),
            None => cast(*world, *player, column as int, width as int) is None,
        },
        result matches Some(hit) ==> {
            &&& world.contains(hit.map_x as int, hit.map_y as int)
            &&& 1 <= hit.code <= 9
            &&& 0 <= hit.distance.raw
            &&& 0 <= hit.offset.raw < 65536
        },
{
    assert(0 <= (2 * column * 65536int) / (width as int) < 131072) by (nonlinear_arith)
        requires
            0 <= column < width,
    ;
    let camera: i64 = (2 * (column as i64) * ONE) / (width as i64) - ONE;
    let dir_x: i64 = ray_axis(player.camera_direction.x.raw, player.camera_plane.x.raw, camera);
    let dir_y: i64 = ray_axis(player.camera_direction.y.raw, player.camera_plane.y.raw, camera);
    let delta_x: i64 = axis_delta(dir_x);
    let delta_y: i64 = axis_delta(dir_y);
    let step_x: i64 = if dir_x < 0 {
        -1
    } else {
        1
    };
    let step_y: i64 = if dir_y < 0 {
        -1
    } else {
        1
    };
    let size: i64 = world.size as i64;
    let start_x: i64 = player.position.x.floor();
    let start_y: i64 = player.position.y.floor();
    let ghost dir = RayDir { x: dir_x as int, y: dir_y as int };
    let ghost start = start_probe(*player, dir);
    assert(dir == ray_dir(*player, column as int, width as int));
    if start_x < 0 || start_x >= size || start_y < 0 || start_y >= size {
        return None;
    }
    let mut map_x: i64 = start_x;
    let mut map_y: i64 = start_y;
    let mut side_x: i64 = axis_first_side(player.position.x.raw, dir_x, delta_x);
    let mut side_y: i64 = axis_first_side(player.position.y.raw, dir_y, delta_y);
    let mut facing: HitSide = HitSide::Y;
    let ghost mut nx: int = 0;
    let ghost mut ny: int = 0;
    assert((nx + 1) * delta_x == delta_x) by (nonlinear_arith)
        requires
            nx == 0,
    ;
    assert((ny + 1) * delta_y == delta_y) by (nonlinear_arith)
        requires
            ny == 0,
    ;
    loop
        invariant
            world.wf(),
            player.wf(),
            size == world.size,
            dir == (RayDir { x: dir_x as int, y: dir_y as int }),
            dir == ray_dir(*player, column as int, width as int),
            start == start_probe(*player, dir),
            delta_x == delta_dist(dir_x as int),
            delta_y == delta_dist(dir_y as int),
            0 <= delta_x <= DIST_INFINITE,
            0 <= delta_y <= DIST_INFINITE,
            dir_x != 0 ==> delta_x * magnitude(dir_x as int) <= 4294967296,
            dir_y != 0 ==> delta_y * magnitude(dir_y as int) <= 4294967296,
            within(dir_x as int, 2097152),
            within(dir_y as int, 2097152),
            step_x == step_of(dir_x as int),
            step_y == step_of(dir_y as int),
            0 <= start_x < size,
            0 <= start_y < size,
            0 <= map_x < size,
            0 <= map_y < size,
            0 <= nx,
            0 <= ny,
            map_x == (if dir_x < 0 {
                start_x - nx
            } else {
                start_x + nx
            }),
            map_y == (if dir_y < 0 {
                start_y - ny
            } else {
                start_y + ny
            }),
            0 <= side_x <= (nx + 1) * delta_x,
            0 <= side_y <= (ny + 1) * delta_y,
            side_x <= (nx + 1) * 281474976710656,
            side_y <= (ny + 1) * 281474976710656,
            walk(*world, dir, Probe { map_x: map_x as int, map_y: map_y as int, side_x: side_x as int, side_y: side_y as int, facing })
                == walk(*world, dir, start),
        decreases
            (if dir_x < 0 {
                map_x + 1
            } else {
                size - map_x
            }) + (if dir_y < 0 {
                map_y + 1
            } else {
                size - map_y
            }),
    {
        let ghost p = Probe { map_x: map_x as int, map_y: map_y as int, side_x: side_x as int, side_y: side_y as int, facing };
        let distance: i64;
        if side_x < side_y {
            distance = side_x;
            assert((nx + 2) * delta_x == (nx + 1) * delta_x + delta_x) by (nonlinear_arith);
            side_x = side_x + delta_x;
            map_x = map_x + step_x;
            facing = HitSide::X;
            proof {
                nx = nx + 1;
            }
        } else {
            distance = side_y;
            assert((ny + 2) * delta_y == (ny + 1) * delta_y + delta_y) by (nonlinear_arith);
            side_y = side_y + delta_y;
            map_y = map_y + step_y;
            facing = HitSide::Y;
            proof {
                ny = ny + 1;
            }
        }
        let ghost q = Probe { map_x: map_x as int, map_y: map_y as int, side_x: side_x as int, side_y: side_y as int, facing };
        assert(q == advance(dir, p));
        assert(walk(*world, dir, p) == if world.traversable(q.map_x, q.map_y) {
            walk(*world, dir, q)
        } else {
            q
        });
        if map_x < 0 || map_x >= size || map_y < 0 || map_y >= size {
            return None;
        }
        assert(world.grid()[map_x as int] == world.cells@[map_x as int]@);
        let code: i32 = world.cells[map_x as usize][map_y as usize];
        assert(crate::world::cell_fault(size as int, world.grid(), map_x as int, map_y as int) is None);
        if code != 0 {
            let along: i128 = match facing {
                HitSide::X => mul_wide(distance, dir_y),
                HitSide::Y => mul_wide(distance, dir_x),
            };
            proof {
                match facing {
                    HitSide::X => lemma_reach(distance as int, ny + 1, delta_y as int, dir_y as int),
                    HitSide::Y => lemma_reach(distance as int, nx + 1, delta_x as int, dir_x as int),
                }
            }
            let point: Vector2<Fixed> = match facing {
                HitSide::X => Vector2 {
                    x: Fixed { raw: if dir_x < 0 {
                        (map_x + 1) * ONE
                    } else {
                        map_x * ONE
                    } },
                    y: Fixed { raw: player.position.y.raw + (along as i64) },
                },
                HitSide::Y => Vector2 {
                    x: Fixed { raw: player.position.x.raw + (along as i64) },
                    y: Fixed { raw: if dir_y < 0 {
                        (map_y + 1) * ONE
                    } else {
                        map_y * ONE
                    } },
                },
            };
            let offset: Fixed = match facing {
                HitSide::X => point.y.fract(),
                HitSide::Y => point.x.fract(),
            };
            let hit = RayHit {
                map_x: map_x as usize,
                map_y: map_y as usize,
                side: facing,
                distance: Fixed { raw: distance },
                point,
                offset,
                code,
            };
            assert(hit@ == hit_model(*world, *player, dir, q));
            return Some(hit);
        }
    }
}

/// A spacing is never negative and never exceeds the infinite one.
pub proof fn lemma_delta_range(r: int)
    ensures
        0 <= delta_dist(r) <= DIST_INFINITE,
{
    if r != 0 {
        let m = magnitude(r);
        assert(0 <= 4294967296int / m <= 4294967296) by (nonlinear_arith)
            requires
                m >= 1,
        ;
    }
}

/// The distance to the first crossing is never negative.
pub proof fn lemma_first_side_range(position: int, r: int)
    ensures
        0 <= first_side(position, r),
{
    lemma_delta_range(r);
    let delta = delta_dist(r);
    let part = if r < 0 {
        frac_of(position)
    } else {
        65536 - frac_of(position)
    };
    assert(0 <= part * delta) by (nonlinear_arith)
        requires
            0 <= part,
            0 <= delta,
    ;
}

/// In a valid world, a walk that starts in an open cell with side distances
/// that are not negative stops on a cell of the grid that holds a wall, at a
/// perpendicular distance that is not negative.
pub proof fn lemma_walk_stops_at_wall(world: World, dir: RayDir, p: Probe)
    requires
        world.wf(),
        world.traversable(p.map_x, p.map_y),
        0 <= p.side_x,
        0 <= p.side_y,
    ensures
        world.contains(walk(world, dir, p).map_x, walk(world, dir, p).map_y),
        1 <= world.code(walk(world, dir, p).map_x, walk(world, dir, p).map_y) <= 9,
        0 <= perpendicular(dir, walk(world, dir, p)),
    decreases exit_distance(world.size as int, dir, p),
{
    let size = world.size as int;
    let q = advance(dir, p);
    lemma_delta_range(dir.x);
    lemma_delta_range(dir.y);
    assert(crate::world::cell_fault(size, world.grid(), p.map_x, p.map_y) is None);
    assert(!crate::world::on_boundary(size, p.map_x, p.map_y));
    assert(world.contains(q.map_x, q.map_y));
    assert(crate::world::cell_fault(size, world.grid(), q.map_x, q.map_y) is None);
    if world.traversable(q.map_x, q.map_y) {
        lemma_walk_stops_at_wall(world, dir, q);
    }
}

/// Every ray cast from an open cell of a valid world hits a wall: the
/// result names a cell of the grid whose code is a wall material, at a
/// distance that is not negative and an offset in `[0, 1)`.
pub proof fn lemma_cast_hits_wall(world: World, player: Player, column: int, width: int)
    requires
        world.wf(),
        world.traversable(cell_of(player.position.x.raw as int), cell_of(player.position.y.raw as int)),
    ensures
        cast(world, player, column, width) is Some,
        world.contains(cast(world, player, column, width)->0.map_x, cast(world, player, column, width)->0.map_y),
        1 <= cast(world, player, column, width)->0.code <= 9,
        0 <= cast(world, player, column, width)->0.distance,
        0 <= cast(world, player, column, width)->0.offset < 65536,
{
    let dir = ray_dir(player, column, width);
    lemma_first_side_range(player.position.x.raw as int, dir.x);
    lemma_first_side_range(player.position.y.raw as int, dir.y);
    lemma_walk_stops_at_wall(world, dir, start_probe(player, dir));
}

/// The ray of the middle column of a view of even width points exactly
/// along the view direction.
pub proof fn lemma_center_ray(player: Player, width: int)
    requires
        width > 0,
        width % 2 == 0,
    ensures
        ray_dir(player, width / 2, width) == (RayDir {
            x: player.camera_direction.x.raw as int,
            y: player.camera_direction.y.raw as int,
        }),
{
    let column = width / 2;
    assert((2 * column * 65536int) / width == 65536) by (nonlinear_arith)
        requires
            width > 0,
            2 * column == width,
    ;
    assert(camera_x(column, width) == 0);
    assert(player.camera_plane.x.raw * 0 == 0);
    assert(player.camera_plane.y.raw * 0 == 0);
}

/// `amount` taken in the direction of `sign`.
pub open spec fn toward(sign: int, amount: int) -> int {
    if sign < 0 {
        -amount
    } else {
        amount
    }
}

/// A walk along the first axis with unit speed: `p` is `count` cells away
/// from the first cell that is not open, and the second axis never advances.
proof fn lemma_straight_walk_x(world: World, sign: int, count: int, p: Probe)
    requires
        world.wf(),
        1 <= count,
        p.side_y == DIST_INFINITE,
        0 <= p.side_x,
        p.side_x + count * 65536 <= DIST_INFINITE,
        world.contains(p.map_x, p.map_y),
        forall|k: int| 1 <= k < count ==> world.traversable(#[trigger] (p.map_x + toward(sign, k)), p.map_y),
        !world.traversable(p.map_x + toward(sign, count), p.map_y),
    ensures
        walk(world, RayDir { x: toward(sign, 65536), y: 0 }, p) == (Probe {
            map_x: p.map_x + toward(sign, count),
            side_x: p.side_x + count * 65536,
            facing: HitSide::X,
            ..p
        }),
    decreases count,
{
    let dir = RayDir { x: toward(sign, 65536), y: 0 };
    assert(delta_dist(dir.x) == 65536) by {
        assert(magnitude(dir.x) == 65536);
        assert(4294967296int / 65536 == 65536);
    }
    let q = advance(dir, p);
    assert(q.map_x == p.map_x + toward(sign, 1));
    if count > 1 {
        assert(world.traversable(p.map_x + toward(sign, 1), p.map_y));
        assert forall|k: int| 1 <= k < count - 1 implies world.traversable(
            #[trigger] (q.map_x + toward(sign, k)),
            q.map_y,
        ) by {
            assert(q.map_x + toward(sign, k) == p.map_x + toward(sign, k + 1));
        }
        lemma_straight_walk_x(world, sign, count - 1, q);
    }
}

/// A walk along the second axis with unit speed: `p` is `count` cells away
/// from the first cell that is not open, and the first axis never advances.
proof fn lemma_straight_walk_y(world: World, sign: int, count: int, p: Probe)
    requires
        world.wf(),
        1 <= count,
        p.side_x == DIST_INFINITE,
        0 <= p.side_y,
        p.side_y + count * 65536 <= DIST_INFINITE,
        world.contains(p.map_x, p.map_y),
        forall|k: int| 1 <= k < count ==> world.traversable(p.map_x, #[trigger] (p.map_y + toward(sign, k))),
        !world.traversable(p.map_x, p.map_y + toward(sign, count)),
    ensures
        walk(world, RayDir { x: 0, y: toward(sign, 65536) }, p) == (Probe {
            map_y: p.map_y + toward(sign, count),
            side_y: p.side_y + count * 65536,
            facing: HitSide::Y,
            ..p
        }),
    decreases count,
{
    let dir = RayDir { x: 0, y: toward(sign, 65536) };
    assert(delta_dist(dir.y) == 65536) by {
        assert(magnitude(dir.y) == 65536);
        assert(4294967296int / 65536 == 65536);
    }
    let q = advance(dir, p);
    assert(q.map_y == p.map_y + toward(sign, 1));
    if count > 1 {
        assert(world.traversable(p.map_x, p.map_y + toward(sign, 1)));
        assert forall|k: int| 1 <= k < count - 1 implies world.traversable(
            q.map_x,
            #[trigger] (q.map_y + toward(sign, k)),
        ) by {
            assert(q.map_y + toward(sign, k) == p.map_y + toward(sign, k + 1));
        }
        lemma_straight_walk_y(world, sign, count - 1, q);
    }
}

/// A ray of unit length that points along the first axis, with `count - 1`
/// open cells between the player's cell and a wall, hits that wall on an
/// `X` face, and the distance it reports is exactly the distance from the
/// player to the near face of the wall.
pub proof fn lemma_facing_wall_x(world: World, player: Player, column: int, width: int, sign: int, count: int)
    requires
        world.wf(),
        ray_dir(player, column, width) == (RayDir { x: toward(sign, 65536), y: 0 }),
        1 <= count,
        world.contains(cell_of(player.position.x.raw as int), cell_of(player.position.y.raw as int)),
        forall|k: int|
            1 <= k < count ==> world.traversable(
                #[trigger] (cell_of(player.position.x.raw as int) + toward(sign, k)),
                cell_of(player.position.y.raw as int),
            ),
        world.contains(
            cell_of(player.position.x.raw as int) + toward(sign, count),
            cell_of(player.position.y.raw as int),
        ),
        !world.traversable(
            cell_of(player.position.x.raw as int) + toward(sign, count),
            cell_of(player.position.y.raw as int),
        ),
    ensures
        cast(world, player, column, width) is Some,
        cast(world, player, column, width)->0.map_x == cell_of(player.position.x.raw as int) + toward(sign, count),
        cast(world, player, column, width)->0.map_y == cell_of(player.position.y.raw as int),
        cast(world, player, column, width)->0.side == HitSide::X,
        cast(world, player, column, width)->0.distance == (if sign < 0 {
            player.position.x.raw - (cast(world, player, column, width)->0.map_x + 1) * 65536
        } else {
            cast(world, player, column, width)->0.map_x * 65536 - player.position.x.raw
        }),
{
    let dir = RayDir { x: toward(sign, 65536), y: 0 };
    let start = start_probe(player, dir);
    assert(delta_dist(dir.x) == 65536) by {
        assert(magnitude(dir.x) == 65536);
        assert(4294967296int / 65536 == 65536);
    }
    lemma_straight_walk_x(world, sign, count, start);
}

/// A ray of unit length that points along the second axis, with `count - 1`
/// open cells between the player's cell and a wall, hits that wall on a
/// `Y` face, and the distance it reports is exactly the distance from the
/// player to the near face of the wall.
pub proof fn lemma_facing_wall_y(world: World, player: Player, column: int, width: int, sign: int, count: int)
    requires
        world.wf(),
        ray_dir(player, column, width) == (RayDir { x: 0, y: toward(sign, 65536) }),
        1 <= count,
        world.contains(cell_of(player.position.x.raw as int), cell_of(player.position.y.raw as int)),
        forall|k: int|
            1 <= k < count ==> world.traversable(
                cell_of(player.position.x.raw as int),
                #[trigger] (cell_of(player.position.y.raw as int) + toward(sign, k)),
            ),
        world.contains(
            cell_of(player.position.x.raw as int),
            cell_of(player.position.y.raw as int) + toward(sign, count),
        ),
        !world.traversable(
            cell_of(player.position.x.raw as int),
            cell_of(player.position.y.raw as int) + toward(sign, count),
        ),
    ensures
        cast(world, player, column, width) is Some,
        cast(world, player, column, width)->0.map_x == cell_of(player.position.x.raw as int),
        cast(world, player, column, width)->0.map_y == cell_of(player.position.y.raw as int) + toward(sign, count),
        cast(world, player, column, width)->0.side == HitSide::Y,
        cast(world, player, column, width)->0.distance == (if sign < 0 {
            player.position.y.raw - (cast(world, player, column, width)->0.map_y + 1) * 65536
        } else {
            cast(world, player, column, width)->0.map_y * 65536 - player.position.y.raw
        }),
{
    let dir = RayDir { x: 0, y: toward(sign, 65536) };
    let start = start_probe(player, dir);
    assert(delta_dist(dir.y) == 65536) by {
        assert(magnitude(dir.y) == 65536);
        assert(4294967296int / 65536 == 65536);
    }
    lemma_straight_walk_y(world, sign, count, start);
}

/// The spacing of an axis along which the ray moves is at most the square
/// of one, and the first crossing is at most one spacing away.
pub proof fn lemma_moving_axis(position: int, r: int)
    requires
        r != 0,
    ensures
        0 <= delta_dist(r) <= 4294967296,
        0 <= first_side(position, r) <= delta_dist(r),
{
    let m = magnitude(r);
    assert(0 <= 4294967296int / m <= 4294967296) by (nonlinear_arith)
        requires
            m >= 1,
    ;
    let delta = delta_dist(r);
    let part = if r < 0 {
        frac_of(position)
    } else {
        65536 - frac_of(position)
    };
    assert(0 <= part * delta <= 65536 * delta) by (nonlinear_arith)
        requires
            0 <= part <= 65536,
            0 <= delta,
    ;
}

/// Number of steps along the second axis after which a walk has left the
/// grid.
spec fn steps_left_y(size: int, dir: RayDir, p: Probe) -> int {
    if dir.y < 0 {
        p.map_y + 1
    } else {
        size - p.map_y
    }
}

/// Number of steps along the first axis after which a walk has left the
/// grid.
spec fn steps_left_x(size: int, dir: RayDir, p: Probe) -> int {
    if dir.x < 0 {
        p.map_x + 1
    } else {
        size - p.map_x
    }
}

/// A walk whose ray does not move along the first axis never advances it.
proof fn lemma_walk_keeps_x(world: World, dir: RayDir, p: Probe)
    requires
        world.wf(),
        dir.x == 0,
        dir.y != 0,
        p.side_x == DIST_INFINITE,
        0 <= p.side_y,
        world.contains(p.map_x, p.map_y) ==> p.side_y + steps_left_y(world.size as int, dir, p) * delta_dist(dir.y)
            < DIST_INFINITE,
    ensures
        walk(world, dir, p).map_x == p.map_x,
        world.contains(p.map_x, p.map_y) ==> walk(world, dir, p).facing == HitSide::Y,
    decreases exit_distance(world.size as int, dir, p),
{
    if world.contains(p.map_x, p.map_y) {
        let size = world.size as int;
        let delta = delta_dist(dir.y);
        let left = steps_left_y(size, dir, p);
        lemma_moving_axis(0, dir.y);
        assert(0 <= left * delta && (left - 1) * delta + delta == left * delta) by (nonlinear_arith)
            requires
                0 <= delta,
                1 <= left,
        ;
        let q = advance(dir, p);
        assert(q.facing == HitSide::Y);
        if world.traversable(q.map_x, q.map_y) {
            lemma_walk_keeps_x(world, dir, q);
        }
    }
}

/// A walk whose ray does not move along the second axis never advances it.
proof fn lemma_walk_keeps_y(world: World, dir: RayDir, p: Probe)
    requires
        world.wf(),
        dir.y == 0,
        dir.x != 0,
        p.side_y == DIST_INFINITE,
        0 <= p.side_x,
        world.contains(p.map_x, p.map_y) ==> p.side_x + steps_left_x(world.size as int, dir, p) * delta_dist(dir.x)
            < DIST_INFINITE,
    ensures
        walk(world, dir, p).map_y == p.map_y,
        world.contains(p.map_x, p.map_y) ==> walk(world, dir, p).facing == HitSide::X,
    decreases exit_distance(world.size as int, dir, p),
{
    if world.contains(p.map_x, p.map_y) {
        let size = world.size as int;
        let delta = delta_dist(dir.x);
        let left = steps_left_x(size, dir, p);
        lemma_moving_axis(0, dir.x);
        assert(0 <= left * delta && (left - 1) * delta + delta == left * delta) by (nonlinear_arith)
            requires
                0 <= delta,
                1 <= left,
        ;
        let q = advance(dir, p);
        assert(q.facing == HitSide::X);
        if world.traversable(q.map_x, q.map_y) {
            lemma_walk_keeps_y(world, dir, q);
        }
    }
}

/// The infinite spacing keeps its promise: a ray that moves along one axis
/// only, whatever its length, never leaves its row or column of cells, and
/// the face that it hits is one that it runs into.
pub proof fn lemma_still_axis_stays(world: World, player: Player, column: int, width: int)
    requires
        world.wf(),
        cast(world, player, column, width) is Some,
    ensures
        ray_dir(player, column, width).x == 0 && ray_dir(player, column, width).y != 0 ==> {
            &&& cast(world, player, column, width)->0.map_x == cell_of(player.position.x.raw as int)
            &&& cast(world, player, column, width)->0.side == HitSide::Y
        },
        ray_dir(player, column, width).y == 0 && ray_dir(player, column, width).x != 0 ==> {
            &&& cast(world, player, column, width)->0.map_y == cell_of(player.position.y.raw as int)
            &&& cast(world, player, column, width)->0.side == HitSide::X
        },
{
    let dir = ray_dir(player, column, width);
    let start = start_probe(player, dir);
    let size = world.size as int;
    if dir.x == 0 && dir.y != 0 {
        lemma_moving_axis(player.position.y.raw as int, dir.y);
        if world.contains(start.map_x, start.map_y) {
            let left = steps_left_y(size, dir, start);
            let delta = delta_dist(dir.y);
            assert(left * delta <= 16384 * 4294967296) by (nonlinear_arith)
                requires
                    0 <= left <= 16384,
                    0 <= delta <= 4294967296,
            ;
        }
        lemma_walk_keeps_x(world, dir, start);
    }
    if dir.y == 0 && dir.x != 0 {
        lemma_moving_axis(player.position.x.raw as int, dir.x);
        if world.contains(start.map_x, start.map_y) {
            let left = steps_left_x(size, dir, start);
            let delta = delta_dist(dir.x);
            assert(left * delta <= 16384 * 4294967296) by (nonlinear_arith)
                requires
                    0 <= left <= 16384,
                    0 <= delta <= 4294967296,
            ;
        }
        lemma_walk_keeps_y(world, dir, start);
    }
}

} // verus!
