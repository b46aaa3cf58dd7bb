//! The game state: the world, the player and the pending movement intents.

use vstd::prelude::*;
use crate::fixed::{cell_of, fixed_mul, floor_units, lemma_product_bound, mul_wide, Fixed, ONE};
use crate::player::{within, Player, VECTOR_LIMIT};
use crate::util::Vector2;
use crate::world::{grid_view, valid_grid, World, WorldError};

verus! {

/// Side length of the built-in world.
pub const WORLD_SIZE: usize = 24;

/// The rows of the built-in world.
pub open spec fn built_in_grid() -> Seq<Seq<i32>> {
    seq![
        seq![1i32, 1, 2, 1, 1, 1, 2, 1, 1, 1, 2, 1, 1, 1, 2, 1, 1, 1, 2, 1, 1, 3, 3, 1],
        seq![1i32, 0, 0, 0, 1, 0, 0, 0, 1, 0, 0, 0, 1, 0, 0, 0, 1, 0, 0, 0, 1, 0, 0, 1],
        seq![3i32, 0, 0, 0, 0, 0, 0, 0, 0, 0, 0, 0, 0, 0, 0, 0, 3, 0, 0, 0, 0, 0, 0, 1],
        seq![3i32, 0, 0, 0, 0, 0, 0, 0, 0, 0, 0, 0, 0, 0, 0, 0, 3, 0, 0, 0, 0, 0, 0, 1],
        seq![1i32, 0, 0, 0, 1, 0, 0, 0, 1, 0, 0, 0, 1, 0, 0, 0, 1, 0, 0, 0, 1, 0, 0, 1],
        seq![1i32, 1, 0, 1, 1, 1, 2, 1, 1, 1, 0, 1, 1, 1, 0, 1, 1, 1, 0, 1, 1, 0, 0, 1],
        seq![1i32, 0, 0, 0, 1, 0, 0, 0, 0, 0, 0, 0, 1, 1, 0, 1, 1, 0, 0, 0, 1, 0, 0, 1],
        seq![2i32, 0, 0, 0, 2, 0, 0, 0, 0, 0, 0, 0, 1, 2, 0, 2, 1, 0, 0, 0, 1, 0, 0, 1],
        seq![1i32, 0, 0, 8, 1, 0, 0, 0, 0, 0, 0, 0, 1, 1, 0, 1, 1, 0, 0, 0, 1, 0, 0, 1],
        seq![1i32, 1, 2, 1, 1, 1, 2, 1, 1, 1, 2, 1, 1, 1, 0, 1, 1, 1, 0, 1, 1, 0, 0, 1],
        seq![7i32, 7, 7, 7, 7, 7, 7, 7, 7, 7, 7, 7, 1, 0, 0, 0, 0, 0, 0, 0, 0, 0, 0, 1],
        seq![7i32, 0, 0, 0, 0, 0, 0, 0, 0, 0, 0, 7, 1, 0, 0, 0, 0, 0, 0, 0, 0, 0, 0, 1],
        seq![7i32, 0, 0, 0, 0, 0, 0, 0, 0, 0, 0, 7, 1, 0, 0, 0, 0, 0, 0, 0, 1, 0, 0, 1],
        seq![7i32, 0, 0, 0, 0, 0, 0, 0, 0, 0, 0, 7, 1, 0, 0, 0, 0, 0, 0, 0, 1, 3, 3, 1],
        seq![7i32, 0, 0, 0, 0, 0, 0, 0, 0, 0, 0, 7, 1, 0, 0, 0, 0, 0, 0, 0, 1, 1, 1, 1],
        seq![7i32, 0, 0, 0, 0, 0, 0, 0, 0, 0, 0, 7, 1, 0, 0, 0, 0, 0, 0, 0, 1, 1, 1, 1],
        seq![7i32, 0, 0, 0, 0, 0, 0, 0, 0, 0, 0, 7, 1, 0, 0, 0, 0, 0, 0, 0, 1, 3, 3, 1],
        seq![1i32, 0, 0, 0, 0, 0, 0, 0, 0, 0, 0, 0, 0, 0, 0, 0, 0, 0, 0, 0, 1, 0, 0, 1],
        seq![1i32, 0, 0, 0, 0, 0, 0, 0, 0, 0, 0, 0, 0, 0, 0, 0, 0, 0, 0, 0, 0, 0, 0, 1],
        seq![1i32, 0, 0, 0, 0, 0, 0, 0, 0, 0, 0, 0, 0, 0, 0, 0, 0, 0, 0, 0, 0, 0, 0, 1],
        seq![1i32, 0, 0, 0, 0, 0, 0, 0, 0, 0, 0, 0, 0, 0, 0, 0, 0, 0, 0, 0, 0, 0, 0, 1],
        seq![1i32, 0, 0, 0, 0, 0, 0, 0, 0, 0, 0, 0, 0, 0, 0, 0, 0, 0, 0, 0, 0, 0, 0, 1],
        seq![1i32, 2, 3, 4, 5, 6, 7, 8, 9, 0, 0, 0, 0, 0, 0, 0, 0, 0, 0, 0, 0, 0, 0, 1],
        seq![1i32, 1, 1, 1, 1, 1, 1, 1, 1, 1, 1, 1, 1, 1, 1, 1, 1, 1, 1, 1, 1, 1, 1, 1],
    ]
}

/// The built-in world is a valid world, and the cell in which the player
/// starts is open.
pub proof fn lemma_built_in_grid_valid()
    ensures
        valid_grid(24, built_in_grid()),
        built_in_grid()[22][12] == 0,
{
}

/// The movement commands that were asserted since the last tick.
#[derive(Clone, Copy, Debug, PartialEq, Eq, Structural)]
pub struct Intents {
    pub forward: bool,
    pub backward: bool,
    pub turn_left: bool,
    pub turn_right: bool,
}

/// Largest admitted difference between `cos * cos + sin * sin` of a
/// rotation and the square of one, in squared raw counts.
pub const ROTATION_TOLERANCE: i64 = 131072;

/// A rotation of the plane, given by the cosine and the sine of its angle.
#[derive(Clone, Copy, Debug, PartialEq, Eq, Structural)]
pub struct Rotation {
    pub cos: Fixed,
    pub sin: Fixed,
}

/// All the state of a game: the player, the world, and the intents that
/// the next tick will consume.
#[derive(Debug)]
pub struct GameContext {
    pub player: Player,
    pub world: World,
    pub move_state: Intents,
}

/// Whole milliseconds in a duration of nanoseconds.
pub open spec fn elapsed_millis(nanos: int) -> int {
    nanos / 1000000
}

/// The part of a per-second speed that falls to a tick of `millis`
/// milliseconds.
pub open spec fn scaled_speed(speed: int, millis: int) -> int {
    (speed * millis) / 1000
}

/// `value` limited to the range from `-limit` to `limit`.
pub open spec fn clamped(value: int, limit: int) -> int {
    if value < -limit {
        -limit
    } else if value > limit {
        limit
    } else {
        value
    }
}

/// First component of the vector `(x, y)` turned by a rotation, before it
/// is limited to the range of a camera vector.
pub open spec fn turned_x(x: int, y: int, cos: int, sin: int) -> int {
    (x * cos - y * sin + 32768) / 65536
}

/// Second component of the vector `(x, y)` turned by a rotation, before it
/// is limited to the range of a camera vector.
pub open spec fn turned_y(x: int, y: int, cos: int, sin: int) -> int {
    (x * sin + y * cos + 32768) / 65536
}

/// A position after an attempt to move by `(step_x, step_y)`. The two axes
/// are tried one after the other: the move along the first axis is made if
/// it ends in an open cell, and then the move along the second axis is made
/// if, from where the first left the player, it ends in an open cell.
pub open spec fn slid(world: World, x: int, y: int, step_x: int, step_y: int) -> (int, int) {
    let new_x = if world.traversable(cell_of(x + step_x), cell_of(y)) {
        x + step_x
    } else {
        x
    };
    let new_y = if world.traversable(cell_of(new_x), cell_of(y + step_y)) {
        y + step_y
    } else {
        y
    };
    (new_x, new_y)
}

impl Intents {
    /// No command asserted.
    pub fn none() -> (intents: Intents)
        ensures
            intents == (Intents { forward: false, backward: false, turn_left: false, turn_right: false }),
    {
        Intents { forward: false, backward: false, turn_left: false, turn_right: false }
    }
}

impl Rotation {
    /// The rotation's invariant: cosine and sine are at most one in
    /// magnitude, and the sum of their squares is one within the tolerance.
    pub open spec fn wf(&self) -> bool {
        &&& within(self.cos.raw as int, 65536)
        &&& within(self.sin.raw as int, 65536)
        &&& within(
            self.cos.raw * self.cos.raw + self.sin.raw * self.sin.raw - 65536 * 65536,
            ROTATION_TOLERANCE as int,
        )
    }

    /// The rotation with the given cosine and sine, or `None` when they do
    /// not describe a rotation.
    pub fn new(cos: Fixed, sin: Fixed) -> (result: Option<Rotation>)
        ensures
            result is Some <==> (Rotation { cos, sin }).wf(),
            result matches Some(rotation) ==> rotation == (Rotation { cos, sin }),
    {
        if cos.raw < -ONE || cos.raw > ONE || sin.raw < -ONE || sin.raw > ONE {
            return None;
        }
        proof {
            lemma_product_bound(cos.raw as int, cos.raw as int, 65536, 65536);
            lemma_product_bound(sin.raw as int, sin.raw as int, 65536, 65536);
        }
        let excess: i64 = cos.raw * cos.raw + sin.raw * sin.raw - ONE * ONE;
        if excess < -ROTATION_TOLERANCE || excess > ROTATION_TOLERANCE {
            return None;
        }
        Some(Rotation { cos, sin })
    }

    /// The rotation by the angle zero.
    pub fn identity() -> (rotation: Rotation)
        ensures
            rotation.wf(),
            rotation.cos.raw == 65536,
            rotation.sin.raw == 0,
    {
        Rotation { cos: Fixed { raw: ONE }, sin: Fixed { raw: 0 } }
    }

    /// The rotation by the opposite angle.
    pub fn inverse(&self) -> (rotation: Rotation)
        requires
            self.wf(),
        ensures
            rotation.wf(),
            rotation.cos == self.cos,
            rotation.sin.raw == -self.sin.raw,
    {
        assert((-self.sin.raw) * (-self.sin.raw) == self.sin.raw * self.sin.raw) by (nonlinear_arith);
        Rotation { cos: self.cos, sin: Fixed { raw: -self.sin.raw } }
    }

    /// The vector `(x, y)` turned by this rotation; each component is
    /// rounded to the nearest raw count and limited to `VECTOR_LIMIT`.
    pub fn apply(&self, x: Fixed, y: Fixed) -> (turned: (Fixed, Fixed))
        requires
            self.wf(),
            within(x.raw as int, VECTOR_LIMIT as int),
            within(y.raw as int, VECTOR_LIMIT as int),
        ensures
            turned.0.raw == clamped(
                turned_x(x.raw as int, y.raw as int, self.cos.raw as int, self.sin.raw as int),
                VECTOR_LIMIT as int,
            ),
            turned.1.raw == clamped(
                turned_y(x.raw as int, y.raw as int, self.cos.raw as int, self.sin.raw as int),
                VECTOR_LIMIT as int,
            ),
    {
        proof {
            lemma_product_bound(x.raw as int, self.cos.raw as int, 1048576, 65536);
            lemma_product_bound(y.raw as int, self.sin.raw as int, 1048576, 65536);
            lemma_product_bound(x.raw as int, self.sin.raw as int, 1048576, 65536);
            lemma_product_bound(y.raw as int, self.cos.raw as int, 1048576, 65536);
        }
        let first: i64 = (Fixed { raw: x.raw * self.cos.raw - y.raw * self.sin.raw + 32768 }).floor();
        let second: i64 = (Fixed { raw: x.raw * self.sin.raw + y.raw * self.cos.raw + 32768 }).floor();
        (Fixed { raw: clamp(first, VECTOR_LIMIT) }, Fixed { raw: clamp(second, VECTOR_LIMIT) })
    }
}

/// Limits `value` to the range from `-limit` to `limit`.
fn clamp(value: i64, limit: i64) -> (limited: i64)
    requires
        0 <= limit,
    ensures
        limited == clamped(value as int, limit as int),
{
    if value < -limit {
        -limit
    } else if value > limit {
        limit
    } else {
        value
    }
}

/// Quotient of `value` by one thousand, rounded toward negative infinity.
fn floor_thousandth(value: i128) -> (quotient: i128)
    ensures
        quotient == value / 1000,
{
    let truncated: i128 = value / 1000;
    if value < 0 && value % 1000 != 0 {
        truncated - 1
    } else {
        truncated
    }
}

/// Whether the cell `(i, j)`, given by wide indices, is an open cell of the
/// world.
fn open_at(world: &World, i: i128, j: i128) -> (open: bool)
    requires
        world.wf(),
    ensures
        open == world.traversable(i as int, j as int),
{
    if i < 0 || j < 0 || i >= world.size as i128 || j >= world.size as i128 {
        return false;
    }
    assert(world.grid()[i as int] == world.cells@[i as int]@);
    world.cells[i as usize][j as usize] == 0
}

/// Moves a position by `(step_x, step_y)` as far as the world allows, one
/// axis after the other.
fn slide(world: &World, x: i64, y: i64, step_x: i128, step_y: i128) -> (position: (i64, i64))
    requires
        world.wf(),
        -0x4000_0000_0000_0000_0000 <= step_x <= 0x4000_0000_0000_0000_0000,
        -0x4000_0000_0000_0000_0000 <= step_y <= 0x4000_0000_0000_0000_0000,
    ensures
        (position.0 as int, position.1 as int) == slid(*world, x as int, y as int, step_x as int, step_y as int),
{
    let wide_x: i128 = x as i128 + step_x;
    let new_x: i64 = if open_at(world, floor_units(wide_x), floor_units(y as i128)) {
        wide_x as i64
    } else {
        x
    };
    let wide_y: i128 = y as i128 + step_y;
    let new_y: i64 = if open_at(world, floor_units(new_x as i128), floor_units(wide_y)) {
        wide_y as i64
    } else {
        y
    };
    (new_x, new_y)
}

impl GameContext {
    /// The state's invariant: a valid world and a player within range.
    pub open spec fn wf(&self) -> bool {
        self.world.wf() && self.player.wf()
    }

    /// Whether the player stands in an open cell of the world.
    pub open spec fn standing_open(&self) -> bool {
        self.world.traversable(cell_of(self.player.position.x.raw as int), cell_of(self.player.position.y.raw as int))
    }

    /// The distance that the player moves in a tick of `nanos` nanoseconds.
    pub open spec fn move_step(&self, nanos: int) -> int {
        scaled_speed(self.player.move_speed.raw as int, elapsed_millis(nanos))
    }

    /// The angle, in radians, by which the player turns in a tick of `nanos`
    /// nanoseconds.
    pub open spec fn turn_step(&self, nanos: int) -> int {
        scaled_speed(self.player.rot_speed.raw as int, elapsed_millis(nanos))
    }

    /// The position after the moves of a tick: forward first if asserted,
    /// then backward if asserted, each by the player's direction scaled by
    /// the tick's distance and each stopped, axis by axis, by walls.
    pub open spec fn position_after(&self, nanos: int) -> (int, int) {
        let step_x = fixed_mul(self.player.camera_direction.x.raw as int, self.move_step(nanos));
        let step_y = fixed_mul(self.player.camera_direction.y.raw as int, self.move_step(nanos));
        let x = self.player.position.x.raw as int;
        let y = self.player.position.y.raw as int;
        let ahead = if self.move_state.forward {
            slid(self.world, x, y, step_x, step_y)
        } else {
            (x, y)
        };
        if self.move_state.backward {
            slid(self.world, ahead.0, ahead.1, -step_x, -step_y)
        } else {
            ahead
        }
    }

    /// A camera vector after the turns of a tick: by `rotation` if a left
    /// turn is asserted, and then by its inverse if a right turn is.
    pub open spec fn vector_after(&self, rotation: Rotation, x: int, y: int) -> (int, int) {
        let cos = rotation.cos.raw as int;
        let sin = rotation.sin.raw as int;
        let left = if self.move_state.turn_left {
            (
                clamped(turned_x(x, y, cos, sin), VECTOR_LIMIT as int),
                clamped(turned_y(x, y, cos, sin), VECTOR_LIMIT as int),
            )
        } else {
            (x, y)
        };
        if self.move_state.turn_right {
            (
                clamped(turned_x(left.0, left.1, cos, -sin), VECTOR_LIMIT as int),
                clamped(turned_y(left.0, left.1, cos, -sin), VECTOR_LIMIT as int),
            )
        } else {
            left
        }
    }

    /// Whether the world is valid and the player within range.
    pub fn is_valid(&self) -> (valid: bool)
        ensures
            valid == self.wf(),
    {
        self.world.is_valid() && self.player.is_valid()
    }

    /// Whether this is the state in which a game starts: the built-in
    /// world, the player in the starting pose, and no intent pending.
    pub open spec fn fresh(&self) -> bool {
        &&& self.world.size == WORLD_SIZE
        &&& self.world.grid() == built_in_grid()
        &&& self.move_state == (Intents { forward: false, backward: false, turn_left: false, turn_right: false })
        &&& self.player.move_speed.raw == 10 * 65536
        &&& self.player.rot_speed.raw == 5 * 65536
        &&& self.player.position.x.raw == 22 * 65536
        &&& self.player.position.y.raw == 12 * 65536
        &&& self.player.camera_direction.x.raw == -65536
        &&& self.player.camera_direction.y.raw == 0
        &&& self.player.camera_plane.x.raw == 0
        &&& self.player.camera_plane.y.raw == crate::player::DEFAULT_PLANE
    }

    /// A new game: the built-in world, the player in the starting pose, and
    /// no intent pending. The built-in world is valid, so this never fails.
    pub fn new() -> (result: Result<GameContext, WorldError>)
        ensures
            result is Ok,
            result matches Ok(game) ==> game.fresh() && game.wf() && game.standing_open(),
    {
        let mut cells: Vec<Vec<i32>> = Vec::with_capacity(WORLD_SIZE);
        cells.push(vec![1, 1, 2, 1, 1, 1, 2, 1, 1, 1, 2, 1, 1, 1, 2, 1, 1, 1, 2, 1, 1, 3, 3, 1]);
        cells.push(vec![1, 0, 0, 0, 1, 0, 0, 0, 1, 0, 0, 0, 1, 0, 0, 0, 1, 0, 0, 0, 1, 0, 0, 1]);
        cells.push(vec![3, 0, 0, 0, 0, 0, 0, 0, 0, 0, 0, 0, 0, 0, 0, 0, 3, 0, 0, 0, 0, 0, 0, 1]);
        cells.push(vec![3, 0, 0, 0, 0, 0, 0, 0, 0, 0, 0, 0, 0, 0, 0, 0, 3, 0, 0, 0, 0, 0, 0, 1]);
        cells.push(vec![1, 0, 0, 0, 1, 0, 0, 0, 1, 0, 0, 0, 1, 0, 0, 0, 1, 0, 0, 0, 1, 0, 0, 1]);
        cells.push(vec![1, 1, 0, 1, 1, 1, 2, 1, 1, 1, 0, 1, 1, 1, 0, 1, 1, 1, 0, 1, 1, 0, 0, 1]);
        cells.push(vec![1, 0, 0, 0, 1, 0, 0, 0, 0, 0, 0, 0, 1, 1, 0, 1, 1, 0, 0, 0, 1, 0, 0, 1]);
        cells.push(vec![2, 0, 0, 0, 2, 0, 0, 0, 0, 0, 0, 0, 1, 2, 0, 2, 1, 0, 0, 0, 1, 0, 0, 1]);
        cells.push(vec![1, 0, 0, 8, 1, 0, 0, 0, 0, 0, 0, 0, 1, 1, 0, 1, 1, 0, 0, 0, 1, 0, 0, 1]);
        cells.push(vec![1, 1, 2, 1, 1, 1, 2, 1, 1, 1, 2, 1, 1, 1, 0, 1, 1, 1, 0, 1, 1, 0, 0, 1]);
        cells.push(vec![7, 7, 7, 7, 7, 7, 7, 7, 7, 7, 7, 7, 1, 0, 0, 0, 0, 0, 0, 0, 0, 0, 0, 1]);
        cells.push(vec![7, 0, 0, 0, 0, 0, 0, 0, 0, 0, 0, 7, 1, 0, 0, 0, 0, 0, 0, 0, 0, 0, 0, 1]);
        cells.push(vec![7, 0, 0, 0, 0, 0, 0, 0, 0, 0, 0, 7, 1, 0, 0, 0, 0, 0, 0, 0, 1, 0, 0, 1]);
        cells.push(vec![7, 0, 0, 0, 0, 0, 0, 0, 0, 0, 0, 7, 1, 0, 0, 0, 0, 0, 0, 0, 1, 3, 3, 1]);
        cells.push(vec![7, 0, 0, 0, 0, 0, 0, 0, 0, 0, 0, 7, 1, 0, 0, 0, 0, 0, 0, 0, 1, 1, 1, 1]);
        cells.push(vec![7, 0, 0, 0, 0, 0, 0, 0, 0, 0, 0, 7, 1, 0, 0, 0, 0, 0, 0, 0, 1, 1, 1, 1]);
        cells.push(vec![7, 0, 0, 0, 0, 0, 0, 0, 0, 0, 0, 7, 1, 0, 0, 0, 0, 0, 0, 0, 1, 3, 3, 1]);
        cells.push(vec![1, 0, 0, 0, 0, 0, 0, 0, 0, 0, 0, 0, 0, 0, 0, 0, 0, 0, 0, 0, 1, 0, 0, 1]);
        cells.push(vec![1, 0, 0, 0, 0, 0, 0, 0, 0, 0, 0, 0, 0, 0, 0, 0, 0, 0, 0, 0, 0, 0, 0, 1]);
        cells.push(vec![1, 0, 0, 0, 0, 0, 0, 0, 0, 0, 0, 0, 0, 0, 0, 0, 0, 0, 0, 0, 0, 0, 0, 1]);
        cells.push(vec![1, 0, 0, 0, 0, 0, 0, 0, 0, 0, 0, 0, 0, 0, 0, 0, 0, 0, 0, 0, 0, 0, 0, 1]);
        cells.push(vec![1, 0, 0, 0, 0, 0, 0, 0, 0, 0, 0, 0, 0, 0, 0, 0, 0, 0, 0, 0, 0, 0, 0, 1]);
        cells.push(vec![1, 2, 3, 4, 5, 6, 7, 8, 9, 0, 0, 0, 0, 0, 0, 0, 0, 0, 0, 0, 0, 0, 0, 1]);
        cells.push(vec![1, 1, 1, 1, 1, 1, 1, 1, 1, 1, 1, 1, 1, 1, 1, 1, 1, 1, 1, 1, 1, 1, 1, 1]);
        proof {
            lemma_built_in_grid_valid();
            let grid = grid_view(cells);
            assert(grid.len() == 24);
            assert forall|row: int| 0 <= row < 24 implies #[trigger] grid[row] =~= built_in_grid()[row] by {
                assert(grid[row] == cells@[row]@);
            }
            assert(grid =~= built_in_grid());
        }
        match World::new(WORLD_SIZE, cells) {
            Ok(world) => Ok(GameContext { player: Player::new(), world, move_state: Intents::none() }),
            Err(fault) => Err(fault),
        }
    }

    /// Asserts the intent to move forward.
    pub fn move_forward(&mut self)
        ensures
            *final(self) == (GameContext {
                move_state: Intents { forward: true, ..old(self).move_state },
                ..*old(self)
            }),
    {
        self.move_state.forward = true;
    }

    /// Asserts the intent to move backwards.
    pub fn move_backwards(&mut self)
        ensures
            *final(self) == (GameContext {
                move_state: Intents { backward: true, ..old(self).move_state },
                ..*old(self)
            }),
    {
        self.move_state.backward = true;
    }

    /// Asserts the intent to turn left.
    pub fn turn_left(&mut self)
        ensures
            *final(self) == (GameContext {
                move_state: Intents { turn_left: true, ..old(self).move_state },
                ..*old(self)
            }),
    {
        self.move_state.turn_left = true;
    }

    /// Asserts the intent to turn right.
    pub fn turn_right(&mut self)
        ensures
            *final(self) == (GameContext {
                move_state: Intents { turn_right: true, ..old(self).move_state },
                ..*old(self)
            }),
    {
        self.move_state.turn_right = true;
    }

    /// The angle, in radians, by which the player turns in a tick of
    /// `nanos` nanoseconds: the rotation speed times the elapsed whole
    /// milliseconds, over a thousand.
    pub fn rotation_angle(&self, nanos: u64) -> (angle: Fixed)
        requires
            self.player.wf(),
        ensures
            angle.raw == self.turn_step(nanos as int),
    {
        let millis: i128 = (nanos / 1000000) as i128;
        proof {
            lemma_product_bound(self.player.rot_speed.raw as int, millis as int, 67108864, 18446744073710);
        }
        let angle: i128 = floor_thousandth(self.player.rot_speed.raw as i128 * millis);
        Fixed { raw: angle as i64 }
    }

    /// Advances the game by one tick of `nanos` nanoseconds. The pending
    /// intents are applied in the order forward, backward, left, right, and
    /// then cleared. A move covers the move speed times the elapsed whole
    /// milliseconds over a thousand, along the view direction; `rotation`
    /// is the turn that belongs to the tick, the rotation by
    /// `rotation_angle(nanos)`, and is applied to the view direction and to
    /// the camera plane alike. A player who stood in an open cell stands in
    /// an open cell afterwards.
    pub fn tick(&mut self, nanos: u64, rotation: Rotation)
        requires
            old(self).wf(),
            rotation.wf(),
        ensures
            final(self).wf(),
            final(self).world == old(self).world,
            final(self).player.move_speed == old(self).player.move_speed,
            final(self).player.rot_speed == old(self).player.rot_speed,
            final(self).move_state == (Intents { forward: false, backward: false, turn_left: false, turn_right: false }),
            (final(self).player.position.x.raw as int, final(self).player.position.y.raw as int)
                == old(self).position_after(nanos as int),
            (final(self).player.camera_direction.x.raw as int, final(self).player.camera_direction.y.raw as int)
                == old(self).vector_after(
                rotation,
                old(self).player.camera_direction.x.raw as int,
                old(self).player.camera_direction.y.raw as int,
            ),
            (final(self).player.camera_plane.x.raw as int, final(self).player.camera_plane.y.raw as int) == old(self).vector_after(
                rotation,
                old(self).player.camera_plane.x.raw as int,
                old(self).player.camera_plane.y.raw as int,
            ),
            old(self).standing_open() ==> final(self).standing_open(),
    {
        let millis: i128 = (nanos / 1000000) as i128;
        proof {
            lemma_product_bound(self.player.move_speed.raw as int, millis as int, 67108864, 18446744073710);
        }
        let distance: i64 = floor_thousandth(self.player.move_speed.raw as i128 * millis) as i64;
        proof {
            lemma_product_bound(
                self.player.camera_direction.x.raw as int,
                distance as int,
                1048576,
                1237940039285410366,
            );
            lemma_product_bound(
                self.player.camera_direction.y.raw as int,
                distance as int,
                1048576,
                1237940039285410366,
            );
        }
        let step_x: i128 = mul_wide(self.player.camera_direction.x.raw, distance);
        let step_y: i128 = mul_wide(self.player.camera_direction.y.raw, distance);
        let mut x: i64 = self.player.position.x.raw;
        let mut y: i64 = self.player.position.y.raw;
        if self.move_state.forward {
            let ahead = slide(&self.world, x, y, step_x, step_y);
            x = ahead.0;
            y = ahead.1;
        }
        if self.move_state.backward {
            let back = slide(&self.world, x, y, -step_x, -step_y);
            x = back.0;
            y = back.1;
        }
        let mut direction: (Fixed, Fixed) = (self.player.camera_direction.x, self.player.camera_direction.y);
        let mut plane: (Fixed, Fixed) = (self.player.camera_plane.x, self.player.camera_plane.y);
        if self.move_state.turn_left {
            direction = rotation.apply(direction.0, direction.1);
            plane = rotation.apply(plane.0, plane.1);
        }
        if self.move_state.turn_right {
            let back = rotation.inverse();
            direction = back.apply(direction.0, direction.1);
            plane = back.apply(plane.0, plane.1);
        }
        self.player.position = Vector2 { x: Fixed { raw: x }, y: Fixed { raw: y } };
        self.player.camera_direction = Vector2 { x: direction.0, y: direction.1 };
        self.player.camera_plane = Vector2 { x: plane.0, y: plane.1 };
        self.move_state = Intents::none();
    }
}

/// Scaling a sum of two products.
proof fn lemma_scale_pair(k: int, a: int, c: int, b: int, s: int)
    by (nonlinear_arith)
    ensures
        k * (a * c + b * s) == (k * a) * c + (k * b) * s,
        k * (b * c - a * s) == (k * b) * c - (k * a) * s,
{
}

/// A sum of three terms times a factor.
proof fn lemma_distribute(p: int, q: int, r: int, m: int)
    by (nonlinear_arith)
    ensures
        (p + q + r) * m == p * m + q * m + r * m,
        (p - q + r) * m == p * m - q * m + r * m,
{
}

/// Products of three factors, regrouped.
proof fn lemma_regroup(a: int, b: int, c: int)
    by (nonlinear_arith)
    ensures
        (a * b) * c == a * (b * c),
        (a * b) * c == (a * c) * b,
{
}

/// A factor times a sum of two terms and a constant.
proof fn lemma_split(x: int, u: int, v: int)
    by (nonlinear_arith)
    ensures
        x * (u + v - 4294967296) + x * 4294967296 == x * u + x * v,
{
}

/// The algebra behind a turn and its inverse: turning `(x, y)`, with
/// errors `e1` and `e2` added to the components, and turning back gives the
/// components they started from, scaled by `c * c + s * s`, plus error terms.
proof fn lemma_turn_identity(x: int, y: int, c: int, s: int, e1: int, e2: int)
    ensures
        (x * c - y * s + e1) * c + (x * s + y * c + e2) * s == x * (c * c + s * s - 4294967296) + x * 4294967296 + c
            * e1 + s * e2,
        (x * s + y * c + e2) * c - (x * c - y * s + e1) * s == y * (c * c + s * s - 4294967296) + y * 4294967296 + c
            * e2 - s * e1,
{
    lemma_distribute(x * c, y * s, e1, c);
    lemma_distribute(x * s, y * c, e2, s);
    lemma_distribute(x * s, y * c, e2, c);
    lemma_distribute(x * c, y * s, e1, s);
    lemma_regroup(x, c, c);
    lemma_regroup(x, s, s);
    lemma_regroup(y, c, c);
    lemma_regroup(y, s, s);
    lemma_regroup(y, s, c);
    lemma_regroup(y, c, s);
    lemma_regroup(x, s, c);
    lemma_regroup(x, c, s);
    lemma_split(x, c * c, s * s);
    lemma_split(y, c * c, s * s);
    assert(e1 * c == c * e1) by (nonlinear_arith);
    assert(e2 * s == s * e2) by (nonlinear_arith);
    assert(e2 * c == c * e2) by (nonlinear_arith);
    assert(e1 * s == s * e1) by (nonlinear_arith);
    assert((y * s) * c == (y * c) * s);
    assert((x * s) * c == (x * c) * s);
}

/// Turning a camera vector by a rotation and then by its inverse restores
/// it up to rounding: for a vector whose components are at most 8 in
/// magnitude, each component comes back within 18 raw counts, that is
/// within 0.0003.
pub proof fn lemma_rotation_round_trip(rotation: Rotation, x: int, y: int)
    requires
        rotation.wf(),
        within(x, 524287),
        within(y, 524287),
    ensures
        ({
            let c = rotation.cos.raw as int;
            let s = rotation.sin.raw as int;
            let x1 = clamped(turned_x(x, y, c, s), VECTOR_LIMIT as int);
            let y1 = clamped(turned_y(x, y, c, s), VECTOR_LIMIT as int);
            let x2 = clamped(turned_x(x1, y1, c, -s), VECTOR_LIMIT as int);
            let y2 = clamped(turned_y(x1, y1, c, -s), VECTOR_LIMIT as int);
            within(x2 - x, 18) && within(y2 - y, 18)
        }),
{
    let c = rotation.cos.raw as int;
    let s = rotation.sin.raw as int;
    lemma_product_bound(x, c, 524287, 65536);
    lemma_product_bound(y, s, 524287, 65536);
    lemma_product_bound(x, s, 524287, 65536);
    lemma_product_bound(y, c, 524287, 65536);
    let x1 = turned_x(x, y, c, s);
    let y1 = turned_y(x, y, c, s);
    assert(within(x1, 1048576) && within(y1, 1048576));
    let e1 = 65536 * x1 - (x * c - y * s);
    let e2 = 65536 * y1 - (x * s + y * c);
    assert(-32768 < e1 <= 32768 && -32768 < e2 <= 32768);
    lemma_scale_pair(65536, x1, c, y1, s);
    lemma_turn_identity(x, y, c, s, e1, e2);
    let d = c * c + s * s - 4294967296;
    lemma_product_bound(x, d, 524287, 131072);
    lemma_product_bound(y, d, 524287, 131072);
    lemma_product_bound(c, e1, 65536, 32768);
    lemma_product_bound(s, e2, 65536, 32768);
    lemma_product_bound(c, e2, 65536, 32768);
    lemma_product_bound(s, e1, 65536, 32768);
    let num_x = x1 * c + y1 * s;
    let num_y = y1 * c - x1 * s;
    assert(65536 * x1 == x * c - y * s + e1);
    assert(65536 * y1 == x * s + y * c + e2);
    assert(65536 * num_x == x * d + x * 4294967296 + c * e1 + s * e2);
    assert(65536 * num_y == y * d + y * 4294967296 + c * e2 - s * e1);
    assert(y1 * (-s) == -(y1 * s)) by (nonlinear_arith);
    assert(x1 * (-s) == -(x1 * s)) by (nonlinear_arith);
    assert(turned_x(x1, y1, c, -s) == (num_x + 32768) / 65536);
    assert(turned_y(x1, y1, c, -s) == (num_y + 32768) / 65536);
    assert(within(turned_x(x1, y1, c, -s) - x, 18));
    assert(within(turned_y(x1, y1, c, -s) - y, 18));
}

} // verus!
