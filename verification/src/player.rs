//! The player's pose: position, view direction and camera plane.

use vstd::prelude::*;
use crate::fixed::Fixed;
use crate::util::Vector2;

verus! {

/// Largest magnitude, as a raw count, of a component of the view direction
/// or of the camera plane (16 map units).
pub const VECTOR_LIMIT: i64 = 1048576;

/// Largest magnitude, as a raw count, of the move and rotation speeds
/// (1024 units per second).
pub const SPEED_LIMIT: i64 = 67108864;

/// Largest magnitude, as a raw count, of a position coordinate.
pub const POSITION_LIMIT: i64 = 1099511627776;

/// Raw count of the default camera-plane length, 0.66.
pub const DEFAULT_PLANE: i64 = 43254;

/// Position, heading and speeds of the player. The position is in map
/// coordinates: `x` runs along the outer index of the grid, `y` along the
/// inner one. The camera plane is perpendicular to the direction and its
/// length sets the field of view.
#[derive(Debug)]
pub struct Player {
    pub move_speed: Fixed,
    pub rot_speed: Fixed,
    pub position: Vector2<Fixed>,
    pub camera_direction: Vector2<Fixed>,
    pub camera_plane: Vector2<Fixed>,
}

/// Whether `-limit <= raw <= limit`.
pub open spec fn within(raw: int, limit: int) -> bool {
    -limit <= raw <= limit
}

/// Whether `raw` is at most `limit` in magnitude.
fn in_range(raw: i64, limit: i64) -> (inside: bool)
    requires
        0 <= limit,
    ensures
        inside == within(raw as int, limit as int),
{
    -limit <= raw && raw <= limit
}

impl Player {
    /// The pose's invariant: every component is inside the range in which
    /// the arithmetic of this library is exact.
    pub open spec fn wf(&self) -> bool {
        &&& within(self.move_speed.raw as int, SPEED_LIMIT as int)
        &&& within(self.rot_speed.raw as int, SPEED_LIMIT as int)
        &&& within(self.position.x.raw as int, POSITION_LIMIT as int)
        &&& within(self.position.y.raw as int, POSITION_LIMIT as int)
        &&& within(self.camera_direction.x.raw as int, VECTOR_LIMIT as int)
        &&& within(self.camera_direction.y.raw as int, VECTOR_LIMIT as int)
        &&& within(self.camera_plane.x.raw as int, VECTOR_LIMIT as int)
        &&& within(self.camera_plane.y.raw as int, VECTOR_LIMIT as int)
    }

    /// Whether every component of this pose is within range.
    pub fn is_valid(&self) -> (valid: bool)
        ensures
            valid == self.wf(),
    {
        in_range(self.move_speed.raw, SPEED_LIMIT) && in_range(self.rot_speed.raw, SPEED_LIMIT) && in_range(
            self.position.x.raw,
            POSITION_LIMIT,
        ) && in_range(self.position.y.raw, POSITION_LIMIT) && in_range(self.camera_direction.x.raw, VECTOR_LIMIT)
            && in_range(self.camera_direction.y.raw, VECTOR_LIMIT) && in_range(self.camera_plane.x.raw, VECTOR_LIMIT)
            && in_range(self.camera_plane.y.raw, VECTOR_LIMIT)
    }

    /// The starting pose with speeds of the caller's choice, in units and
    /// radians per second; `None` when a speed exceeds `SPEED_LIMIT` in
    /// magnitude.
    pub fn with_speeds(move_speed: Fixed, rot_speed: Fixed) -> (result: Option<Player>)
        ensures
            result is Some <==> within(move_speed.raw as int, SPEED_LIMIT as int) && within(
                rot_speed.raw as int,
                SPEED_LIMIT as int,
            ),
            result matches Some(player) ==> {
                &&& player.wf()
                &&& player.move_speed == move_speed
                &&& player.rot_speed == rot_speed
                &&& player.position.x.raw == 22 * 65536
                &&& player.position.y.raw == 12 * 65536
                &&& player.camera_direction.x.raw == -65536
                &&& player.camera_direction.y.raw == 0
                &&& player.camera_plane.x.raw == 0
                &&& player.camera_plane.y.raw == DEFAULT_PLANE
            },
    {
        if move_speed.raw < -SPEED_LIMIT || move_speed.raw > SPEED_LIMIT || rot_speed.raw < -SPEED_LIMIT
            || rot_speed.raw > SPEED_LIMIT {
            return None;
        }
        let mut player = Player::new();
        player.move_speed = move_speed;
        player.rot_speed = rot_speed;
        Some(player)
    }

    /// The starting pose: at (22, 12), looking along negative `x`, with a
    /// camera plane of length 0.66, moving 10 units and turning 5 radians
    /// per second.
    pub fn new() -> (player: Player)
        ensures
            player.wf(),
            player.move_speed.raw == 10 * 65536,
            player.rot_speed.raw == 5 * 65536,
            player.position.x.raw == 22 * 65536,
            player.position.y.raw == 12 * 65536,
            player.camera_direction.x.raw == -65536,
            player.camera_direction.y.raw == 0,
            player.camera_plane.x.raw == 0,
            player.camera_plane.y.raw == DEFAULT_PLANE,
    {
        Player {
            move_speed: Fixed::from_int(10),
            rot_speed: Fixed::from_int(5),
            position: Vector2::new(Fixed::from_int(22), Fixed::from_int(12)),
            camera_direction: Vector2::new(Fixed::from_int(-1), Fixed::from_int(0)),
            camera_plane: Vector2::new(Fixed::from_int(0), Fixed { raw: DEFAULT_PLANE }),
        }
    }
}

} // verus!
