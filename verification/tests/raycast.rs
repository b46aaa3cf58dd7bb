use raycaster::fixed::Fixed;
use raycaster::game::GameContext;
use raycaster::player::Player;
use raycaster::raycast::{cast_ray, HitSide};
use raycaster::util::Vector2;
use raycaster::world::World;

const ONE_UNIT: i64 = 65536;

fn open_hall(size: usize) -> World {
    let mut rows = Vec::new();
    for i in 0..size {
        let mut row = Vec::new();
        for j in 0..size {
            let edge = i == 0 || j == 0 || i == size - 1 || j == size - 1;
            row.push(if edge { 1 } else { 0 });
        }
        rows.push(row);
    }
    World::new(size, rows).unwrap()
}

fn observer(x: i64, y: i64, dir: (i64, i64), plane: (i64, i64)) -> Player {
    let mut player = Player::new();
    player.position = Vector2::new(Fixed { raw: x }, Fixed { raw: y });
    player.camera_direction = Vector2::new(Fixed { raw: dir.0 }, Fixed { raw: dir.1 });
    player.camera_plane = Vector2::new(Fixed { raw: plane.0 }, Fixed { raw: plane.1 });
    player
}

#[test]
fn centre_ray_in_an_open_hall_hits_the_far_wall() {
    let world = open_hall(24);
    let player = observer(12 * ONE_UNIT, 12 * ONE_UNIT, (-ONE_UNIT, 0), (0, 43254));
    let hit = cast_ray(&world, &player, 50, 100).unwrap();
    assert_eq!((hit.map_x, hit.map_y), (0, 12));
    assert_eq!(hit.side, HitSide::X);
    // The wall cell spans x from 0 to 1: its near face is at x = 1, eleven units from the player.
    assert_eq!(hit.distance, Fixed::from_int(11));
    assert_eq!(hit.point.x, Fixed::from_int(1));
    assert_eq!(hit.point.y, Fixed::from_int(12));
    assert_eq!(hit.offset.raw, 0);
    assert_eq!(hit.code, 1);
}

#[test]
fn rays_along_each_axis_report_the_exact_distance() {
    let world = open_hall(24);
    let x = 12 * ONE_UNIT + 16384;
    let y = 7 * ONE_UNIT + 40000;
    let west = cast_ray(&world, &observer(x, y, (-ONE_UNIT, 0), (0, 43254)), 8, 16).unwrap();
    assert_eq!((west.map_x, west.map_y, west.side), (0, 7, HitSide::X));
    assert_eq!(west.distance.raw, x - ONE_UNIT);
    let east = cast_ray(&world, &observer(x, y, (ONE_UNIT, 0), (0, 43254)), 8, 16).unwrap();
    assert_eq!((east.map_x, east.map_y, east.side), (23, 7, HitSide::X));
    assert_eq!(east.distance.raw, 23 * ONE_UNIT - x);
    let north = cast_ray(&world, &observer(x, y, (0, -ONE_UNIT), (43254, 0)), 8, 16).unwrap();
    assert_eq!((north.map_x, north.map_y, north.side), (12, 0, HitSide::Y));
    assert_eq!(north.distance.raw, y - ONE_UNIT);
    let south = cast_ray(&world, &observer(x, y, (0, ONE_UNIT), (43254, 0)), 8, 16).unwrap();
    assert_eq!((south.map_x, south.map_y, south.side), (12, 23, HitSide::Y));
    assert_eq!(south.distance.raw, 23 * ONE_UNIT - y);
}

#[test]
fn the_offset_is_the_position_along_the_face() {
    let world = open_hall(24);
    let player = observer(12 * ONE_UNIT + 16384, 12 * ONE_UNIT, (0, -ONE_UNIT), (43254, 0));
    let hit = cast_ray(&world, &player, 50, 100).unwrap();
    assert_eq!((hit.map_x, hit.map_y), (12, 0));
    assert_eq!(hit.side, HitSide::Y);
    assert_eq!(hit.distance.raw, 720896);
    assert_eq!((hit.point.x.raw, hit.point.y.raw), (802816, 65536));
    assert_eq!(hit.offset.raw, 16384);
}

#[test]
fn outer_columns_look_along_the_camera_plane() {
    let world = open_hall(24);
    let player = observer(12 * ONE_UNIT, 12 * ONE_UNIT, (-ONE_UNIT, 0), (0, 43254));
    let left = cast_ray(&world, &player, 0, 100).unwrap();
    assert_eq!((left.map_x, left.map_y, left.side), (0, 4, HitSide::X));
    assert_eq!(left.distance.raw, 720896);
    assert_eq!((left.point.x.raw, left.point.y.raw), (65536, 310638));
    assert_eq!(left.offset.raw, 48494);
    let right = cast_ray(&world, &player, 99, 100).unwrap();
    assert_eq!((right.map_x, right.map_y, right.side), (0, 19, HitSide::X));
    assert_eq!(right.distance.raw, 720896);
    assert_eq!((right.point.x.raw, right.point.y.raw), (65536, 1252711));
    assert_eq!(right.offset.raw, 7527);
    let quarter = cast_ray(&world, &player, 25, 100).unwrap();
    assert_eq!((quarter.map_x, quarter.map_y), (0, 8));
    assert_eq!(quarter.offset.raw, 24247);
}

#[test]
fn a_slanted_ray_stops_on_a_side_wall() {
    let world = open_hall(24);
    let player = observer(3 * ONE_UNIT + 100, 20 * ONE_UNIT + 7, (30000, 58000), (-38000, 20000));
    let hit = cast_ray(&world, &player, 10, 64).unwrap();
    assert_eq!((hit.map_x, hit.map_y, hit.side), (6, 23, HitSide::Y));
    assert_eq!(hit.distance.raw, 291173);
    assert_eq!((hit.point.x.raw, hit.point.y.raw), (446068, 1507328));
    assert_eq!(hit.offset.raw, 52852);
    assert_eq!(hit.code, 1);
}

#[test]
fn rays_in_the_built_in_world_report_the_wall_codes() {
    let game = GameContext::new().unwrap();
    let centre = cast_ray(&game.world, &game.player, 320, 640).unwrap();
    assert_eq!((centre.map_x, centre.map_y, centre.side, centre.code), (16, 12, HitSide::X, 1));
    assert_eq!(centre.distance, Fixed::from_int(5));
    assert_eq!(centre.offset.raw, 0);
    let first = cast_ray(&game.world, &game.player, 0, 640).unwrap();
    assert_eq!((first.map_x, first.map_y, first.side, first.code), (10, 4, HitSide::X, 7));
    assert_eq!(first.distance.raw, 720896);
    assert_eq!(first.offset.raw, 48494);
    let last = cast_ray(&game.world, &game.player, 639, 640).unwrap();
    assert_eq!((last.map_x, last.map_y, last.side, last.code), (9, 19, HitSide::X, 1));
    assert_eq!(last.distance.raw, 786432);
    assert_eq!(last.offset.raw, 58676);
}

#[test]
fn a_ray_from_inside_a_cell_counts_partial_cells() {
    let game = GameContext::new().unwrap();
    let player = observer(22 * ONE_UNIT + 32768, 12 * ONE_UNIT + 16384, (-ONE_UNIT, 0), (0, 43254));
    let hit = cast_ray(&game.world, &player, 100, 640).unwrap();
    assert_eq!((hit.map_x, hit.map_y, hit.side, hit.code), (10, 7, HitSide::X, 7));
    assert_eq!(hit.distance.raw, 753664);
    assert_eq!((hit.point.x.raw, hit.point.y.raw), (720896, 460841));
    assert_eq!(hit.offset.raw, 2089);
}

#[test]
fn every_ray_from_an_open_cell_hits_a_wall() {
    let game = GameContext::new().unwrap();
    for column in 0..200 {
        let hit = cast_ray(&game.world, &game.player, column, 200).unwrap();
        assert!(hit.map_x < 24 && hit.map_y < 24);
        assert_eq!(game.world.cells[hit.map_x][hit.map_y], hit.code);
        assert!(hit.code >= 1 && hit.code <= 9);
        assert!(hit.distance.raw >= 0);
        assert!(hit.offset.raw >= 0 && hit.offset.raw < ONE_UNIT);
    }
}

#[test]
fn a_ray_from_outside_the_grid_is_a_miss() {
    let world = open_hall(8);
    assert!(cast_ray(&world, &observer(-ONE_UNIT, 3 * ONE_UNIT, (ONE_UNIT, 0), (0, 43254)), 5, 10).is_none());
    assert!(cast_ray(&world, &observer(3 * ONE_UNIT, 8 * ONE_UNIT, (0, -ONE_UNIT), (43254, 0)), 5, 10).is_none());
    assert!(cast_ray(&world, &observer(-1, -1, (ONE_UNIT, ONE_UNIT), (0, 0)), 0, 1).is_none());
}

#[test]
fn a_ray_from_inside_the_boundary_wall_can_leave_the_grid() {
    let world = open_hall(8);
    let outward = observer(ONE_UNIT / 2, 3 * ONE_UNIT, (-ONE_UNIT, 0), (0, 0));
    assert!(cast_ray(&world, &outward, 0, 2).is_none());
    let inward = observer(ONE_UNIT / 2, 3 * ONE_UNIT + 1000, (ONE_UNIT, 0), (0, 0));
    let hit = cast_ray(&world, &inward, 1, 2).unwrap();
    assert_eq!((hit.map_x, hit.map_y, hit.side), (7, 3, HitSide::X));
    assert_eq!(hit.distance.raw, 7 * ONE_UNIT - ONE_UNIT / 2);
}

#[test]
fn a_ray_without_direction_still_ends() {
    let world = open_hall(8);
    let still = observer(3 * ONE_UNIT, 3 * ONE_UNIT, (0, 0), (0, 0));
    let hit = cast_ray(&world, &still, 0, 4).unwrap();
    assert_eq!((hit.map_x, hit.map_y, hit.side), (6, 7, HitSide::Y));
}
