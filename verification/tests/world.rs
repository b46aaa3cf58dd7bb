use raycaster::world::{validate, World, WorldError, MAX_WORLD_SIZE};

fn ring_rows(size: usize) -> Vec<Vec<i32>> {
    let mut rows = Vec::new();
    for i in 0..size {
        let mut row = Vec::new();
        for j in 0..size {
            let edge = i == 0 || j == 0 || i == size - 1 || j == size - 1;
            row.push(if edge { 1 } else { 0 });
        }
        rows.push(row);
    }
    rows
}

#[test]
fn world_accepts_a_closed_ring() {
    let world = World::new(24, ring_rows(24)).unwrap();
    assert_eq!(world.size, 24);
    assert_eq!(world.cells, ring_rows(24));
}

#[test]
fn world_accepts_every_code_from_zero_to_nine() {
    let mut rows = ring_rows(12);
    for code in 0..10 {
        rows[5][1 + code as usize] = code;
    }
    assert!(World::new(12, rows).is_ok());
}

#[test]
fn world_accepts_the_smallest_grids() {
    assert!(World::new(0, Vec::new()).is_ok());
    assert!(World::new(1, vec![vec![4]]).is_ok());
    assert!(World::new(2, vec![vec![1, 2], vec![3, 9]]).is_ok());
}

#[test]
fn world_rejects_an_open_boundary_cell() {
    let mut rows = ring_rows(24);
    rows[0][7] = 0;
    assert_eq!(World::new(24, rows).unwrap_err(), WorldError::ExposedWall { x: 7, y: 0 });
    let mut rows = ring_rows(24);
    rows[23][3] = 0;
    assert_eq!(World::new(24, rows).unwrap_err(), WorldError::ExposedWall { x: 3, y: 23 });
    let mut rows = ring_rows(24);
    rows[9][0] = 0;
    assert_eq!(World::new(24, rows).unwrap_err(), WorldError::ExposedWall { x: 0, y: 9 });
    let mut rows = ring_rows(24);
    rows[9][23] = 0;
    assert_eq!(World::new(24, rows).unwrap_err(), WorldError::ExposedWall { x: 23, y: 9 });
}

#[test]
fn world_rejects_a_code_out_of_range() {
    let mut rows = ring_rows(24);
    rows[4][6] = 10;
    assert_eq!(World::new(24, rows).unwrap_err(), WorldError::InvalidWall { x: 6, y: 4 });
    let mut rows = ring_rows(24);
    rows[4][6] = -1;
    assert_eq!(World::new(24, rows).unwrap_err(), WorldError::InvalidWall { x: 6, y: 4 });
    let mut rows = ring_rows(24);
    rows[0][0] = 12;
    assert_eq!(World::new(24, rows).unwrap_err(), WorldError::InvalidWall { x: 0, y: 0 });
}

#[test]
fn world_reports_the_first_fault_in_reading_order() {
    let mut rows = ring_rows(24);
    rows[10][2] = 77;
    rows[3][20] = -5;
    rows[3][21] = 99;
    rows[23][1] = 0;
    assert_eq!(World::new(24, rows).unwrap_err(), WorldError::InvalidWall { x: 20, y: 3 });
    let mut rows = ring_rows(24);
    rows[5][23] = 0;
    rows[5][4] = 11;
    assert_eq!(World::new(24, rows).unwrap_err(), WorldError::InvalidWall { x: 4, y: 5 });
    let mut rows = ring_rows(24);
    rows[5][0] = 0;
    rows[5][4] = 11;
    assert_eq!(World::new(24, rows).unwrap_err(), WorldError::ExposedWall { x: 0, y: 5 });
}

#[test]
fn world_rejects_a_grid_that_is_not_square() {
    assert_eq!(World::new(23, ring_rows(24)).unwrap_err(), WorldError::RowCount);
    assert_eq!(World::new(25, ring_rows(24)).unwrap_err(), WorldError::RowCount);
    let mut rows = ring_rows(24);
    rows[6].pop();
    rows[9].push(1);
    assert_eq!(World::new(24, rows).unwrap_err(), WorldError::RowLength { row: 6 });
}

#[test]
fn world_checks_the_shape_before_the_cells() {
    let mut rows = ring_rows(24);
    rows[0][0] = 0;
    rows[20].push(1);
    assert_eq!(World::new(24, rows).unwrap_err(), WorldError::RowLength { row: 20 });
}

#[test]
fn world_rejects_a_side_beyond_the_limit() {
    assert_eq!(World::new(MAX_WORLD_SIZE + 1, Vec::new()).unwrap_err(), WorldError::TooLarge);
    assert_eq!(World::new(MAX_WORLD_SIZE, Vec::new()).unwrap_err(), WorldError::RowCount);
}

#[test]
fn world_is_refused_exactly_when_a_cell_is_at_fault() {
    let size = 6;
    for row in 0..size {
        for col in 0..size {
            for code in [-1, 0, 1, 9, 10] {
                let mut rows = ring_rows(size);
                rows[row][col] = code;
                let edge = row == 0 || col == 0 || row == size - 1 || col == size - 1;
                let faulty = code < 0 || code > 9 || (edge && code == 0);
                assert_eq!(World::new(size, rows).is_err(), faulty);
            }
        }
    }
}

#[test]
fn validate_agrees_with_new() {
    assert_eq!(validate(24, &ring_rows(24)), Ok(()));
    let mut rows = ring_rows(24);
    rows[23][23] = 0;
    assert_eq!(validate(24, &rows), Err(WorldError::ExposedWall { x: 23, y: 23 }));
    assert_eq!(World::new(24, rows).unwrap_err(), WorldError::ExposedWall { x: 23, y: 23 });
    assert_eq!(validate(3, &ring_rows(4)), Err(WorldError::RowCount));
}

#[test]
fn a_world_changed_behind_its_back_is_found_out() {
    let mut world = World::new(8, ring_rows(8)).unwrap();
    assert!(world.is_valid());
    world.cells[0][3] = 0;
    assert!(!world.is_valid());
    world.cells[0][3] = 5;
    assert!(world.is_valid());
    world.cells[4][4] = 10;
    assert!(!world.is_valid());
    world.cells[4][4] = 9;
    world.size = 7;
    assert!(!world.is_valid());
}
