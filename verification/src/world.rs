//! The world model: a square grid of cell codes, checked when it is built.

use vstd::prelude::*;

verus! {

/// Largest wall code; codes `1..=MAX_CODE` are wall materials, `0` is open.
pub const MAX_CODE: i32 = 9;

/// Largest supported side length of a world.
pub const MAX_WORLD_SIZE: usize = 16384;

/// A square grid of cell codes. `cells[i][j]` is the code of the cell whose
/// first map coordinate is `i` and whose second is `j`.
#[derive(Debug)]
pub struct World {
    pub size: usize,
    pub cells: Vec<Vec<i32>>,
}

/// Why a grid was refused. In the cell errors `y` is the index of the row
/// (the outer index) and `x` the index inside the row.
#[derive(Clone, Copy, Debug, PartialEq, Eq, Structural)]
pub enum WorldError {
    /// The declared side length exceeds `MAX_WORLD_SIZE`.
    TooLarge,
    /// The number of rows differs from the declared side length.
    RowCount,
    /// Row `row` is the first whose length differs from the declared side length.
    RowLength { row: usize },
    /// The boundary cell at `(x, y)` is open.
    ExposedWall { x: usize, y: usize },
    /// The cell at `(x, y)` holds a code outside `0..=MAX_CODE`.
    InvalidWall { x: usize, y: usize },
}

/// The rows of a grid as nested sequences.
pub open spec fn grid_view(cells: Vec<Vec<i32>>) -> Seq<Seq<i32>> {
    Seq::new(cells@.len(), |i: int| cells@[i]@)
}

/// Whether `(row, col)` lies on the outer ring of a grid of side `size`.
pub open spec fn on_boundary(size: int, row: int, col: int) -> bool {
    row == 0 || col == 0 || row == size - 1 || col == size - 1
}

/// The fault of a single cell, if it has one.
pub open spec fn cell_fault(size: int, grid: Seq<Seq<i32>>, row: int, col: int) -> Option<WorldError> {
    let code = grid[row][col];
    if on_boundary(size, row, col) && code == 0 {
        Some(WorldError::ExposedWall { x: col as usize, y: row as usize })
    } else if code > 9 || code < 0 {
        Some(WorldError::InvalidWall { x: col as usize, y: row as usize })
    } else {
        None
    }
}

/// Whether every row of `grid` has length `size` and there are `size` rows.
pub open spec fn square(size: int, grid: Seq<Seq<i32>>) -> bool {
    &&& grid.len() == size
    &&& forall|row: int| 0 <= row < size ==> (#[trigger] grid[row]).len() == size
}

/// Whether no cell of the grid has a fault: every code is in range and no
/// boundary cell is open.
pub open spec fn faultless(size: int, grid: Seq<Seq<i32>>) -> bool {
    forall|row: int, col: int|
        0 <= row < size && 0 <= col < size ==> (#[trigger] cell_fault(size, grid, row, col)) is None
}

/// Whether `grid` is an acceptable world of side `size`.
pub open spec fn valid_grid(size: int, grid: Seq<Seq<i32>>) -> bool {
    &&& size <= MAX_WORLD_SIZE
    &&& square(size, grid)
    &&& faultless(size, grid)
}

/// Whether `(row, col)` comes before `(r, c)` in row-major order.
pub open spec fn scanned_before(row: int, col: int, r: int, c: int) -> bool {
    row < r || (row == r && col < c)
}

/// Whether `fault` is the fault of the cell `(row, col)` of a square grid
/// within the size limit, and no cell before it in row-major order has one.
pub open spec fn first_fault(size: int, grid: Seq<Seq<i32>>, row: int, col: int, fault: WorldError) -> bool {
    &&& size <= MAX_WORLD_SIZE
    &&& square(size, grid)
    &&& 0 <= row < size
    &&& 0 <= col < size
    &&& cell_fault(size, grid, row, col) == Some(fault)
    &&& forall|r: int, c: int|
        0 <= r < size && 0 <= c < size && scanned_before(r, c, row, col) ==> (#[trigger] cell_fault(
            size,
            grid,
            r,
            c,
        )) is None
}

/// Whether `fault` is what `validate` reports for the grid `cells` of
/// declared side `size`.
pub open spec fn reports(size: usize, cells: Vec<Vec<i32>>, fault: WorldError) -> bool {
    match fault {
        WorldError::TooLarge => size > MAX_WORLD_SIZE,
        WorldError::RowCount => size <= MAX_WORLD_SIZE && cells@.len() != size,
        WorldError::RowLength { row } => {
            &&& size <= MAX_WORLD_SIZE
            &&& cells@.len() == size
            &&& row < size
            &&& cells@[row as int]@.len() != size
            &&& forall|r: int| 0 <= r < row ==> (#[trigger] cells@[r])@.len() == size
        },
        WorldError::ExposedWall { x, y } => first_fault(size as int, grid_view(cells), y as int, x as int, fault),
        WorldError::InvalidWall { x, y } => first_fault(size as int, grid_view(cells), y as int, x as int, fault),
    }
}

/// A square grid within the size limit is refused exactly if some cell
/// holds a code outside `0..=9` or some boundary cell is open.
pub proof fn lemma_refused_for_a_cell(size: int, grid: Seq<Seq<i32>>)
    requires
        size <= MAX_WORLD_SIZE,
        square(size, grid),
    ensures
        !valid_grid(size, grid) <==> exists|row: int, col: int|
            0 <= row < size && 0 <= col < size && ((#[trigger] grid[row][col]) < 0 || grid[row][col] > 9 || (
            on_boundary(size, row, col) && grid[row][col] == 0)),
{
    if !valid_grid(size, grid) {
        let (row, col) = choose|row: int, col: int|
            0 <= row < size && 0 <= col < size && !((#[trigger] cell_fault(size, grid, row, col)) is None);
        assert(grid[row][col] < 0 || grid[row][col] > 9 || (on_boundary(size, row, col) && grid[row][col] == 0));
    }
    if exists|row: int, col: int|
        0 <= row < size && 0 <= col < size && ((#[trigger] grid[row][col]) < 0 || grid[row][col] > 9 || (on_boundary(
            size,
            row,
            col,
        ) && grid[row][col] == 0)) {
        let (row, col) = choose|row: int, col: int|
            0 <= row < size && 0 <= col < size && ((#[trigger] grid[row][col]) < 0 || grid[row][col] > 9 || (
            on_boundary(size, row, col) && grid[row][col] == 0));
        assert(!(cell_fault(size, grid, row, col) is None));
    }
}

/// Checks a grid of declared side `size`: it must be square, hold only
/// codes in `0..=9`, and have no open cell on its boundary. A side beyond
/// the limit is reported first, then a wrong number of rows, then the
/// first row of the wrong length, then the first faulty cell in row-major
/// order.
pub fn validate(size: usize, cells: &Vec<Vec<i32>>) -> (result: Result<(), WorldError>)
    ensures
        result is Ok <==> valid_grid(size as int, grid_view(*cells)),
        result matches Err(fault) ==> reports(size, *cells, fault),
{
    if size > MAX_WORLD_SIZE {
        return Err(WorldError::TooLarge);
    }
    if cells.len() != size {
        return Err(WorldError::RowCount);
    }
    let ghost grid = grid_view(*cells);
    let mut row: usize = 0;
    while row < size
        invariant
            row <= size,
            size <= MAX_WORLD_SIZE,
            cells@.len() == size,
            grid == grid_view(*cells),
            forall|r: int| 0 <= r < row ==> (#[trigger] cells@[r])@.len() == size,
        decreases size - row,
    {
        if cells[row].len() != size {
            assert(grid[row as int].len() != size);
            return Err(WorldError::RowLength { row });
        }
        row += 1;
    }
    assert(square(size as int, grid)) by {
        assert forall|r: int| 0 <= r < size implies (#[trigger] grid[r]).len() == size by {
            assert(cells@[r]@.len() == size);
        }
    }
    let mut y: usize = 0;
    while y < size
        invariant
            y <= size,
            size <= MAX_WORLD_SIZE,
            cells@.len() == size,
            grid == grid_view(*cells),
            square(size as int, grid),
            forall|r: int, c: int|
                0 <= r < y && 0 <= c < size ==> (#[trigger] cell_fault(size as int, grid, r, c)) is None,
        decreases size - y,
    {
        let mut x: usize = 0;
        while x < size
            invariant
                x <= size,
                y < size,
                size <= MAX_WORLD_SIZE,
                cells@.len() == size,
                grid == grid_view(*cells),
                square(size as int, grid),
                forall|r: int, c: int|
                    0 <= r < size && 0 <= c < size && scanned_before(r, c, y as int, x as int)
                        ==> (#[trigger] cell_fault(size as int, grid, r, c)) is None,
            decreases size - x,
        {
            assert(grid[y as int].len() == size);
            let code = cells[y][x];
            assert(code == grid[y as int][x as int]);
            if (x == 0 || y == 0 || x == size - 1 || y == size - 1) && code == 0 {
                return Err(WorldError::ExposedWall { x, y });
            }
            if code > MAX_CODE || code < 0 {
                return Err(WorldError::InvalidWall { x, y });
            }
            assert(cell_fault(size as int, grid, y as int, x as int) is None);
            x += 1;
        }
        y += 1;
    }
    Ok(())
}

impl World {
    /// The grid as nested sequences.
    pub open spec fn grid(&self) -> Seq<Seq<i32>> {
        grid_view(self.cells)
    }

    /// The world's invariant: a valid square grid of the recorded size.
    pub open spec fn wf(&self) -> bool {
        valid_grid(self.size as int, self.grid())
    }

    /// Code of the cell `(i, j)`; cells outside the grid count as open here.
    pub open spec fn code(&self, i: int, j: int) -> int {
        if 0 <= i < self.size && 0 <= j < self.size {
            self.grid()[i][j] as int
        } else {
            0
        }
    }

    /// Whether `(i, j)` is a cell of the grid.
    pub open spec fn contains(&self, i: int, j: int) -> bool {
        0 <= i < self.size && 0 <= j < self.size
    }

    /// Whether `(i, j)` is a cell of the grid that can be walked through.
    pub open spec fn traversable(&self, i: int, j: int) -> bool {
        self.contains(i, j) && self.grid()[i][j] == 0
    }

    /// Builds a world of side `size` from its rows, refusing, with the
    /// fault that `validate` reports, a grid that is not a valid world.
    pub fn new(size: usize, cells: Vec<Vec<i32>>) -> (result: Result<World, WorldError>)
        ensures
            result is Ok <==> valid_grid(size as int, grid_view(cells)),
            result matches Ok(world) ==> world.size == size && world.cells == cells && world.wf(),
            result matches Err(fault) ==> reports(size, cells, fault),
    {
        match validate(size, &cells) {
            Ok(_) => Ok(World { size, cells }),
            Err(fault) => Err(fault),
        }
    }

    /// Whether this value is a valid world; a world that was built by `new`
    /// and not changed since always is.
    pub fn is_valid(&self) -> (valid: bool)
        ensures
            valid == self.wf(),
    {
        validate(self.size, &self.cells).is_ok()
    }
}

} // verus!
