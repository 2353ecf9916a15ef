//! A board of coloured cells, and drawing the snake and the food on it.
use vstd::prelude::*;
use crate::snake::on_path;
use crate::types::{Cell, Dot, Grid, Snake};

verus! {

/// The colour of an empty cell.
pub open spec fn background() -> Cell {
    Cell { red: 35, green: 15, blue: 13 }
}

/// Whether `(row, column)` is a cell of `grid`.
pub open spec fn on_grid(grid: Seq<Seq<Cell>>, row: int, column: int) -> bool {
    0 <= row < grid.len() && 0 <= column < grid[row].len()
}

/// A board of `ny_cells` rows of `nx_cells` empty cells.
pub fn grid_init(nx_cells: u32, ny_cells: u32) -> (r: Grid)
    ensures
        r@.len() == ny_cells,
        forall|row: int| 0 <= row < ny_cells ==> (#[trigger] r@[row]).len() == nx_cells,
        forall|row: int, column: int|
            0 <= row < ny_cells && 0 <= column < nx_cells ==> #[trigger] r@[row][column]
                == background(),
{
    let mut grid_vector: Vec<Vec<Cell>> = Vec::new();
    let mut row: u32 = 0;
    while row < ny_cells
        invariant
            row <= ny_cells,
            grid_vector@.len() == row,
            forall|k: int|
                0 <= k < row ==> (#[trigger] grid_vector@[k])@.len() == nx_cells && forall|
                    column: int,
                | 0 <= column < nx_cells ==> grid_vector@[k]@[column] == background(),
        decreases ny_cells - row,
    {
        let mut line: Vec<Cell> = Vec::new();
        let mut column: u32 = 0;
        while column < nx_cells
            invariant
                column <= nx_cells,
                line@.len() == column,
                forall|c: int| 0 <= c < column ==> line@[c] == background(),
            decreases nx_cells - column,
        {
            line.push(Cell { red: 35, green: 15, blue: 13 });
            column = column + 1;
        }
        grid_vector.push(line);
        row = row + 1;
    }
    Grid { grid: grid_vector }
}

/// Colours the cell `(row, column)` of `grid`.
fn paint(grid: &mut Grid, row: usize, column: usize, color: Cell)
    requires
        on_grid(old(grid)@, row as int, column as int),
    ensures
        final(grid)@ == old(grid)@.update(row as int, old(grid)@[row as int].update(column as int, color)),
{
    grid.grid[row][column] = color;
    assert(final(grid)@ =~= old(grid)@.update(row as int, old(grid)@[row as int].update(column as int, color)));
}

/// Draws `dot` on `grid`.
pub fn draw_dot_on_grid(grid: &mut Grid, dot: &Dot)
    requires
        on_grid(old(grid)@, dot.row as int, dot.column as int),
    ensures
        final(grid)@ == old(grid)@.update(
            dot.row as int,
            old(grid)@[dot.row as int].update(dot.column as int, dot.color),
        ),
{
    paint(grid, dot.row as usize, dot.column as usize, dot.color);
}

/// Draws every segment of `snake` on `grid`.
pub fn draw_snake_on_grid(grid: &mut Grid, snake: &Snake)
    requires
        forall|i: int|
            0 <= i < snake.path@.len() ==> on_grid(
                old(grid)@,
                (#[trigger] snake.path@[i]).row as int,
                snake.path@[i].column as int,
            ),
    ensures
        final(grid)@.len() == old(grid)@.len(),
        forall|row: int| 0 <= row < old(grid)@.len() ==> (#[trigger] final(grid)@[row]).len() == old(grid)@[row].len(),
        forall|row: int, column: int|
            on_grid(old(grid)@, row, column) ==> #[trigger] final(grid)@[row][column] == if on_path(
                snake.path@,
                row,
                column,
            ) {
                snake.color
            } else {
                old(grid)@[row][column]
            },
{
    let color = snake.color;
    let mut i: usize = 0;
    while i < snake.path.len()
        invariant
            0 <= i <= snake.path@.len(),
            grid@.len() == old(grid)@.len(),
            forall|row: int| 0 <= row < old(grid)@.len() ==> (#[trigger] grid@[row]).len() == old(grid)@[row].len(),
            forall|k: int|
                0 <= k < snake.path@.len() ==> on_grid(
                    old(grid)@,
                    (#[trigger] snake.path@[k]).row as int,
                    snake.path@[k].column as int,
                ),
            forall|row: int, column: int|
                on_grid(old(grid)@, row, column) ==> #[trigger] grid@[row][column] == if on_path(
                    snake.path@.take(i as int),
                    row,
                    column,
                ) {
                    color
                } else {
                    old(grid)@[row][column]
                },
        decreases snake.path.len() - i,
    {
        let segment = snake.path[i];
        paint(grid, segment.row as usize, segment.column as usize, color);
        assert forall|row: int, column: int| on_grid(old(grid)@, row, column) implies #[trigger] grid@[row][column] == if on_path(
            snake.path@.take(i + 1),
            row,
            column,
        ) {
            color
        } else {
            old(grid)@[row][column]
        } by {
            if on_path(snake.path@.take(i as int), row, column) {
                let k = choose|k: int| 0 <= k < snake.path@.take(i as int).len() && snake.path@.take(i as int)[k].row == row && snake.path@.take(i as int)[k].column == column;
                assert(snake.path@.take(i + 1)[k] == snake.path@.take(i as int)[k]);
            }
            if row == segment.row && column == segment.column {
                assert(snake.path@.take(i + 1)[i as int] == segment);
            }
        }
        i = i + 1;
    }
    assert(snake.path@.take(snake.path@.len() as int) =~= snake.path@);
}

} // verus!
