//! Food placement: a random free cell of the board.
use vstd::prelude::*;
use rand::rngs::ThreadRng;
use crate::random::random_below;
use crate::snake::on_path;
use crate::types::{Cell, Dot, Snake, SnakeHead};

verus! {

/// The colour food is drawn in.
pub open spec fn food_color() -> Cell {
    Cell { red: 255, green: 255, blue: 255 }
}

/// Whether `(row, column)` lies on a board of `rows` by `columns` and off
/// the body `path`.
pub open spec fn free_cell(rows: int, columns: int, path: Seq<SnakeHead>, row: int, column: int) -> bool {
    0 <= row < rows && 0 <= column < columns && !on_path(path, row, column)
}

/// Whether some cell of the board is off the body `path`.
pub open spec fn has_free_cell(rows: int, columns: int, path: Seq<SnakeHead>) -> bool {
    exists|row: int, column: int| #[trigger] free_cell(rows, columns, path, row, column)
}

/// Whether a board of `rows` by `columns` can be addressed by the signed
/// coordinates of a cell.
pub open spec fn addressable(rows: int, columns: int) -> bool {
    rows <= 0x8000_0000 && columns <= 0x8000_0000
}

impl Dot {
    /// Whether some segment of `snake` lies on `(row, column)`.
    pub fn on_snake(row: i32, column: i32, snake: &Snake) -> (r: bool)
        ensures
            r == on_path(snake.path@, row as int, column as int),
    {
        let mut i: usize = 0;
        while i < snake.path.len()
            invariant
                0 <= i <= snake.path@.len(),
                forall|j: int|
                    0 <= j < i ==> !(snake.path@[j].row == row && snake.path@[j].column == column),
            decreases snake.path.len() - i,
        {
            if snake.path[i].row == row && snake.path[i].column == column {
                return true;
            }
            i = i + 1;
        }
        false
    }

    /// Food on a random cell of a board of `rows` by `columns` that no segment
    /// of `snake` covers. Cells are drawn uniformly until a free one comes up;
    /// after as many draws as the board has cells, one is drawn from the free
    /// cells themselves, so that a crowded board still ends the search.
    pub fn random_pos(rows: u32, columns: u32, snake: &Snake, rng: &mut ThreadRng) -> (r: Dot)
        requires
            addressable(rows as int, columns as int),
            has_free_cell(rows as int, columns as int, snake.path@),
        ensures
            free_cell(rows as int, columns as int, snake.path@, r.row as int, r.column as int),
            r.color == food_color(),
    {
        assert(rows as u64 * columns as u64 <= 0x8000_0000u64 * 0x8000_0000u64) by (nonlinear_arith)
            requires
                rows <= 0x8000_0000,
                columns <= 0x8000_0000,
        ;
        let cells: u64 = rows as u64 * columns as u64;
        let mut tries: u64 = 0;
        while tries < cells
            invariant
                0 < rows <= 0x8000_0000,
                0 < columns <= 0x8000_0000,
            decreases cells - tries,
        {
            let row = random_below(rng, rows as usize) as i32;
            let column = random_below(rng, columns as usize) as i32;
            if !Dot::on_snake(row, column, snake) {
                return Dot { row, column, color: Cell { red: 255, green: 255, blue: 255 } };
            }
            tries = tries + 1;
        }
        let free = free_cells(rows, columns, snake);
        let k = random_below(rng, free.len());
        let cell = free[k];
        Dot { row: cell.row, column: cell.column, color: Cell { red: 255, green: 255, blue: 255 } }
    }
}

/// Every cell of a board of `rows` by `columns` that no segment of `snake`
/// covers, row by row.
fn free_cells(rows: u32, columns: u32, snake: &Snake) -> (r: Vec<SnakeHead>)
    requires
        addressable(rows as int, columns as int),
    ensures
        forall|i: int|
            0 <= i < r@.len() ==> free_cell(
                rows as int,
                columns as int,
                snake.path@,
                #[trigger] r@[i].row as int,
                r@[i].column as int,
            ),
        has_free_cell(rows as int, columns as int, snake.path@) ==> r@.len() > 0,
{
    let ghost path = snake.path@;
    let ghost witness: (int, int) = if has_free_cell(rows as int, columns as int, path) {
        choose|row: int, column: int| #[trigger] free_cell(rows as int, columns as int, path, row, column)
    } else {
        (-1, -1)
    };
    let mut out: Vec<SnakeHead> = Vec::new();
    let mut row: u32 = 0;
    while row < rows
        invariant
            row <= rows,
            addressable(rows as int, columns as int),
            path == snake.path@,
            forall|i: int|
                0 <= i < out@.len() ==> free_cell(
                    rows as int,
                    columns as int,
                    path,
                    #[trigger] out@[i].row as int,
                    out@[i].column as int,
                ),
            has_free_cell(rows as int, columns as int, path) ==> free_cell(
                rows as int,
                columns as int,
                path,
                witness.0,
                witness.1,
            ),
            has_free_cell(rows as int, columns as int, path) && witness.0 < row ==> out@.len() > 0,
        decreases rows - row,
    {
        let mut column: u32 = 0;
        while column < columns
            invariant
                row < rows,
                column <= columns,
                addressable(rows as int, columns as int),
                path == snake.path@,
                forall|i: int|
                    0 <= i < out@.len() ==> free_cell(
                        rows as int,
                        columns as int,
                        path,
                        #[trigger] out@[i].row as int,
                        out@[i].column as int,
                    ),
                has_free_cell(rows as int, columns as int, path) ==> free_cell(
                    rows as int,
                    columns as int,
                    path,
                    witness.0,
                    witness.1,
                ),
                has_free_cell(rows as int, columns as int, path) && (witness.0 < row || (witness.0
                    == row && witness.1 < column)) ==> out@.len() > 0,
            decreases columns - column,
        {
            if !Dot::on_snake(row as i32, column as i32, snake) {
                out.push(SnakeHead { row: row as i32, column: column as i32 });
            }
            column = column + 1;
        }
        row = row + 1;
    }
    out
}

/// Food on a random free cell, drawn with the generator of this thread.
pub fn init_dot(rows: u32, columns: u32, snake: &Snake) -> (r: Dot)
    requires
        addressable(rows as int, columns as int),
        has_free_cell(rows as int, columns as int, snake.path@),
    ensures
        free_cell(rows as int, columns as int, snake.path@, r.row as int, r.column as int),
        r.color == food_color(),
{
    let mut rng = rand::thread_rng();
    Dot::random_pos(rows, columns, snake, &mut rng)
}

} // verus!
