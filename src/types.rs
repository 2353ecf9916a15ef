//! The plain data of the game: colours, board cells, snake segments, food and
//! headings.
use vstd::prelude::*;

verus! {

/// A colour, as red, green and blue intensities.
#[derive(Clone, Copy, Debug, PartialEq, Eq, Structural)]
pub struct Cell {
    pub red: u8,
    pub green: u8,
    pub blue: u8,
}

/// A board of coloured cells, addressed as `grid[row][column]`.
pub struct Grid {
    pub grid: Vec<Vec<Cell>>,
}

impl View for Grid {
    type V = Seq<Seq<Cell>>;

    open spec fn view(&self) -> Seq<Seq<Cell>> {
        self.grid@.map_values(|line: Vec<Cell>| line@)
    }
}

/// One segment of the snake: a board coordinate, signed so that a head
/// that has left the board can still be represented.
#[derive(Clone, Copy, Debug, PartialEq, Eq, Structural)]
pub struct SnakeHead {
    pub row: i32,
    pub column: i32,
}

/// A food item: where it lies and how it is drawn.
#[derive(Clone, Copy, Debug, PartialEq, Eq, Structural)]
pub struct Dot {
    pub row: i32,
    pub column: i32,
    pub color: Cell,
}

/// The snake: the length it grows to, its colour, and its body, head first.
#[derive(Debug)]
pub struct Snake {
    pub len: usize,
    pub color: Cell,
    pub path: Vec<SnakeHead>,
}

/// A heading on the board.
#[derive(Clone, Copy, Debug, PartialEq, Eq, Structural)]
pub enum Direction {
    Up,
    Down,
    Left,
    Right,
}

impl Direction {
    /// The row step of this heading.
    pub open spec fn row_step(self) -> int {
        match self {
            Direction::Left => -1,
            Direction::Right => 1,
            _ => 0,
        }
    }

    /// The column step of this heading.
    pub open spec fn column_step(self) -> int {
        match self {
            Direction::Up => -1,
            Direction::Down => 1,
            _ => 0,
        }
    }

    /// Whether `other` points the exact opposite way.
    pub open spec fn is_reverse_of(self, other: Direction) -> bool {
        match (self, other) {
            (Direction::Up, Direction::Down) => true,
            (Direction::Down, Direction::Up) => true,
            (Direction::Left, Direction::Right) => true,
            (Direction::Right, Direction::Left) => true,
            _ => false,
        }
    }

    /// The unit displacement `(row step, column step)` of this heading.
    pub fn vector(&self) -> (r: (i32, i32))
        ensures
            r.0 == self.row_step(),
            r.1 == self.column_step(),
    {
        match self {
            Direction::Up => (0, -1),
            Direction::Down => (0, 1),
            Direction::Left => (-1, 0),
            Direction::Right => (1, 0),
        }
    }

    /// The heading that points the other way.
    pub fn reverse(&self) -> (r: Direction)
        ensures
            self.is_reverse_of(r),
            r.is_reverse_of(*self),
    {
        match self {
            Direction::Up => Direction::Down,
            Direction::Down => Direction::Up,
            Direction::Left => Direction::Right,
            Direction::Right => Direction::Left,
        }
    }

    /// Turns to `other`, unless `other` is the reverse of the current
    /// heading: a snake may not turn back into its own neck.
    pub fn safe_change(&mut self, other: Direction)
        ensures
            old(self).is_reverse_of(other) ==> *final(self) == *old(self),
            !old(self).is_reverse_of(other) ==> *final(self) == other,
    {
        if other != self.reverse() {
            *self = other;
        }
    }
}

} // verus!
