//! The snake: movement, growth and the collision rules.
use vstd::prelude::*;
use crate::types::{Cell, Direction, Dot, Snake, SnakeHead};

verus! {

/// The length a new snake grows to.
pub const SNAKE_INIT_LEN: usize = 4;

/// The cell the head moves into when heading `d`.
pub open spec fn stepped(h: SnakeHead, d: Direction) -> SnakeHead {
    SnakeHead { row: (h.row + d.row_step()) as i32, column: (h.column + d.column_step()) as i32 }
}

/// Whether the head of `path` can take a step towards `d` without leaving
/// the range of the coordinates.
pub open spec fn can_step(path: Seq<SnakeHead>, d: Direction) -> bool {
    &&& path.len() > 0
    &&& i32::MIN <= path[0].row + d.row_step() <= i32::MAX
    &&& i32::MIN <= path[0].column + d.column_step() <= i32::MAX
}

/// The body after one step towards `d`: the new head in front, then the old
/// body, cut to at most `len` segments.
pub open spec fn moved_path(path: Seq<SnakeHead>, len: nat, d: Direction) -> Seq<SnakeHead> {
    let grown = seq![stepped(path[0], d)] + path;
    if grown.len() > len {
        grown.take(len as int)
    } else {
        grown
    }
}

/// The body after a step towards each heading of `dirs`, in order.
pub open spec fn path_after(path: Seq<SnakeHead>, len: nat, dirs: Seq<Direction>) -> Seq<
    SnakeHead,
>
    decreases dirs.len(),
{
    if dirs.len() == 0 {
        path
    } else {
        moved_path(path_after(path, len, dirs.drop_last()), len, dirs.last())
    }
}

/// Whether some segment of `path` lies on `(row, column)`.
pub open spec fn on_path(path: Seq<SnakeHead>, row: int, column: int) -> bool {
    exists|i: int| 0 <= i < path.len() && path[i].row == row && path[i].column == column
}

/// Whether the head lies strictly inside a board of `rows` by `columns`:
/// the outermost ring of cells is out of bounds.
pub open spec fn head_inside(h: SnakeHead, rows: int, columns: int) -> bool {
    0 < h.row < rows && 0 < h.column < columns
}

/// Whether the head lies on another segment of the body.
pub open spec fn bites_itself(path: Seq<SnakeHead>) -> bool {
    exists|i: int| 1 <= i < path.len() && #[trigger] path[i] == path[0]
}

/// Whether a body is still alive on a board of `rows` by `columns`.
pub open spec fn alive(path: Seq<SnakeHead>, rows: int, columns: int) -> bool {
    path.len() > 0 && head_inside(path[0], rows, columns) && !bites_itself(path)
}

/// The colour of a new snake.
pub open spec fn snake_color() -> Cell {
    Cell { red: 200, green: 0, blue: 100 }
}

/// The cell a new snake starts on.
pub open spec fn start_cell() -> SnakeHead {
    SnakeHead { row: 8, column: 8 }
}

/// Moving never lets the body outgrow the snake's length: from a body of
/// `k` segments, no longer than `len`, `n` steps leave `min(k + n, len)`
/// segments. A new snake has one segment, so after `n` steps it has
/// `min(n + 1, len)`.
pub proof fn lemma_moves_trim_path(path: Seq<SnakeHead>, len: nat, dirs: Seq<Direction>)
    requires
        1 <= path.len() <= len,
    ensures
        path_after(path, len, dirs).len() == if path.len() + dirs.len() < len {
            (path.len() + dirs.len()) as int
        } else {
            len as int
        },
    decreases dirs.len(),
{
    if dirs.len() > 0 {
        lemma_moves_trim_path(path, len, dirs.drop_last());
    }
}

impl Snake {
    /// A snake is well formed when its body is non-empty and no longer than
    /// the length it grows to.
    pub open spec fn wf(&self) -> bool {
        1 <= self.path@.len() <= self.len
    }

    /// A new snake: one segment on the start cell, growing to the initial
    /// length.
    pub fn init() -> (r: Snake)
        ensures
            r.wf(),
            r.len == SNAKE_INIT_LEN,
            r.color == snake_color(),
            r.path@ == seq![start_cell()],
    {
        let r = Snake {
            len: SNAKE_INIT_LEN,
            color: Cell { red: 200, green: 0, blue: 100 },
            path: vec![SnakeHead { row: 8, column: 8 }],
        };
        assert(r.path@ =~= seq![start_cell()]);
        r
    }

    /// Moves one cell towards `direction`: the new head goes in front and the
    /// tail is cut so that the body is no longer than `len`.
    pub fn update_pos(&mut self, direction: &Direction)
        requires
            old(self).wf(),
            can_step(old(self).path@, *direction),
        ensures
            final(self).wf(),
            final(self).len == old(self).len,
            final(self).color == old(self).color,
            final(self).path@ == moved_path(old(self).path@, old(self).len as nat, *direction),
    {
        let (x, y) = direction.vector();
        let mut head = self.path[0];
        head.row = head.row + x;
        head.column = head.column + y;
        self.path.insert(0, head);
        let ghost grown = self.path@;
        assert(grown =~= seq![stepped(old(self).path@[0], *direction)] + old(self).path@);
        while self.len < self.path.len()
            invariant
                self.len == old(self).len,
                self.color == old(self).color,
                1 <= self.len,
                self.path@.len() <= grown.len(),
                self.path@.len() == grown.len() || self.len <= self.path@.len(),
                self.path@ == grown.take(self.path@.len() as int),
            decreases self.path.len(),
        {
            self.path.pop();
        }
        assert(grown.take(grown.len() as int) =~= grown);
    }

    /// Adds one to the length the snake grows to.
    pub fn grow(&mut self)
        requires
            old(self).len < usize::MAX,
        ensures
            final(self).len == old(self).len + 1,
            final(self).color == old(self).color,
            final(self).path@ == old(self).path@,
    {
        self.len = self.len + 1;
    }

    /// Whether the snake is alive on a board of `rows` by `columns`: its head
    /// lies strictly inside the board and on no other segment.
    pub fn check_pos(&self, rows: u32, columns: u32) -> (r: bool)
        requires
            self.path@.len() > 0,
        ensures
            r == alive(self.path@, rows as int, columns as int),
    {
        let head = self.path[0];
        if !(head.row > 0 && head.column > 0 && (head.row as u32) < rows && (head.column
            as u32) < columns) {
            return false;
        }
        let mut i: usize = 1;
        while i < self.path.len()
            invariant
                1 <= i <= self.path@.len(),
                head == self.path@[0],
                forall|j: int| 1 <= j < i ==> self.path@[j] != head,
            decreases self.path.len() - i,
        {
            if self.path[i] == head {
                return false;
            }
            i = i + 1;
        }
        true
    }
}

/// A new snake, as [`Snake::init`].
pub fn init_snake() -> (r: Snake)
    ensures
        r.wf(),
        r.len == SNAKE_INIT_LEN,
        r.color == snake_color(),
        r.path@ == seq![start_cell()],
{
    Snake::init()
}

/// Moves `snake` one cell towards `direction`, as [`Snake::update_pos`].
pub fn update_snake_pos(snake: &mut Snake, direction: &Direction)
    requires
        old(snake).wf(),
        can_step(old(snake).path@, *direction),
    ensures
        final(snake).wf(),
        final(snake).len == old(snake).len,
        final(snake).color == old(snake).color,
        final(snake).path@ == moved_path(old(snake).path@, old(snake).len as nat, *direction),
{
    snake.update_pos(direction);
}

/// Whether `snake` is alive on a board of `rows` by `columns`, as
/// [`Snake::check_pos`].
pub fn check_snake_pos(snake: &Snake, rows: u32, columns: u32) -> (r: bool)
    requires
        snake.path@.len() > 0,
    ensures
        r == alive(snake.path@, rows as int, columns as int),
{
    snake.check_pos(rows, columns)
}

/// Whether the head of `snake` lies on `dot`; if so the snake grows by one.
pub fn check_dot(snake: &mut Snake, dot: &Dot) -> (hit: bool)
    requires
        old(snake).path@.len() > 0,
        old(snake).len < usize::MAX,
    ensures
        hit == (old(snake).path@[0].row == dot.row && old(snake).path@[0].column == dot.column),
        final(snake).len == if hit {
            old(snake).len + 1
        } else {
            old(snake).len as int
        },
        final(snake).color == old(snake).color,
        final(snake).path@ == old(snake).path@,
{
    let head = snake.path[0];
    let hit = head.row == dot.row && head.column == dot.column;
    if hit {
        snake.grow();
    }
    hit
}

} // verus!
