//! The game state machine: settings, status, the tick and the handling of
//! player commands.
use vstd::prelude::*;
use rand::rngs::ThreadRng;
use crate::food::{food_color, free_cell};
use crate::scores::{encoded, leading, record_score, saved_scores, HIGH_SCORES};
use crate::snake::{alive, moved_path, snake_color, start_cell, SNAKE_INIT_LEN};
use crate::types::{Direction, Dot, Snake, SnakeHead};

verus! {

/// Every how many units of length the game speeds up.
pub const SPEEDUP_EVERY: usize = 10;

/// The fewest rendered frames the snake takes to cross one cell.
pub const MIN_FRAMES_PER_CELL: i32 = 1;

/// The screen, board and speed of a game, and where its files lie.
pub struct Settings {
    /// Width of the game screen, in pixels.
    pub width: u32,
    /// Height of the game screen, in pixels.
    pub height: u32,
    /// Number of columns across the board.
    pub cols: u32,
    /// Number of rows from top to bottom.
    pub rows: u32,
    /// Width of one cell, in pixels.
    pub cell_width: u32,
    /// Rendered frames the snake takes to cross one cell: the fewer, the
    /// faster the game.
    pub frames_per_cell: i32,
    /// Target duration of one frame, in milliseconds.
    pub ms_per_frame: u64,
    /// The font messages are written in.
    pub font_path: String,
    /// The size of that font.
    pub font_size: u16,
    /// Where the high scores are kept.
    pub save_file: String,
}

impl Settings {
    /// Settings a game can run on: a board with at least one cell, whose
    /// sides signed coordinates can count, and a positive number of frames
    /// per cell.
    pub open spec fn wf(&self) -> bool {
        &&& 1 <= self.rows <= i32::MAX
        &&& 1 <= self.cols <= i32::MAX
        &&& self.frames_per_cell >= MIN_FRAMES_PER_CELL
    }

    /// Whether these are the standard settings.
    pub open spec fn is_standard(&self) -> bool {
        &&& self.width == 720
        &&& self.height == 720
        &&& self.cols == 36
        &&& self.rows == 36
        &&& self.cell_width == 20
        &&& self.frames_per_cell == 6
        &&& self.ms_per_frame == 16
        &&& self.font_path@ == "/System/Library/Fonts/SFNSMono.ttf"@
        &&& self.font_size == 18
        &&& self.save_file@ == "./snake_scores.data"@
    }

    /// The standard settings: a square board of 36 by 36 cells of 20 pixels,
    /// 16 ms per frame and 6 frames per cell.
    pub fn init() -> (r: Settings)
        ensures
            r.wf(),
            r.is_standard(),
    {
        let width: u32 = 720;
        let cols: u32 = 36;
        let cell_width: u32 = width / cols;
        Settings {
            width,
            cols,
            height: width,
            rows: cols,
            cell_width,
            ms_per_frame: 16,
            frames_per_cell: 6,
            font_path: "/System/Library/Fonts/SFNSMono.ttf".to_string(),
            font_size: 18,
            save_file: "./snake_scores.data".to_string(),
        }
    }
}

/// Where a game stands.
#[derive(Clone, Copy, Debug, PartialEq, Eq, Structural)]
pub enum Status {
    Start,
    Running,
    Paused,
    Over,
    Exit,
    Restart,
}

impl Status {
    /// The status after the pause key: a running game pauses, a paused or
    /// unstarted one runs, a finished one restarts.
    pub open spec fn toggled(self) -> Status {
        match self {
            Status::Running => Status::Paused,
            Status::Paused => Status::Running,
            Status::Start => Status::Running,
            Status::Over => Status::Restart,
            _ => self,
        }
    }

    /// Whether the snake of a game in this status is still in play.
    pub open spec fn in_play(self) -> bool {
        self == Status::Start || self == Status::Running || self == Status::Paused
    }

    /// Toggles between running and paused; starts and restarts the game.
    pub fn toggle_pause(&mut self)
        ensures
            *final(self) == old(self).toggled(),
    {
        match self {
            Status::Running => *self = Status::Paused,
            Status::Paused | Status::Start => *self = Status::Running,
            Status::Over => {
                *self = Status::Restart;
            },
            _ => (),
        }
    }
}

/// A command of the player.
#[derive(Clone, Copy, Debug, PartialEq, Eq, Structural)]
pub enum Command {
    /// Head towards a direction.
    Turn(Direction),
    /// Pause, resume, start or restart.
    TogglePause,
    /// Leave the game.
    Quit,
}

/// What one tick did.
#[derive(Clone, Copy, Debug, PartialEq, Eq, Structural)]
pub enum TickOutcome {
    /// The snake moved on.
    Moved,
    /// The snake moved onto the food and ate it.
    Ate,
    /// The snake hit the border or itself: the game is over.
    Crashed,
}

/// What the screen shows after an update.
#[derive(Clone, Copy, Debug, PartialEq, Eq, Structural)]
pub enum Frame {
    /// The start menu.
    StartMenu,
    /// The end screen with the scores.
    GameOver,
    /// The board, `animation_frame` frames into the crossing of a cell;
    /// `crashed` when the game has just ended, and its score is to be saved.
    Board { animation_frame: u32, crashed: bool },
    /// Nothing new.
    Unchanged,
}

/// The frames per cell once the snake has grown to `len`: one fewer at
/// every multiple of [`SPEEDUP_EVERY`], down to [`MIN_FRAMES_PER_CELL`].
pub open spec fn quickened(frames_per_cell: i32, len: nat) -> i32 {
    if len % (SPEEDUP_EVERY as nat) == 0 && frames_per_cell > MIN_FRAMES_PER_CELL {
        (frames_per_cell - 1) as i32
    } else {
        frames_per_cell
    }
}

/// Every coordinate of `path` is non-negative.
pub open spec fn non_negative(path: Seq<SnakeHead>) -> bool {
    forall|i: int| 0 <= i < path.len() ==> 0 <= #[trigger] path[i].row && 0 <= path[i].column
}

/// Every coordinate of `path` lies strictly between zero and the largest
/// coordinate, so that any step keeps it in range.
pub open spec fn in_range(path: Seq<SnakeHead>) -> bool {
    forall|i: int|
        0 <= i < path.len() ==> 0 < #[trigger] path[i].row < i32::MAX && 0 < path[i].column
            < i32::MAX
}

/// The status and heading after `command`.
pub open spec fn after_command(status: Status, direction: Direction, command: Command) -> (
    Status,
    Direction,
) {
    match command {
        Command::Quit => (Status::Exit, direction),
        Command::TogglePause => (status.toggled(), direction),
        Command::Turn(d) => if status == Status::Paused {
            (status, direction)
        } else if direction.is_reverse_of(d) {
            (status, direction)
        } else {
            (status, d)
        },
    }
}

/// The status and heading after each of `commands`, in order.
pub open spec fn after_commands(status: Status, direction: Direction, commands: Seq<Command>) -> (
    Status,
    Direction,
)
    decreases commands.len(),
{
    if commands.len() == 0 {
        (status, direction)
    } else {
        let (s, d) = after_commands(status, direction, commands.drop_last());
        after_command(s, d, commands.last())
    }
}

/// How the `i`th drawn segment of `path` is shifted while the snake glides
/// towards its next cell: the head towards `direction`, every other segment
/// towards the one in front of it.
pub open spec fn shift_of(path: Seq<SnakeHead>, direction: Direction, i: int) -> (i32, i32) {
    if i == 0 {
        (direction.row_step() as i32, direction.column_step() as i32)
    } else {
        ((path[i - 1].row - path[i].row) as i32, (path[i - 1].column - path[i].column) as i32)
    }
}

/// A game: its settings, the snake, the food and the heading.
pub struct Game {
    pub settings: Settings,
    /// Frames rendered while running.
    pub frame: u32,
    pub rng: ThreadRng,
    pub status: Status,
    pub snake: Snake,
    pub dot: Dot,
    pub direction: Direction,
}

impl Game {
    /// The invariant of a game. A snake in play lies where a step cannot
    /// leave the range of coordinates; a finished one at least on
    /// non-negative cells.
    pub open spec fn wf(&self) -> bool {
        &&& self.settings.wf()
        &&& self.snake.wf()
        &&& self.snake.len >= SNAKE_INIT_LEN
        &&& non_negative(self.snake.path@)
        &&& self.status.in_play() ==> in_range(self.snake.path@)
    }

    /// The score: how much the snake has grown.
    pub open spec fn score_spec(&self) -> int {
        self.snake.len - SNAKE_INIT_LEN
    }

    /// The body after the next step.
    pub open spec fn next_path(&self) -> Seq<SnakeHead> {
        moved_path(self.snake.path@, self.snake.len as nat, self.direction)
    }

    /// What the next tick does.
    pub open spec fn next_outcome(&self) -> TickOutcome {
        let p = self.next_path();
        if !alive(p, self.settings.rows as int, self.settings.cols as int) {
            TickOutcome::Crashed
        } else if p[0].row == self.dot.row && p[0].column == self.dot.column {
            TickOutcome::Ate
        } else {
            TickOutcome::Moved
        }
    }

    /// Whether `after` is this game after one tick: the snake steps; if it
    /// crashes the game is over; if it eats, it grows, the game may speed up
    /// and new food lies on a free cell.
    pub open spec fn ticks_to(&self, after: Game) -> bool {
        let outcome = self.next_outcome();
        &&& after.snake.path@ == self.next_path()
        &&& after.snake.color == self.snake.color
        &&& after.direction == self.direction
        &&& after.frame == self.frame
        &&& after.settings == (Settings {
            frames_per_cell: after.settings.frames_per_cell,
            ..self.settings
        })
        &&& outcome == TickOutcome::Crashed ==> after.status == Status::Over
        &&& outcome != TickOutcome::Crashed ==> after.status == self.status
        &&& outcome != TickOutcome::Ate ==> {
            &&& after.snake.len == self.snake.len
            &&& after.dot == self.dot
            &&& after.settings.frames_per_cell == self.settings.frames_per_cell
        }
        &&& outcome == TickOutcome::Ate ==> {
            &&& after.snake.len == self.snake.len + 1
            &&& free_cell(
                after.settings.rows as int,
                after.settings.cols as int,
                after.snake.path@,
                after.dot.row as int,
                after.dot.column as int,
            )
            &&& after.dot.color == food_color()
            &&& after.settings.frames_per_cell == quickened(
                self.settings.frames_per_cell,
                after.snake.len as nat,
            )
        }
    }

    /// Whether this game is a new one on `settings`, in status `status`.
    pub open spec fn is_new(&self, settings: Settings, status: Status) -> bool {
        &&& self.settings == settings
        &&& self.status == status
        &&& self.direction == Direction::Right
        &&& self.snake.len == SNAKE_INIT_LEN
        &&& self.snake.color == snake_color()
        &&& self.snake.path@ == seq![start_cell()]
        &&& free_cell(
            settings.rows as int,
            settings.cols as int,
            self.snake.path@,
            self.dot.row as int,
            self.dot.column as int,
        )
        &&& self.dot.color == food_color()
    }

    /// A new game on `settings`, showing the start menu.
    pub fn init(settings: Settings) -> (r: Game)
        requires
            settings.wf(),
        ensures
            r.wf(),
            r.is_new(settings, Status::Start),
            r.frame == 0,
    {
        let mut rng = rand::thread_rng();
        let snake = Snake::init();
        proof {
            assert(free_cell(settings.rows as int, settings.cols as int, snake.path@, 0, 0));
        }
        let dot = Dot::random_pos(settings.rows, settings.cols, &snake, &mut rng);
        Game { settings, frame: 0, rng, status: Status::Start, snake, dot, direction: Direction::Right }
    }

    /// Starts over on the standard settings: a new snake and new food,
    /// heading right, running, with the frame count back at zero.
    pub fn restart(&mut self)
        ensures
            final(self).wf(),
            final(self).is_new(final(self).settings, Status::Running),
            final(self).settings.is_standard(),
            final(self).frame == 0,
    {
        self.settings = Settings::init();
        self.snake = Snake::init();
        proof {
            assert(free_cell(
                self.settings.rows as int,
                self.settings.cols as int,
                self.snake.path@,
                0,
                0,
            ));
        }
        self.dot = Dot::random_pos(self.settings.rows, self.settings.cols, &self.snake, &mut self.rng);
        self.direction = Direction::Right;
        self.frame = 0;
        self.status = Status::Running;
    }

    /// Whether the head lies on the food; if so the snake grows, and at
    /// every multiple of [`SPEEDUP_EVERY`] the game speeds up.
    pub fn check_dot(&mut self) -> (hit: bool)
        requires
            old(self).wf(),
            old(self).snake.len < usize::MAX,
        ensures
            final(self).wf(),
            hit == (old(self).snake.path@[0].row == old(self).dot.row
                && old(self).snake.path@[0].column == old(self).dot.column),
            final(self).snake.len == if hit {
                old(self).snake.len + 1
            } else {
                old(self).snake.len as int
            },
            final(self).snake.path@ == old(self).snake.path@,
            final(self).snake.color == old(self).snake.color,
            final(self).settings == (Settings {
                frames_per_cell: if hit {
                    quickened(old(self).settings.frames_per_cell, final(self).snake.len as nat)
                } else {
                    old(self).settings.frames_per_cell
                },
                ..old(self).settings
            }),
            final(self).status == old(self).status,
            final(self).dot == old(self).dot,
            final(self).direction == old(self).direction,
            final(self).frame == old(self).frame,
    {
        let head = self.snake.path[0];
        let hit = head.row == self.dot.row && head.column == self.dot.column;
        if hit {
            self.snake.grow();
            if self.snake.len % SPEEDUP_EVERY == 0 && self.settings.frames_per_cell
                > MIN_FRAMES_PER_CELL {
                self.settings.frames_per_cell = self.settings.frames_per_cell - 1;
            }
        }
        hit
    }

    /// One step of the game: the snake moves; if it left the board or bit
    /// itself the game is over; if it reached the food it eats it and new
    /// food is placed.
    pub fn tick(&mut self) -> (r: TickOutcome)
        requires
            old(self).wf(),
            old(self).status == Status::Running,
            old(self).snake.len < usize::MAX,
        ensures
            final(self).wf(),
            r == old(self).next_outcome(),
            old(self).ticks_to(*final(self)),
            r != TickOutcome::Ate ==> final(self).score_spec() == old(self).score_spec(),
    {
        self.snake.update_pos(&self.direction);
        let valid = self.snake.check_pos(self.settings.rows, self.settings.cols);
        if !valid {
            self.status = Status::Over;
            return TickOutcome::Crashed;
        }
        if self.check_dot() {
            proof {
                assert(free_cell(
                    self.settings.rows as int,
                    self.settings.cols as int,
                    self.snake.path@,
                    0,
                    0,
                ));
            }
            self.dot = Dot::random_pos(self.settings.rows, self.settings.cols, &self.snake, &mut self.rng);
            return TickOutcome::Ate;
        }
        TickOutcome::Moved
    }

    /// Applies one command of the player: quitting ends the game, the pause
    /// key toggles the status, and a turn changes the heading unless the
    /// game is paused or the turn is a reversal.
    pub fn handle_command(&mut self, command: Command)
        requires
            old(self).wf(),
        ensures
            final(self).wf(),
            (final(self).status, final(self).direction) == after_command(
                old(self).status,
                old(self).direction,
                command,
            ),
            *final(self) == (Game {
                status: final(self).status,
                direction: final(self).direction,
                ..*old(self)
            }),
    {
        match command {
            Command::Quit => {
                self.status = Status::Exit;
            },
            Command::TogglePause => {
                self.status.toggle_pause();
            },
            Command::Turn(d) => {
                if self.status != Status::Paused {
                    self.direction.safe_change(d);
                }
            },
        }
    }

    /// Applies the commands of one poll, in order.
    pub fn process_input(&mut self, commands: &Vec<Command>)
        requires
            old(self).wf(),
        ensures
            final(self).wf(),
            (final(self).status, final(self).direction) == after_commands(
                old(self).status,
                old(self).direction,
                commands@,
            ),
            *final(self) == (Game {
                status: final(self).status,
                direction: final(self).direction,
                ..*old(self)
            }),
    {
        let mut i: usize = 0;
        while i < commands.len()
            invariant
                0 <= i <= commands@.len(),
                self.wf(),
                (self.status, self.direction) == after_commands(
                    old(self).status,
                    old(self).direction,
                    commands@.take(i as int),
                ),
                *self == (Game { status: self.status, direction: self.direction, ..*old(self) }),
            decreases commands.len() - i,
        {
            assert(commands@.take(i + 1).drop_last() =~= commands@.take(i as int));
            self.handle_command(commands[i]);
            i = i + 1;
        }
        assert(commands@.take(commands@.len() as int) =~= commands@);
    }

    /// Advances the game by one rendered frame and says what to show. A
    /// running game ticks once every `frames_per_cell` frames; a game to
    /// restart starts over.
    pub fn update(&mut self) -> (r: Frame)
        requires
            old(self).wf(),
            old(self).status == Status::Running ==> old(self).snake.len < usize::MAX,
        ensures
            final(self).wf(),
            old(self).status == Status::Start ==> r == Frame::StartMenu && *final(self) == *old(self),
            old(self).status == Status::Over ==> r == Frame::GameOver && *final(self) == *old(self),
            old(self).status == Status::Paused || old(self).status == Status::Exit ==> r
                == Frame::Unchanged && *final(self) == *old(self),
            old(self).status == Status::Restart ==> {
                &&& r == Frame::Unchanged
                &&& final(self).settings.is_standard()
                &&& final(self).is_new(final(self).settings, Status::Running)
                &&& final(self).frame == 0
            },
            old(self).status == Status::Running ==> {
                let ticks = old(self).frame % (old(self).settings.frames_per_cell as u32) == 0;
                &&& final(self).frame == old(self).frame.wrapping_add(1)
                &&& ticks ==> old(self).ticks_to(Game { frame: old(self).frame, ..*final(self) })
                &&& !ticks ==> *final(self) == (Game { frame: final(self).frame, ..*old(self) })
                &&& r == (Frame::Board {
                    animation_frame: (old(self).frame % (final(self).settings.frames_per_cell as u32)) as u32,
                    crashed: ticks && old(self).next_outcome() == TickOutcome::Crashed,
                })
            },
    {
        match self.status {
            Status::Start => Frame::StartMenu,
            Status::Over => Frame::GameOver,
            Status::Restart => {
                self.restart();
                Frame::Unchanged
            },
            Status::Running => {
                let mut crashed = false;
                if self.frame % (self.settings.frames_per_cell as u32) == 0 {
                    crashed = self.tick() == TickOutcome::Crashed;
                }
                let animation_frame = self.frame % (self.settings.frames_per_cell as u32);
                self.frame = self.frame.wrapping_add(1);
                Frame::Board { animation_frame, crashed }
            },
            _ => Frame::Unchanged,
        }
    }

    /// The score: how much the snake has grown since the start.
    pub fn score(&self) -> (r: usize)
        requires
            self.wf(),
        ensures
            r == self.score_spec(),
    {
        self.snake.len - SNAKE_INIT_LEN
    }

    /// The saved high-score list once the score of this game is recorded
    /// in `saved`, the list as it was.
    pub fn update_scores(&self, saved: &[u8]) -> (r: Vec<u8>)
        requires
            self.wf(),
        ensures
            exists|best: Seq<usize>|
                #[trigger] leading(
                    saved_scores(saved@).push(self.score_spec() as usize),
                    HIGH_SCORES as nat,
                    best,
                ) && r@ == encoded(best),
    {
        let score = self.score();
        let r = record_score(saved, score);
        proof {
            let best = choose|best: Seq<usize>|
                #[trigger] leading(saved_scores(saved@).push(score), HIGH_SCORES as nat, best) && r@
                    == encoded(best);
            assert(saved_scores(saved@).push(score) == saved_scores(saved@).push(
                self.score_spec() as usize,
            ));
            assert(leading(
                saved_scores(saved@).push(self.score_spec() as usize),
                HIGH_SCORES as nat,
                best,
            ));
        }
        r
    }

    /// The shift of each drawn segment while the snake glides towards its
    /// next cell; the last segment is not drawn.
    pub fn segment_shifts(&self) -> (r: Vec<(i32, i32)>)
        requires
            self.wf(),
        ensures
            r@.len() == self.snake.path@.len() - 1,
            forall|i: int|
                0 <= i < r@.len() ==> #[trigger] r@[i] == shift_of(
                    self.snake.path@,
                    self.direction,
                    i,
                ),
    {
        let path = &self.snake.path;
        let mut shifts: Vec<(i32, i32)> = Vec::new();
        let mut shift = self.direction.vector();
        let mut i: usize = 0;
        while i + 1 < path.len()
            invariant
                self.wf(),
                path == &self.snake.path,
                0 <= i < path@.len(),
                shifts@.len() == i,
                shift == shift_of(path@, self.direction, i as int),
                forall|k: int|
                    0 <= k < i ==> #[trigger] shifts@[k] == shift_of(path@, self.direction, k),
            decreases path.len() - i,
        {
            shifts.push(shift);
            let segment = path[i];
            let next = path[i + 1];
            shift = (segment.row - next.row, segment.column - next.column);
            i = i + 1;
        }
        shifts
    }

    /// Cells crossed per second at sixty frames a second.
    pub fn speed(&self) -> (r: i32)
        requires
            self.wf(),
        ensures
            r == 60int / (self.settings.frames_per_cell as int),
    {
        60 / self.settings.frames_per_cell
    }
}

} // verus!
