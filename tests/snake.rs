use rusty_snake::snake::{check_dot, check_snake_pos, init_snake, update_snake_pos, SNAKE_INIT_LEN};
use rusty_snake::types::{Cell, Direction, Dot, Snake, SnakeHead};

fn head(row: i32, column: i32) -> SnakeHead {
    SnakeHead { row, column }
}

fn snake_with(len: usize, path: Vec<SnakeHead>) -> Snake {
    Snake { len, color: Cell { red: 200, green: 0, blue: 100 }, path }
}

#[test]
fn new_snake_starts_on_one_cell() {
    let s = Snake::init();
    assert_eq!(s.len, SNAKE_INIT_LEN);
    assert_eq!(s.len, 4);
    assert_eq!(s.path, vec![head(8, 8)]);
    assert_eq!(s.color, Cell { red: 200, green: 0, blue: 100 });
    let t = init_snake();
    assert_eq!(t.path, s.path);
    assert_eq!(t.len, s.len);
}

#[test]
fn move_prepends_the_new_head() {
    let mut s = Snake::init();
    s.update_pos(&Direction::Right);
    assert_eq!(s.path, vec![head(9, 8), head(8, 8)]);
    s.update_pos(&Direction::Down);
    assert_eq!(s.path, vec![head(9, 9), head(9, 8), head(8, 8)]);
    s.update_pos(&Direction::Left);
    assert_eq!(s.path[0], head(8, 9));
    s.update_pos(&Direction::Up);
    assert_eq!(s.path, vec![head(8, 8), head(8, 9), head(9, 9), head(9, 8)]);
}

#[test]
fn path_length_is_min_of_moves_plus_one_and_length() {
    let mut s = Snake::init();
    for n in 1..=10usize {
        s.update_pos(&Direction::Right);
        assert!(s.path.len() <= s.len);
        assert_eq!(s.path.len(), std::cmp::min(n + 1, s.len));
    }
    assert_eq!(s.path.len(), 4);
    assert_eq!(s.path[0], head(18, 8));
    assert_eq!(s.path[3], head(15, 8));
}

#[test]
fn free_function_move_matches_method() {
    let mut a = Snake::init();
    let mut b = init_snake();
    for d in [Direction::Down, Direction::Down, Direction::Left, Direction::Up] {
        a.update_pos(&d);
        update_snake_pos(&mut b, &d);
        assert_eq!(a.path, b.path);
    }
}

#[test]
fn check_pos_rejects_the_outer_ring() {
    let bounds = [(0, 5), (5, 0), (10, 5), (5, 10), (-1, 5), (5, -3), (11, 11)];
    for (row, column) in bounds {
        let s = snake_with(4, vec![head(row, column)]);
        assert!(!s.check_pos(10, 10), "({}, {})", row, column);
        assert!(!check_snake_pos(&s, 10, 10));
    }
    let inside = [(1, 1), (9, 9), (1, 9), (5, 5)];
    for (row, column) in inside {
        let s = snake_with(4, vec![head(row, column)]);
        assert!(s.check_pos(10, 10), "({}, {})", row, column);
    }
}

#[test]
fn check_pos_uses_both_bounds() {
    let s = snake_with(4, vec![head(7, 3)]);
    assert!(s.check_pos(8, 4));
    assert!(!s.check_pos(7, 4));
    assert!(!s.check_pos(8, 3));
}

#[test]
fn check_pos_detects_self_collision() {
    let s = snake_with(5, vec![head(2, 2), head(2, 3), head(3, 3), head(3, 2), head(2, 2)]);
    assert!(!s.check_pos(10, 10));
    let t = snake_with(5, vec![head(2, 2), head(2, 3), head(3, 3), head(3, 2)]);
    assert!(t.check_pos(10, 10));
}

#[test]
fn five_ticks_right_from_eight_eight_leave_the_board() {
    let mut s = Snake::init();
    assert_eq!(s.len, 4);
    for _ in 0..5 {
        s.update_pos(&Direction::Right);
    }
    assert_eq!(s.path[0], head(13, 8));
    assert!(!s.check_pos(10, 10));
}

#[test]
fn check_dot_grows_only_on_a_hit() {
    let mut s = Snake::init();
    let miss = Dot { row: 3, column: 8, color: Cell { red: 255, green: 255, blue: 255 } };
    assert!(!check_dot(&mut s, &miss));
    assert_eq!(s.len, 4);
    let hit = Dot { row: 8, column: 8, color: Cell { red: 255, green: 255, blue: 255 } };
    assert!(check_dot(&mut s, &hit));
    assert_eq!(s.len, 5);
    assert_eq!(s.path.len(), 1);
}

#[test]
fn grow_adds_one() {
    let mut s = Snake::init();
    s.grow();
    s.grow();
    assert_eq!(s.len, 6);
    assert_eq!(s.path, vec![head(8, 8)]);
}
