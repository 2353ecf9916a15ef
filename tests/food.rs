use rand::thread_rng;
use rusty_snake::food::init_dot;
use rusty_snake::types::{Cell, Dot, Snake, SnakeHead};

fn head(row: i32, column: i32) -> SnakeHead {
    SnakeHead { row, column }
}

fn snake_with(path: Vec<SnakeHead>) -> Snake {
    Snake { len: path.len() + 1, color: Cell { red: 200, green: 0, blue: 100 }, path }
}

#[test]
fn random_pos_stays_on_the_board_and_off_the_snake() {
    let snake = Snake::init();
    let mut rng = thread_rng();
    for _ in 0..500 {
        let dot = Dot::random_pos(12, 9, &snake, &mut rng);
        assert!(0 <= dot.row && dot.row < 12);
        assert!(0 <= dot.column && dot.column < 9);
        assert!(!Dot::on_snake(dot.row, dot.column, &snake));
        assert_eq!(dot.color, Cell { red: 255, green: 255, blue: 255 });
    }
}

#[test]
fn random_pos_on_a_crowded_board() {
    let mut path = Vec::new();
    for row in 0..4 {
        for column in 0..4 {
            if (row, column) != (2, 1) && (row, column) != (3, 3) {
                path.push(head(row, column));
            }
        }
    }
    let snake = snake_with(path);
    let mut rng = thread_rng();
    for _ in 0..200 {
        let dot = Dot::random_pos(4, 4, &snake, &mut rng);
        assert!((dot.row, dot.column) == (2, 1) || (dot.row, dot.column) == (3, 3));
    }
}

#[test]
fn one_free_cell_is_always_chosen() {
    let snake = snake_with(vec![head(0, 0), head(0, 1), head(1, 0)]);
    let mut rng = thread_rng();
    for _ in 0..100 {
        let dot = Dot::random_pos(2, 2, &snake, &mut rng);
        assert_eq!((dot.row, dot.column), (1, 1));
    }
    let dot = init_dot(2, 2, &snake);
    assert_eq!((dot.row, dot.column), (1, 1));
}

#[test]
fn one_free_cell_on_a_larger_board() {
    let mut path = Vec::new();
    for row in 0..6 {
        for column in 0..5 {
            if (row, column) != (4, 2) {
                path.push(head(row, column));
            }
        }
    }
    let snake = snake_with(path);
    let dot = init_dot(6, 5, &snake);
    assert_eq!((dot.row, dot.column), (4, 2));
}

#[test]
fn single_cell_board() {
    let snake = snake_with(vec![head(5, 5)]);
    let mut rng = thread_rng();
    let dot = Dot::random_pos(1, 1, &snake, &mut rng);
    assert_eq!((dot.row, dot.column), (0, 0));
}

#[test]
fn on_snake_checks_every_segment() {
    let snake = snake_with(vec![head(1, 2), head(1, 3), head(2, 3)]);
    assert!(Dot::on_snake(1, 2, &snake));
    assert!(Dot::on_snake(2, 3, &snake));
    assert!(!Dot::on_snake(2, 1, &snake));
    assert!(!Dot::on_snake(3, 2, &snake));
}

#[test]
fn init_dot_avoids_the_new_snake() {
    let snake = Snake::init();
    for _ in 0..200 {
        let dot = init_dot(10, 10, &snake);
        assert!(0 <= dot.row && dot.row < 10 && 0 <= dot.column && dot.column < 10);
        assert!((dot.row, dot.column) != (8, 8));
    }
}
