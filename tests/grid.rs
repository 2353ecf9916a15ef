use rusty_snake::grid::{draw_dot_on_grid, draw_snake_on_grid, grid_init};
use rusty_snake::types::{Cell, Dot, Snake, SnakeHead};

const BACKGROUND: Cell = Cell { red: 35, green: 15, blue: 13 };

#[test]
fn grid_init_fills_with_background() {
    let g = grid_init(3, 2);
    assert_eq!(g.grid.len(), 2);
    for row in &g.grid {
        assert_eq!(row.len(), 3);
        assert!(row.iter().all(|c| *c == BACKGROUND));
    }
    assert!(grid_init(0, 0).grid.is_empty());
}

#[test]
fn draw_dot_colours_one_cell() {
    let mut g = grid_init(4, 4);
    let white = Cell { red: 255, green: 255, blue: 255 };
    draw_dot_on_grid(&mut g, &Dot { row: 1, column: 3, color: white });
    for r in 0..4 {
        for c in 0..4 {
            let expected = if (r, c) == (1, 3) { white } else { BACKGROUND };
            assert_eq!(g.grid[r][c], expected);
        }
    }
}

#[test]
fn draw_snake_colours_every_segment() {
    let mut g = grid_init(5, 5);
    let color = Cell { red: 200, green: 0, blue: 100 };
    let snake = Snake {
        len: 4,
        color,
        path: vec![SnakeHead { row: 2, column: 2 }, SnakeHead { row: 2, column: 3 }, SnakeHead { row: 3, column: 3 }],
    };
    draw_snake_on_grid(&mut g, &snake);
    let on = [(2, 2), (2, 3), (3, 3)];
    for r in 0..5 {
        for c in 0..5 {
            let expected = if on.contains(&(r, c)) { color } else { BACKGROUND };
            assert_eq!(g.grid[r][c], expected);
        }
    }
}
