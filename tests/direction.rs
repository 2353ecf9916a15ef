use rusty_snake::types::Direction;

const ALL: [Direction; 4] = [Direction::Up, Direction::Down, Direction::Left, Direction::Right];

fn opposite(a: Direction, b: Direction) -> bool {
    matches!(
        (a, b),
        (Direction::Up, Direction::Down)
            | (Direction::Down, Direction::Up)
            | (Direction::Left, Direction::Right)
            | (Direction::Right, Direction::Left)
    )
}

#[test]
fn safe_change_ignores_reversal() {
    let mut d = Direction::Up;
    d.safe_change(Direction::Down);
    assert_eq!(d, Direction::Up);
    let mut d = Direction::Left;
    d.safe_change(Direction::Right);
    assert_eq!(d, Direction::Left);
}

#[test]
fn safe_change_adopts_other_headings() {
    let mut d = Direction::Up;
    d.safe_change(Direction::Left);
    assert_eq!(d, Direction::Left);
    d.safe_change(Direction::Left);
    assert_eq!(d, Direction::Left);
    d.safe_change(Direction::Down);
    assert_eq!(d, Direction::Down);
}

#[test]
fn safe_change_on_every_pair() {
    for current in ALL {
        for requested in ALL {
            let mut d = current;
            d.safe_change(requested);
            if opposite(current, requested) {
                assert_eq!(d, current);
            } else {
                assert_eq!(d, requested);
            }
        }
    }
}

#[test]
fn vectors_are_unit_steps() {
    assert_eq!(Direction::Up.vector(), (0, -1));
    assert_eq!(Direction::Down.vector(), (0, 1));
    assert_eq!(Direction::Left.vector(), (-1, 0));
    assert_eq!(Direction::Right.vector(), (1, 0));
    assert_eq!(Direction::Right.reverse(), Direction::Left);
    assert_eq!(Direction::Up.reverse(), Direction::Down);
}
