use tetriz_game::snake::{to_coord_u32, Block, Direction, Snake};

#[test]
fn opposite_directions() {
    assert_eq!(Direction::Up.opposite(), Direction::Down);
    assert_eq!(Direction::Down.opposite(), Direction::Up);
    assert_eq!(Direction::Left.opposite(), Direction::Right);
    assert_eq!(Direction::Right.opposite(), Direction::Left);
    // Taking the opposite twice returns the original direction.
    for d in [Direction::Up, Direction::Down, Direction::Left, Direction::Right] {
        assert_eq!(d.opposite().opposite(), d);
    }
}

#[test]
fn new_snake_layout() {
    let s = Snake::new(2, 3);
    assert_eq!(s.head_position(), (4, 3));
    assert_eq!(s.head_direction(), Direction::Right);
    assert_eq!(s.body.len(), 3);
    assert_eq!(s.body[0], Block { x: 4, y: 3 });
    assert_eq!(s.body[1], Block { x: 3, y: 3 });
    assert_eq!(s.body[2], Block { x: 2, y: 3 });
    assert!(s.tail.is_none());
}

#[test]
fn move_forward_keeps_length_and_retires_the_tail() {
    let mut s = Snake::new(2, 3);
    s.move_forward(None);
    assert_eq!(s.head_position(), (5, 3));
    assert_eq!(s.body.len(), 3);
    assert_eq!(s.tail, Some(Block { x: 2, y: 3 }));
    assert_eq!(s.body[1], Block { x: 4, y: 3 });
    assert_eq!(s.body[2], Block { x: 3, y: 3 });
}

#[test]
fn move_forward_adopts_the_override_direction() {
    let mut s = Snake::new(2, 3);
    s.move_forward(Some(Direction::Up));
    assert_eq!(s.head_direction(), Direction::Up);
    assert_eq!(s.head_position(), (4, 2));
    s.move_forward(Some(Direction::Left));
    assert_eq!(s.head_direction(), Direction::Left);
    assert_eq!(s.head_position(), (3, 2));
    s.move_forward(None);
    assert_eq!(s.head_position(), (2, 2));
}

#[test]
fn next_head_previews_without_moving() {
    let s = Snake::new(2, 3);
    assert_eq!(s.next_head(None), (5, 3));
    assert_eq!(s.next_head(Some(Direction::Up)), (4, 2));
    assert_eq!(s.next_head(Some(Direction::Down)), (4, 4));
    assert_eq!(s.next_head(Some(Direction::Left)), (3, 3));
    assert_eq!(s.head_position(), (4, 3));
}

#[test]
fn restore_tail_grows_the_snake() {
    let mut s = Snake::new(2, 3);
    s.move_forward(None);
    let retired = s.tail;
    s.restore_tail();
    assert_eq!(s.body.len(), 4);
    assert!(s.tail.is_none());
    assert_eq!(Some(s.body[3]), retired);
    // With nothing held, restoring changes nothing.
    s.restore_tail();
    assert_eq!(s.body.len(), 4);
}

#[test]
fn overlap_tail_excludes_the_head() {
    let s = Snake::new(2, 3);
    assert!(s.overlap_tail(3, 3));
    assert!(s.overlap_tail(2, 3));
    assert!(!s.overlap_tail(4, 3));
    assert!(!s.overlap_tail(9, 9));
}

#[test]
fn coordinate_scaling() {
    assert_eq!(to_coord_u32(0), 0);
    assert_eq!(to_coord_u32(1), 25);
    assert_eq!(to_coord_u32(4), 100);
    assert_eq!(to_coord_u32(20), 500);
    // The product no longer fits in 32 bits: the result sticks at the top.
    assert_eq!(to_coord_u32(u32::MAX), u32::MAX);
    assert_eq!(to_coord_u32(200_000_000), u32::MAX);
}
