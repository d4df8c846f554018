use snake::direction::Direction;
use snake::input::{InputBuffer, QUEUE_CAPACITY};

#[test]
fn opposite_pairs() {
    assert_eq!(Direction::Up.opposite(), Direction::Down);
    assert_eq!(Direction::Down.opposite(), Direction::Up);
    assert_eq!(Direction::Left.opposite(), Direction::Right);
    assert_eq!(Direction::Right.opposite(), Direction::Left);
}

#[test]
fn same_then_reverse_leaves_buffer_empty() {
    let mut buffer = InputBuffer::new();
    buffer.push(Direction::Up, Direction::Up);
    buffer.push(Direction::Down, Direction::Up);
    assert_eq!(buffer.len(), 0);
    assert_eq!(buffer.pop(), None);
}

#[test]
fn turn_is_judged_against_last_queued() {
    let mut buffer = InputBuffer::new();
    buffer.push(Direction::Left, Direction::Up);
    assert_eq!(buffer.len(), 1);
    // Right reverses the queued Left, though it is a turn from Up.
    buffer.push(Direction::Right, Direction::Up);
    assert_eq!(buffer.len(), 1);
    // Up is a turn from the queued Left.
    buffer.push(Direction::Up, Direction::Up);
    assert_eq!(buffer.len(), 2);
    assert_eq!(buffer.lookahead(0), Some(Direction::Left));
    assert_eq!(buffer.lookahead(1), Some(Direction::Up));
    assert_eq!(buffer.lookahead(2), None);
}

#[test]
fn pops_in_order_of_arrival() {
    let mut buffer = InputBuffer::new();
    buffer.push(Direction::Up, Direction::Right);
    buffer.push(Direction::Left, Direction::Right);
    buffer.push(Direction::Down, Direction::Right);
    assert_eq!(buffer.pop(), Some(Direction::Up));
    assert_eq!(buffer.pop(), Some(Direction::Left));
    assert_eq!(buffer.pop(), Some(Direction::Down));
    assert_eq!(buffer.pop(), None);
}

#[test]
fn never_exceeds_capacity() {
    let mut buffer = InputBuffer::new();
    let turns = [
        Direction::Up,
        Direction::Left,
        Direction::Down,
        Direction::Right,
        Direction::Up,
        Direction::Left,
    ];
    for turn in turns.iter() {
        buffer.push(*turn, Direction::Right);
        assert!(buffer.len() <= QUEUE_CAPACITY);
    }
    assert_eq!(buffer.len(), 4);
    assert_eq!(buffer.lookahead(3), Some(Direction::Right));
    for i in 0..3 {
        let a = buffer.lookahead(i).unwrap();
        let b = buffer.lookahead(i + 1).unwrap();
        assert!(a != b && a.opposite() != b);
    }
}

#[test]
fn room_frees_after_pop() {
    let mut buffer = InputBuffer::new();
    for turn in [Direction::Up, Direction::Left, Direction::Down, Direction::Right].iter() {
        buffer.push(*turn, Direction::Right);
    }
    buffer.push(Direction::Up, Direction::Right);
    assert_eq!(buffer.len(), 4);
    assert_eq!(buffer.pop(), Some(Direction::Up));
    buffer.push(Direction::Up, Direction::Right);
    assert_eq!(buffer.len(), 4);
    assert_eq!(buffer.lookahead(3), Some(Direction::Up));
}
