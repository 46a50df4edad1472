use snake_core::snake::{Block, Direction, Snake};

#[test]
fn opposite_pairs() {
    assert_eq!(Direction::Up.opposite(), Direction::Down);
    assert_eq!(Direction::Down.opposite(), Direction::Up);
    assert_eq!(Direction::Left.opposite(), Direction::Right);
    assert_eq!(Direction::Right.opposite(), Direction::Left);
}

#[test]
fn new_snake_has_three_coincident_segments() {
    let s = Snake::new(0, 0);
    assert_eq!(s.body_len(), 3);
    assert_eq!(s.segment(0), Block { x: 2, y: 0 });
    assert_eq!(s.segment(1), Block { x: 2, y: 0 });
    assert_eq!(s.segment(2), Block { x: 2, y: 0 });
    assert_eq!(s.head_direction(), Direction::Right);
    assert_eq!(s.head_position(), (2, 0));
}

#[test]
fn two_forward_steps_from_origin() {
    let mut s = Snake::new(0, 0);
    s.move_forward(None);
    assert_eq!(s.head_position(), (3, 0));
    assert_eq!(s.body_len(), 3);
    s.move_forward(None);
    assert_eq!(s.head_position(), (4, 0));
    assert_eq!(s.body_len(), 3);
}

#[test]
fn move_forward_keeps_length_and_restore_grows_it() {
    let mut s = Snake::new(5, 5);
    assert_eq!(s.body_len(), 3);
    s.move_forward(None);
    assert_eq!(s.body_len(), 3);
    s.restore_tail();
    assert_eq!(s.body_len(), 4);
}

#[test]
fn segments_are_adjacent_after_moves() {
    let mut s = Snake::new(0, 0);
    s.move_forward(None);
    s.move_forward(None);
    s.move_forward(Some(Direction::Down));
    for i in 0..s.body_len() - 1 {
        let a = s.segment(i);
        let b = s.segment(i + 1);
        let dx = (a.x - b.x).abs();
        let dy = (a.y - b.y).abs();
        assert_eq!(dx + dy, 1);
    }
}

#[test]
fn candidate_direction_is_adopted() {
    let mut s = Snake::new(0, 0);
    s.move_forward(Some(Direction::Down));
    assert_eq!(s.head_direction(), Direction::Down);
    assert_eq!(s.head_position(), (2, 1));
    s.move_forward(None);
    assert_eq!(s.head_position(), (2, 2));
}

#[test]
fn next_head_does_not_mutate() {
    let s = Snake::new(0, 0);
    assert_eq!(s.next_head(None), (3, 0));
    assert_eq!(s.next_head(Some(Direction::Up)), (2, -1));
    assert_eq!(s.next_head(Some(Direction::Down)), (2, 1));
    assert_eq!(s.next_head(Some(Direction::Left)), (1, 0));
    assert_eq!(s.head_position(), (2, 0));
    assert_eq!(s.body_len(), 3);
}

#[test]
fn overlap_tail_excludes_the_final_segment() {
    let mut s = Snake::new(0, 0);
    s.move_forward(None);
    s.move_forward(None);
    // body from head to tail: (4,0), (3,0), (2,0)
    assert!(s.overlap_tail(4, 0));
    assert!(s.overlap_tail(3, 0));
    assert!(!s.overlap_tail(2, 0));
    assert!(!s.overlap_tail(9, 9));
}

#[test]
fn overlaps_body_includes_the_final_segment() {
    let mut s = Snake::new(0, 0);
    s.move_forward(None);
    s.move_forward(None);
    assert!(s.overlaps_body(4, 0));
    assert!(s.overlaps_body(3, 0));
    assert!(s.overlaps_body(2, 0));
    assert!(!s.overlaps_body(5, 0));
}
