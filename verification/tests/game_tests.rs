use snake_core::game::{Game, Key};
use snake_core::snake::{Block, Direction};

// One movement tick: more than the 100 ms period must have accumulated.
const TICK: u64 = 101;

#[test]
fn initial_layout() {
    let g = Game::new(20, 20);
    assert!(!g.is_game_over());
    assert_eq!(g.snake().head_position(), (4, 2));
    assert_eq!(g.snake().head_direction(), Direction::Right);
    assert_eq!(g.snake().body_len(), 3);
    assert_eq!(g.food_position(), Some(Block { x: 6, y: 4 }));
}

#[test]
fn cadence_gates_movement() {
    let mut g = Game::new(20, 20);
    g.update(50);
    assert_eq!(g.snake().head_position(), (4, 2));
    g.update(50);
    // exactly 100 ms accumulated: the period is not yet exceeded
    assert_eq!(g.snake().head_position(), (4, 2));
    g.update(1);
    assert_eq!(g.snake().head_position(), (5, 2));
}

#[test]
fn unrecognized_key_is_a_noop() {
    let mut g = Game::new(20, 20);
    g.key_pressed(Key::Other);
    assert_eq!(g.snake().head_direction(), Direction::Right);
    g.update(TICK);
    assert_eq!(g.snake().head_position(), (5, 2));
    assert_eq!(g.snake().head_direction(), Direction::Right);
}

#[test]
fn reversal_request_is_rejected() {
    let mut g = Game::new(20, 20);
    g.key_pressed(Key::Left);
    g.update(TICK);
    // the snake kept heading right instead of reversing
    assert_eq!(g.snake().head_direction(), Direction::Right);
    assert_eq!(g.snake().head_position(), (5, 2));
}

#[test]
fn accepted_direction_is_consumed_on_next_tick() {
    let mut g = Game::new(20, 20);
    g.key_pressed(Key::Down);
    assert_eq!(g.snake().head_direction(), Direction::Right);
    g.update(TICK);
    assert_eq!(g.snake().head_direction(), Direction::Down);
    assert_eq!(g.snake().head_position(), (4, 3));
    g.update(TICK);
    assert_eq!(g.snake().head_position(), (4, 4));
}

#[test]
fn right_wall_ends_the_game() {
    let mut g = Game::new(8, 6);
    g.update(TICK);
    g.update(TICK);
    g.update(TICK);
    assert_eq!(g.snake().head_position(), (7, 2));
    assert!(!g.is_game_over());
    g.update(TICK);
    assert!(g.is_game_over());
    // the doomed move was not committed
    assert_eq!(g.snake().head_position(), (7, 2));
}

#[test]
fn left_wall_ends_the_game() {
    let mut g = Game::new(8, 6);
    g.key_pressed(Key::Down);
    g.update(TICK);
    g.key_pressed(Key::Left);
    g.update(TICK);
    g.update(TICK);
    g.update(TICK);
    g.update(TICK);
    assert_eq!(g.snake().head_position(), (0, 3));
    assert!(!g.is_game_over());
    g.update(TICK);
    assert!(g.is_game_over());
}

#[test]
fn updates_after_game_over_change_nothing() {
    let mut g = Game::new(8, 6);
    for _ in 0..4 {
        g.update(TICK);
    }
    assert!(g.is_game_over());
    let head = g.snake().head_position();
    g.key_pressed(Key::Down);
    g.update(TICK);
    g.update(TICK);
    assert!(g.is_game_over());
    assert_eq!(g.snake().head_position(), head);
}

#[test]
fn eating_food_grows_the_snake_and_relocates_the_food() {
    let mut g = Game::new(20, 20);
    // steer the head from (4,2) onto the food at (6,4)
    g.update(TICK);
    g.update(TICK);
    assert_eq!(g.snake().head_position(), (6, 2));
    g.key_pressed(Key::Down);
    g.update(TICK);
    g.update(TICK);
    assert_eq!(g.snake().head_position(), (6, 4));
    assert_eq!(g.snake().body_len(), 4);
    let food = g.food_position().expect("food is placed after consumption");
    assert_ne!(food, Block { x: 6, y: 4 });
    assert!(food.x >= 1 && food.x < 19);
    assert!(food.y >= 1 && food.y < 19);
    for i in 0..g.snake().body_len() {
        assert_ne!(g.snake().segment(i), food);
    }
}

#[test]
fn food_is_never_on_the_body_while_playing() {
    let mut g = Game::new(20, 20);
    let mut dirs = [Key::Down, Key::Left, Key::Up, Key::Right].iter().cycle();
    for _ in 0..40 {
        g.key_pressed(*dirs.next().unwrap());
        g.update(TICK);
        if g.is_game_over() {
            break;
        }
        if let Some(food) = g.food_position() {
            for i in 0..g.snake().body_len() {
                assert_ne!(g.snake().segment(i), food);
            }
        }
    }
}
