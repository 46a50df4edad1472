//! The game state machine: one snake, the food cell, the running flag, the
//! pending direction intent, and the movement-cadence accumulator.

use vstd::prelude::*;

use crate::snake::{
    block_at, dir_opposite, fits_i32_pair, initial_snake, Block, Direction, Snake, SnakeView,
};

verus! {

/// The movement cadence: a tick fires once the accumulated elapsed time,
/// in milliseconds, exceeds this period.
pub const MOVING_PERIOD_MS: u64 = 100;

/// How many random cells one placement attempt tries before giving up and
/// leaving the placement to a later frame.
const FOOD_PLACEMENT_TRIES: u32 = 32;

/// A key event as the core sees it: the four recognized directional keys,
/// and one value standing for every unrecognized key.
#[derive(Copy, Clone, PartialEq, Eq, Structural, Debug)]
pub enum Key {
    Up,
    Down,
    Left,
    Right,
    Other,
}

/// The direction intent a key carries, if it carries one.
pub open spec fn key_direction(k: Key) -> Option<Direction> {
    match k {
        Key::Up => Some(Direction::Up),
        Key::Down => Some(Direction::Down),
        Key::Left => Some(Direction::Left),
        Key::Right => Some(Direction::Right),
        Key::Other => None,
    }
}

/// The mathematical model of a game: the snake, the food cell (absent only
/// between a failed placement and the next frame), the grid size, the
/// game-over flag, the cadence accumulator, and the stored direction
/// intent awaiting the next tick.
pub ghost struct GameView {
    pub snake: SnakeView,
    pub food: Option<Block>,
    pub width: i32,
    pub height: i32,
    pub game_over: bool,
    pub waiting_time: u64,
    pub pending: Option<Direction>,
}

/// `a + b` capped at the largest `u64` value.
pub open spec fn sat_add_u64(a: u64, b: u64) -> u64 {
    if a + b > u64::MAX as int {
        u64::MAX
    } else {
        (a + b) as u64
    }
}

impl GameView {
    /// The block lies within `[0, width) x [0, height)`.
    pub open spec fn block_in_bounds(self, b: Block) -> bool {
        &&& 0 <= b.x && (b.x as int) < (self.width as int)
        &&& 0 <= b.y && (b.y as int) < (self.height as int)
    }

    /// The food cell, if present, lies in the interior placement margin
    /// and off the snake's body.
    pub open spec fn food_ok(self) -> bool {
        match self.food {
            Option::Some(f) => {
                &&& 1 <= f.x && (f.x as int) < (self.width as int) - 1
                &&& 1 <= f.y && (f.y as int) < (self.height as int) - 1
                &&& !self.snake.hits_body(f.x, f.y)
            },
            Option::None => true,
        }
    }

    /// The game invariant: a non-empty snake that lies entirely on the
    /// grid, a grid large enough for the fixed starting layout, a lawful
    /// food cell, and a cadence accumulator at most one period deep.
    pub open spec fn wf(self) -> bool {
        &&& self.snake.wf()
        &&& self.width >= 8
        &&& self.height >= 6
        &&& forall|i: int|
            0 <= i < self.snake.body.len() ==> #[trigger] self.block_in_bounds(self.snake.body[i])
        &&& self.food_ok()
        &&& self.waiting_time <= MOVING_PERIOD_MS
    }

    /// Where the head would move on the next tick, under the pending
    /// intent if there is one.
    pub open spec fn next_head(self) -> (int, int) {
        self.snake.next_head(self.pending)
    }

    /// The next head cell stays on the grid.
    pub open spec fn next_in_bounds(self) -> bool {
        &&& 0 <= self.next_head().0 < (self.width as int)
        &&& 0 <= self.next_head().1 < (self.height as int)
    }

    /// Enough time has accumulated for a movement tick.
    pub open spec fn tick_fires(self, dt: u64) -> bool {
        sat_add_u64(self.waiting_time, dt) > MOVING_PERIOD_MS
    }

    /// The next tick would end the game: the prospective head either
    /// leaves the grid or collides with the body (final segment excluded,
    /// since it vacates its cell on the same tick).
    pub open spec fn tick_dies(self) -> bool {
        ||| !self.next_in_bounds()
        ||| self.snake.hits_before_last(self.next_head().0 as i32, self.next_head().1 as i32)
    }

    /// The next tick would land the head on the food cell.
    pub open spec fn tick_eats(self) -> bool {
        match self.food {
            Option::Some(f) => self.next_head() == (f.x as int, f.y as int),
            Option::None => false,
        }
    }
}

/// What `key_pressed` does to the game: nothing once the game is over, or
/// for a key that carries no direction, or for a reversal request against
/// a body of more than one segment; otherwise the direction is stored as
/// the pending intent for the next tick.
pub open spec fn key_pressed_spec(g: GameView, key: Key) -> GameView {
    if g.game_over {
        g
    } else {
        match key_direction(key) {
            Option::Some(d) => {
                if d == dir_opposite(g.snake.direction) && g.snake.body.len() > 1 {
                    g
                } else {
                    GameView { pending: Some(d), ..g }
                }
            },
            Option::None => g,
        }
    }
}

/// The game built by `Game::new`: the fixed starting layout on a
/// `width x height` grid.
pub open spec fn initial_game(width: i32, height: i32) -> GameView {
    GameView {
        snake: initial_snake(2, 2),
        food: Some(Block { x: 6, y: 4 }),
        width,
        height,
        game_over: false,
        waiting_time: 0,
        pending: None,
    }
}

/// The game: exclusive owner of one snake, the food cell, and the timing
/// and game-over state.
pub struct Game {
    snake: Snake,
    food: Option<Block>,
    width: i32,
    height: i32,
    game_over: bool,
    waiting_time: u64,
    pending: Option<Direction>,
}

impl View for Game {
    type V = GameView;

    closed spec fn view(&self) -> GameView {
        GameView {
            snake: self.snake@,
            food: self.food,
            width: self.width,
            height: self.height,
            game_over: self.game_over,
            waiting_time: self.waiting_time,
            pending: self.pending,
        }
    }
}

/// Relies on `rand::random_range` over `lo..hi`: the result is a value of
/// the given non-empty range, chosen by the thread-local generator.
#[verifier::external_body]
fn random_in_range(lo: i32, hi: i32) -> (r: i32)
    requires
        lo < hi,
    ensures
        lo <= r < hi,
{
    rand::random_range(lo..hi)
}

impl Game {
    /// A fresh running game on a `width x height` grid: the snake at the
    /// fixed interior offset, the food at its fixed starting cell, the
    /// cadence accumulator at zero.
    pub fn new(width: i32, height: i32) -> (g: Game)
        requires
            width >= 8,
            height >= 6,
        ensures
            g@ == initial_game(width, height),
            g@.wf(),
    {
        let g = Game {
            snake: Snake::new(2, 2),
            food: Some(Block { x: 6, y: 4 }),
            width,
            height,
            game_over: false,
            waiting_time: 0,
            pending: None,
        };
        proof {
            assert forall|i: int| 0 <= i < g@.snake.body.len() implies #[trigger] g@.block_in_bounds(
                g@.snake.body[i],
            ) by {
                assert(g@.snake.body[i] == (Block { x: 4, y: 2 }));
            }
            assert(!g@.snake.hits_body(6, 4));
        }
        g
    }

    /// Whether the game has ended on a collision.
    pub fn is_game_over(&self) -> (b: bool)
        ensures
            b == self@.game_over,
    {
        self.game_over
    }

    /// The current food cell, or nothing if a placement is still owed.
    pub fn food_position(&self) -> (f: Option<Block>)
        ensures
            f == self@.food,
    {
        self.food
    }

    /// Read-only access to the snake, for rendering and inspection.
    pub fn snake(&self) -> (s: &Snake)
        ensures
            s@ == self@.snake,
    {
        &self.snake
    }

    /// Take one key event: a recognized directional key becomes the
    /// pending intent for the next tick, unless it asks for the exact
    /// opposite of the current heading while the body has a second segment
    /// to collide with; every other key is ignored.
    pub fn key_pressed(&mut self, key: Key)
        ensures
            final(self)@ == key_pressed_spec(old(self)@, key),
    {
        if self.game_over {
            return ;
        }
        let dir: Option<Direction> = match key {
            Key::Up => Some(Direction::Up),
            Key::Down => Some(Direction::Down),
            Key::Left => Some(Direction::Left),
            Key::Right => Some(Direction::Right),
            Key::Other => None,
        };
        match dir {
            Some(d) => {
                let opp = self.snake.head_direction().opposite();
                if !(d == opp && self.snake.body_len() > 1) {
                    self.pending = Some(d);
                }
            },
            None => {},
        }
    }

    /// Try to place food on a random free interior cell. Each attempt
    /// draws a candidate; an attempt landing on the body is discarded. If
    /// every attempt collides, the food is left absent and a later frame
    /// tries again.
    fn add_food(&mut self)
        requires
            old(self)@.wf(),
        ensures
            final(self)@.wf(),
            final(self)@ == (GameView { food: final(self)@.food, ..old(self)@ }),
    {
        self.food = None;
        proof {
            lemma_wf_depends_only_on_food(old(self)@, self@);
        }
        let mut tries: u32 = 0;
        while tries < FOOD_PLACEMENT_TRIES && self.food.is_none()
            invariant
                self@.wf(),
                self@ == (GameView { food: self@.food, ..old(self)@ }),
            decreases FOOD_PLACEMENT_TRIES - tries,
        {
            let new_x = random_in_range(1, self.width - 1);
            let new_y = random_in_range(1, self.height - 1);
            if !self.snake.overlaps_body(new_x, new_y) {
                let ghost before = self@;
                self.food = Some(Block { x: new_x, y: new_y });
                proof {
                    lemma_wf_depends_only_on_food(before, self@);
                }
            }
            tries = tries + 1;
        }
    }

    /// Advance the world by `dt` milliseconds. Once the accumulated time
    /// exceeds the movement period, one tick runs: it either ends the game
    /// (prospective head off the grid or on the body) or commits the move,
    /// consuming the pending intent; landing on the food grows the body by
    /// one segment and places new food off the body. After the game is
    /// over, updates change nothing.
    pub fn update(&mut self, dt: u64)
        requires
            old(self)@.wf(),
        ensures
            final(self)@.wf(),
            old(self)@.game_over ==> final(self)@ == old(self)@,
            !old(self)@.game_over && !old(self)@.tick_fires(dt) ==> final(self)@ == (GameView {
                waiting_time: sat_add_u64(old(self)@.waiting_time, dt),
                ..old(self)@
            }),
            !old(self)@.game_over && old(self)@.tick_fires(dt) && old(self)@.tick_dies()
                ==> final(self)@ == (GameView { game_over: true, waiting_time: 0, ..old(self)@ }),
            !old(self)@.game_over && old(self)@.tick_fires(dt) && !old(self)@.tick_dies() ==> {
                &&& final(self)@.snake == (if old(self)@.tick_eats() {
                    old(self)@.snake.move_forward(old(self)@.pending).restore_tail()
                } else {
                    old(self)@.snake.move_forward(old(self)@.pending)
                })
                &&& final(self)@.pending is None
                &&& final(self)@.waiting_time == 0
                &&& !final(self)@.game_over
                &&& final(self)@.width == old(self)@.width
                &&& final(self)@.height == old(self)@.height
                &&& (!old(self)@.tick_eats() && old(self)@.food is Some ==> final(self)@.food
                    == old(self)@.food)
            },
    {
        if self.game_over {
            return ;
        }
        let room = u64::MAX - self.waiting_time;
        if dt > room {
            self.waiting_time = u64::MAX;
        } else {
            self.waiting_time = self.waiting_time + dt;
        }
        if self.waiting_time <= MOVING_PERIOD_MS {
            proof {
                lemma_wf_frame(old(self)@, self@);
            }
            return ;
        }
        self.waiting_time = 0;
        proof {
            assert(old(self)@.block_in_bounds(old(self)@.snake.body[0]));
            assert(fits_i32_pair(self@.next_head()));
        }
        let (next_x, next_y) = self.snake.next_head(self.pending);
        if next_x < 0 || next_y < 0 || next_x >= self.width || next_y >= self.height
            || self.snake.overlap_tail(next_x, next_y) {
            self.game_over = true;
            proof {
                lemma_wf_frame(old(self)@, self@);
            }
        } else {
            let ate = match self.food {
                Some(f) => f.x == next_x && f.y == next_y,
                None => false,
            };
            self.snake.move_forward(self.pending);
            self.pending = None;
            proof {
                assert forall|i: int| 0 <= i < self@.snake.body.len() implies #[trigger] self@.block_in_bounds(
                    self@.snake.body[i],
                ) by {
                    if i == 0 {
                        assert(self@.snake.body[0] == block_at(old(self)@.next_head()));
                    } else {
                        assert(self@.snake.body[i] == old(self)@.snake.body[i - 1]);
                        assert(old(self)@.block_in_bounds(old(self)@.snake.body[i - 1]));
                    }
                }
            }
            if ate {
                let ghost grown = self@;
                self.food = None;
                self.snake.restore_tail();
                proof {
                    assert forall|i: int|
                        0 <= i < self@.snake.body.len() implies #[trigger] self@.block_in_bounds(
                        self@.snake.body[i],
                    ) by {
                        if i < grown.snake.body.len() {
                            assert(self@.snake.body[i] == grown.snake.body[i]);
                            assert(grown.block_in_bounds(grown.snake.body[i]));
                        } else {
                            assert(self@.snake.body[i] == old(self)@.snake.body.last());
                            assert(old(self)@.block_in_bounds(
                                old(self)@.snake.body[old(self)@.snake.body.len() - 1],
                            ));
                        }
                    }
                    assert(self@.wf());
                }
                self.add_food();
            } else {
                if self.food.is_none() {
                    self.add_food();
                } else {
                    proof {
                        let f = self@.food.unwrap();
                        assert forall|i: int|
                            0 <= i < self@.snake.body.len() implies self@.snake.body[i] != f by {
                            if i == 0 {
                                assert(self@.snake.body[0] == block_at(old(self)@.next_head()));
                            } else {
                                assert(self@.snake.body[i] == old(self)@.snake.body[i - 1]);
                                assert(!old(self)@.snake.hits_body(f.x, f.y));
                                assert(old(self)@.snake.body[i - 1] != (Block {
                                    x: f.x,
                                    y: f.y,
                                }));
                            }
                        }
                    }
                }
            }
        }
    }
}

/// Well-formedness carries over to a state with the same snake, food and
/// grid, whatever the flags and timer, as long as the cadence accumulator
/// stays at most one period deep.
proof fn lemma_wf_frame(a: GameView, b: GameView)
    requires
        a.wf(),
        b.snake == a.snake,
        b.food == a.food,
        b.width == a.width,
        b.height == a.height,
        b.waiting_time <= MOVING_PERIOD_MS,
    ensures
        b.wf(),
{
    assert forall|i: int| 0 <= i < b.snake.body.len() implies #[trigger] b.block_in_bounds(
        b.snake.body[i],
    ) by {
        assert(a.block_in_bounds(a.snake.body[i]));
    }
}

/// Two game states that differ at most in the food cell are equally
/// well-formed, provided the new food cell is itself lawful.
proof fn lemma_wf_depends_only_on_food(a: GameView, b: GameView)
    requires
        a.wf(),
        b == (GameView { food: b.food, ..a }),
        b.food_ok(),
    ensures
        b.wf(),
{
    assert forall|i: int| 0 <= i < b.snake.body.len() implies #[trigger] b.block_in_bounds(
        b.snake.body[i],
    ) by {
        assert(a.block_in_bounds(a.snake.body[i]));
    }
}

/// A reversal request against a body of more than one segment changes
/// nothing: the heading, and everything else, stays as it was.
pub proof fn lemma_reversal_rejected(g: GameView, key: Key)
    requires
        !g.game_over,
        g.snake.body.len() > 1,
        key_direction(key) == Some(dir_opposite(g.snake.direction)),
    ensures
        key_pressed_spec(g, key) == g,
{
}

/// With a single-segment body there is nothing to collide with, so even
/// the exact opposite of the heading is accepted as the pending intent.
pub proof fn lemma_reversal_accepted_when_single(g: GameView, key: Key)
    requires
        !g.game_over,
        g.snake.body.len() == 1,
        key_direction(key) == Some(dir_opposite(g.snake.direction)),
    ensures
        key_pressed_spec(g, key) == (GameView {
            pending: Some(dir_opposite(g.snake.direction)),
            ..g
        }),
{
}

/// A key that carries no direction leaves the game exactly as it was.
pub proof fn lemma_unrecognized_key_is_noop(g: GameView, key: Key)
    requires
        key_direction(key) is None,
    ensures
        key_pressed_spec(g, key) == g,
{
}

/// From the last column, a tick heading right leaves the grid: the move
/// dies at the boundary.
pub proof fn lemma_right_wall_dies(g: GameView)
    requires
        g.snake.wf(),
        g.snake.heading(g.pending) == Direction::Right,
        g.snake.head().x as int == (g.width as int) - 1,
    ensures
        g.tick_dies(),
{
}

/// From the first column, a tick heading left leaves the grid: the move
/// dies at the boundary.
pub proof fn lemma_left_wall_dies(g: GameView)
    requires
        g.snake.wf(),
        g.snake.heading(g.pending) == Direction::Left,
        g.snake.head().x == 0,
    ensures
        g.tick_dies(),
{
}

} // verus!
