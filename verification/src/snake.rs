//! The snake body model: an ordered sequence of grid cells from head to
//! tail, the current heading, and the pending tail kept between a forward
//! step and a growth event.

use vstd::prelude::*;

verus! {

/// A compass heading on the grid.
#[derive(Copy, Clone, PartialEq, Eq, Structural, Debug)]
pub enum Direction {
    Up,
    Down,
    Left,
    Right,
}

/// The heading that points the exact opposite way.
pub open spec fn dir_opposite(d: Direction) -> Direction {
    match d {
        Direction::Up => Direction::Down,
        Direction::Down => Direction::Up,
        Direction::Left => Direction::Right,
        Direction::Right => Direction::Left,
    }
}

impl Direction {
    /// The opposite heading, used to reject reversals that would run the
    /// snake into its own second segment.
    pub fn opposite(&self) -> (r: Direction)
        ensures
            r == dir_opposite(*self),
    {
        match *self {
            Direction::Up => Direction::Down,
            Direction::Down => Direction::Up,
            Direction::Left => Direction::Right,
            Direction::Right => Direction::Left,
        }
    }
}

/// One grid cell, identified by its coordinates alone.
#[derive(Copy, Clone, PartialEq, Eq, Structural, Debug)]
pub struct Block {
    pub x: i32,
    pub y: i32,
}

/// The cell one unit away from `(x, y)` in heading `d`.
pub open spec fn step_from(x: int, y: int, d: Direction) -> (int, int) {
    match d {
        Direction::Up => (x, y - 1),
        Direction::Down => (x, y + 1),
        Direction::Left => (x - 1, y),
        Direction::Right => (x + 1, y),
    }
}

/// Both coordinates of the pair lie within the machine coordinate range.
pub open spec fn fits_i32_pair(p: (int, int)) -> bool {
    &&& i32::MIN as int <= p.0 <= i32::MAX as int
    &&& i32::MIN as int <= p.1 <= i32::MAX as int
}

/// The block at an integer coordinate pair.
pub open spec fn block_at(p: (int, int)) -> Block {
    Block { x: p.0 as i32, y: p.1 as i32 }
}

/// The mathematical model of a snake: the body from head (front) to tail
/// (back), the current heading, and the segment popped by the latest
/// forward step, kept in case that step also triggers growth.
pub ghost struct SnakeView {
    pub body: Seq<Block>,
    pub direction: Direction,
    pub tail: Option<Block>,
}

impl SnakeView {
    /// The body is never empty.
    pub open spec fn wf(self) -> bool {
        self.body.len() >= 1
    }

    /// The front segment.
    pub open spec fn head(self) -> Block {
        self.body[0]
    }

    /// The heading a step would use: the candidate if one is given,
    /// otherwise the current heading.
    pub open spec fn heading(self, dir: Option<Direction>) -> Direction {
        match dir {
            Option::Some(d) => d,
            Option::None => self.direction,
        }
    }

    /// Where the head would move under the given candidate heading.
    pub open spec fn next_head(self, dir: Option<Direction>) -> (int, int) {
        step_from(self.head().x as int, self.head().y as int, self.heading(dir))
    }

    /// The snake after one forward step: the new head cell is pushed to the
    /// front, the rear segment is popped and remembered as the pending tail.
    pub open spec fn move_forward(self, dir: Option<Direction>) -> SnakeView {
        SnakeView {
            direction: self.heading(dir),
            body: seq![block_at(self.next_head(dir))].add(self.body.drop_last()),
            tail: Some(self.body.last()),
        }
    }

    /// The snake after the pending tail is pushed back onto the rear.
    pub open spec fn restore_tail(self) -> SnakeView {
        SnakeView { body: self.body.push(self.tail.unwrap()), ..self }
    }

    /// The probe cell matches some segment other than the final one.
    pub open spec fn hits_before_last(self, x: i32, y: i32) -> bool {
        exists|i: int| 0 <= i < self.body.len() - 1 && self.body[i] == (Block { x, y })
    }

    /// The probe cell matches some segment of the whole body.
    pub open spec fn hits_body(self, x: i32, y: i32) -> bool {
        exists|i: int| 0 <= i < self.body.len() && self.body[i] == (Block { x, y })
    }
}

/// The snake built by `Snake::new`: three coincident segments two cells to
/// the right of the given origin, heading right, no pending tail.
pub open spec fn initial_snake(x: i32, y: i32) -> SnakeView {
    SnakeView {
        body: seq![
            Block { x: (x + 2) as i32, y },
            Block { x: (x + 2) as i32, y },
            Block { x: (x + 2) as i32, y },
        ],
        direction: Direction::Right,
        tail: None,
    }
}

/// The snake: an ordered body of grid cells, a heading, and the pending
/// tail held between a forward step and a growth event.
pub struct Snake {
    direction: Direction,
    body: Vec<Block>,
    tail: Option<Block>,
}

impl View for Snake {
    type V = SnakeView;

    closed spec fn view(&self) -> SnakeView {
        SnakeView { body: self.body@, direction: self.direction, tail: self.tail }
    }
}

impl Snake {
    /// A fresh snake: three segments, all placed at `(x + 2, y)`, heading
    /// right. The coincident placement is deliberate; the segments separate
    /// over the first two forward steps.
    pub fn new(x: i32, y: i32) -> (s: Snake)
        requires
            x + 2 <= i32::MAX as int,
        ensures
            s@ == initial_snake(x, y),
            s@.wf(),
    {
        let hx = x + 2;
        let mut body: Vec<Block> = Vec::new();
        body.push(Block { x: hx, y });
        body.push(Block { x: hx, y });
        body.push(Block { x: hx, y });
        let s = Snake { direction: Direction::Right, body, tail: None };
        proof {
            assert(s@.body =~= initial_snake(x, y).body);
        }
        s
    }

    /// The number of body segments.
    pub fn body_len(&self) -> (n: usize)
        ensures
            n == self@.body.len(),
    {
        self.body.len()
    }

    /// The body segment at the given index, the head being index 0.
    pub fn segment(&self, i: usize) -> (b: Block)
        requires
            i < self@.body.len(),
        ensures
            b == self@.body[i as int],
    {
        self.body[i]
    }

    /// The coordinates of the front segment.
    pub fn head_position(&self) -> (r: (i32, i32))
        requires
            self@.wf(),
        ensures
            r.0 == self@.head().x,
            r.1 == self@.head().y,
    {
        let b = self.body[0];
        (b.x, b.y)
    }

    /// The current heading.
    pub fn head_direction(&self) -> (d: Direction)
        ensures
            d == self@.direction,
    {
        self.direction
    }

    /// Where the head would move if the candidate heading (or, absent one,
    /// the current heading) were applied; the snake itself is not changed.
    pub fn next_head(&self, dir: Option<Direction>) -> (r: (i32, i32))
        requires
            self@.wf(),
            fits_i32_pair(self@.next_head(dir)),
        ensures
            r.0 as int == self@.next_head(dir).0,
            r.1 as int == self@.next_head(dir).1,
    {
        let (hx, hy) = self.head_position();
        let moving_dir = match dir {
            Some(d) => d,
            None => self.direction,
        };
        match moving_dir {
            Direction::Up => (hx, hy - 1),
            Direction::Down => (hx, hy + 1),
            Direction::Left => (hx - 1, hy),
            Direction::Right => (hx + 1, hy),
        }
    }

    /// One forward step: adopt the candidate heading if one is given, push
    /// the next head cell onto the front, pop the rear segment and keep it
    /// as the pending tail. The body length never changes here.
    pub fn move_forward(&mut self, dir: Option<Direction>)
        requires
            old(self)@.wf(),
            fits_i32_pair(old(self)@.next_head(dir)),
        ensures
            final(self)@ == old(self)@.move_forward(dir),
            final(self)@.wf(),
    {
        match dir {
            Some(d) => self.direction = d,
            None => {}
        }
        let (last_x, last_y) = self.head_position();
        let new_block = match self.direction {
            Direction::Up => Block { x: last_x, y: last_y - 1 },
            Direction::Down => Block { x: last_x, y: last_y + 1 },
            Direction::Left => Block { x: last_x - 1, y: last_y },
            Direction::Right => Block { x: last_x + 1, y: last_y },
        };
        self.body.insert(0, new_block);
        let removed_block = self.body.pop().unwrap();
        self.tail = Some(removed_block);
        proof {
            assert(self@.body =~= old(self)@.move_forward(dir).body);
        }
    }

    /// Push the pending tail back onto the rear of the body: the growth
    /// half of a food-consumption event.
    pub fn restore_tail(&mut self)
        requires
            old(self)@.tail is Some,
        ensures
            final(self)@ == old(self)@.restore_tail(),
    {
        let blk = self.tail.unwrap();
        self.body.push(blk);
    }

    /// Whether the probe cell collides with the body, the final segment
    /// excluded: that segment vacates its cell on the same tick on which
    /// the head would enter it.
    pub fn overlap_tail(&self, x: i32, y: i32) -> (r: bool)
        requires
            self@.wf(),
        ensures
            r == self@.hits_before_last(x, y),
    {
        let n = self.body.len();
        let mut i: usize = 0;
        while i < n - 1
            invariant
                n == self@.body.len(),
                n >= 1,
                i <= n,
                forall|j: int| 0 <= j < i ==> self@.body[j] != (Block { x, y }),
            decreases n - i,
        {
            let b = self.body[i];
            if b.x == x && b.y == y {
                proof {
                    assert(self@.body[i as int] == (Block { x, y }));
                }
                return true;
            }
            i = i + 1;
        }
        false
    }

    /// Whether the probe cell matches any segment of the whole body; used
    /// to keep food off the snake.
    pub fn overlaps_body(&self, x: i32, y: i32) -> (r: bool)
        ensures
            r == self@.hits_body(x, y),
    {
        let n = self.body.len();
        let mut i: usize = 0;
        while i < n
            invariant
                n == self@.body.len(),
                i <= n,
                forall|j: int| 0 <= j < i ==> self@.body[j] != (Block { x, y }),
            decreases n - i,
        {
            let b = self.body[i];
            if b.x == x && b.y == y {
                proof {
                    assert(self@.body[i as int] == (Block { x, y }));
                }
                return true;
            }
            i = i + 1;
        }
        false
    }
}

/// A bare forward step never changes the body length.
pub proof fn lemma_step_preserves_length(s: SnakeView, dir: Option<Direction>)
    requires
        s.wf(),
    ensures
        s.move_forward(dir).body.len() == s.body.len(),
{
}

/// A forward step followed by a tail restore grows the body by exactly one
/// segment.
pub proof fn lemma_step_then_restore_grows_by_one(s: SnakeView, dir: Option<Direction>)
    requires
        s.wf(),
    ensures
        s.move_forward(dir).restore_tail().body.len() == s.body.len() + 1,
{
}

/// The two cells differ by exactly one unit along exactly one axis.
pub open spec fn blocks_adjacent(a: Block, b: Block) -> bool {
    ||| (a.x == b.x && (a.y - b.y == 1 || b.y - a.y == 1))
    ||| (a.y == b.y && (a.x - b.x == 1 || b.x - a.x == 1))
}

/// Every pair of consecutive segments is grid-adjacent.
pub open spec fn chain_adjacent(body: Seq<Block>) -> bool {
    forall|i: int| 0 <= i < body.len() - 1 ==> #[trigger] blocks_adjacent(body[i], body[i + 1])
}

/// After a forward step every pair of consecutive segments is
/// grid-adjacent, provided the surviving part of the old body already was.
/// A freshly constructed snake, whose three segments coincide, does not
/// meet that premise until two steps have separated them.
pub proof fn lemma_step_adjacency(s: SnakeView, dir: Option<Direction>)
    requires
        s.wf(),
        fits_i32_pair(s.next_head(dir)),
        chain_adjacent(s.body.drop_last()),
    ensures
        chain_adjacent(s.move_forward(dir).body),
{
    let nb = s.move_forward(dir).body;
    let dl = s.body.drop_last();
    assert forall|i: int| 0 <= i < nb.len() - 1 implies #[trigger] blocks_adjacent(
        nb[i],
        nb[i + 1],
    ) by {
        if i == 0 {
            assert(nb[1] == dl[0]);
            assert(dl[0] == s.body[0]);
            assert(blocks_adjacent(block_at(s.next_head(dir)), s.head()));
        } else {
            let j = i - 1;
            assert(nb[i] == dl[j]);
            assert(nb[i + 1] == dl[j + 1]);
            assert(blocks_adjacent(dl[j], dl[j + 1]));
        }
    }
}

/// A probe cell that matches only the final segment is not a
/// self-collision: `hits_before_last` leaves that segment out.
pub proof fn lemma_tail_cell_excluded(s: SnakeView, x: i32, y: i32)
    requires
        s.body.len() >= 2,
        s.body.last() == (Block { x, y }),
        forall|i: int| 0 <= i < s.body.len() - 1 ==> s.body[i] != (Block { x, y }),
    ensures
        !s.hits_before_last(x, y),
{
}

} // verus!
