use vstd::prelude::*;

verus! {

/// Heading of the snake's head.
#[derive(Clone, Copy, Debug, PartialEq, Eq, Structural)]
pub enum Direction {
    Left,
    Up,
    Right,
    Down,
}

/// A square of the playing field: `x` counts grid columns (two terminal
/// columns each), `y` counts terminal rows.
#[derive(Clone, Copy, Debug, PartialEq, Eq, Structural)]
pub struct Cell {
    pub x: u16,
    pub y: u16,
}

/// How one segment of the body is drawn.
#[derive(Clone, Copy, Debug, PartialEq, Eq, Structural)]
pub enum Segment {
    Head,
    Dark,
    Light,
}

/// The snake: its heading, its body from head (index 0) to tail, and the
/// cell its tail left on the last move (where it grows back into).
pub struct Snake {
    direction: Direction,
    body: Vec<Cell>,
    last_cell: Cell,
}

/// Mathematical model of a [`Snake`].
pub struct SnakeView {
    pub direction: Direction,
    pub body: Seq<Cell>,
    pub last_cell: Cell,
}

/// The direction that reverses `d`.
pub open spec fn opposite(d: Direction) -> Direction {
    match d {
        Direction::Left => Direction::Right,
        Direction::Up => Direction::Down,
        Direction::Right => Direction::Left,
        Direction::Down => Direction::Up,
    }
}

/// Heading after asking a snake heading `d` to turn to `to`: a request to
/// reverse is ignored.
pub open spec fn turned(d: Direction, to: Direction) -> Direction {
    if d == opposite(to) {
        d
    } else {
        to
    }
}

/// Each direction has one opposite, its reverse on the same axis.
pub proof fn lemma_opposites()
    ensures
        opposite(Direction::Left) == Direction::Right,
        opposite(Direction::Right) == Direction::Left,
        opposite(Direction::Up) == Direction::Down,
        opposite(Direction::Down) == Direction::Up,
        forall|d: Direction| opposite(opposite(d)) == d && opposite(d) != d,
{
}

/// A turn takes effect unless it asks the snake to reverse, and a request to
/// reverse leaves the heading as it was.
pub proof fn lemma_turn_takes_effect(d: Direction, to: Direction)
    ensures
        to != opposite(d) ==> turned(d, to) == to,
        to == opposite(d) ==> turned(d, to) == d,
        turned(d, to) == to || turned(d, to) == d,
{
}

/// On a walled field a move is survived only with the new head strictly
/// inside the walls (columns `2..w-1`, rows `3..h-1`); a head reaching
/// column 1 or `w - 1` (or beyond), row 2 or `h - 1` (or beyond) dies.
pub proof fn lemma_walls_kill(s: SnakeView, w: u16, h: u16)
    ensures
        ({
            let nh = next_head(s.direction, s.body[0], w, h);
            &&& !move_blocked(s, w, h, true) ==> 2 <= nh.x < w - 1 && 3 <= nh.y < h - 1
            &&& (nh.x <= 1 || nh.x >= w - 1 || nh.y <= 2 || nh.y >= h - 1) ==> move_blocked(s, w, h, true)
        }),
{
}

/// Inside the field the head steps one cell in its heading, keeping the
/// other coordinate; past an edge it comes back at the opposite edge
/// (columns run over `1..w`, rows over `2..h`).
pub proof fn lemma_head_steps(dir: Direction, head: Cell, w: u16, h: u16)
    requires
        1 <= head.x < w,
        2 <= head.y < h,
    ensures
        ({
            let nh = next_head(dir, head, w, h);
            &&& dir == Direction::Left ==> nh.y == head.y && nh.x == (if head.x == 1 {
                w - 1
            } else {
                head.x - 1
            })
            &&& dir == Direction::Right ==> nh.y == head.y && nh.x == (if head.x == w - 1 {
                1
            } else {
                head.x + 1
            })
            &&& dir == Direction::Up ==> nh.x == head.x && nh.y == (if head.y == 2 {
                h - 1
            } else {
                head.y - 1
            })
            &&& dir == Direction::Down ==> nh.x == head.x && nh.y == (if head.y == h - 1 {
                2
            } else {
                head.y + 1
            })
        }),
{
}

/// Without walls only the body kills: a head that lands on no segment other
/// than the head and the tail end survives.
pub proof fn lemma_no_walls_only_body_kills(s: SnakeView, w: u16, h: u16)
    ensures
        ({
            let nh = next_head(s.direction, s.body[0], w, h);
            move_blocked(s, w, h, false) <==> exists|i: int|
                1 <= i < s.body.len() - 1 && s.body[i] == nh
        }),
{
}

/// A turn never points the snake back the way it came.
pub proof fn lemma_turn_never_reverses(d: Direction, to: Direction)
    ensures
        turned(d, to) != opposite(d),
{
}

/// One call on a snake, as far as its length goes.
pub enum SnakeCall {
    Turn(Direction),
    Move(u16, u16, bool),
    Grow,
}

/// The snake after one call: a turn, a move on a `w` by `h` grid (which
/// leaves the snake as it was when it kills it), or growing.
pub open spec fn after_call(s: SnakeView, call: SnakeCall) -> SnakeView {
    match call {
        SnakeCall::Turn(to) => SnakeView { direction: turned(s.direction, to), ..s },
        SnakeCall::Move(w, h, wall) => if move_blocked(s, w, h, wall) {
            s
        } else {
            moved(s, w, h)
        },
        SnakeCall::Grow => grown(s),
    }
}

/// The snake after a sequence of calls, in order.
pub open spec fn after_calls(s: SnakeView, calls: Seq<SnakeCall>) -> SnakeView
    decreases calls.len(),
{
    if calls.len() == 0 {
        s
    } else {
        after_call(after_calls(s, calls.drop_last()), calls.last())
    }
}

/// How many of the calls grow the snake.
pub open spec fn grow_count(calls: Seq<SnakeCall>) -> nat
    decreases calls.len(),
{
    if calls.len() == 0 {
        0
    } else {
        grow_count(calls.drop_last()) + if calls.last() is Grow {
            1nat
        } else {
            0nat
        }
    }
}

/// Turns and moves never change the length; each growth adds one. So a
/// snake is as long as it started plus the number of times it grew.
pub proof fn lemma_length_counts_growth(s: SnakeView, calls: Seq<SnakeCall>)
    requires
        s.body.len() >= 1,
    ensures
        after_calls(s, calls).body.len() == s.body.len() + grow_count(calls),
    decreases calls.len(),
{
    if calls.len() > 0 {
        lemma_length_counts_growth(s, calls.drop_last());
    }
}

/// A new snake of `size` segments is `max(size, 1)` long; after any calls
/// it is that plus the number of times it grew.
pub proof fn lemma_new_snake_length(x: u16, y: u16, size: u16, calls: Seq<SnakeCall>)
    ensures
        ({
            let s = SnakeView {
                direction: Direction::Right,
                body: initial_body(x, y, size),
                last_cell: Cell { x, y: (y - size - 1) as u16 },
            };
            after_calls(s, calls).body.len() == (if size == 0 {
                1
            } else {
                size as int
            }) + grow_count(calls)
        }),
{
    let s = SnakeView {
        direction: Direction::Right,
        body: initial_body(x, y, size),
        last_cell: Cell { x, y: (y - size - 1) as u16 },
    };
    lemma_length_counts_growth(s, calls);
}

/// Growing right after a move gives the new head in front of the whole old
/// body, and the tail end to clear is the old one.
pub proof fn lemma_grow_after_move(s: SnakeView, w: u16, h: u16)
    requires
        s.body.len() >= 1,
    ensures
        grown(moved(s, w, h)).body == seq![next_head(s.direction, s.body[0], w, h)] + s.body,
        grown(moved(s, w, h)).body.last() == s.body.last(),
        grown(moved(s, w, h)).direction == s.direction,
{
    assert(s.body.drop_last().push(s.body.last()) =~= s.body);
    assert(grown(moved(s, w, h)).body =~= seq![next_head(s.direction, s.body[0], w, h)] + s.body);
}

/// The body of a new snake of `size` segments whose head is at `(x, y)`,
/// stretched out to the left; a size of zero still gives the head.
pub open spec fn initial_body(x: u16, y: u16, size: u16) -> Seq<Cell> {
    Seq::new(
        if size == 0 {
            1nat
        } else {
            size as nat
        },
        |i: int| Cell { x: (x - i) as u16, y },
    )
}

/// Where the head goes from `head` when heading `dir` on a `w` by `h` grid.
/// Columns run over `1..w` and rows over `2..h`; leaving one side enters at
/// the other.
pub open spec fn next_head(dir: Direction, head: Cell, w: u16, h: u16) -> Cell {
    match dir {
        Direction::Left => if head.x > 1 {
            Cell { x: (head.x - 1) as u16, y: head.y }
        } else {
            Cell { x: (w - 1) as u16, y: head.y }
        },
        Direction::Up => if head.y > 2 {
            Cell { x: head.x, y: (head.y - 1) as u16 }
        } else {
            Cell { x: head.x, y: (h - 1) as u16 }
        },
        Direction::Right => if head.x < w - 1 {
            Cell { x: (head.x + 1) as u16, y: head.y }
        } else {
            Cell { x: 1, y: head.y }
        },
        Direction::Down => if head.y < h - 1 {
            Cell { x: head.x, y: (head.y + 1) as u16 }
        } else {
            Cell { x: head.x, y: 2 }
        },
    }
}

/// The 16-bit arithmetic of one move stays in range: the field's last
/// column or row is only computed where the move needs it.
pub open spec fn move_defined(dir: Direction, head: Cell, w: u16, h: u16, wall: bool) -> bool {
    let nh = next_head(dir, head, w, h);
    &&& match dir {
        Direction::Left => head.x > 1 || w >= 1,
        Direction::Up => head.y > 2 || h >= 1,
        Direction::Right => w >= 1,
        Direction::Down => h >= 1,
    }
    &&& wall ==> (nh.x <= 1 || (w >= 1 && (nh.x >= w - 1 || nh.y <= 2 || h >= 1)))
}

/// A cell on the walls of a walled `w` by `h` grid (or beyond them).
pub open spec fn hits_wall(c: Cell, w: u16, h: u16) -> bool {
    c.x <= 1 || c.x >= w - 1 || c.y <= 2 || c.y >= h - 1
}

/// `c` is on the body, not counting the head and the tail end (which moves
/// away in the same step).
pub open spec fn collides(body: Seq<Cell>, c: Cell) -> bool {
    exists|i: int| 1 <= i < body.len() - 1 && body[i] == c
}

/// The next move of `s` kills the snake.
pub open spec fn move_blocked(s: SnakeView, w: u16, h: u16, wall: bool) -> bool {
    let nh = next_head(s.direction, s.body[0], w, h);
    (wall && hits_wall(nh, w, h)) || collides(s.body, nh)
}

/// The snake after one move: a new head in front, the tail end dropped and
/// remembered.
pub open spec fn moved(s: SnakeView, w: u16, h: u16) -> SnakeView {
    SnakeView {
        direction: s.direction,
        body: seq![next_head(s.direction, s.body[0], w, h)] + s.body.drop_last(),
        last_cell: s.body.last(),
    }
}

/// The snake after growing back into the cell its tail last left.
pub open spec fn grown(s: SnakeView) -> SnakeView {
    SnakeView { direction: s.direction, body: s.body.push(s.last_cell), last_cell: s.last_cell }
}

/// How the segment at index `i` of the body is drawn.
pub open spec fn segment_of(i: int) -> Segment {
    if i == 0 {
        Segment::Head
    } else if i % 2 == 0 {
        Segment::Dark
    } else {
        Segment::Light
    }
}

impl Snake {
    pub closed spec fn view(&self) -> SnakeView {
        SnakeView { direction: self.direction, body: self.body@, last_cell: self.last_cell }
    }

    /// A snake of `size` segments with its head at `(x, y)`, heading right.
    pub fn new(x: u16, y: u16, size: u16) -> (r: Self)
        requires
            size == 0 || x >= size - 1,
            y >= size + 1,
        ensures
            r@.direction == Direction::Right,
            r@.body == initial_body(x, y, size),
            r@.last_cell == (Cell { x, y: (y - size - 1) as u16 }),
    {
        let mut body: Vec<Cell> = Vec::new();
        body.push(Cell { x, y });
        let mut i: u16 = 1;
        while i < size
            invariant
                1 <= i,
                size == 0 ==> i == 1,
                size == 0 || i <= size,
                size == 0 || x >= size - 1,
                body@.len() == i,
                forall|j: int| 0 <= j < i ==> #[trigger] body@[j] == (Cell { x: (x - j) as u16, y }),
            decreases size - i,
        {
            body.push(Cell { x: x - i, y });
            i = i + 1;
        }
        assert(body@ =~= initial_body(x, y, size));
        Self { direction: Direction::Right, body, last_cell: Cell { x, y: y - size - 1 } }
    }

    fn go(&mut self, direction: Direction, opposite: Direction)
        ensures
            final(self)@.direction == (if old(self)@.direction == opposite {
                old(self)@.direction
            } else {
                direction
            }),
            final(self)@.body == old(self)@.body,
            final(self)@.last_cell == old(self)@.last_cell,
    {
        if opposite != self.direction {
            self.direction = direction;
        }
    }

    /// Turns left, unless the snake heads right.
    pub fn go_left(&mut self)
        ensures
            final(self)@ == (SnakeView {
                direction: turned(old(self)@.direction, Direction::Left),
                ..old(self)@
            }),
    {
        self.go(Direction::Left, Direction::Right);
    }

    /// Turns up, unless the snake heads down.
    pub fn go_up(&mut self)
        ensures
            final(self)@ == (SnakeView {
                direction: turned(old(self)@.direction, Direction::Up),
                ..old(self)@
            }),
    {
        self.go(Direction::Up, Direction::Down);
    }

    /// Turns right, unless the snake heads left.
    pub fn go_right(&mut self)
        ensures
            final(self)@ == (SnakeView {
                direction: turned(old(self)@.direction, Direction::Right),
                ..old(self)@
            }),
    {
        self.go(Direction::Right, Direction::Left);
    }

    /// Turns down, unless the snake heads up.
    pub fn go_down(&mut self)
        ensures
            final(self)@ == (SnakeView {
                direction: turned(old(self)@.direction, Direction::Down),
                ..old(self)@
            }),
    {
        self.go(Direction::Down, Direction::Up);
    }

    /// Whether the head is on the apple at `(apple_x, apple_y)`.
    pub fn eat(&self, apple_x: u16, apple_y: u16) -> (r: bool)
        requires
            self@.body.len() >= 1,
        ensures
            r == (self@.body[0] == Cell { x: apple_x, y: apple_y }),
    {
        self.body[0].x == apple_x && self.body[0].y == apple_y
    }

    /// Grows the snake by one segment, into the cell its tail last left.
    pub fn grow(&mut self)
        ensures
            final(self)@ == grown(old(self)@),
    {
        self.body.push(self.last_cell);
    }

    /// Where the head goes on the next move.
    fn new_head_cell(&self, grid_width: u16, grid_height: u16) -> (r: Cell)
        requires
            self@.body.len() >= 1,
            move_defined(self@.direction, self@.body[0], grid_width, grid_height, false),
        ensures
            r == next_head(self@.direction, self@.body[0], grid_width, grid_height),
    {
        let head = self.body[0];
        let mut new_head = Cell { x: head.x, y: head.y };

        match self.direction {
            Direction::Left => {
                if new_head.x > 1 {
                    new_head.x = new_head.x - 1;
                } else {
                    new_head.x = grid_width - 1;
                }
            },
            Direction::Up => {
                if new_head.y > 2 {
                    new_head.y = new_head.y - 1;
                } else {
                    new_head.y = grid_height - 1;
                }
            },
            Direction::Right => {
                if new_head.x < grid_width - 1 {
                    new_head.x = new_head.x + 1;
                } else {
                    new_head.x = 1;
                }
            },
            Direction::Down => {
                if new_head.y < grid_height - 1 {
                    new_head.y = new_head.y + 1;
                } else {
                    new_head.y = 2;
                }
            },
        }
        new_head
    }

    /// Whether a head moving to `new_head` dies: on a wall, or on the body
    /// other than the head and the tail end.
    fn kills_at(&self, new_head: Cell, grid_width: u16, grid_height: u16, grid_has_wall: bool) -> (r: bool)
        requires
            self@.body.len() >= 1,
            move_defined(self@.direction, self@.body[0], grid_width, grid_height, grid_has_wall),
            new_head == next_head(self@.direction, self@.body[0], grid_width, grid_height),
        ensures
            r == move_blocked(self@, grid_width, grid_height, grid_has_wall),
    {
        let ghost nh = new_head;
        if grid_has_wall && (new_head.x <= 1 || new_head.x >= grid_width - 1 || new_head.y <= 2
            || new_head.y >= grid_height - 1) {
            return true;
        }

        let len = self.body.len();
        let mut i: usize = 1;
        while i < len - 1
            invariant
                1 <= i <= len,
                len == self.body@.len(),
                len >= 1,
                new_head == nh,
                self@.body == self.body@,
                nh == next_head(self@.direction, self@.body[0], grid_width, grid_height),
                forall|j: int| 1 <= j < i ==> self.body@[j] != new_head,
            decreases len - i,
        {
            if self.body[i] == new_head {
                assert(self@.body[i as int] == nh);
                assert(collides(self@.body, nh));
                return true;
            }
            i = i + 1;
        }
        assert(!collides(self@.body, nh));
        false
    }

    /// Whether the next move on a `grid_width` by `grid_height` grid kills
    /// the snake, without moving it.
    pub fn move_kills(&self, grid_width: u16, grid_height: u16, grid_has_wall: bool) -> (r: bool)
        requires
            self@.body.len() >= 1,
            move_defined(self@.direction, self@.body[0], grid_width, grid_height, grid_has_wall),
        ensures
            r == move_blocked(self@, grid_width, grid_height, grid_has_wall),
    {
        let new_head = self.new_head_cell(grid_width, grid_height);
        self.kills_at(new_head, grid_width, grid_height, grid_has_wall)
    }

    /// Moves the snake one step on a `grid_width` by `grid_height` grid.
    /// Returns `false`, leaving the snake as it was, when the move kills it:
    /// on a wall, or on its own body.
    pub fn update_position(&mut self, grid_width: u16, grid_height: u16, grid_has_wall: bool) -> (r: bool)
        requires
            old(self)@.body.len() >= 1,
            move_defined(old(self)@.direction, old(self)@.body[0], grid_width, grid_height, grid_has_wall),
        ensures
            r == !move_blocked(old(self)@, grid_width, grid_height, grid_has_wall),
            r ==> final(self)@ == moved(old(self)@, grid_width, grid_height),
            !r ==> final(self)@ == old(self)@,
    {
        // Where the head goes
        let new_head = self.new_head_cell(grid_width, grid_height);

        // A wall, or the body other than the tail end, kills the snake
        if self.kills_at(new_head, grid_width, grid_height, grid_has_wall) {
            return false;
        }

        let ghost before = self@;
        self.last_cell = self.body.pop().unwrap();
        self.body.insert(0, new_head);
        assert(self@.body =~= moved(before, grid_width, grid_height).body);
        true
    }

    /// The cell at the tail end, which the next move clears from the screen.
    pub fn to_clean(&self) -> (r: (u16, u16))
        requires
            self@.body.len() >= 1,
        ensures
            r == (self@.body.last().x, self@.body.last().y),
    {
        let last = self.body.len() - 1;
        (self.body[last].x, self.body[last].y)
    }

    /// Whether some segment of the snake is at `(x, y)`.
    pub fn is_on(&self, x: u16, y: u16) -> (r: bool)
        ensures
            r == self@.body.contains(Cell { x, y }),
    {
        let mut i: usize = 0;
        while i < self.body.len()
            invariant
                i <= self.body@.len(),
                forall|j: int| 0 <= j < i ==> self.body@[j] != (Cell { x, y }),
            decreases self.body@.len() - i,
        {
            if x == self.body[i].x && y == self.body[i].y {
                assert(self.body@[i as int] == Cell { x, y });
                return true;
            }
            i = i + 1;
        }
        false
    }

    /// Number of segments.
    pub fn length(&self) -> (r: usize)
        ensures
            r == self@.body.len(),
    {
        self.body.len()
    }

    /// Position of segment `i` (the head is segment 0).
    pub fn cell(&self, i: usize) -> (r: (u16, u16))
        requires
            i < self@.body.len(),
        ensures
            r == (self@.body[i as int].x, self@.body[i as int].y),
    {
        (self.body[i].x, self.body[i].y)
    }

    /// How segment `i` is drawn: the head, then alternating shades.
    pub fn segment(i: usize) -> (r: Segment)
        ensures
            r == segment_of(i as int),
    {
        if i == 0 {
            Segment::Head
        } else if i % 2 == 0 {
            Segment::Dark
        } else {
            Segment::Light
        }
    }
}

} // verus!
