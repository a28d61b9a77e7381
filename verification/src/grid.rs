use crate::random::{choose_one, thread_rng};
use crate::snake::{
    grown, initial_body, move_blocked, moved, next_head, turned, Cell, Direction, Snake,
    SnakeView,
};
use vstd::prelude::*;

verus! {

broadcast use vstd::seq_lib::group_seq_properties;

/// Where a game stands after a step.
#[derive(Clone, Copy, Debug, PartialEq, Eq, Structural)]
pub enum GameState {
    Running,
    Pause,
    GameOver,
    Win,
}

/// The keys that the game reacts to; every other key is `Other`.
#[derive(Clone, Copy, Debug, PartialEq, Eq, Structural)]
pub enum Key {
    Left,
    Up,
    Right,
    Down,
    Esc,
    Space,
    PageUp,
    PageDown,
    Other,
}

/// The playing field: its size, the snake, the apple, whether walls close
/// it, the cell to clear after the last move, and the difficulty.
pub struct Grid {
    width: u16,
    height: u16,
    snake: Snake,
    apple: Cell,
    has_wall: bool,
    to_clean: (u16, u16),
    difficulty: u8,
}

/// Mathematical model of a [`Grid`].
pub struct GridView {
    pub width: u16,
    pub height: u16,
    pub snake: SnakeView,
    pub apple: Cell,
    pub has_wall: bool,
    pub to_clean: (u16, u16),
    pub difficulty: u8,
}

/// First column where an apple may appear.
pub open spec fn apple_x_lo(wall: bool) -> int {
    if wall {
        2
    } else {
        1
    }
}

/// Column past the last one where an apple may appear.
pub open spec fn apple_x_hi(w: u16, wall: bool) -> int {
    if wall {
        w - 1
    } else {
        w as int
    }
}

/// First row where an apple may appear.
pub open spec fn apple_y_lo(wall: bool) -> int {
    if wall {
        3
    } else {
        2
    }
}

/// Row past the last one where an apple may appear.
pub open spec fn apple_y_hi(h: u16, wall: bool) -> int {
    if wall {
        h - 1
    } else {
        h as int
    }
}

/// The cells where an apple may appear: inside the walls, or anywhere on
/// the field when there are none.
pub open spec fn in_apple_range(c: Cell, w: u16, h: u16, wall: bool) -> bool {
    &&& apple_x_lo(wall) <= c.x < apple_x_hi(w, wall)
    &&& apple_y_lo(wall) <= c.y < apple_y_hi(h, wall)
}

/// Length of an integer range, zero when it is empty.
pub open spec fn span(lo: int, hi: int) -> int {
    if lo < hi {
        hi - lo
    } else {
        0
    }
}

/// Number of cells where an apple may appear.
pub open spec fn apple_range_size(w: u16, h: u16, wall: bool) -> int {
    span(apple_x_lo(wall), apple_x_hi(w, wall)) * span(apple_y_lo(wall), apple_y_hi(h, wall))
}

/// Some cell where an apple may appear is free of the snake.
pub open spec fn has_free_cell(body: Seq<Cell>, w: u16, h: u16, wall: bool) -> bool {
    exists|c: Cell| in_apple_range(c, w, h, wall) && !body.contains(c)
}

/// Margin that the border (and the walls) take from each dimension in the
/// score to reach.
pub open spec fn margin(wall: bool) -> int {
    if wall {
        4
    } else {
        2
    }
}

/// The score to reach fits the 16-bit arithmetic that computes it.
pub open spec fn score_to_win_defined(w: u16, h: u16, wall: bool) -> bool {
    &&& w >= margin(wall)
    &&& h >= margin(wall)
    &&& 2 <= (w - margin(wall)) * (h - margin(wall)) <= 65535
}

/// The score that wins: the free area of the field less the starting length
/// of the snake.
pub open spec fn spec_score_to_win(w: u16, h: u16, wall: bool) -> int {
    (w - margin(wall)) * (h - margin(wall)) - 2
}

/// The score shown for a snake: its length (as a 16-bit number) less the
/// starting length.
pub open spec fn score_of(s: SnakeView) -> int {
    (s.body.len() % 65536) as int - 2
}

/// The score can be computed without going below zero.
pub open spec fn score_defined(s: SnakeView) -> bool {
    s.body.len() % 65536 >= 2
}

/// Difficulty after one step down (never below 1).
pub open spec fn lowered(d: u8) -> u8 {
    if d > 1 {
        (d - 1) as u8
    } else {
        d
    }
}

/// Difficulty after one step up (never above 20).
pub open spec fn raised(d: u8) -> u8 {
    if d < 20 {
        (d + 1) as u8
    } else {
        d
    }
}

/// Heading after pressing `key` while heading `d`.
pub open spec fn steered(d: Direction, key: Key) -> Direction {
    match key {
        Key::Left => turned(d, Direction::Left),
        Key::Up => turned(d, Direction::Up),
        Key::Right => turned(d, Direction::Right),
        Key::Down => turned(d, Direction::Down),
        _ => d,
    }
}

/// A grid can be made of this size: the snake fits in its middle and some
/// cell is left for the apple.
pub open spec fn new_allowed(w: u16, h: u16, wall: bool) -> bool {
    &&& w / 2 >= 1
    &&& h / 2 >= 3
    &&& has_free_cell(initial_body((w / 2) as u16, (h / 2) as u16, 2), w, h, wall)
}

/// `g` is a fresh grid of the given size: a two-segment snake in the middle
/// heading right, and an apple somewhere free.
pub open spec fn fresh(g: GridView, w: u16, h: u16, wall: bool, difficulty: u8) -> bool {
    &&& g.width == w
    &&& g.height == h
    &&& g.has_wall == wall
    &&& g.difficulty == difficulty
    &&& g.snake.direction == Direction::Right
    &&& g.snake.body == initial_body((w / 2) as u16, (h / 2) as u16, 2)
    &&& g.snake.last_cell == (Cell { x: (w / 2) as u16, y: (h / 2 - 3) as u16 })
    &&& g.to_clean == ((w / 2 - 1) as u16, (h / 2) as u16)
    &&& in_apple_range(g.apple, w, h, wall)
    &&& !g.snake.body.contains(g.apple)
    &&& g.wf()
}

impl GridView {
    /// The snake is as long as a won game makes it.
    pub open spec fn won(self) -> bool {
        &&& score_to_win_defined(self.width, self.height, self.has_wall)
        &&& self.snake.body.len() == spec_score_to_win(self.width, self.height, self.has_wall) + 2
    }

    /// What every grid keeps between two moves: the apple lies where apples
    /// go and, until the game is won, not under the snake; the snake is at
    /// least two long and no longer than the winning score allows, and (on
    /// fields at least three columns wide) it never overlaps itself.
    pub open spec fn wf(self) -> bool {
        &&& self.width >= 2
        &&& self.height >= 6
        &&& self.snake.body.len() >= 2
        &&& in_apple_range(self.apple, self.width, self.height, self.has_wall)
        &&& !self.snake.body.contains(self.apple) || self.won()
        &&& score_to_win_defined(self.width, self.height, self.has_wall)
            ==> self.snake.body.len() <= spec_score_to_win(self.width, self.height, self.has_wall) + 2
        &&& self.width >= 3 ==> self.snake.body.no_duplicates()
    }

    /// The score to reach and the score both fit their 16-bit arithmetic.
    pub open spec fn update_allowed(self) -> bool {
        &&& score_to_win_defined(self.width, self.height, self.has_wall)
        &&& score_defined(self.snake)
    }

    /// The next call of `update` is defined on this grid: a move that kills
    /// ends the game before any score is computed; otherwise both scores
    /// must fit.
    pub open spec fn step_allowed(self) -> bool {
        !move_blocked(self.snake, self.width, self.height, self.has_wall) ==> self.update_allowed()
    }
}

/// `f` and `r` are what one step of the game makes of the grid `g`: the tail
/// end is cleared; a move that kills ends the game and changes nothing else;
/// a move that reaches the score to win wins; otherwise the game goes on, the
/// snake growing and the apple moving to a free cell when the snake eats it.
pub open spec fn stepped(g: GridView, f: GridView, r: GameState) -> bool {
    let s = g.snake;
    let m = moved(s, g.width, g.height);
    &&& f.width == g.width
    &&& f.height == g.height
    &&& f.has_wall == g.has_wall
    &&& f.difficulty == g.difficulty
    &&& f.to_clean == (s.body.last().x, s.body.last().y)
    &&& move_blocked(s, g.width, g.height, g.has_wall) ==> {
        &&& r == GameState::GameOver
        &&& f.snake == s
        &&& f.apple == g.apple
    }
    &&& !move_blocked(s, g.width, g.height, g.has_wall) && score_of(m) == spec_score_to_win(
        g.width,
        g.height,
        g.has_wall,
    ) ==> {
        &&& r == GameState::Win
        &&& f.snake == m
        &&& f.apple == g.apple
    }
    &&& !move_blocked(s, g.width, g.height, g.has_wall) && score_of(m) != spec_score_to_win(
        g.width,
        g.height,
        g.has_wall,
    ) && m.body[0] == g.apple ==> {
        &&& r == GameState::Running
        &&& f.snake == grown(m)
        &&& in_apple_range(f.apple, f.width, f.height, f.has_wall)
        &&& !f.snake.body.contains(f.apple)
    }
    &&& !move_blocked(s, g.width, g.height, g.has_wall) && score_of(m) != spec_score_to_win(
        g.width,
        g.height,
        g.has_wall,
    ) && m.body[0] != g.apple ==> {
        &&& r == GameState::Running
        &&& f.snake == m
        &&& f.apple == g.apple
    }
}

/// The next head never stays in place on a field at least three columns
/// wide and four rows high.
pub proof fn lemma_head_moves(dir: Direction, head: Cell, w: u16, h: u16)
    requires
        w >= 3,
        h >= 4,
    ensures
        next_head(dir, head, w, h) != head,
{
}

/// A head inside the field (columns `1..w`, rows `2..h`) stays inside it,
/// walls or not: leaving one side enters at the other.
pub proof fn lemma_head_stays_in_field(dir: Direction, head: Cell, w: u16, h: u16)
    requires
        1 <= head.x < w,
        2 <= head.y < h,
    ensures
        1 <= next_head(dir, head, w, h).x < w,
        2 <= next_head(dir, head, w, h).y < h,
{
}

/// On a grid that keeps its invariant, the score never exceeds the score to
/// win.
pub proof fn lemma_score_bounded(g: GridView)
    requires
        g.wf(),
        g.update_allowed(),
    ensures
        0 <= score_of(g.snake) <= spec_score_to_win(g.width, g.height, g.has_wall),
{
}

/// Each apple eaten adds exactly one to the score.
pub proof fn lemma_eating_scores_one(s: SnakeView, w: u16, h: u16)
    requires
        s.body.len() >= 1,
        s.body.len() % 65536 < 65535,
    ensures
        score_of(grown(moved(s, w, h))) == score_of(s) + 1,
        score_of(moved(s, w, h)) == score_of(s),
{
}

/// Stepping the difficulty keeps it within 1 to 20.
pub proof fn lemma_difficulty_stays_in_range(d: u8)
    requires
        1 <= d <= 20,
    ensures
        1 <= lowered(d) <= 20,
        1 <= raised(d) <= 20,
{
}

/// Each arrow key heads the snake in the key's own direction unless that
/// would reverse it; other keys keep the heading.
pub proof fn lemma_arrow_keys_steer(d: Direction, key: Key)
    ensures
        d != Direction::Right ==> steered(d, Key::Left) == Direction::Left,
        d != Direction::Left ==> steered(d, Key::Right) == Direction::Right,
        d != Direction::Down ==> steered(d, Key::Up) == Direction::Up,
        d != Direction::Up ==> steered(d, Key::Down) == Direction::Down,
        d == Direction::Right ==> steered(d, Key::Left) == d,
        d == Direction::Left ==> steered(d, Key::Right) == d,
        d == Direction::Down ==> steered(d, Key::Up) == d,
        d == Direction::Up ==> steered(d, Key::Down) == d,
        key != Key::Left && key != Key::Right && key != Key::Up && key != Key::Down ==> steered(d, key)
            == d,
{
}

/// Each step changes the difficulty by exactly one inside 1 to 20, and
/// nothing at the limits.
pub proof fn lemma_difficulty_steps_by_one(d: u8)
    ensures
        1 <= d < 20 ==> raised(d) == d + 1,
        1 < d <= 20 ==> lowered(d) == d - 1,
        raised(20) == 20,
        lowered(1) == 1,
{
}

/// One step up is undone by one step down, and the other way round, away
/// from the limits.
pub proof fn lemma_difficulty_steps_undo(d: u8)
    ensures
        1 <= d < 20 ==> lowered(raised(d)) == d,
        1 < d <= 20 ==> raised(lowered(d)) == d,
{
}

/// How many times a column and a row are drawn for a new apple before the
/// draw is made among the free cells only.
pub const APPLE_DRAWS: u16 = 100;

/// The numbers `lo`, `lo + 1`, ..., up to `hi` excluded.
fn values_between(lo: u16, hi: u16) -> (r: Vec<u16>)
    ensures
        forall|v: u16| #[trigger] r@.contains(v) <==> lo <= v < hi,
{
    let mut r: Vec<u16> = Vec::new();
    let mut v = lo;
    while v < hi
        invariant
            lo <= v,
            lo < hi ==> v <= hi,
            lo >= hi ==> v == lo,
            forall|u: u16| #[trigger] r@.contains(u) <==> lo <= u < v,
        decreases hi - v,
    {
        r.push(v);
        v = v + 1;
    }
    r
}

/// The cells where an apple may appear that are free of the snake, column
/// by column. When the snake is shorter than the number of such cells, one
/// is always free.
fn free_cells(snake: &Snake, w: u16, h: u16, wall: bool) -> (r: Vec<Cell>)
    requires
        w >= 1,
        h >= 1,
    ensures
        forall|c: Cell|
            #[trigger] r@.contains(c) <==> (in_apple_range(c, w, h, wall) && !snake@.body.contains(c)),
        snake@.body.len() < apple_range_size(w, h, wall) ==> r@.len() > 0,
{
    let x_lo: u16 = if wall { 2 } else { 1 };
    let x_hi: u16 = if wall { w - 1 } else { w };
    let y_lo: u16 = if wall { 3 } else { 2 };
    let y_hi: u16 = if wall { h - 1 } else { h };
    let ghost a = span(x_lo as int, x_hi as int);
    let ghost b = span(y_lo as int, y_hi as int);
    let ghost body = snake@.body;
    let mut cells: Vec<Cell> = Vec::new();
    let ghost mut taken: Seq<Cell> = Seq::empty();
    let mut x: u16 = x_lo;
    while x < x_hi
        invariant
            x_lo == apple_x_lo(wall),
            x_hi == apple_x_hi(w, wall),
            y_lo == apple_y_lo(wall),
            y_hi == apple_y_hi(h, wall),
            a == span(x_lo as int, x_hi as int),
            b == span(y_lo as int, y_hi as int),
            body == snake@.body,
            x_lo <= x,
            x_lo < x_hi ==> x <= x_hi,
            x_lo >= x_hi ==> x == x_lo,
            forall|c: Cell|
                #[trigger] cells@.contains(c) <==> (in_apple_range(c, w, h, wall) && c.x < x
                    && !body.contains(c)),
            forall|c: Cell|
                #[trigger] taken.contains(c) ==> (in_apple_range(c, w, h, wall) && c.x < x && body.contains(c)),
            taken.no_duplicates(),
            cells@.len() + taken.len() == (x - x_lo) * b,
        decreases x_hi - x,
    {
        let mut y: u16 = y_lo;
        while y < y_hi
            invariant
                x_lo == apple_x_lo(wall),
                x_hi == apple_x_hi(w, wall),
                y_lo == apple_y_lo(wall),
                y_hi == apple_y_hi(h, wall),
                b == span(y_lo as int, y_hi as int),
                body == snake@.body,
                x_lo <= x < x_hi,
                y_lo <= y,
                y_lo < y_hi ==> y <= y_hi,
                y_lo >= y_hi ==> y == y_lo,
                forall|c: Cell|
                    #[trigger] cells@.contains(c) <==> (in_apple_range(c, w, h, wall) && (c.x < x || (c.x
                        == x && c.y < y)) && !body.contains(c)),
                forall|c: Cell|
                    #[trigger] taken.contains(c) ==> (in_apple_range(c, w, h, wall) && (c.x < x || (c.x == x
                        && c.y < y)) && body.contains(c)),
                taken.no_duplicates(),
                cells@.len() + taken.len() == (x - x_lo) * b + (y - y_lo),
            decreases y_hi - y,
        {
            let c = Cell { x, y };
            if !snake.is_on(x, y) {
                cells.push(c);
            } else {
                proof {
                    assert(!taken.contains(c));
                    taken = taken.push(c);
                    assert(taken.last() == c);
                }
            }
            y = y + 1;
        }
        assert((x + 1 - x_lo) * b == (x - x_lo) * b + b) by (nonlinear_arith);
        x = x + 1;
    }
    proof {
        assert(cells@.len() + taken.len() == apple_range_size(w, h, wall)) by {
            assert(x - x_lo == a);
            assert((x - x_lo) * b == a * b);
        }
        taken.unique_seq_to_set();
        body.lemma_cardinality_of_set();
        assert(taken.to_set().subset_of(body.to_set()));
        vstd::set_lib::lemma_len_subset(taken.to_set(), body.to_set());
    }
    cells
}

impl Grid {
    pub closed spec fn view(&self) -> GridView {
        GridView {
            width: self.width,
            height: self.height,
            snake: self.snake@,
            apple: self.apple,
            has_wall: self.has_wall,
            to_clean: self.to_clean,
            difficulty: self.difficulty,
        }
    }

    /// A `width` by `height` grid with a two-segment snake in its middle and
    /// an apple at a random free cell.
    pub fn new(width: u16, height: u16, has_wall: bool, difficulty: u8) -> (r: Self)
        requires
            new_allowed(width, height, has_wall),
        ensures
            fresh(r@, width, height, has_wall, difficulty),
    {
        let snake = Snake::new(width / 2, height / 2, 2);
        let to_clean = snake.to_clean();
        let mut grid = Self {
            width,
            height,
            apple: Cell { x: 1, y: 1 },
            has_wall,
            difficulty,
            to_clean,
            snake,
        };
        grid.new_apple();
        proof {
            let body = grid@.snake.body;
            assert(body[0] != body[1]);
            assert(body.no_duplicates());
        }
        grid
    }

    /// Like [`Grid::new`], but `None` where the snake would not fit or no cell
    /// would be left for the apple.
    pub fn try_new(width: u16, height: u16, has_wall: bool, difficulty: u8) -> (r: Option<Self>)
        ensures
            r is Some <==> new_allowed(width, height, has_wall),
            r matches Some(g) ==> fresh(g@, width, height, has_wall, difficulty),
    {
        if width / 2 < 1 || height / 2 < 3 {
            return None;
        }
        let snake = Snake::new(width / 2, height / 2, 2);
        let free = free_cells(&snake, width, height, has_wall);
        if free.len() == 0 {
            proof {
                if has_free_cell(snake@.body, width, height, has_wall) {
                    let c = choose|c: Cell|
                        in_apple_range(c, width, height, has_wall) && !snake@.body.contains(c);
                    assert(free@.contains(c));
                }
            }
            return None;
        }
        proof {
            assert(free@.contains(free@[0]));
        }
        Some(Self::new(width, height, has_wall, difficulty))
    }

    /// Puts the apple on a random cell where apples go and the snake is not:
    /// columns and rows are drawn uniformly and the first free pair wins. Only
    /// a fixed number of pairs is drawn; when none is free the cell is drawn
    /// uniformly among the free ones, which leaves every free cell as likely
    /// as endless drawing would, and always ends.
    fn new_apple(&mut self)
        requires
            old(self)@.width >= 1,
            old(self)@.height >= 1,
            has_free_cell(old(self)@.snake.body, old(self)@.width, old(self)@.height, old(self)@.has_wall)
                || old(self)@.snake.body.len() < apple_range_size(
                old(self)@.width,
                old(self)@.height,
                old(self)@.has_wall,
            ),
        ensures
            final(self)@ == (GridView { apple: final(self)@.apple, ..old(self)@ }),
            in_apple_range(final(self)@.apple, final(self)@.width, final(self)@.height, final(self)@.has_wall),
            !final(self)@.snake.body.contains(final(self)@.apple),
    {
        let mut rng = thread_rng();

        let xs = if self.has_wall {
            values_between(2, self.width - 1)
        } else {
            values_between(1, self.width)
        };
        let ys = if self.has_wall {
            values_between(3, self.height - 1)
        } else {
            values_between(2, self.height)
        };

        // The column and row draws, in order
        let mut draws: Vec<Cell> = Vec::new();
        let mut n: u16 = 0;
        while n < APPLE_DRAWS
            invariant
                forall|v: u16| #[trigger] xs@.contains(v) <==> apple_x_lo(self@.has_wall) <= v < apple_x_hi(self@.width, self@.has_wall),
                forall|v: u16| #[trigger] ys@.contains(v) <==> apple_y_lo(self@.has_wall) <= v < apple_y_hi(self@.height, self@.has_wall),
                forall|i: int| 0 <= i < draws@.len() ==> in_apple_range(#[trigger] draws@[i], self@.width, self@.height, self@.has_wall),
            decreases APPLE_DRAWS - n,
        {
            let x = choose_one(&xs, &mut rng);
            let y = choose_one(&ys, &mut rng);
            if let (Some(x), Some(y)) = (x, y) {
                draws.push(Cell { x, y });
            }
            n = n + 1;
        }

        // The first free draw becomes the apple
        if let Some(k) = self.place_first_free(&draws) {
            proof {
                assert(in_apple_range(draws@[k as int], self@.width, self@.height, self@.has_wall));
            }
            return;
        }

        let free = free_cells(&self.snake, self.width, self.height, self.has_wall);
        proof {
            if has_free_cell(self@.snake.body, self@.width, self@.height, self@.has_wall) {
                let c = choose|c: Cell|
                    in_apple_range(c, self@.width, self@.height, self@.has_wall)
                        && !self@.snake.body.contains(c);
                assert(free@.contains(c));
            }
        }
        if let Some(c) = choose_one(&free, &mut rng) {
            self.place_apple(c.x, c.y);
        }
    }

    /// Puts the apple on the first of the drawn cells that the snake is not
    /// on and returns its index; returns `None`, changing nothing, when the
    /// snake is on all of them.
    pub fn place_first_free(&mut self, draws: &Vec<Cell>) -> (r: Option<usize>)
        ensures
            r matches Some(k) ==> {
                &&& k < draws@.len()
                &&& !old(self)@.snake.body.contains(draws@[k as int])
                &&& forall|j: int| 0 <= j < k ==> old(self)@.snake.body.contains(#[trigger] draws@[j])
                &&& final(self)@ == (GridView { apple: draws@[k as int], ..old(self)@ })
            },
            r is None ==> {
                &&& forall|j: int| 0 <= j < draws@.len() ==> old(self)@.snake.body.contains(#[trigger] draws@[j])
                &&& final(self)@ == old(self)@
            },
    {
        let mut i: usize = 0;
        while i < draws.len()
            invariant
                i <= draws@.len(),
                self@ == old(self)@,
                forall|j: int| 0 <= j < i ==> self@.snake.body.contains(#[trigger] draws@[j]),
            decreases draws@.len() - i,
        {
            let c = draws[i];
            if self.place_apple(c.x, c.y) {
                return Some(i);
            }
            i = i + 1;
        }
        None
    }

    /// Puts the apple at `(x, y)` unless the snake is there; returns whether
    /// it did.
    pub fn place_apple(&mut self, x: u16, y: u16) -> (placed: bool)
        ensures
            placed == !old(self)@.snake.body.contains(Cell { x, y }),
            placed ==> final(self)@ == (GridView { apple: Cell { x, y }, ..old(self)@ }),
            !placed ==> final(self)@ == old(self)@,
            old(self)@.wf() && in_apple_range(Cell { x, y }, old(self)@.width, old(self)@.height, old(self)@.has_wall)
                ==> final(self)@.wf(),
    {
        if self.snake.is_on(x, y) {
            false
        } else {
            self.apple = Cell { x, y };
            true
        }
    }

    /// Turns the snake with an arrow key; other keys do nothing.
    pub fn control(&mut self, key: Key)
        ensures
            final(self)@ == (GridView {
                snake: SnakeView {
                    direction: steered(old(self)@.snake.direction, key),
                    ..old(self)@.snake
                },
                ..old(self)@
            }),
    {
        match key {
            Key::Left => {
                self.snake.go_left();
            },
            Key::Up => {
                self.snake.go_up();
            },
            Key::Right => {
                self.snake.go_right();
            },
            Key::Down => {
                self.snake.go_down();
            },
            _ => {},
        }
    }

    /// One step of the game: the snake moves; the game is lost if it hits a
    /// wall or itself, won once the score to win was reached, and otherwise
    /// goes on, the snake growing and a new apple appearing when it eats.
    pub fn update(&mut self) -> (r: GameState)
        requires
            old(self)@.wf(),
            old(self)@.step_allowed(),
        ensures
            stepped(old(self)@, final(self)@, r),
            final(self)@.wf(),
    {
        let ghost g = self@;
        self.to_clean = self.snake.to_clean();

        let died = !self.snake.update_position(self.width, self.height, self.has_wall);

        if died {
            GameState::GameOver
        } else if self.score() == self.score_to_win() {
            proof {
                self.lemma_move_keeps_order(g);
            }
            GameState::Win
        } else {
            proof {
                self.lemma_move_keeps_order(g);
            }
            if self.snake.eat(self.apple.x, self.apple.y) {
                let ghost m = self@.snake;
                self.snake.grow();
                proof {
                    self.lemma_growth_fits(g, m);
                }
                self.new_apple();
            }
            GameState::Running
        }
    }

    /// After a move that neither killed the snake nor won: no cell doubled,
    /// the apple not under the snake's body, the length unchanged.
    proof fn lemma_move_keeps_order(&self, g: GridView)
        requires
            g.wf(),
            g.update_allowed(),
            !move_blocked(g.snake, g.width, g.height, g.has_wall),
            self@.snake == moved(g.snake, g.width, g.height),
            self@ == (GridView { snake: self@.snake, to_clean: self@.to_clean, ..g }),
        ensures
            self@.snake.body.len() == g.snake.body.len(),
            self@.snake.body.drop_first() == g.snake.body.drop_last(),
            score_of(self@.snake) == spec_score_to_win(g.width, g.height, g.has_wall) <==> g.won(),
            !g.won() ==> !self@.snake.body.drop_first().contains(g.apple),
            g.width >= 3 ==> self@.snake.body.no_duplicates(),
    {
        let s = g.snake;
        assert(g.snake.body.len() <= 65535);
        let b = self@.snake.body;
        let nh = next_head(s.direction, s.body[0], g.width, g.height);
        assert(b.drop_first() =~= s.body.drop_last());
        if !g.won() {
            assert forall|i: int| 0 <= i < b.len() - 1 implies b.drop_first()[i] != g.apple by {
                assert(s.body[i] == b.drop_first()[i]);
            }
        }
        if g.width >= 3 {
            lemma_head_moves(s.direction, s.body[0], g.width, g.height);
            assert forall|i: int, j: int| 0 <= i < b.len() && 0 <= j < b.len() && i != j implies b[i]
                != b[j] by {
                if i == 0 {
                    assert(b[j] == s.body[j - 1]);
                    if j - 1 == 0 {
                    } else {
                        assert(!(1 <= j - 1 < s.body.len() - 1 && s.body[j - 1] == nh));
                    }
                } else if j == 0 {
                    assert(b[i] == s.body[i - 1]);
                    if i - 1 == 0 {
                    } else {
                        assert(!(1 <= i - 1 < s.body.len() - 1 && s.body[i - 1] == nh));
                    }
                } else {
                    assert(b[i] == s.body[i - 1]);
                    assert(b[j] == s.body[j - 1]);
                }
            }
        }
    }

    /// After eating: the grown snake still has room for a new apple, keeps
    /// its cells distinct and stays within the winning length.
    proof fn lemma_growth_fits(&self, g: GridView, m: SnakeView)
        requires
            g.wf(),
            g.update_allowed(),
            m == moved(g.snake, g.width, g.height),
            score_of(m) != spec_score_to_win(g.width, g.height, g.has_wall),
            m.body[0] == g.apple,
            m.body.len() == g.snake.body.len(),
            m.body.drop_first() == g.snake.body.drop_last(),
            g.width >= 3 ==> m.body.no_duplicates(),
            self@.snake == grown(m),
            self@ == (GridView { snake: self@.snake, to_clean: self@.to_clean, ..g }),
        ensures
            self@.snake.body.len() < apple_range_size(g.width, g.height, g.has_wall),
            self@.snake.body.len() <= spec_score_to_win(g.width, g.height, g.has_wall) + 2,
            self@.snake.body.len() >= 2,
            g.width >= 3 ==> self@.snake.body.no_duplicates(),
    {
        let w = g.width as int;
        let h = g.height as int;
        let len = g.snake.body.len();
        assert(len <= 65535);
        assert(len - 2 < spec_score_to_win(g.width, g.height, g.has_wall));
        if g.has_wall {
            assert((w - 4) * (h - 4) < (w - 3) * (h - 4)) by (nonlinear_arith)
                requires
                    w >= 4,
                    h >= 5,
            ;
            assert(h >= 5) by {
                if h == 4 {
                    assert((w - 4) * (h - 4) == 0) by (nonlinear_arith)
                        requires
                            h == 4,
                    ;
                }
            }
        } else {
            assert((w - 2) * (h - 2) < (w - 1) * (h - 2)) by (nonlinear_arith)
                requires
                    w >= 2,
                    h >= 3,
            ;
        }
        let b = self@.snake.body;
        let last = g.snake.body.last();
        assert(b =~= m.body.push(last));
        if g.width >= 3 {
            assert(g.snake.body.contains(last)) by {
                assert(g.snake.body[len - 1] == last);
            }
            assert forall|i: int| 0 <= i < m.body.len() implies m.body[i] != last by {
                if i == 0 {
                } else {
                    assert(m.body[i] == g.snake.body[i - 1]);
                    assert(g.snake.body[len - 1] == last);
                }
            }
            assert forall|i: int, j: int| 0 <= i < b.len() && 0 <= j < b.len() && i != j implies b[i]
                != b[j] by {
                if i < m.body.len() && j < m.body.len() {
                    assert(b[i] == m.body[i]);
                    assert(b[j] == m.body[j]);
                }
            }
        }
    }

    /// The score to reach to win: the free area of the field less the
    /// starting length of the snake.
    pub fn score_to_win(&self) -> (r: u16)
        requires
            score_to_win_defined(self@.width, self@.height, self@.has_wall),
        ensures
            r == spec_score_to_win(self@.width, self@.height, self@.has_wall),
    {
        if self.has_wall {
            return (self.width - 4) * (self.height - 4) - 2;
        }
        (self.width - 2) * (self.height - 2) - 2
    }

    /// Apples eaten: the snake's length less its starting length.
    pub fn score(&self) -> (r: u16)
        requires
            score_defined(self@.snake),
        ensures
            r == score_of(self@.snake),
    {
        ((self.snake.length() % 65536) as u16) - 2
    }

    /// Whether the next `update` is defined: the score to reach and the
    /// score both fit their 16-bit arithmetic.
    pub fn can_update(&self) -> (r: bool)
        requires
            self@.wf(),
        ensures
            r == self@.step_allowed(),
    {
        if self.snake.move_kills(self.width, self.height, self.has_wall) {
            return true;
        }
        self.score_to_win_fits() && self.score_fits()
    }

    /// Whether the score fits its 16-bit arithmetic (the snake is at least two
    /// long, counted modulo 65536).
    pub fn score_fits(&self) -> (r: bool)
        ensures
            r == score_defined(self@.snake),
    {
        self.snake.length() % 65536 >= 2
    }

    /// Whether the score to win fits its 16-bit arithmetic.
    pub fn score_to_win_fits(&self) -> (r: bool)
        ensures
            r == score_to_win_defined(self@.width, self@.height, self@.has_wall),
    {
        let m: u32 = if self.has_wall { 4 } else { 2 };
        let w = self.width as u32;
        let h = self.height as u32;
        if w < m || h < m {
            return false;
        }
        assert((w - m) * (h - m) <= 65535 * 65535) by (nonlinear_arith)
            requires
                w - m <= 65535,
                h - m <= 65535,
                w >= m,
                h >= m,
        ;
        let p = (w - m) * (h - m);
        p >= 2 && p <= 65535
    }

    /// Current difficulty.
    pub fn difficulty(&self) -> (r: u8)
        ensures
            r == self@.difficulty,
    {
        self.difficulty
    }

    /// One step easier, down to 1.
    pub fn difficulty_down(&mut self)
        ensures
            final(self)@ == (GridView { difficulty: lowered(old(self)@.difficulty), ..old(self)@ }),
    {
        if self.difficulty > 1 {
            self.difficulty = self.difficulty - 1;
        }
    }

    /// One step harder, up to 20.
    pub fn difficulty_up(&mut self)
        ensures
            final(self)@ == (GridView { difficulty: raised(old(self)@.difficulty), ..old(self)@ }),
    {
        if self.difficulty < 20 {
            self.difficulty = self.difficulty + 1;
        }
    }

    /// Number of decimal digits of `num`.
    pub fn get_num_length(num: u16) -> (r: u16)
        requires
            num < 10000,
        ensures
            r == (if num < 10 {
                1u16
            } else if num < 100 {
                2u16
            } else if num < 1000 {
                3u16
            } else {
                4u16
            }),
    {
        let mut i: u16 = 1;
        let mut d: u16 = 10;
        while num / d > 0
            invariant
                num < 10000,
                (i == 1 && d == 10) || (i == 2 && d == 100 && num >= 10) || (i == 3 && d == 1000
                    && num >= 100) || (i == 4 && d == 10000 && num >= 1000),
            decreases 5 - i,
        {
            d = d * 10;
            i = i + 1;
        }
        i
    }

    /// Grid width, in cells.
    pub fn width(&self) -> (r: u16)
        ensures
            r == self@.width,
    {
        self.width
    }

    /// Grid height, in rows.
    pub fn height(&self) -> (r: u16)
        ensures
            r == self@.height,
    {
        self.height
    }

    /// Whether walls close the field.
    pub fn has_wall(&self) -> (r: bool)
        ensures
            r == self@.has_wall,
    {
        self.has_wall
    }

    /// Where the apple is.
    pub fn apple(&self) -> (r: (u16, u16))
        ensures
            r == (self@.apple.x, self@.apple.y),
    {
        (self.apple.x, self.apple.y)
    }

    /// The cell that the last move left, to be cleared from the screen.
    pub fn cell_to_clean(&self) -> (r: (u16, u16))
        ensures
            r == self@.to_clean,
    {
        self.to_clean
    }

    /// The snake.
    pub fn snake(&self) -> (r: &Snake)
        ensures
            r@ == self@.snake,
    {
        &self.snake
    }
}

} // verus!
