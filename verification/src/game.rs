//! The game engine: the snake moves one cell per step in its direction, dies
//! on a wall or on its own body, and grows and scores when it eats the food,
//! which then reappears on a random free cell inside the walls.

use rand::Rng;
use std::collections::VecDeque;
use vstd::prelude::*;

verus! {

#[derive(Copy, Clone, Debug, PartialEq, Eq, Structural)]
pub struct Point {
    pub x: u16,
    pub y: u16,
}

#[derive(Copy, Clone, Debug, PartialEq, Eq, Structural)]
pub enum Direction {
    Up,
    Down,
    Left,
    Right,
}

/// The state of one game. `snake[0]` is the head; the walls are the cells of
/// the outermost rows and columns of the `width` by `height` board.
pub struct Game {
    pub width: u16,
    pub height: u16,
    pub snake: VecDeque<Point>,
    pub direction: Direction,
    pub food: Point,
    pub score: usize,
    pub over: bool,
}

/// A cell strictly inside the walls.
pub open spec fn interior(p: Point, width: u16, height: u16) -> bool {
    &&& 1 <= p.x
    &&& p.x + 2 <= width
    &&& 1 <= p.y
    &&& p.y + 2 <= height
}

/// A cell of the board, walls included.
pub open spec fn on_board(p: Point, width: u16, height: u16) -> bool {
    p.x < width && p.y < height
}

/// Two cells side by side or one above the other.
pub open spec fn adjacent(p: Point, q: Point) -> bool {
    ||| p.x == q.x && (p.y + 1 == q.y || q.y + 1 == p.y)
    ||| p.y == q.y && (p.x + 1 == q.x || q.x + 1 == p.x)
}

/// A cell of the outermost rows or columns.
pub open spec fn on_wall(p: Point, width: u16, height: u16) -> bool {
    p.x == 0 || p.x == width - 1 || p.y == 0 || p.y == height - 1
}

/// Whether the cell one move from `head` can be computed in `u16`.
pub open spec fn can_advance(head: Point, direction: Direction) -> bool {
    match direction {
        Direction::Down => head.y < u16::MAX,
        Direction::Right => head.x < u16::MAX,
        _ => true,
    }
}

/// The cell one move from `head`; a move past coordinate 0 stays at 0.
pub open spec fn advanced(head: Point, direction: Direction) -> Point {
    match direction {
        Direction::Up => Point { x: head.x, y: if head.y == 0 { 0 } else { (head.y - 1) as u16 } },
        Direction::Down => Point { x: head.x, y: (head.y + 1) as u16 },
        Direction::Left => Point { x: if head.x == 0 { 0 } else { (head.x - 1) as u16 }, y: head.y },
        Direction::Right => Point { x: (head.x + 1) as u16, y: head.y },
    }
}

pub open spec fn opposite(direction: Direction) -> Direction {
    match direction {
        Direction::Up => Direction::Down,
        Direction::Down => Direction::Up,
        Direction::Left => Direction::Right,
        Direction::Right => Direction::Left,
    }
}

/// The direction after asking to turn to `requested`: an immediate reversal
/// is refused.
pub open spec fn turned(current: Direction, requested: Direction) -> Direction {
    if requested == opposite(current) {
        current
    } else {
        requested
    }
}

/// Some cell inside the walls is not covered by `snake`.
pub open spec fn has_free_cell(snake: Seq<Point>, width: u16, height: u16) -> bool {
    exists|p: Point| interior(p, width, height) && !snake.contains(p)
}

/// The cells `(x, y)` with `1 <= x < x_end` not covered by `snake`, by
/// increasing `x`.
pub open spec fn free_row(snake: Seq<Point>, y: u16, x_end: int) -> Seq<Point>
    decreases x_end,
{
    if x_end <= 1 {
        Seq::empty()
    } else {
        let p = Point { x: (x_end - 1) as u16, y };
        free_row(snake, y, x_end - 1) + if snake.contains(p) {
            Seq::empty()
        } else {
            seq![p]
        }
    }
}

/// The cells inside the walls of rows `1 <= y < y_end` not covered by
/// `snake`, row by row.
pub open spec fn free_rows(snake: Seq<Point>, width: u16, y_end: int) -> Seq<Point>
    decreases y_end,
{
    if y_end <= 1 {
        Seq::empty()
    } else {
        free_rows(snake, width, y_end - 1) + free_row(snake, (y_end - 1) as u16, width - 1)
    }
}

/// The cells inside the walls not covered by `snake`, in row-major order.
pub open spec fn free_cells_of(snake: Seq<Point>, width: u16, height: u16) -> Seq<Point> {
    free_rows(snake, width, height - 1)
}

/// The snake of a new game: head at the centre, one segment to its left.
pub open spec fn start_snake(width: u16, height: u16) -> Seq<Point> {
    seq![
        Point { x: width / 2, y: height / 2 },
        Point { x: (width / 2 - 1) as u16, y: height / 2 },
    ]
}

impl Game {
    /// The cell the head moves to on the next step.
    pub open spec fn next_head(self) -> Point {
        advanced(self.snake@[0], self.direction)
    }

    /// The next step reaches the food.
    pub open spec fn eats(self) -> bool {
        self.next_head() == self.food
    }

    /// The cells the new head may not enter: the whole snake when it eats,
    /// else all but the tail, which moves away in the same step.
    pub open spec fn occupied(self) -> Seq<Point> {
        if self.eats() {
            self.snake@
        } else {
            self.snake@.drop_last()
        }
    }

    /// The next step runs into a wall or into the snake's body.
    pub open spec fn collides(self) -> bool {
        on_wall(self.next_head(), self.width, self.height) || self.occupied().contains(
            self.next_head(),
        )
    }

    /// The snake with the new head in front.
    pub open spec fn grown(self) -> Seq<Point> {
        seq![self.next_head()] + self.snake@
    }

    /// The states on which a step returns: nothing is asked of a game that is
    /// over; else the snake has a head, its next cell is representable, the
    /// wall test is defined, and, where it eats, the score can grow and some
    /// free cell is left for the new food.
    pub open spec fn step_defined(self) -> bool {
        self.over || {
            let head = self.next_head();
            &&& self.snake@.len() > 0
            &&& can_advance(self.snake@[0], self.direction)
            &&& head.x != 0 ==> self.width > 0
            &&& (head.x != 0 && head.x != self.width - 1 && head.y != 0) ==> self.height > 0
            &&& (!self.collides() && self.eats()) ==> {
                &&& self.score < usize::MAX
                &&& has_free_cell(self.grown(), self.width, self.height)
            }
        }
    }

    /// How one step relates the game `before` to the game `after`.
    pub open spec fn stepped(before: Game, after: Game) -> bool {
        &&& after.width == before.width
        &&& after.height == before.height
        &&& after.direction == before.direction
        &&& if before.over || before.collides() {
            &&& after.over
            &&& after.snake@ == before.snake@
            &&& after.food == before.food
            &&& after.score == before.score
        } else if before.eats() {
            &&& !after.over
            &&& after.snake@ == before.grown()
            &&& after.score == before.score + 1
            &&& free_cells_of(after.snake@, after.width, after.height).contains(after.food)
            &&& interior(after.food, after.width, after.height)
            &&& !after.snake@.contains(after.food)
        } else {
            &&& !after.over
            &&& after.snake@ == before.grown().drop_last()
            &&& after.food == before.food
            &&& after.score == before.score
        }
    }

    /// The board's shape as every step keeps it, whatever the score: the head
    /// inside the walls, every segment on the board, each segment next to the
    /// one before it, no two segments on one cell, and the food on a free
    /// cell inside the walls.
    pub open spec fn sound(self) -> bool {
        &&& self.snake@.len() >= 1
        &&& forall|i: int, j: int|
            0 <= i && j == i + 1 && j < self.snake@.len() ==> adjacent(
                #[trigger] self.snake@[i],
                #[trigger] self.snake@[j],
            )
        &&& interior(self.snake@[0], self.width, self.height)
        &&& forall|i: int|
            0 <= i < self.snake@.len() ==> on_board(#[trigger] self.snake@[i], self.width, self.height)
        &&& forall|i: int, j: int|
            0 <= i < j < self.snake@.len() ==> #[trigger] self.snake@[i] != #[trigger] self.snake@[j]
        &&& interior(self.food, self.width, self.height)
        &&& !self.snake@.contains(self.food)
    }

    /// A game as `new` makes it and as every step keeps it: sound, and two
    /// segments more than the score.
    pub open spec fn wf(self) -> bool {
        &&& self.sound()
        &&& self.score + 2 == self.snake@.len()
    }

    /// Every segment lies inside the walls.
    pub open spec fn inside_walls(self) -> bool {
        forall|i: int|
            0 <= i < self.snake@.len() ==> interior(#[trigger] self.snake@[i], self.width, self.height)
    }
}

/// `p` lies in `a + b` exactly when it lies in `a` or in `b`.
proof fn lemma_concat_contains(a: Seq<Point>, b: Seq<Point>, p: Point)
    ensures
        (a + b).contains(p) <==> (a.contains(p) || b.contains(p)),
{
    if a.contains(p) {
        let k = choose|k: int| 0 <= k < a.len() && a[k] == p;
        assert((a + b)[k] == p);
    }
    if b.contains(p) {
        let k = choose|k: int| 0 <= k < b.len() && b[k] == p;
        assert((a + b)[a.len() + k] == p);
    }
    if (a + b).contains(p) {
        let k = choose|k: int| 0 <= k < (a + b).len() && (a + b)[k] == p;
        if k < a.len() {
            assert(a[k] == p);
        } else {
            assert(b[k - a.len()] == p);
        }
    }
}

proof fn lemma_free_row_contains(snake: Seq<Point>, y: u16, x_end: int, p: Point)
    requires
        x_end <= 0x1_0000,
    ensures
        free_row(snake, y, x_end).contains(p) <==> (p.y == y && 1 <= p.x < x_end
            && !snake.contains(p)),
    decreases x_end,
{
    if x_end > 1 {
        let q = Point { x: (x_end - 1) as u16, y };
        lemma_free_row_contains(snake, y, x_end - 1, p);
        let tail = if snake.contains(q) {
            Seq::<Point>::empty()
        } else {
            seq![q]
        };
        lemma_concat_contains(free_row(snake, y, x_end - 1), tail, p);
        if tail.contains(p) {
            assert(tail[0] == p);
        }
        if p == q && !snake.contains(q) {
            assert(tail[0] == p);
        }
    }
}

proof fn lemma_free_rows_contains(snake: Seq<Point>, width: u16, y_end: int, p: Point)
    requires
        y_end <= 0x1_0000,
    ensures
        free_rows(snake, width, y_end).contains(p) <==> (1 <= p.y < y_end && 1 <= p.x
            < width - 1 && !snake.contains(p)),
    decreases y_end,
{
    if y_end > 1 {
        lemma_free_rows_contains(snake, width, y_end - 1, p);
        lemma_free_row_contains(snake, (y_end - 1) as u16, width - 1, p);
        lemma_concat_contains(
            free_rows(snake, width, y_end - 1),
            free_row(snake, (y_end - 1) as u16, width - 1),
            p,
        );
    }
}

/// The free cells listed by `free_cells_of` are exactly the cells inside the
/// walls that the snake does not cover.
pub proof fn lemma_free_cells_contains(snake: Seq<Point>, width: u16, height: u16, p: Point)
    ensures
        free_cells_of(snake, width, height).contains(p) <==> (interior(p, width, height)
            && !snake.contains(p)),
{
    lemma_free_rows_contains(snake, width, height - 1, p);
}

/// Some free cell exists exactly when the list of free cells is not empty.
pub proof fn lemma_has_free_cell(snake: Seq<Point>, width: u16, height: u16)
    ensures
        has_free_cell(snake, width, height) <==> free_cells_of(snake, width, height).len() > 0,
{
    let cells = free_cells_of(snake, width, height);
    if has_free_cell(snake, width, height) {
        let p = choose|p: Point| interior(p, width, height) && !snake.contains(p);
        lemma_free_cells_contains(snake, width, height, p);
    }
    if cells.len() > 0 {
        lemma_free_cells_contains(snake, width, height, cells[0]);
        assert(cells.contains(cells[0]));
    }
}

/// Calls `rand::Rng::gen_range(0..bound)` on `rand::thread_rng()`. Claimed:
/// the result lies in `0..bound`, as rand documents; rand panics on an empty
/// range, hence the `requires`. Which value comes is chance and is not stated.
#[verifier::external_body]
fn random_below(bound: usize) -> (r: usize)
    requires
        bound > 0,
    ensures
        r < bound,
{
    rand::thread_rng().gen_range(0..bound)
}

/// Whether `p` is among the first `n` segments of `snake`.
fn occupies(snake: &VecDeque<Point>, n: usize, p: Point) -> (r: bool)
    requires
        n <= snake@.len(),
    ensures
        r == snake@.take(n as int).contains(p),
{
    let mut i: usize = 0;
    while i < n
        invariant
            i <= n,
            n <= snake@.len(),
            forall|j: int| 0 <= j < i ==> snake@[j] != p,
        decreases n - i,
    {
        if snake[i] == p {
            assert(snake@.take(n as int)[i as int] == p);
            return true;
        }
        i += 1;
    }
    assert forall|j: int| 0 <= j < n implies snake@.take(n as int)[j] != p by {}
    false
}

/// The cells inside the walls that `snake` does not cover, in row-major
/// order: the cells where food can appear.
pub fn free_cells(snake: &VecDeque<Point>, width: u16, height: u16) -> (cells: Vec<Point>)
    ensures
        cells@ == free_cells_of(snake@, width, height),
{
    let mut cells: Vec<Point> = Vec::new();
    let mut y: u16 = 1;
    while (y as u32) + 1 < (height as u32)
        invariant
            1 <= y,
            y as int <= height - 1 || y == 1,
            cells@ == free_rows(snake@, width, y as int),
        decreases height - y,
    {
        let mut x: u16 = 1;
        while (x as u32) + 1 < (width as u32)
            invariant
                1 <= x,
                x as int <= width - 1 || x == 1,
                (y as u32) + 1 < (height as u32),
                cells@ == free_rows(snake@, width, y as int) + free_row(snake@, y, x as int),
            decreases width - x,
        {
            let p = Point { x, y };
            let taken = occupies(snake, snake.len(), p);
            assert(snake@.take(snake@.len() as int) =~= snake@);
            if !taken {
                cells.push(p);
            }
            assert(free_row(snake@, y, x + 1) == free_row(snake@, y, x as int) + if snake@.contains(
                p,
            ) {
                Seq::<Point>::empty()
            } else {
                seq![p]
            });
            assert(cells@ =~= free_rows(snake@, width, y as int) + free_row(snake@, y, x + 1));
            x += 1;
        }
        proof {
            if x as int != width - 1 {
                assert(free_row(snake@, y, x as int) =~= Seq::<Point>::empty());
                assert(free_row(snake@, y, width - 1) =~= Seq::<Point>::empty());
            }
        }
        assert(free_rows(snake@, width, y + 1) == free_rows(snake@, width, y as int) + free_row(
            snake@,
            y,
            width - 1,
        ));
        y += 1;
    }
    proof {
        if y as int != height - 1 {
            assert(free_rows(snake@, width, y as int) =~= Seq::<Point>::empty());
            assert(free_rows(snake@, width, height - 1) =~= Seq::<Point>::empty());
        }
    }
    cells
}

impl Game {
    /// A new game on a `width` by `height` board: a two-segment snake at the
    /// centre heading right, no score, and food on a random free cell inside
    /// the walls. The board must leave such a cell beside the snake.
    pub fn new(width: u16, height: u16) -> (game: Self)
        requires
            width >= 3,
            height >= 3,
            width >= 5 || height >= 4,
        ensures
            game.width == width,
            game.height == height,
            game.snake@ == start_snake(width, height),
            game.direction == Direction::Right,
            game.score == 0,
            !game.over,
            free_cells_of(game.snake@, width, height).contains(game.food),
            interior(game.food, width, height),
            !game.snake@.contains(game.food),
            game.wf(),
            width >= 4 ==> game.inside_walls(),
    {
        let mut snake = VecDeque::new();
        let start_x = width / 2;
        let start_y = height / 2;
        snake.push_back(Point { x: start_x, y: start_y });
        snake.push_back(Point { x: start_x - 1, y: start_y });
        proof {
            assert(snake@ =~= start_snake(width, height));
            let spare = if width >= 5 {
                Point { x: (start_x + 1) as u16, y: start_y }
            } else {
                Point { x: start_x, y: (start_y - 1) as u16 }
            };
            assert(snake@[0] != spare && snake@[1] != spare);
            assert(interior(spare, width, height) && !snake@.contains(spare));
        }
        let food = Self::random_food(&snake, width, height);
        Self { width, height, snake, direction: Direction::Right, food, score: 0, over: false }
    }

    /// A random cell inside the walls that `snake` does not cover, each such
    /// cell being equally likely.
    fn random_food(snake: &VecDeque<Point>, width: u16, height: u16) -> (food: Point)
        requires
            has_free_cell(snake@, width, height),
        ensures
            free_cells_of(snake@, width, height).contains(food),
            interior(food, width, height),
            !snake@.contains(food),
    {
        let cells = free_cells(snake, width, height);
        proof {
            lemma_has_free_cell(snake@, width, height);
        }
        let choice = random_below(cells.len());
        let food = cells[choice];
        proof {
            assert(cells@.contains(food));
            lemma_free_cells_contains(snake@, width, height, food);
        }
        food
    }

    /// One move: nothing once the game is over; the game ends, with the snake
    /// where it was, when the head would enter a wall or the body (the tail's
    /// cell counts as free unless the snake eats); else the head advances,
    /// and the snake grows by one and scores when it reaches the food, which
    /// then moves to a random free cell, and otherwise keeps its length.
    pub fn step(&mut self)
        requires
            old(self).step_defined(),
        ensures
            Game::stepped(*old(self), *final(self)),
            old(self).sound() ==> final(self).sound(),
            old(self).wf() ==> final(self).wf(),
            old(self).sound() && old(self).inside_walls() ==> final(self).inside_walls(),
            final(self).snake@.len() - final(self).score == old(self).snake@.len() - old(
                self,
            ).score,
            old(self).score <= final(self).score <= old(self).score + 1,
    {
        if self.over {
            return ;
        }
        let head = self.snake[0];
        let new_head = match self.direction {
            Direction::Up => Point { x: head.x, y: head.y.saturating_sub(1) },
            Direction::Down => Point { x: head.x, y: head.y + 1 },
            Direction::Left => Point { x: head.x.saturating_sub(1), y: head.y },
            Direction::Right => Point { x: head.x + 1, y: head.y },
        };
        assert(new_head == self.next_head());
        let eating = new_head == self.food;
        let occupied_length = self.snake.len() - if eating {
            0
        } else {
            1
        };
        assert(self.snake@.take(occupied_length as int) =~= self.occupied());
        if new_head.x == 0 || new_head.x == self.width - 1 || new_head.y == 0 || new_head.y
            == self.height - 1 || occupies(&self.snake, occupied_length, new_head) {
            self.over = true;
            proof {
                if old(self).sound() {
                    lemma_step_keeps_sound(*old(self), *self);
                    if old(self).inside_walls() {
                        lemma_step_keeps_inside_walls(*old(self), *self);
                    }
                }
                if old(self).wf() {
                    lemma_step_keeps_wf(*old(self), *self);
                }
                lemma_step_score_tracks_length(*old(self), *self);
            }
            return ;
        }
        self.snake.push_front(new_head);
        if new_head == self.food {
            self.score += 1;
            self.food = Self::random_food(&self.snake, self.width, self.height);
        } else {
            self.snake.pop_back();
        }
        proof {
            if old(self).sound() {
                lemma_step_keeps_sound(*old(self), *self);
                if old(self).inside_walls() {
                    lemma_step_keeps_inside_walls(*old(self), *self);
                }
            }
            if old(self).wf() {
                lemma_step_keeps_wf(*old(self), *self);
            }
            lemma_step_score_tracks_length(*old(self), *self);
        }
    }

    /// Whether `step` may be called on this game (see `step_defined`): a
    /// well-formed game can always step unless the snake is about to eat the
    /// last free cell inside the walls.
    pub fn can_step(&self) -> (ok: bool)
        ensures
            ok == self.step_defined(),
    {
        if self.over {
            return true;
        }
        if self.snake.len() == 0 {
            return false;
        }
        let head = self.snake[0];
        let new_head = match self.direction {
            Direction::Up => Point { x: head.x, y: head.y.saturating_sub(1) },
            Direction::Down => {
                if head.y == u16::MAX {
                    return false;
                }
                Point { x: head.x, y: head.y + 1 }
            },
            Direction::Left => Point { x: head.x.saturating_sub(1), y: head.y },
            Direction::Right => {
                if head.x == u16::MAX {
                    return false;
                }
                Point { x: head.x + 1, y: head.y }
            },
        };
        assert(new_head == self.next_head());
        if new_head.x != 0 && self.width == 0 {
            return false;
        }
        if new_head.x != 0 && new_head.x != self.width - 1 && new_head.y != 0 && self.height == 0 {
            return false;
        }
        let eating = new_head == self.food;
        if !eating {
            return true;
        }
        let occupied_length = self.snake.len();
        assert(self.snake@.take(occupied_length as int) =~= self.occupied());
        if new_head.x == 0 || new_head.x == self.width - 1 || new_head.y == 0 || new_head.y
            == self.height - 1 || occupies(&self.snake, occupied_length, new_head) {
            return true;
        }
        if self.score == usize::MAX {
            return false;
        }
        let cells = free_cells(&self.snake, self.width, self.height);
        let mut i: usize = 0;
        #[verifier::loop_isolation(false)]
        while i < cells.len()
            invariant
                cells@ == free_cells_of(self.snake@, self.width, self.height),
                forall|j: int| 0 <= j < i ==> cells@[j] == new_head,
            decreases cells.len() - i,
        {
            if cells[i] != new_head {
                proof {
                    lemma_free_cells_contains(self.snake@, self.width, self.height, cells@[i as int]);
                    assert(cells@.contains(cells@[i as int]));
                    lemma_concat_contains(seq![new_head], self.snake@, cells@[i as int]);
                    assert(!seq![new_head].contains(cells@[i as int]));
                }
                return true;
            }
            i += 1;
        }
        proof {
            // Every free cell is the new head, so the grown snake covers the interior.
            assert forall|p: Point| interior(p, self.width, self.height) implies #[trigger] self.grown().contains(p) by {
                lemma_concat_contains(seq![new_head], self.snake@, p);
                lemma_free_cells_contains(self.snake@, self.width, self.height, p);
                if !self.snake@.contains(p) {
                    let k = choose|k: int| 0 <= k < cells@.len() && cells@[k] == p;
                    assert(seq![new_head][0] == p);
                }
            }
        }
        false
    }

    /// Turns to `direction`, unless that is the reverse of the current one.
    pub fn change_direction(&mut self, direction: Direction)
        ensures
            final(self).direction == turned(old(self).direction, direction),
            final(self).width == old(self).width,
            final(self).height == old(self).height,
            final(self).snake@ == old(self).snake@,
            final(self).food == old(self).food,
            final(self).score == old(self).score,
            final(self).over == old(self).over,
    {
        let reverses = match (self.direction, direction) {
            (Direction::Up, Direction::Down) | (Direction::Down, Direction::Up) | (
                Direction::Left,
                Direction::Right,
            ) | (Direction::Right, Direction::Left) => true,
            _ => false,
        };
        if !reverses {
            self.direction = direction;
        }
    }
}

/// Every step keeps a game sound, whatever its score: the snake never leaves
/// the board, never crosses itself and stays connected, its head stays inside
/// the walls, and the food stays on a free cell inside the walls.
pub proof fn lemma_step_keeps_sound(before: Game, after: Game)
    requires
        before.sound(),
        Game::stepped(before, after),
    ensures
        after.sound(),
{
    if !(before.over || before.collides()) {
        let head = before.snake@[0];
        let nh = before.next_head();
        let w = before.width;
        let h = before.height;
        assert(on_board(nh, w, h));
        assert(interior(nh, w, h));
        let old = before.snake@;
        let grown = before.grown();
        assert(grown[0] == nh);
        assert forall|i: int| 1 <= i < grown.len() implies grown[i] == old[i - 1] by {}
        assert(adjacent(head, nh));
        if before.eats() {
            assert(!old.contains(nh));
            assert forall|i: int, j: int|
                0 <= i && j == i + 1 && j < after.snake@.len() implies adjacent(
                #[trigger] after.snake@[i],
                #[trigger] after.snake@[j],
            ) by {
                if i > 0 {
                    assert(adjacent(old[i - 1], old[j - 1]));
                }
            }
            assert forall|i: int, j: int|
                0 <= i < j < after.snake@.len() implies #[trigger] after.snake@[i]
                != #[trigger] after.snake@[j] by {
                if i == 0 {
                    assert(old[j - 1] != nh);
                } else {
                    assert(old[i - 1] != old[j - 1]);
                }
            }
            assert forall|i: int| 0 <= i < after.snake@.len() implies on_board(
                #[trigger] after.snake@[i],
                w,
                h,
            ) by {
                if i > 0 {
                    assert(on_board(old[i - 1], w, h));
                }
            }
        } else {
            let rest = old.drop_last();
            assert(!rest.contains(nh));
            let snake = after.snake@;
            assert(snake.len() == old.len());
            assert forall|i: int| 1 <= i < snake.len() implies snake[i] == old[i - 1] by {}
            assert forall|i: int, j: int|
                0 <= i && j == i + 1 && j < snake.len() implies adjacent(
                #[trigger] snake[i],
                #[trigger] snake[j],
            ) by {
                if i > 0 {
                    assert(adjacent(old[i - 1], old[j - 1]));
                }
            }
            assert forall|i: int, j: int|
                0 <= i < j < snake.len() implies #[trigger] snake[i] != #[trigger] snake[j] by {
                if i == 0 {
                    assert(rest[j - 1] == old[j - 1]);
                    assert(old[j - 1] != nh);
                } else {
                    assert(old[i - 1] != old[j - 1]);
                }
            }
            assert forall|i: int| 0 <= i < snake.len() implies on_board(
                #[trigger] snake[i],
                w,
                h,
            ) by {
                if i > 0 {
                    assert(on_board(old[i - 1], w, h));
                }
            }
            if snake.contains(after.food) {
                let k = choose|k: int| 0 <= k < snake.len() && snake[k] == after.food;
                if k > 0 {
                    assert(old[k - 1] == before.food);
                }
            }
        }
    }
}

/// Every step keeps a game well formed: sound, and with the snake two
/// segments longer than the score.
pub proof fn lemma_step_keeps_wf(before: Game, after: Game)
    requires
        before.wf(),
        Game::stepped(before, after),
    ensures
        after.wf(),
{
    lemma_step_keeps_sound(before, after);
    lemma_step_score_tracks_length(before, after);
}

/// A step keeps every segment inside the walls: the new head enters no wall
/// cell, and the other segments are old ones.
pub proof fn lemma_step_keeps_inside_walls(before: Game, after: Game)
    requires
        before.sound(),
        before.inside_walls(),
        Game::stepped(before, after),
    ensures
        after.inside_walls(),
{
    lemma_step_keeps_sound(before, after);
    if !(before.over || before.collides()) {
        let old = before.snake@;
        let grown = before.grown();
        assert forall|i: int| 1 <= i < grown.len() implies grown[i] == old[i - 1] by {}
        assert forall|i: int| 0 <= i < after.snake@.len() implies interior(
            #[trigger] after.snake@[i],
            after.width,
            after.height,
        ) by {
            if i > 0 {
                assert(interior(old[i - 1], before.width, before.height));
            }
        }
    }
}

/// The score counts the growth: a step raises the score by at most one, and
/// the snake's length by exactly as much as the score.
pub proof fn lemma_step_score_tracks_length(before: Game, after: Game)
    requires
        Game::stepped(before, after),
    ensures
        after.snake@.len() - after.score == before.snake@.len() - before.score,
        before.score <= after.score <= before.score + 1,
{
}

/// A well-formed game can always take a step, except when the snake is about
/// to eat and would then cover every cell inside the walls.
pub proof fn lemma_wf_step_defined(game: Game)
    requires
        game.wf(),
        game.eats() && !game.collides() ==> has_free_cell(game.grown(), game.width, game.height),
    ensures
        game.step_defined(),
{
    vstd::std_specs::vecdeque::axiom_spec_len(&game.snake);
}

/// No change of direction ever turns the snake straight back.
pub proof fn lemma_turn_never_reverses(current: Direction, requested: Direction)
    ensures
        turned(current, requested) != opposite(current),
        turned(current, requested) == current || turned(current, requested) == requested,
{
}

/// A step that runs ends the game exactly when the new head lands on a wall
/// cell or on a segment the snake still holds after the move: any segment but
/// the tail, and the tail too when the snake eats (it then does not move
/// away). When the game goes on, the head moves one cell in its direction and
/// the old segments follow it.
pub proof fn lemma_step_ends_on_wall_or_body(before: Game, after: Game)
    requires
        Game::stepped(before, after),
        !before.over,
        before.snake@.len() >= 1,
    ensures
        ({
            let head = before.snake@[0];
            let next = before.next_head();
            let n = before.snake@.len();
            &&& next == match before.direction {
                Direction::Up => Point { x: head.x, y: if head.y == 0 { 0 } else { (head.y - 1) as u16 } },
                Direction::Down => Point { x: head.x, y: (head.y + 1) as u16 },
                Direction::Left => Point { x: if head.x == 0 { 0 } else { (head.x - 1) as u16 }, y: head.y },
                Direction::Right => Point { x: (head.x + 1) as u16, y: head.y },
            }
            &&& after.over <==> {
                ||| next.x == 0
                ||| next.x + 1 == before.width
                ||| next.y == 0
                ||| next.y + 1 == before.height
                ||| exists|i: int| 0 <= i < n - 1 && before.snake@[i] == next
                ||| (next == before.food && before.snake@[n - 1] == next)
            }
            &&& !after.over ==> {
                &&& after.snake@[0] == next
                &&& forall|i: int| 0 < i < after.snake@.len() ==> after.snake@[i] == before.snake@[i - 1]
                &&& after.snake@.len() == if next == before.food { n + 1 } else { n }
            }
        }),
{
    let s = before.snake@;
    let next = before.next_head();
    let n = s.len();
    let body = exists|i: int| 0 <= i < n - 1 && s[i] == next;
    if body {
        let i = choose|i: int| 0 <= i < n - 1 && s[i] == next;
        assert(s.drop_last()[i] == next);
        assert(s[i] == next);
    }
    if before.occupied().contains(next) {
        let k = choose|k: int| 0 <= k < before.occupied().len() && before.occupied()[k] == next;
        if k < n - 1 {
            assert(s[k] == next);
        }
    }
    if next == before.food && s[n - 1] == next {
        assert(s[n - 1] == next);
    }
}

/// Turning refuses exactly the reverse direction and otherwise takes the
/// requested one.
pub proof fn lemma_turn_takes_requested(current: Direction, requested: Direction)
    ensures
        (current == Direction::Up && requested == Direction::Down) || (current == Direction::Down
            && requested == Direction::Up) || (current == Direction::Left && requested
            == Direction::Right) || (current == Direction::Right && requested == Direction::Left)
            ==> turned(current, requested) == current,
        !((current == Direction::Up && requested == Direction::Down) || (current == Direction::Down
            && requested == Direction::Up) || (current == Direction::Left && requested
            == Direction::Right) || (current == Direction::Right && requested == Direction::Left))
            ==> turned(current, requested) == requested,
{
}

} // verus!
