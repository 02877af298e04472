//! What the front-ends draw: the cells of the board in the order in which
//! the canvas paints them, the board and score line in the order in which
//! the terminal writes them, and what the terminal rewrites after one step.

use crate::game::{on_board, on_wall, Game, Point};
use vstd::prelude::*;

verus! {

/// What a painted cell shows.
#[derive(Copy, Clone, Debug, PartialEq, Eq, Structural)]
pub enum Glyph {
    Wall,
    Food,
    Head,
    Body,
    Blank,
}

/// One write of the terminal front-end: a glyph at a cell, or the score line
/// below the board.
#[derive(Copy, Clone, Debug, PartialEq, Eq, Structural)]
pub enum Draw {
    Cell(Point, Glyph),
    Score,
}

/// The wall cells in the canvas's painting order: for each column, its top
/// and bottom cell; then for each inner row, its left and right cell.
pub open spec fn wall_cells(width: u16, height: u16) -> Seq<Point> {
    top_bottom_walls(width, height) + side_walls(width, height)
}

/// The top and bottom cell of each column, column by column.
pub open spec fn top_bottom_walls(width: u16, height: u16) -> Seq<Point> {
    Seq::new(
        (2 * width) as nat,
        |i: int| Point { x: (i / 2) as u16, y: if i % 2 == 0 { 0 } else { (height - 1) as u16 } },
    )
}

/// The left and right cell of each row between the top and bottom rows.
pub open spec fn side_walls(width: u16, height: u16) -> Seq<Point> {
    Seq::new(
        (if height >= 2 { 2 * (height - 2) } else { 0 }) as nat,
        |i: int| Point { x: if i % 2 == 0 { 0 } else { (width - 1) as u16 }, y: (i / 2 + 1) as u16 },
    )
}

/// The snake's cells, the head first, each with its glyph.
pub open spec fn snake_paint(snake: Seq<Point>) -> Seq<(Point, Glyph)> {
    snake.map(|i: int, p: Point| (p, if i == 0 { Glyph::Head } else { Glyph::Body }))
}

/// The whole board in the canvas's painting order: walls, then food, then
/// the snake.
pub open spec fn board_paint_of(game: Game) -> Seq<(Point, Glyph)> {
    wall_cells(game.width, game.height).map(|i: int, p: Point| (p, Glyph::Wall)) + seq![
        (game.food, Glyph::Food),
    ] + snake_paint(game.snake@)
}

/// The cells of row `y`, left to right.
pub open spec fn row_cells(width: u16, y: u16) -> Seq<Point> {
    Seq::new(width as nat, |i: int| Point { x: i as u16, y })
}

/// The wall cells in the terminal's writing order: the top row left to
/// right, the bottom row left to right, then for each inner row its left and
/// right cell.
pub open spec fn terminal_wall_cells(width: u16, height: u16) -> Seq<Point> {
    row_cells(width, 0) + row_cells(width, (height - 1) as u16) + side_walls(width, height)
}

/// A painted cell as a terminal write.
pub open spec fn as_draw(cell: (Point, Glyph)) -> Draw {
    Draw::Cell(cell.0, cell.1)
}

/// The whole board as the terminal writes it: walls, food, the snake, and
/// last the score line.
pub open spec fn terminal_board_of(game: Game) -> Seq<Draw> {
    terminal_wall_cells(game.width, game.height).map(|i: int, p: Point| Draw::Cell(p, Glyph::Wall))
        + seq![Draw::Cell(game.food, Glyph::Food)] + snake_paint(game.snake@).map(
        |i: int, c: (Point, Glyph)| as_draw(c),
    ) + seq![Draw::Score]
}

/// What the terminal rewrites after a step from a game whose head was
/// `old_head`, whose tail was `old_tail` and whose score was `old_score`:
/// nothing once the game is over; else the old head becomes body, then
/// either the old tail is cleared or, when the snake grew, the new food and
/// the score line are written, and last the new head.
pub open spec fn step_paint_of(game: Game, old_head: Point, old_tail: Point, old_score: usize) -> Seq<
    Draw,
> {
    if game.over {
        Seq::empty()
    } else if game.score == old_score {
        seq![
            Draw::Cell(old_head, Glyph::Body),
            Draw::Cell(old_tail, Glyph::Blank),
            Draw::Cell(game.snake@[0], Glyph::Head),
        ]
    } else {
        seq![
            Draw::Cell(old_head, Glyph::Body),
            Draw::Cell(game.food, Glyph::Food),
            Draw::Score,
            Draw::Cell(game.snake@[0], Glyph::Head),
        ]
    }
}

impl Game {
    /// Every cell the canvas paints to draw the whole board, in order.
    pub fn board_paint(&self) -> (cells: Vec<(Point, Glyph)>)
        requires
            self.height >= 1,
            self.height >= 3 ==> self.width >= 1,
        ensures
            cells@ == board_paint_of(*self),
    {
        let ghost walls = wall_cells(self.width, self.height).map(|i: int, p: Point| (p, Glyph::Wall));
        let ghost top = top_bottom_walls(self.width, self.height);
        let mut cells: Vec<(Point, Glyph)> = Vec::new();
        let mut x: u16 = 0;
        while x < self.width
            invariant
                x <= self.width,
                self.height >= 1,
                cells@.len() == 2 * x,
                top == top_bottom_walls(self.width, self.height),
                forall|k: int| 0 <= k < 2 * x ==> #[trigger] cells@[k] == (top[k], Glyph::Wall),
            decreases self.width - x,
        {
            cells.push((Point { x, y: 0 }, Glyph::Wall));
            cells.push((Point { x, y: self.height - 1 }, Glyph::Wall));
            proof {
                assert forall|k: int| 0 <= k < 2 * (x + 1) implies #[trigger] cells@[k] == (
                    top[k],
                    Glyph::Wall,
                ) by {
                    if k == 2 * x {
                        assert(k / 2 == x && k % 2 == 0);
                        assert(top[k] == Point { x, y: 0 });
                    } else if k == 2 * x + 1 {
                        assert(k / 2 == x && k % 2 == 1);
                        assert(top[k] == Point { x, y: (self.height - 1) as u16 });
                    }
                }
            }
            x += 1;
        }
        let ghost sides = side_walls(self.width, self.height);
        let mut y: u16 = 1;
        while y + 1 < self.height
            invariant
                1 <= y,
                y as int <= self.height - 1 || y == 1,
                self.height >= 3 ==> self.width >= 1,
                cells@.len() == 2 * self.width + 2 * (y - 1),
                top == top_bottom_walls(self.width, self.height),
                sides == side_walls(self.width, self.height),
                forall|k: int| 0 <= k < 2 * self.width ==> #[trigger] cells@[k] == (top[k], Glyph::Wall),
                forall|k: int|
                    0 <= k < 2 * (y - 1) ==> #[trigger] cells@[2 * self.width + k] == (
                        sides[k],
                        Glyph::Wall,
                    ),
            decreases self.height - y,
        {
            cells.push((Point { x: 0, y }, Glyph::Wall));
            cells.push((Point { x: self.width - 1, y }, Glyph::Wall));
            proof {
                assert forall|k: int| 0 <= k < 2 * y implies #[trigger] cells@[2 * self.width + k]
                    == (sides[k], Glyph::Wall) by {
                    if k == 2 * (y - 1) {
                        assert(k / 2 + 1 == y && k % 2 == 0);
                        assert(sides[k] == Point { x: 0, y });
                    } else if k == 2 * (y - 1) + 1 {
                        assert(k / 2 + 1 == y && k % 2 == 1);
                        assert(sides[k] == Point { x: (self.width - 1) as u16, y });
                    }
                }
            }
            y += 1;
        }
        proof {
            let side_len: int = if self.height >= 2 { 2 * (self.height - 2) } else { 0 };
            assert(2 * (y - 1) == side_len);
            assert(cells@ =~= walls) by {
                assert forall|k: int| 0 <= k < cells@.len() implies cells@[k] == walls[k] by {
                    if k < 2 * self.width {
                    } else {
                        assert(cells@[2 * self.width + (k - 2 * self.width)] == (
                            sides[k - 2 * self.width],
                            Glyph::Wall,
                        ));
                    }
                }
            }
        }
        cells.push((self.food, Glyph::Food));
        let ghost prefix = cells@;
        let n = self.snake.len();
        let mut i: usize = 0;
        while i < n
            invariant
                i <= n,
                n == self.snake@.len(),
                cells@ == prefix + snake_paint(self.snake@).take(i as int),
            decreases n - i,
        {
            let glyph = if i == 0 {
                Glyph::Head
            } else {
                Glyph::Body
            };
            cells.push((self.snake[i], glyph));
            assert(snake_paint(self.snake@).take(i + 1) =~= snake_paint(self.snake@).take(
                i as int,
            ).push((self.snake@[i as int], glyph)));
            i += 1;
        }
        assert(snake_paint(self.snake@).take(n as int) =~= snake_paint(self.snake@));
        cells
    }

    /// Every write of the terminal to draw the whole board and the score
    /// line, in order.
    pub fn terminal_board_paint(&self) -> (draws: Vec<Draw>)
        requires
            self.height >= 1,
            self.height >= 3 ==> self.width >= 1,
        ensures
            draws@ == terminal_board_of(*self),
    {
        let ghost top = row_cells(self.width, 0);
        let ghost bottom = row_cells(self.width, (self.height - 1) as u16);
        let ghost sides = side_walls(self.width, self.height);
        let mut draws: Vec<Draw> = Vec::new();
        let mut x: u16 = 0;
        while x < self.width
            invariant
                x <= self.width,
                top == row_cells(self.width, 0),
                draws@.len() == x,
                forall|k: int| 0 <= k < x ==> #[trigger] draws@[k] == Draw::Cell(top[k], Glyph::Wall),
            decreases self.width - x,
        {
            draws.push(Draw::Cell(Point { x, y: 0 }, Glyph::Wall));
            x += 1;
        }
        let mut x: u16 = 0;
        while x < self.width
            invariant
                x <= self.width,
                self.height >= 1,
                top == row_cells(self.width, 0),
                bottom == row_cells(self.width, (self.height - 1) as u16),
                draws@.len() == self.width + x,
                forall|k: int|
                    0 <= k < self.width ==> #[trigger] draws@[k] == Draw::Cell(top[k], Glyph::Wall),
                forall|k: int|
                    0 <= k < x ==> #[trigger] draws@[self.width + k] == Draw::Cell(
                        bottom[k],
                        Glyph::Wall,
                    ),
            decreases self.width - x,
        {
            draws.push(Draw::Cell(Point { x, y: self.height - 1 }, Glyph::Wall));
            x += 1;
        }
        let mut y: u16 = 1;
        while y + 1 < self.height
            invariant
                1 <= y,
                y as int <= self.height - 1 || y == 1,
                self.height >= 3 ==> self.width >= 1,
                top == row_cells(self.width, 0),
                bottom == row_cells(self.width, (self.height - 1) as u16),
                sides == side_walls(self.width, self.height),
                draws@.len() == 2 * self.width + 2 * (y - 1),
                forall|k: int|
                    0 <= k < self.width ==> #[trigger] draws@[k] == Draw::Cell(top[k], Glyph::Wall),
                forall|k: int|
                    0 <= k < self.width ==> #[trigger] draws@[self.width + k] == Draw::Cell(
                        bottom[k],
                        Glyph::Wall,
                    ),
                forall|k: int|
                    0 <= k < 2 * (y - 1) ==> #[trigger] draws@[2 * self.width + k] == Draw::Cell(
                        sides[k],
                        Glyph::Wall,
                    ),
            decreases self.height - y,
        {
            draws.push(Draw::Cell(Point { x: 0, y }, Glyph::Wall));
            draws.push(Draw::Cell(Point { x: self.width - 1, y }, Glyph::Wall));
            proof {
                assert forall|k: int| 0 <= k < 2 * y implies #[trigger] draws@[2 * self.width + k]
                    == Draw::Cell(sides[k], Glyph::Wall) by {
                    if k == 2 * (y - 1) {
                        assert(k / 2 + 1 == y && k % 2 == 0);
                        assert(sides[k] == Point { x: 0, y });
                    } else if k == 2 * (y - 1) + 1 {
                        assert(k / 2 + 1 == y && k % 2 == 1);
                        assert(sides[k] == Point { x: (self.width - 1) as u16, y });
                    }
                }
            }
            y += 1;
        }
        let ghost walls = terminal_wall_cells(self.width, self.height).map(
            |i: int, p: Point| Draw::Cell(p, Glyph::Wall),
        );
        proof {
            let side_len: int = if self.height >= 2 { 2 * (self.height - 2) } else { 0 };
            assert(2 * (y - 1) == side_len);
            assert(draws@ =~= walls) by {
                assert forall|k: int| 0 <= k < draws@.len() implies draws@[k] == walls[k] by {
                    if k < self.width {
                    } else if k < 2 * self.width {
                        assert(draws@[self.width + (k - self.width)] == Draw::Cell(
                            bottom[k - self.width],
                            Glyph::Wall,
                        ));
                    } else {
                        assert(draws@[2 * self.width + (k - 2 * self.width)] == Draw::Cell(
                            sides[k - 2 * self.width],
                            Glyph::Wall,
                        ));
                    }
                }
            }
        }
        draws.push(Draw::Cell(self.food, Glyph::Food));
        let ghost prefix = draws@;
        let ghost body = snake_paint(self.snake@).map(|i: int, c: (Point, Glyph)| as_draw(c));
        let n = self.snake.len();
        let mut i: usize = 0;
        while i < n
            invariant
                i <= n,
                n == self.snake@.len(),
                body == snake_paint(self.snake@).map(|i: int, c: (Point, Glyph)| as_draw(c)),
                draws@ == prefix + body.take(i as int),
            decreases n - i,
        {
            let glyph = if i == 0 {
                Glyph::Head
            } else {
                Glyph::Body
            };
            draws.push(Draw::Cell(self.snake[i], glyph));
            assert(body.take(i + 1) =~= body.take(i as int).push(
                Draw::Cell(self.snake@[i as int], glyph),
            ));
            i += 1;
        }
        assert(body.take(n as int) =~= body);
        draws.push(Draw::Score);
        assert(draws@ =~= terminal_board_of(*self));
        draws
    }

    /// What the terminal rewrites after a step, in order.
    pub fn step_paint(&self, old_head: Point, old_tail: Point, old_score: usize) -> (draws: Vec<
        Draw,
    >)
        requires
            self.over || self.snake@.len() > 0,
        ensures
            draws@ == step_paint_of(*self, old_head, old_tail, old_score),
    {
        let mut draws: Vec<Draw> = Vec::new();
        if self.over {
            return draws;
        }
        let grew = self.score != old_score;
        draws.push(Draw::Cell(old_head, Glyph::Body));
        if !grew {
            draws.push(Draw::Cell(old_tail, Glyph::Blank));
        } else {
            draws.push(Draw::Cell(self.food, Glyph::Food));
            draws.push(Draw::Score);
        }
        draws.push(Draw::Cell(self.snake[0], Glyph::Head));
        assert(draws@ =~= step_paint_of(*self, old_head, old_tail, old_score));
        draws
    }
}

/// A cell of the board's outermost rows or columns.
pub open spec fn border(p: Point, width: u16, height: u16) -> bool {
    on_board(p, width, height) && on_wall(p, width, height)
}

/// `x` lies in `a + b` exactly when it lies in `a` or in `b`.
proof fn lemma_concat_has<A>(a: Seq<A>, b: Seq<A>, x: A)
    ensures
        (a + b).contains(x) <==> (a.contains(x) || b.contains(x)),
{
    if a.contains(x) {
        let k = choose|k: int| 0 <= k < a.len() && a[k] == x;
        assert((a + b)[k] == x);
    }
    if b.contains(x) {
        let k = choose|k: int| 0 <= k < b.len() && b[k] == x;
        assert((a + b)[a.len() + k] == x);
    }
    if (a + b).contains(x) {
        let k = choose|k: int| 0 <= k < (a + b).len() && (a + b)[k] == x;
        if k < a.len() {
            assert(a[k] == x);
        } else {
            assert(b[k - a.len()] == x);
        }
    }
}

/// The side walls are the cells of the first and last column between the
/// top and bottom rows.
proof fn lemma_side_walls_has(width: u16, height: u16, p: Point)
    requires
        height >= 3 ==> width >= 1,
    ensures
        side_walls(width, height).contains(p) <==> (1 <= p.y && p.y + 1 < height && (p.x == 0
            || p.x + 1 == width)),
{
    let sides = side_walls(width, height);
    if sides.contains(p) {
        let k = choose|k: int| 0 <= k < sides.len() && sides[k] == p;
        assert(k / 2 + 1 < height);
    }
    if 1 <= p.y && p.y + 1 < height && (p.x == 0 || p.x + 1 == width) {
        let k: int = if p.x == 0 { 2 * (p.y - 1) } else { 2 * (p.y - 1) + 1 };
        assert(k / 2 + 1 == p.y);
        if p.x == 0 {
            assert(k % 2 == 0);
        } else {
            assert(k % 2 == 1);
        }
        assert(sides[k] == p);
    }
}

/// The wall cells the canvas paints are exactly the cells of the board's
/// outermost rows and columns.
pub proof fn lemma_wall_cells_are_the_border(width: u16, height: u16, p: Point)
    requires
        height >= 1,
        height >= 3 ==> width >= 1,
    ensures
        wall_cells(width, height).contains(p) <==> border(p, width, height),
{
    let top = top_bottom_walls(width, height);
    lemma_concat_has(top, side_walls(width, height), p);
    lemma_side_walls_has(width, height, p);
    if top.contains(p) {
        let k = choose|k: int| 0 <= k < top.len() && top[k] == p;
        assert(k / 2 < width);
    }
    if p.x < width && (p.y == 0 || p.y + 1 == height) {
        let k: int = if p.y == 0 { 2 * p.x } else { 2 * p.x + 1 };
        assert(k / 2 == p.x);
        if p.y == 0 {
            assert(k % 2 == 0);
        } else {
            assert(k % 2 == 1);
        }
        assert(top[k] == p);
    }
}

/// The wall cells the terminal writes are exactly the cells of the board's
/// outermost rows and columns.
pub proof fn lemma_terminal_wall_cells_are_the_border(width: u16, height: u16, p: Point)
    requires
        height >= 1,
        height >= 3 ==> width >= 1,
    ensures
        terminal_wall_cells(width, height).contains(p) <==> border(p, width, height),
{
    let top = row_cells(width, 0);
    let bottom = row_cells(width, (height - 1) as u16);
    lemma_concat_has(top, bottom, p);
    lemma_concat_has(top + bottom, side_walls(width, height), p);
    lemma_side_walls_has(width, height, p);
    if top.contains(p) {
        let k = choose|k: int| 0 <= k < top.len() && top[k] == p;
    }
    if bottom.contains(p) {
        let k = choose|k: int| 0 <= k < bottom.len() && bottom[k] == p;
    }
    if p.x < width && p.y == 0 {
        assert(top[p.x as int] == p);
    }
    if p.x < width && p.y + 1 == height {
        assert(bottom[p.x as int] == p);
    }
}

/// Of all the cells the canvas paints for a board, those painted as wall are
/// exactly the cells of the outermost rows and columns.
pub proof fn lemma_board_paint_walls_are_the_border(game: Game, p: Point)
    requires
        game.height >= 1,
        game.height >= 3 ==> game.width >= 1,
    ensures
        board_paint_of(game).contains((p, Glyph::Wall)) <==> border(p, game.width, game.height),
{
    let cells = wall_cells(game.width, game.height);
    let walls = cells.map(|i: int, q: Point| (q, Glyph::Wall));
    let food = seq![(game.food, Glyph::Food)];
    let body = snake_paint(game.snake@);
    lemma_wall_cells_are_the_border(game.width, game.height, p);
    lemma_concat_has(walls, food, (p, Glyph::Wall));
    lemma_concat_has(walls + food, body, (p, Glyph::Wall));
    if walls.contains((p, Glyph::Wall)) {
        let k = choose|k: int| 0 <= k < walls.len() && walls[k] == (p, Glyph::Wall);
        assert(cells[k] == p);
    }
    if cells.contains(p) {
        let k = choose|k: int| 0 <= k < cells.len() && cells[k] == p;
        assert(walls[k] == (p, Glyph::Wall));
    }
    if body.contains((p, Glyph::Wall)) {
        let k = choose|k: int| 0 <= k < body.len() && body[k] == (p, Glyph::Wall);
    }
    if food.contains((p, Glyph::Wall)) {
        assert(food[0] == (p, Glyph::Wall));
    }
}

/// Of everything the terminal writes for a board, the wall writes are
/// exactly the cells of the outermost rows and columns.
pub proof fn lemma_terminal_board_walls_are_the_border(game: Game, p: Point)
    requires
        game.height >= 1,
        game.height >= 3 ==> game.width >= 1,
    ensures
        terminal_board_of(game).contains(Draw::Cell(p, Glyph::Wall)) <==> border(
            p,
            game.width,
            game.height,
        ),
{
    let cells = terminal_wall_cells(game.width, game.height);
    let walls = cells.map(|i: int, q: Point| Draw::Cell(q, Glyph::Wall));
    let food = seq![Draw::Cell(game.food, Glyph::Food)];
    let body = snake_paint(game.snake@).map(|i: int, c: (Point, Glyph)| as_draw(c));
    let score = seq![Draw::Score];
    let w = Draw::Cell(p, Glyph::Wall);
    lemma_terminal_wall_cells_are_the_border(game.width, game.height, p);
    lemma_concat_has(walls, food, w);
    lemma_concat_has(walls + food, body, w);
    lemma_concat_has(walls + food + body, score, w);
    if walls.contains(w) {
        let k = choose|k: int| 0 <= k < walls.len() && walls[k] == w;
        assert(cells[k] == p);
    }
    if cells.contains(p) {
        let k = choose|k: int| 0 <= k < cells.len() && cells[k] == p;
        assert(walls[k] == w);
    }
    if body.contains(w) {
        let k = choose|k: int| 0 <= k < body.len() && body[k] == w;
        assert(snake_paint(game.snake@)[k].1 != Glyph::Wall);
    }
    if food.contains(w) {
        assert(food[0] == w);
    }
    if score.contains(w) {
        assert(score[0] == w);
    }
}

/// The snake's cells carry its head at the first segment and body glyphs at
/// every later one, and no other glyph.
proof fn lemma_snake_paint_has(snake: Seq<Point>, p: Point, g: Glyph)
    ensures
        snake_paint(snake).contains((p, g)) <==> ((g == Glyph::Head && snake.len() > 0 && snake[0]
            == p) || (g == Glyph::Body && exists|i: int| 1 <= i < snake.len() && snake[i] == p)),
{
    let sp = snake_paint(snake);
    if sp.contains((p, g)) {
        let k = choose|k: int| 0 <= k < sp.len() && sp[k] == (p, g);
        assert(snake[k] == p);
    }
    if g == Glyph::Head && snake.len() > 0 && snake[0] == p {
        assert(sp[0] == (p, g));
    }
    if g == Glyph::Body && exists|i: int| 1 <= i < snake.len() && snake[i] == p {
        let i = choose|i: int| 1 <= i < snake.len() && snake[i] == p;
        assert(sp[i] == (p, g));
    }
}

/// The canvas paints the food at the food's cell, the head at the snake's
/// first segment and body at each later segment, and nowhere else.
pub proof fn lemma_board_paint_shows_food_and_snake(game: Game, p: Point)
    ensures
        board_paint_of(game).contains((p, Glyph::Food)) <==> p == game.food,
        board_paint_of(game).contains((p, Glyph::Head)) <==> (game.snake@.len() > 0
            && game.snake@[0] == p),
        board_paint_of(game).contains((p, Glyph::Body)) <==> exists|i: int|
            1 <= i < game.snake@.len() && game.snake@[i] == p,
        !board_paint_of(game).contains((p, Glyph::Blank)),
{
    let cells = wall_cells(game.width, game.height);
    let walls = cells.map(|i: int, q: Point| (q, Glyph::Wall));
    let food = seq![(game.food, Glyph::Food)];
    let body = snake_paint(game.snake@);
    let gs = seq![Glyph::Food, Glyph::Head, Glyph::Body, Glyph::Blank];
    assert forall|j: int| 0 <= j < 4 implies (board_paint_of(game).contains((p, #[trigger] gs[j]))
        <==> (food.contains((p, gs[j])) || body.contains((p, gs[j])))) by {
        let x = (p, gs[j]);
        lemma_concat_has(walls, food, x);
        lemma_concat_has(walls + food, body, x);
        lemma_snake_paint_has(game.snake@, p, gs[j]);
        if walls.contains(x) {
            let k = choose|k: int| 0 <= k < walls.len() && walls[k] == x;
        }
        if food.contains(x) {
            assert(food[0] == x);
        }
        if x == (game.food, Glyph::Food) {
            assert(food[0] == x);
        }
    }
    assert(gs[0] == Glyph::Food);
    assert(gs[1] == Glyph::Head);
    assert(gs[2] == Glyph::Body);
    assert(gs[3] == Glyph::Blank);
    lemma_snake_paint_has(game.snake@, p, Glyph::Food);
    lemma_snake_paint_has(game.snake@, p, Glyph::Head);
    lemma_snake_paint_has(game.snake@, p, Glyph::Body);
    lemma_snake_paint_has(game.snake@, p, Glyph::Blank);
    if food.contains((p, Glyph::Food)) {
        assert(food[0] == (p, Glyph::Food));
    }
    if p == game.food {
        assert(food[0] == (p, Glyph::Food));
    }
    if food.contains((p, Glyph::Head)) {
        assert(food[0] == (p, Glyph::Head));
    }
    if food.contains((p, Glyph::Body)) {
        assert(food[0] == (p, Glyph::Body));
    }
    if food.contains((p, Glyph::Blank)) {
        assert(food[0] == (p, Glyph::Blank));
    }
}

/// The terminal writes the food at the food's cell, the head at the snake's
/// first segment and body at each later segment, nowhere else, and writes the
/// score line last.
pub proof fn lemma_terminal_board_shows_food_snake_and_score(game: Game, p: Point)
    ensures
        terminal_board_of(game).contains(Draw::Cell(p, Glyph::Food)) <==> p == game.food,
        terminal_board_of(game).contains(Draw::Cell(p, Glyph::Head)) <==> (game.snake@.len() > 0
            && game.snake@[0] == p),
        terminal_board_of(game).contains(Draw::Cell(p, Glyph::Body)) <==> exists|i: int|
            1 <= i < game.snake@.len() && game.snake@[i] == p,
        !terminal_board_of(game).contains(Draw::Cell(p, Glyph::Blank)),
        terminal_board_of(game).last() == Draw::Score,
{
    let cells = terminal_wall_cells(game.width, game.height);
    let walls = cells.map(|i: int, q: Point| Draw::Cell(q, Glyph::Wall));
    let food = seq![Draw::Cell(game.food, Glyph::Food)];
    let sp = snake_paint(game.snake@);
    let body = sp.map(|i: int, c: (Point, Glyph)| as_draw(c));
    let score = seq![Draw::Score];
    let gs = seq![Glyph::Food, Glyph::Head, Glyph::Body, Glyph::Blank];
    assert forall|j: int| 0 <= j < 4 implies (terminal_board_of(game).contains(
        Draw::Cell(p, #[trigger] gs[j]),
    ) <==> (food.contains(Draw::Cell(p, gs[j])) || sp.contains((p, gs[j])))) by {
        let x = Draw::Cell(p, gs[j]);
        lemma_concat_has(walls, food, x);
        lemma_concat_has(walls + food, body, x);
        lemma_concat_has(walls + food + body, score, x);
        if walls.contains(x) {
            let k = choose|k: int| 0 <= k < walls.len() && walls[k] == x;
        }
        if score.contains(x) {
            assert(score[0] == x);
        }
        if body.contains(x) {
            let k = choose|k: int| 0 <= k < body.len() && body[k] == x;
            assert(sp[k] == (p, gs[j]));
        }
        if sp.contains((p, gs[j])) {
            let k = choose|k: int| 0 <= k < sp.len() && sp[k] == (p, gs[j]);
            assert(body[k] == x);
        }
    }
    assert(gs[0] == Glyph::Food);
    assert(gs[1] == Glyph::Head);
    assert(gs[2] == Glyph::Body);
    assert(gs[3] == Glyph::Blank);
    lemma_snake_paint_has(game.snake@, p, Glyph::Food);
    lemma_snake_paint_has(game.snake@, p, Glyph::Head);
    lemma_snake_paint_has(game.snake@, p, Glyph::Body);
    lemma_snake_paint_has(game.snake@, p, Glyph::Blank);
    if food.contains(Draw::Cell(p, Glyph::Food)) {
        assert(food[0] == Draw::Cell(p, Glyph::Food));
    }
    if p == game.food {
        assert(food[0] == Draw::Cell(p, Glyph::Food));
    }
    if food.contains(Draw::Cell(p, Glyph::Head)) {
        assert(food[0] == Draw::Cell(p, Glyph::Head));
    }
    if food.contains(Draw::Cell(p, Glyph::Body)) {
        assert(food[0] == Draw::Cell(p, Glyph::Body));
    }
    if food.contains(Draw::Cell(p, Glyph::Blank)) {
        assert(food[0] == Draw::Cell(p, Glyph::Blank));
    }
}

/// After a step of a sound game, the terminal's rewrite brings the screen in
/// line with the new game: nothing once the game has ended; else the old
/// head, now the second segment, is written as body first and the new head
/// last; when the snake did not grow, the old tail's cell is cleared, which
/// no segment but possibly the new head (written after it) still covers;
/// when it grew, the new food and the score line are written.
pub proof fn lemma_step_paint_follows_the_step(before: Game, after: Game)
    requires
        before.sound(),
        Game::stepped(before, after),
        !before.over,
    ensures
        ({
            let old_head = before.snake@[0];
            let old_tail = before.snake@.last();
            let draws = step_paint_of(after, old_head, old_tail, before.score);
            &&& after.over ==> draws.len() == 0
            &&& !after.over ==> {
                &&& draws[0] == Draw::Cell(old_head, Glyph::Body)
                &&& after.snake@.len() >= 2 ==> after.snake@[1] == old_head
                &&& draws.last() == Draw::Cell(after.snake@[0], Glyph::Head)
                &&& after.score == before.score ==> {
                    &&& draws.len() == 3
                    &&& draws[1] == Draw::Cell(old_tail, Glyph::Blank)
                    &&& forall|i: int| 1 <= i < after.snake@.len() ==> after.snake@[i] != old_tail
                }
                &&& after.score != before.score ==> {
                    &&& draws.len() == 4
                    &&& draws[1] == Draw::Cell(after.food, Glyph::Food)
                    &&& draws[2] == Draw::Score
                }
            }
        }),
{
    let old = before.snake@;
    let n = old.len();
    if !after.over && after.score == before.score {
        assert forall|i: int| 1 <= i < after.snake@.len() implies after.snake@[i] != old[n - 1] by {
            assert(before.grown()[i] == old[i - 1]);
            assert(old[i - 1] != old[n - 1]);
        }
    }
    if !after.over && after.snake@.len() >= 2 {
        assert(before.grown()[1] == old[0]);
    }
}

} // verus!
