use snake::game::free_cells;
use snake::paint::{Draw, Glyph};
use snake::{Direction, Game, Point};
use std::collections::VecDeque;

#[test]
fn snake_moves_forward_without_growing() {
    let mut game = Game::new(20, 10);
    let old_head = game.snake[0];
    let old_length = game.snake.len();
    game.food = Point { x: 1, y: 1 };

    game.step();

    assert_eq!(
        game.snake[0],
        Point {
            x: old_head.x + 1,
            y: old_head.y
        }
    );
    assert_eq!(game.snake.len(), old_length);
    assert_eq!(game.score, 0);
}

#[test]
fn eating_food_grows_the_snake_and_scores() {
    let mut game = Game::new(20, 10);
    let old_length = game.snake.len();
    let head = game.snake[0];
    game.food = Point {
        x: head.x + 1,
        y: head.y,
    };

    game.step();

    assert_eq!(game.snake.len(), old_length + 1);
    assert_eq!(game.score, 1);
    assert!(!game.snake.contains(&game.food));
}

#[test]
fn wall_collision_ends_the_game() {
    let mut game = Game::new(20, 10);
    game.snake = VecDeque::from([Point { x: 1, y: 4 }, Point { x: 2, y: 4 }]);
    game.direction = Direction::Left;

    game.step();

    assert!(game.over);
    assert_eq!(game.snake[0], Point { x: 1, y: 4 });
}

#[test]
fn body_collision_ends_the_game() {
    let mut game = Game::new(20, 10);
    game.snake = VecDeque::from([
        Point { x: 4, y: 3 },
        Point { x: 4, y: 4 },
        Point { x: 3, y: 4 },
        Point { x: 3, y: 3 },
    ]);
    game.direction = Direction::Down;

    game.step();

    assert!(game.over);
}

#[test]
fn snake_can_move_into_a_vacating_tail_cell() {
    let mut game = Game::new(20, 10);
    game.snake = VecDeque::from([
        Point { x: 4, y: 3 },
        Point { x: 4, y: 4 },
        Point { x: 3, y: 4 },
        Point { x: 3, y: 3 },
    ]);
    game.direction = Direction::Left;
    game.food = Point { x: 1, y: 1 };

    game.step();

    assert!(!game.over);
    assert_eq!(game.snake[0], Point { x: 3, y: 3 });
    assert_eq!(game.snake.len(), 4);
}

#[test]
fn direction_changes_reject_immediate_reversal() {
    let mut game = Game::new(20, 10);

    game.change_direction(Direction::Left);
    assert_eq!(game.direction, Direction::Right);

    game.change_direction(Direction::Up);
    assert_eq!(game.direction, Direction::Up);
}

fn interior(p: Point, width: u16, height: u16) -> bool {
    p.x >= 1 && p.x + 2 <= width && p.y >= 1 && p.y + 2 <= height
}

#[test]
fn a_new_game_starts_centred_heading_right_with_food_on_a_free_cell() {
    for (width, height) in [(20, 10), (5, 3), (3, 4), (60, 40), (7, 7)] {
        let game = Game::new(width, height);
        assert_eq!(game.width, width);
        assert_eq!(game.height, height);
        assert_eq!(
            game.snake,
            VecDeque::from([
                Point { x: width / 2, y: height / 2 },
                Point { x: width / 2 - 1, y: height / 2 },
            ])
        );
        assert_eq!(game.direction, Direction::Right);
        assert_eq!(game.score, 0);
        assert!(!game.over);
        assert!(interior(game.food, width, height));
        assert!(!game.snake.contains(&game.food));
    }
}

#[test]
fn food_goes_to_the_only_free_cell() {
    // On a 5 by 3 board the interior is (1,1), (2,1), (3,1); the snake covers two.
    for _ in 0..20 {
        let game = Game::new(5, 3);
        assert_eq!(game.food, Point { x: 3, y: 1 });
    }
}

#[test]
fn free_cells_lists_uncovered_interior_cells_row_by_row() {
    let snake = VecDeque::from([Point { x: 2, y: 1 }, Point { x: 1, y: 2 }]);
    assert_eq!(
        free_cells(&snake, 5, 4),
        vec![
            Point { x: 1, y: 1 },
            Point { x: 3, y: 1 },
            Point { x: 2, y: 2 },
            Point { x: 3, y: 2 },
        ]
    );
    assert_eq!(free_cells(&snake, 2, 2), vec![]);
    assert_eq!(free_cells(&VecDeque::new(), 3, 3), vec![Point { x: 1, y: 1 }]);
}

#[test]
fn a_finished_game_does_not_move() {
    let mut game = Game::new(20, 10);
    game.over = true;
    let snake = game.snake.clone();
    let food = game.food;
    game.step();
    assert!(game.over);
    assert_eq!(game.snake, snake);
    assert_eq!(game.food, food);
    assert_eq!(game.score, 0);
}

#[test]
fn moves_in_each_direction_advance_the_head_by_one_cell() {
    let cases = [
        (Direction::Up, Point { x: 5, y: 4 }),
        (Direction::Down, Point { x: 5, y: 6 }),
        (Direction::Left, Point { x: 4, y: 5 }),
        (Direction::Right, Point { x: 6, y: 5 }),
    ];
    for (direction, expected) in cases {
        let mut game = Game::new(20, 10);
        game.snake = VecDeque::from([Point { x: 5, y: 5 }]);
        game.food = Point { x: 1, y: 1 };
        game.direction = direction;
        game.step();
        assert!(!game.over);
        assert_eq!(game.snake, VecDeque::from([expected]));
    }
}

#[test]
fn running_into_the_right_and_bottom_walls_ends_the_game() {
    let mut game = Game::new(20, 10);
    game.snake = VecDeque::from([Point { x: 18, y: 3 }]);
    game.direction = Direction::Right;
    game.step();
    assert!(game.over);
    assert_eq!(game.snake, VecDeque::from([Point { x: 18, y: 3 }]));

    let mut game = Game::new(20, 10);
    game.snake = VecDeque::from([Point { x: 4, y: 8 }]);
    game.direction = Direction::Down;
    game.step();
    assert!(game.over);
}

#[test]
fn eating_into_the_tail_cell_ends_the_game() {
    let mut game = Game::new(20, 10);
    game.snake = VecDeque::from([
        Point { x: 4, y: 3 },
        Point { x: 4, y: 4 },
        Point { x: 3, y: 4 },
        Point { x: 3, y: 3 },
    ]);
    game.direction = Direction::Left;
    game.food = Point { x: 3, y: 3 };
    game.step();
    assert!(game.over);
    assert_eq!(game.score, 0);
}

#[test]
fn turning_is_refused_only_for_the_reverse_direction() {
    let all = [Direction::Up, Direction::Down, Direction::Left, Direction::Right];
    let opposite = |d: Direction| match d {
        Direction::Up => Direction::Down,
        Direction::Down => Direction::Up,
        Direction::Left => Direction::Right,
        Direction::Right => Direction::Left,
    };
    for current in all {
        for requested in all {
            let mut game = Game::new(20, 10);
            game.direction = current;
            game.change_direction(requested);
            let expected = if requested == opposite(current) { current } else { requested };
            assert_eq!(game.direction, expected);
            assert_ne!(game.direction, opposite(current));
        }
    }
}

#[test]
fn playing_keeps_the_snake_consistent_with_the_score() {
    let mut game = Game::new(12, 8);
    let turns = [Direction::Up, Direction::Left, Direction::Down, Direction::Right];
    for round in 0..400 {
        if round % 3 == 0 {
            game.change_direction(turns[(round / 3) % 4]);
        }
        // Steer towards the food to exercise growth.
        let head = game.snake[0];
        let wanted = if game.food.x > head.x {
            Direction::Right
        } else if game.food.x < head.x {
            Direction::Left
        } else if game.food.y > head.y {
            Direction::Down
        } else {
            Direction::Up
        };
        game.change_direction(wanted);
        game.step();
        assert_eq!(game.snake.len(), game.score + 2);
        assert!(interior(game.food, 12, 8));
        assert!(!game.snake.contains(&game.food));
        for (i, p) in game.snake.iter().enumerate() {
            assert!(interior(*p, 12, 8));
            if let Some(q) = game.snake.get(i + 1) {
                assert_eq!(p.x.abs_diff(q.x) + p.y.abs_diff(q.y), 1);
            }
            for q in game.snake.iter().skip(i + 1) {
                assert_ne!(p, q);
            }
        }
        if game.over {
            break;
        }
    }
}

#[test]
fn board_paint_lists_walls_then_food_then_snake() {
    let mut game = Game::new(4, 4);
    game.food = Point { x: 2, y: 1 };
    game.snake = VecDeque::from([Point { x: 1, y: 2 }, Point { x: 1, y: 1 }]);
    let cells = game.board_paint();
    let wall = |x, y| (Point { x, y }, Glyph::Wall);
    assert_eq!(
        cells,
        vec![
            wall(0, 0),
            wall(0, 3),
            wall(1, 0),
            wall(1, 3),
            wall(2, 0),
            wall(2, 3),
            wall(3, 0),
            wall(3, 3),
            wall(0, 1),
            wall(3, 1),
            wall(0, 2),
            wall(3, 2),
            (Point { x: 2, y: 1 }, Glyph::Food),
            (Point { x: 1, y: 2 }, Glyph::Head),
            (Point { x: 1, y: 1 }, Glyph::Body),
        ]
    );
}

#[test]
fn step_paint_redraws_head_tail_and_food() {
    let mut game = Game::new(20, 10);
    game.food = Point { x: 1, y: 1 };
    let old_head = game.snake[0];
    let old_tail = game.snake[1];
    game.step();
    assert_eq!(
        game.step_paint(old_head, old_tail, 0),
        vec![
            Draw::Cell(old_head, Glyph::Body),
            Draw::Cell(old_tail, Glyph::Blank),
            Draw::Cell(game.snake[0], Glyph::Head),
        ]
    );

    let mut game = Game::new(20, 10);
    let old_head = game.snake[0];
    let old_tail = game.snake[1];
    game.food = Point { x: old_head.x + 1, y: old_head.y };
    game.step();
    assert_eq!(
        game.step_paint(old_head, old_tail, 0),
        vec![
            Draw::Cell(old_head, Glyph::Body),
            Draw::Cell(game.food, Glyph::Food),
            Draw::Score,
            Draw::Cell(game.snake[0], Glyph::Head),
        ]
    );

    game.over = true;
    assert_eq!(game.step_paint(old_head, old_tail, 0), vec![]);
}

#[test]
fn terminal_board_paint_writes_rows_then_sides_then_food_snake_and_score() {
    let mut game = Game::new(4, 4);
    game.food = Point { x: 2, y: 1 };
    game.snake = VecDeque::from([Point { x: 1, y: 2 }, Point { x: 1, y: 1 }]);
    let wall = |x, y| Draw::Cell(Point { x, y }, Glyph::Wall);
    assert_eq!(
        game.terminal_board_paint(),
        vec![
            wall(0, 0),
            wall(1, 0),
            wall(2, 0),
            wall(3, 0),
            wall(0, 3),
            wall(1, 3),
            wall(2, 3),
            wall(3, 3),
            wall(0, 1),
            wall(3, 1),
            wall(0, 2),
            wall(3, 2),
            Draw::Cell(Point { x: 2, y: 1 }, Glyph::Food),
            Draw::Cell(Point { x: 1, y: 2 }, Glyph::Head),
            Draw::Cell(Point { x: 1, y: 1 }, Glyph::Body),
            Draw::Score,
        ]
    );
}

#[test]
fn a_step_that_would_leave_no_cell_for_food_is_refused() {
    // On a 5 by 3 board the snake's next move eats the last free cell.
    let game = Game::new(5, 3);
    assert_eq!(game.food, Point { x: 3, y: 1 });
    assert!(!game.can_step());

    let mut game = Game::new(20, 10);
    assert!(game.can_step());
    game.snake.clear();
    assert!(!game.can_step());
    game.over = true;
    assert!(game.can_step());

    let mut game = Game::new(20, 10);
    game.snake = VecDeque::from([Point { x: 5, y: u16::MAX }]);
    game.direction = Direction::Down;
    assert!(!game.can_step());
}
