use snake::menu::Key;
use snake::play::{on_event, LoopAction, LoopEvent};
use snake::{Direction, Game, Point};
use std::collections::VecDeque;

#[test]
fn arrows_turn_and_q_quits_while_playing() {
    let mut game = Game::new(20, 10);
    assert_eq!(on_event(&mut game, LoopEvent::Key(Key::Left)), LoopAction::Continue);
    assert_eq!(game.direction, Direction::Right);
    assert_eq!(on_event(&mut game, LoopEvent::Key(Key::Down)), LoopAction::Continue);
    assert_eq!(game.direction, Direction::Down);
    assert_eq!(on_event(&mut game, LoopEvent::Key(Key::Enter)), LoopAction::Continue);
    assert_eq!(game.direction, Direction::Down);
    assert_eq!(on_event(&mut game, LoopEvent::Key(Key::Char('q'))), LoopAction::Quit);
}

#[test]
fn a_due_tick_steps_and_reports_the_old_snake() {
    let mut game = Game::new(20, 10);
    game.food = Point { x: 1, y: 1 };
    let action = on_event(&mut game, LoopEvent::TickDue);
    assert_eq!(
        action,
        LoopAction::Stepped {
            old_head: Point { x: 10, y: 5 },
            old_tail: Point { x: 9, y: 5 },
            old_score: 0,
            finished: false,
        }
    );
    assert_eq!(game.snake[0], Point { x: 11, y: 5 });
    assert!(!game.over);
}

#[test]
fn after_the_game_ends_only_q_is_heeded() {
    let mut game = Game::new(20, 10);
    game.snake = VecDeque::from([Point { x: 1, y: 4 }, Point { x: 2, y: 4 }]);
    game.direction = Direction::Left;
    let action = on_event(&mut game, LoopEvent::TickDue);
    assert_eq!(
        action,
        LoopAction::Stepped {
            old_head: Point { x: 1, y: 4 },
            old_tail: Point { x: 2, y: 4 },
            old_score: 0,
            finished: true,
        }
    );
    assert!(game.over);
    assert_eq!(on_event(&mut game, LoopEvent::Key(Key::Up)), LoopAction::Continue);
    assert_eq!(game.direction, Direction::Left);
    assert_eq!(on_event(&mut game, LoopEvent::TickDue), LoopAction::Continue);
    assert_eq!(game.snake[0], Point { x: 1, y: 4 });
    assert_eq!(on_event(&mut game, LoopEvent::Key(Key::Esc)), LoopAction::Continue);
    assert_eq!(on_event(&mut game, LoopEvent::Key(Key::Char('q'))), LoopAction::Quit);
}

#[test]
fn a_sound_game_with_any_score_stays_sound() {
    let mut game = Game::new(20, 10);
    game.score = 7;
    game.snake = VecDeque::from([
        Point { x: 4, y: 3 },
        Point { x: 4, y: 4 },
        Point { x: 3, y: 4 },
        Point { x: 3, y: 3 },
    ]);
    game.direction = Direction::Right;
    game.food = Point { x: 5, y: 3 };
    on_event(&mut game, LoopEvent::TickDue);
    assert_eq!(game.score, 8);
    assert_eq!(game.snake.len(), 5);
    assert_eq!(game.snake[0], Point { x: 5, y: 3 });
    assert!(!game.snake.contains(&game.food));
}
