//! The decisions of the terminal's game loop: while the game runs, `q` quits,
//! an arrow key turns the snake and a due tick moves it one step; once the
//! game is over only `q` is heeded.

use crate::game::{turned, Direction, Game, Point};
use crate::menu::Key;
use vstd::prelude::*;

verus! {

/// What the game loop reacts to: a key press, or the moment of the next move.
#[derive(Copy, Clone, Debug, PartialEq, Eq, Structural)]
pub enum LoopEvent {
    Key(Key),
    TickDue,
}

/// What the front-end does after an event.
#[derive(Copy, Clone, Debug, PartialEq, Eq)]
pub enum LoopAction {
    /// Wait for the next event.
    Continue,
    /// The game took a step: redraw from the old head, tail and score, count
    /// the tick as done, and when `finished` show that the game is over.
    Stepped { old_head: Point, old_tail: Point, old_score: usize, finished: bool },
    /// Leave the game.
    Quit,
}

/// The direction an arrow key asks for.
pub open spec fn arrow_direction(key: Key) -> Option<Direction> {
    match key {
        Key::Up => Some(Direction::Up),
        Key::Down => Some(Direction::Down),
        Key::Left => Some(Direction::Left),
        Key::Right => Some(Direction::Right),
        _ => None,
    }
}

/// Reacts to one event. Once the game is over, `q` quits and everything
/// else is ignored. While it runs, `q` quits, an arrow key turns the snake
/// exactly as `Game::change_direction` does, other keys are ignored, and a
/// due tick steps the game, reporting the head, tail and score from before
/// the step and whether the game is now over.
pub fn on_event(game: &mut Game, event: LoopEvent) -> (action: LoopAction)
    requires
        (!old(game).over && event == LoopEvent::TickDue) ==> {
            &&& old(game).snake@.len() > 0
            &&& old(game).step_defined()
        },
    ensures
        old(game).over ==> {
            &&& *final(game) == *old(game)
            &&& action == if event == LoopEvent::Key(Key::Char('q')) {
                LoopAction::Quit
            } else {
                LoopAction::Continue
            }
        },
        !old(game).over ==> match event {
            LoopEvent::Key(key) => {
                &&& final(game).width == old(game).width
                &&& final(game).height == old(game).height
                &&& final(game).snake@ == old(game).snake@
                &&& final(game).food == old(game).food
                &&& final(game).score == old(game).score
                &&& final(game).over == old(game).over
                &&& final(game).direction == match arrow_direction(key) {
                    Some(d) => turned(old(game).direction, d),
                    None => old(game).direction,
                }
                &&& key == Key::Up ==> final(game).direction == if old(game).direction
                    == Direction::Down {
                    Direction::Down
                } else {
                    Direction::Up
                }
                &&& key == Key::Down ==> final(game).direction == if old(game).direction
                    == Direction::Up {
                    Direction::Up
                } else {
                    Direction::Down
                }
                &&& key == Key::Left ==> final(game).direction == if old(game).direction
                    == Direction::Right {
                    Direction::Right
                } else {
                    Direction::Left
                }
                &&& key == Key::Right ==> final(game).direction == if old(game).direction
                    == Direction::Left {
                    Direction::Left
                } else {
                    Direction::Right
                }
                &&& !(key == Key::Up || key == Key::Down || key == Key::Left || key == Key::Right)
                    ==> final(game).direction == old(game).direction
                &&& action == if key == Key::Char('q') {
                    LoopAction::Quit
                } else {
                    LoopAction::Continue
                }
            },
            LoopEvent::TickDue => {
                &&& Game::stepped(*old(game), *final(game))
                &&& action == (LoopAction::Stepped {
                    old_head: old(game).snake@[0],
                    old_tail: old(game).snake@.last(),
                    old_score: old(game).score,
                    finished: final(game).over,
                })
            },
        },
{
    if game.over {
        return match event {
            LoopEvent::Key(Key::Char('q')) => LoopAction::Quit,
            _ => LoopAction::Continue,
        };
    }
    match event {
        LoopEvent::Key(key) => match key {
            Key::Char('q') => LoopAction::Quit,
            Key::Up => {
                game.change_direction(Direction::Up);
                LoopAction::Continue
            },
            Key::Down => {
                game.change_direction(Direction::Down);
                LoopAction::Continue
            },
            Key::Left => {
                game.change_direction(Direction::Left);
                LoopAction::Continue
            },
            Key::Right => {
                game.change_direction(Direction::Right);
                LoopAction::Continue
            },
            _ => LoopAction::Continue,
        },
        LoopEvent::TickDue => {
            let old_head = game.snake[0];
            let old_tail = game.snake[game.snake.len() - 1];
            let old_score = game.score;
            game.step();
            LoopAction::Stepped { old_head, old_tail, old_score, finished: game.over }
        },
    }
}

/// Each arrow key asks for the direction it names, and no other key asks for
/// any.
pub proof fn lemma_arrow_keys_name_their_direction(key: Key)
    ensures
        key == Key::Up ==> arrow_direction(key) == Some(Direction::Up),
        key == Key::Down ==> arrow_direction(key) == Some(Direction::Down),
        key == Key::Left ==> arrow_direction(key) == Some(Direction::Left),
        key == Key::Right ==> arrow_direction(key) == Some(Direction::Right),
        !(key == Key::Up || key == Key::Down || key == Key::Left || key == Key::Right)
            ==> arrow_direction(key) == None::<Direction>,
{
}

} // verus!
