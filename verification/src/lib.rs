//! A snake game engine: board geometry, movement, collisions, scoring and
//! food placement, together with the configuration presets and the decisions
//! that the front-ends take: the terminal's menus and game loop, and what to
//! paint.

pub mod config;
pub mod game;
pub mod menu;
pub mod paint;
pub mod play;

pub use config::GameConfig;
pub use game::{Direction, Game, Point};
