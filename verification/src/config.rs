//! Game configuration: difficulty presets, custom settings clamped to the
//! supported limits, and the duration of one game tick.

use std::time::Duration;
use vstd::prelude::*;

verus! {

pub const MIN_WIDTH: u16 = 20;

pub const MIN_HEIGHT: u16 = 10;

pub const MAX_WIDTH: u16 = 60;

pub const MAX_HEIGHT: u16 = 40;

pub const MIN_SPEED: u16 = 2;

pub const MAX_SPEED: u16 = 20;

#[derive(Copy, Clone, Debug, PartialEq, Eq, Structural)]
pub enum Difficulty {
    Easy,
    Medium,
    Hard,
}

#[derive(Copy, Clone, Debug, PartialEq, Eq, Structural)]
pub struct GameConfig {
    pub width: u16,
    pub height: u16,
    pub moves_per_second: u16,
}

/// `value` forced into the closed range `lo..=hi`.
pub open spec fn clamped(value: u16, lo: u16, hi: u16) -> u16 {
    if value < lo {
        lo
    } else if value > hi {
        hi
    } else {
        value
    }
}

/// The configuration that a difficulty preset stands for.
pub open spec fn preset_of(difficulty: Difficulty) -> GameConfig {
    match difficulty {
        Difficulty::Easy => GameConfig { width: 36, height: 24, moves_per_second: 5 },
        Difficulty::Medium => GameConfig { width: 30, height: 20, moves_per_second: 8 },
        Difficulty::Hard => GameConfig { width: 24, height: 16, moves_per_second: 12 },
    }
}

/// The configuration that custom settings stand for: each setting clamped to
/// its supported limits.
pub open spec fn custom_of(width: u16, height: u16, moves_per_second: u16) -> GameConfig {
    GameConfig {
        width: clamped(width, MIN_WIDTH, MAX_WIDTH),
        height: clamped(height, MIN_HEIGHT, MAX_HEIGHT),
        moves_per_second: clamped(moves_per_second, MIN_SPEED, MAX_SPEED),
    }
}

/// The value that `std::time::Duration::from_millis` returns for `millis`.
pub uninterp spec fn duration_of_millis(millis: u64) -> Duration;

/// Calls `std::time::Duration::from_millis`. Claimed: the result is the
/// duration that the function returns for `millis`, a function of `millis`
/// alone; nothing more is said of it.
#[verifier::external_body]
fn duration_from_millis(millis: u64) -> (d: Duration)
    ensures
        d == duration_of_millis(millis),
{
    Duration::from_millis(millis)
}

/// `value` forced into `lo..=hi`, as `Ord::clamp` computes it on integers.
fn clamp_setting(value: u16, lo: u16, hi: u16) -> (r: u16)
    requires
        lo <= hi,
    ensures
        r == clamped(value, lo, hi),
{
    if value < lo {
        lo
    } else if value > hi {
        hi
    } else {
        value
    }
}

/// The milliseconds between two moves: a thousand divided by the number of
/// moves per second, rounded down.
pub open spec fn tick_millis(config: GameConfig) -> int {
    1000int / (config.moves_per_second as int)
}

impl GameConfig {
    /// The time between two moves: a thousand milliseconds divided by the
    /// number of moves per second, rounded down.
    pub fn tick(self) -> (d: Duration)
        requires
            self.moves_per_second > 0,
        ensures
            d == duration_of_millis(tick_millis(self) as u64),
    {
        let moves: u64 = self.moves_per_second as u64;
        duration_from_millis(1000 / moves)
    }

    pub fn preset(difficulty: Difficulty) -> (config: Self)
        ensures
            config == preset_of(difficulty),
    {
        match difficulty {
            Difficulty::Easy => Self { width: 36, height: 24, moves_per_second: 5 },
            Difficulty::Medium => Self { width: 30, height: 20, moves_per_second: 8 },
            Difficulty::Hard => Self { width: 24, height: 16, moves_per_second: 12 },
        }
    }

    /// Custom settings, each clamped to its supported limits.
    pub fn custom(width: u16, height: u16, moves_per_second: u16) -> (config: Self)
        ensures
            config == custom_of(width, height, moves_per_second),
            MIN_WIDTH <= config.width <= MAX_WIDTH,
            MIN_HEIGHT <= config.height <= MAX_HEIGHT,
            MIN_SPEED <= config.moves_per_second <= MAX_SPEED,
    {
        Self {
            width: clamp_setting(width, MIN_WIDTH, MAX_WIDTH),
            height: clamp_setting(height, MIN_HEIGHT, MAX_HEIGHT),
            moves_per_second: clamp_setting(moves_per_second, MIN_SPEED, MAX_SPEED),
        }
    }
}

/// A configuration within the supported limits.
pub open spec fn supported(config: GameConfig) -> bool {
    &&& MIN_WIDTH <= config.width <= MAX_WIDTH
    &&& MIN_HEIGHT <= config.height <= MAX_HEIGHT
    &&& MIN_SPEED <= config.moves_per_second <= MAX_SPEED
}

/// Custom settings always give a supported configuration, and settings that
/// are already supported are kept as they are; so clamping twice changes
/// nothing.
pub proof fn lemma_custom_clamps(width: u16, height: u16, moves_per_second: u16)
    ensures
        supported(custom_of(width, height, moves_per_second)),
        supported(GameConfig { width, height, moves_per_second }) ==> custom_of(
            width,
            height,
            moves_per_second,
        ) == (GameConfig { width, height, moves_per_second }),
        ({
            let c = custom_of(width, height, moves_per_second);
            custom_of(c.width, c.height, c.moves_per_second) == c
        }),
{
}

/// Every preset is a supported configuration.
pub proof fn lemma_presets_supported(difficulty: Difficulty)
    ensures
        supported(preset_of(difficulty)),
{
}

/// Harder presets move faster on smaller arenas.
pub proof fn lemma_presets_ordered()
    ensures
        ({
            let easy = preset_of(Difficulty::Easy);
            let medium = preset_of(Difficulty::Medium);
            let hard = preset_of(Difficulty::Hard);
            &&& easy.width > medium.width > hard.width
            &&& easy.height > medium.height > hard.height
            &&& easy.moves_per_second < medium.moves_per_second < hard.moves_per_second
        }),
{
}

/// Every supported configuration has a positive speed, so its tick is
/// defined, and a board on which a game can start.
pub proof fn lemma_supported_config_playable(config: GameConfig)
    requires
        supported(config),
    ensures
        config.moves_per_second > 0,
        config.width >= 5,
        config.height >= 4,
{
}

/// A faster setting never has a longer tick: the milliseconds handed to
/// `Duration::from_millis` do not grow with the speed.
pub proof fn lemma_faster_tick_not_longer(slower: GameConfig, faster: GameConfig)
    requires
        1 <= slower.moves_per_second <= faster.moves_per_second,
    ensures
        tick_millis(slower) >= tick_millis(faster),
        0 <= tick_millis(faster) <= 1000,
{
    vstd::arithmetic::div_mod::lemma_div_is_ordered_by_denominator(
        1000int,
        slower.moves_per_second as int,
        faster.moves_per_second as int,
    );
    vstd::arithmetic::div_mod::lemma_div_is_ordered_by_denominator(
        1000int,
        1int,
        faster.moves_per_second as int,
    );
}

} // verus!
