use snake::config::{
    Difficulty, GameConfig, MAX_HEIGHT, MAX_SPEED, MAX_WIDTH, MIN_HEIGHT, MIN_SPEED, MIN_WIDTH,
};
use std::time::Duration;

#[test]
fn presets_increase_speed_and_reduce_arena_size() {
    let easy = GameConfig::preset(Difficulty::Easy);
    let medium = GameConfig::preset(Difficulty::Medium);
    let hard = GameConfig::preset(Difficulty::Hard);

    assert!(easy.width > medium.width && medium.width > hard.width);
    assert!(easy.height > medium.height && medium.height > hard.height);
    assert!(easy.moves_per_second < medium.moves_per_second);
    assert!(medium.moves_per_second < hard.moves_per_second);
}

#[test]
fn custom_settings_are_clamped_to_supported_limits() {
    assert_eq!(
        GameConfig::custom(1, 1, 1),
        GameConfig {
            width: MIN_WIDTH,
            height: MIN_HEIGHT,
            moves_per_second: MIN_SPEED,
        }
    );
    assert_eq!(
        GameConfig::custom(u16::MAX, u16::MAX, u16::MAX),
        GameConfig {
            width: MAX_WIDTH,
            height: MAX_HEIGHT,
            moves_per_second: MAX_SPEED,
        }
    );
}

#[test]
fn tick_duration_matches_the_selected_speed() {
    let config = GameConfig::custom(30, 20, 10);
    assert_eq!(config.tick(), Duration::from_millis(100));
}

#[test]
fn presets_have_their_documented_values() {
    assert_eq!(
        GameConfig::preset(Difficulty::Easy),
        GameConfig { width: 36, height: 24, moves_per_second: 5 }
    );
    assert_eq!(
        GameConfig::preset(Difficulty::Medium),
        GameConfig { width: 30, height: 20, moves_per_second: 8 }
    );
    assert_eq!(
        GameConfig::preset(Difficulty::Hard),
        GameConfig { width: 24, height: 16, moves_per_second: 12 }
    );
}

#[test]
fn presets_are_supported_custom_settings() {
    for difficulty in [Difficulty::Easy, Difficulty::Medium, Difficulty::Hard] {
        let preset = GameConfig::preset(difficulty);
        assert_eq!(
            GameConfig::custom(preset.width, preset.height, preset.moves_per_second),
            preset
        );
    }
}

#[test]
fn custom_settings_in_range_are_kept_and_clamping_is_idempotent() {
    assert_eq!(
        GameConfig::custom(45, 33, 7),
        GameConfig { width: 45, height: 33, moves_per_second: 7 }
    );
    let once = GameConfig::custom(5, 100, 0);
    assert_eq!(once, GameConfig { width: 20, height: 40, moves_per_second: 2 });
    assert_eq!(GameConfig::custom(once.width, once.height, once.moves_per_second), once);
}

#[test]
fn tick_rounds_the_interval_down() {
    assert_eq!(GameConfig::custom(30, 20, 3).tick(), Duration::from_millis(333));
    assert_eq!(GameConfig::custom(30, 20, 2).tick(), Duration::from_millis(500));
    assert_eq!(GameConfig::custom(30, 20, 20).tick(), Duration::from_millis(50));
}

#[test]
fn a_faster_speed_never_gives_a_longer_tick() {
    for slower in MIN_SPEED..=MAX_SPEED {
        for faster in slower..=MAX_SPEED {
            let a = GameConfig::custom(30, 20, slower).tick();
            let b = GameConfig::custom(30, 20, faster).tick();
            assert!(a >= b);
        }
    }
}
