use snake::menu::{preset_config, CustomChoice, CustomMenu, Key, MenuChoice, ModeMenu};
use snake::GameConfig;

#[test]
fn terminal_presets_fit_the_terminal() {
    assert_eq!(
        preset_config(0, 200, 100),
        GameConfig { width: 80, height: 40, moves_per_second: 5 }
    );
    assert_eq!(
        preset_config(1, 50, 20),
        GameConfig { width: 50, height: 20, moves_per_second: 8 }
    );
    assert_eq!(
        preset_config(2, 30, 30),
        GameConfig { width: 30, height: 18, moves_per_second: 12 }
    );
}

#[test]
fn mode_menu_moves_within_its_entries() {
    let mut menu = ModeMenu::new();
    assert_eq!(menu.selected(), 1);
    assert_eq!(menu.handle(Key::Up, 100, 50), MenuChoice::Stay);
    assert_eq!(menu.handle(Key::Up, 100, 50), MenuChoice::Stay);
    assert_eq!(menu.selected(), 0);
    for _ in 0..5 {
        menu.handle(Key::Down, 100, 50);
    }
    assert_eq!(menu.selected(), 3);
    assert_eq!(menu.handle(Key::Enter, 100, 50), MenuChoice::Custom);
    assert_eq!(menu.handle(Key::Char('x'), 100, 50), MenuChoice::Stay);
    assert_eq!(menu.handle(Key::Other, 100, 50), MenuChoice::Stay);
}

#[test]
fn mode_menu_digits_and_quit_keys() {
    let mut menu = ModeMenu::new();
    assert_eq!(
        menu.handle(Key::Char('1'), 100, 50),
        MenuChoice::Play(GameConfig { width: 80, height: 40, moves_per_second: 5 })
    );
    assert_eq!(menu.selected(), 0);
    assert_eq!(
        menu.handle(Key::Char('3'), 30, 12),
        MenuChoice::Play(GameConfig { width: 30, height: 12, moves_per_second: 12 })
    );
    assert_eq!(menu.handle(Key::Char('4'), 100, 50), MenuChoice::Custom);
    assert_eq!(menu.selected(), 3);
    assert_eq!(menu.handle(Key::Char('q'), 100, 50), MenuChoice::Quit);
    assert_eq!(menu.handle(Key::Esc, 100, 50), MenuChoice::Quit);
    assert_eq!(menu.selected(), 3);
}

#[test]
fn custom_menu_adjusts_settings_within_bounds() {
    let mut menu = CustomMenu::new(62, 21);
    assert_eq!(menu.config(), GameConfig { width: 60, height: 21, moves_per_second: 8 });
    assert_eq!(menu.selected(), 0);
    for _ in 0..5 {
        menu.handle(Key::Right);
    }
    assert_eq!(menu.config().width, 62);
    for _ in 0..100 {
        menu.handle(Key::Left);
    }
    assert_eq!(menu.config().width, 20);

    menu.handle(Key::Down);
    menu.handle(Key::Right);
    assert_eq!(menu.config().height, 21);
    for _ in 0..50 {
        menu.handle(Key::Left);
    }
    assert_eq!(menu.config().height, 10);

    menu.handle(Key::Down);
    menu.handle(Key::Down);
    assert_eq!(menu.selected(), 2);
    for _ in 0..30 {
        menu.handle(Key::Right);
    }
    assert_eq!(menu.config().moves_per_second, 20);
    for _ in 0..30 {
        menu.handle(Key::Left);
    }
    assert_eq!(menu.config().moves_per_second, 2);

    assert_eq!(
        menu.handle(Key::Enter),
        CustomChoice::Play(GameConfig { width: 20, height: 10, moves_per_second: 2 })
    );
    assert_eq!(menu.handle(Key::Char('z')), CustomChoice::Stay);
    assert_eq!(menu.handle(Key::Char('q')), CustomChoice::Back);
    assert_eq!(menu.handle(Key::Esc), CustomChoice::Back);
}

#[test]
fn custom_menu_refuses_a_width_past_the_integer_range() {
    let mut menu = CustomMenu::new(u16::MAX, u16::MAX);
    assert!(menu.accepts(Key::Right));
    assert!(menu.accepts(Key::Left));
    menu.handle(Key::Up);
    assert_eq!(menu.selected(), 0);
}

#[test]
fn custom_menu_settings_always_fit_the_terminal() {
    let keys = [Key::Left, Key::Right, Key::Up, Key::Down, Key::Right, Key::Right, Key::Left];
    let mut menu = CustomMenu::new(25, 12);
    for round in 0..200 {
        let key = keys[(round * 7 + round / 3) % keys.len()];
        menu.handle(key);
        let config = menu.config();
        assert!(20 <= config.width && config.width <= 25);
        assert!(10 <= config.height && config.height <= 12);
        assert!(2 <= config.moves_per_second && config.moves_per_second <= 20);
        assert!(menu.selected() <= 2);
    }
}
