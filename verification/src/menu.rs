//! The decisions of the terminal front-end: its mode menu, its custom-settings
//! menu and its own presets, as state machines that take one key at a time.

use crate::config::{GameConfig, MAX_SPEED, MIN_HEIGHT, MIN_SPEED, MIN_WIDTH};
use vstd::prelude::*;

verus! {

/// A key press, as the menus read it.
#[derive(Copy, Clone, Debug, PartialEq, Eq, Structural)]
pub enum Key {
    Up,
    Down,
    Left,
    Right,
    Enter,
    Esc,
    Char(char),
    Other,
}

pub open spec fn min_u16(a: u16, b: u16) -> u16 {
    if a <= b {
        a
    } else {
        b
    }
}

pub open spec fn max_u16(a: u16, b: u16) -> u16 {
    if a >= b {
        a
    } else {
        b
    }
}

fn min_of(a: u16, b: u16) -> (r: u16)
    ensures
        r == min_u16(a, b),
{
    if a <= b {
        a
    } else {
        b
    }
}

fn max_of(a: u16, b: u16) -> (r: u16)
    ensures
        r == max_u16(a, b),
{
    if a >= b {
        a
    } else {
        b
    }
}

/// The terminal's preset for mode 0 (easy), 1 (medium) or 2 (hard), its
/// arena shrunk to fit `max_width` by `max_height`.
pub open spec fn terminal_preset_of(mode: int, max_width: u16, max_height: u16) -> GameConfig {
    if mode == 0 {
        GameConfig {
            width: min_u16(80, max_width),
            height: min_u16(40, max_height),
            moves_per_second: 5,
        }
    } else if mode == 1 {
        GameConfig {
            width: min_u16(60, max_width),
            height: min_u16(28, max_height),
            moves_per_second: 8,
        }
    } else {
        GameConfig {
            width: min_u16(40, max_width),
            height: min_u16(18, max_height),
            moves_per_second: 12,
        }
    }
}

/// The terminal's preset for `mode`, fitted to the terminal.
pub fn preset_config(mode: usize, max_width: u16, max_height: u16) -> (config: GameConfig)
    requires
        mode < 3,
    ensures
        config == terminal_preset_of(mode as int, max_width, max_height),
{
    let (width, height, moves_per_second): (u16, u16, u16) = if mode == 0 {
        (80, 40, 5)
    } else if mode == 1 {
        (60, 28, 8)
    } else {
        (40, 18, 12)
    };
    GameConfig {
        width: min_of(width, max_width),
        height: min_of(height, max_height),
        moves_per_second,
    }
}

/// What the mode menu asks the front-end to do after a key.
#[derive(Copy, Clone, Debug, PartialEq, Eq)]
pub enum MenuChoice {
    /// Redraw the menu and wait for the next key.
    Stay,
    /// Start a game with this configuration.
    Play(GameConfig),
    /// Open the custom-settings menu; if it is left without a choice, stay.
    Custom,
    /// Leave without playing.
    Quit,
}

/// The mode menu: Easy, Medium, Hard and Custom, one of them selected.
pub struct ModeMenu {
    selected: usize,
}

/// The digit keys `1` to `4` pick an entry directly.
pub open spec fn is_entry_digit(c: char) -> bool {
    '1' <= c <= '4'
}

impl ModeMenu {
    #[verifier::type_invariant]
    spec fn selection_in_menu(self) -> bool {
        self.selected <= 3
    }

    /// The selected entry: 0 to 2 for the presets, 3 for Custom.
    pub closed spec fn selection(self) -> usize {
        self.selected
    }

    /// The menu as it opens, with Medium selected.
    pub fn new() -> (menu: Self)
        ensures
            menu.selection() == 1,
    {
        ModeMenu { selected: 1 }
    }

    pub fn selected(&self) -> (selected: usize)
        ensures
            selected == self.selection(),
            selected <= 3,
    {
        proof {
            use_type_invariant(self);
        }
        self.selected
    }

    /// The choice that the selected entry stands for.
    pub open spec fn chosen(selected: int, max_width: u16, max_height: u16) -> MenuChoice {
        if selected < 3 {
            MenuChoice::Play(terminal_preset_of(selected, max_width, max_height))
        } else {
            MenuChoice::Custom
        }
    }

    /// One key: Up and Down move the selection within the menu, a digit 1 to
    /// 4 selects and chooses that entry, Enter chooses the selected entry,
    /// q and Esc quit, and any other key changes nothing.
    pub fn handle(&mut self, key: Key, max_width: u16, max_height: u16) -> (choice: MenuChoice)
        ensures
            final(self).selection() <= 3,
            match key {
                Key::Up => final(self).selection() == (if old(self).selection() == 0 {
                    0
                } else {
                    old(self).selection() - 1
                }) && choice == MenuChoice::Stay,
                Key::Down => final(self).selection() == (if old(self).selection() >= 3 {
                    3
                } else {
                    old(self).selection() + 1
                }) && choice == MenuChoice::Stay,
                Key::Char(c) => if is_entry_digit(c) {
                    &&& final(self).selection() == (c as int) - ('1' as int)
                    &&& choice == Self::chosen(
                        final(self).selection() as int,
                        max_width,
                        max_height,
                    )
                    &&& final(self).selection() < 3 ==> choice == MenuChoice::Play(
                        terminal_preset_of(final(self).selection() as int, max_width, max_height),
                    )
                    &&& final(self).selection() == 3 ==> choice == MenuChoice::Custom
                } else if c == 'q' {
                    final(self).selection() == old(self).selection() && choice == MenuChoice::Quit
                } else {
                    final(self).selection() == old(self).selection() && choice == MenuChoice::Stay
                },
                Key::Esc => final(self).selection() == old(self).selection() && choice
                    == MenuChoice::Quit,
                Key::Enter => {
                    &&& final(self).selection() == old(self).selection()
                    &&& choice == Self::chosen(old(self).selection() as int, max_width, max_height)
                    &&& old(self).selection() < 3 ==> choice == MenuChoice::Play(
                        terminal_preset_of(old(self).selection() as int, max_width, max_height),
                    )
                    &&& old(self).selection() == 3 ==> choice == MenuChoice::Custom
                },
                _ => final(self).selection() == old(self).selection() && choice
                    == MenuChoice::Stay,
            },
    {
        proof {
            use_type_invariant(&*self);
        }
        match key {
            Key::Up => {
                self.selected = if self.selected == 0 {
                    0
                } else {
                    self.selected - 1
                };
                MenuChoice::Stay
            },
            Key::Down => {
                self.selected = if self.selected + 1 <= 3 {
                    self.selected + 1
                } else {
                    3
                };
                MenuChoice::Stay
            },
            Key::Char(c) => {
                if '1' <= c && c <= '4' {
                    let digit = (c as u32) - ('1' as u32);
                    self.selected = digit as usize;
                    self.pick(max_width, max_height)
                } else if c == 'q' {
                    MenuChoice::Quit
                } else {
                    MenuChoice::Stay
                }
            },
            Key::Esc => MenuChoice::Quit,
            Key::Enter => self.pick(max_width, max_height),
            _ => MenuChoice::Stay,
        }
    }

    fn pick(&self, max_width: u16, max_height: u16) -> (choice: MenuChoice)
        ensures
            choice == Self::chosen(self.selection() as int, max_width, max_height),
            self.selection() < 3 ==> choice == MenuChoice::Play(
                terminal_preset_of(self.selection() as int, max_width, max_height),
            ),
            self.selection() == 3 ==> choice == MenuChoice::Custom,
    {
        proof {
            use_type_invariant(self);
        }
        if self.selected < 3 {
            MenuChoice::Play(preset_config(self.selected, max_width, max_height))
        } else {
            MenuChoice::Custom
        }
    }
}

/// What the custom-settings menu asks the front-end to do after a key.
#[derive(Copy, Clone, Debug, PartialEq, Eq)]
pub enum CustomChoice {
    /// Redraw the menu and wait for the next key.
    Stay,
    /// Start a game with this configuration.
    Play(GameConfig),
    /// Go back to the mode menu.
    Back,
}

/// The custom-settings menu: arena width, arena height and speed, one of
/// them selected, each adjusted within its bounds.
pub struct CustomMenu {
    config: GameConfig,
    selected: usize,
    max_width: u16,
    max_height: u16,
}

impl CustomMenu {
    #[verifier::type_invariant]
    spec fn settings_in_bounds(self) -> bool {
        &&& self.selected <= 2
        &&& 2 <= self.config.moves_per_second <= 20
        &&& (self.max_width >= MIN_WIDTH && self.max_height >= MIN_HEIGHT) ==> fits(
            self.config,
            self.max_width,
            self.max_height,
        )
    }

    /// The configuration being edited.
    pub closed spec fn draft(self) -> GameConfig {
        self.config
    }

    /// The selected setting: 0 width, 1 height, 2 speed.
    pub closed spec fn setting(self) -> usize {
        self.selected
    }

    /// The largest width and height that fit the terminal.
    pub closed spec fn bounds(self) -> (u16, u16) {
        (self.max_width, self.max_height)
    }

    /// The keys that `handle` accepts: a widening or heightening past
    /// `u16::MAX` overflows.
    pub open spec fn accepts_key(self, key: Key) -> bool {
        &&& (key == Key::Right && self.setting() == 0) ==> self.draft().width < u16::MAX
        &&& (key == Key::Right && self.setting() == 1) ==> self.draft().height < u16::MAX
    }

    /// The menu as it opens: the terminal's medium preset, width selected.
    pub fn new(max_width: u16, max_height: u16) -> (menu: Self)
        ensures
            menu.draft() == terminal_preset_of(1, max_width, max_height),
            menu.setting() == 0,
            menu.bounds() == (max_width, max_height),
            max_width >= MIN_WIDTH && max_height >= MIN_HEIGHT ==> fits(
                menu.draft(),
                max_width,
                max_height,
            ),
    {
        CustomMenu {
            config: preset_config(1, max_width, max_height),
            selected: 0,
            max_width,
            max_height,
        }
    }

    /// The configuration being edited. On a terminal with room for the
    /// smallest arena it always fits the terminal, whatever keys came before,
    /// since `new` establishes this and `handle` keeps it.
    pub fn config(&self) -> (config: GameConfig)
        ensures
            config == self.draft(),
            (self.bounds().0 >= MIN_WIDTH && self.bounds().1 >= MIN_HEIGHT) ==> fits(
                config,
                self.bounds().0,
                self.bounds().1,
            ),
    {
        proof {
            use_type_invariant(self);
        }
        self.config
    }

    pub fn selected(&self) -> (selected: usize)
        ensures
            selected == self.setting(),
            selected <= 2,
    {
        proof {
            use_type_invariant(self);
        }
        self.selected
    }

    /// Whether `handle` accepts `key` in this state.
    pub fn accepts(&self, key: Key) -> (ok: bool)
        ensures
            ok == self.accepts_key(key),
    {
        match key {
            Key::Right => if self.selected == 0 {
                self.config.width < u16::MAX
            } else if self.selected == 1 {
                self.config.height < u16::MAX
            } else {
                true
            },
            _ => true,
        }
    }

    /// One key: Up and Down move the selection among the three settings;
    /// Left lowers the selected setting by one but not below its minimum
    /// (the smallest supported width or height, or speed 2); Right raises it
    /// by one but not above the terminal's width or height, or speed 20;
    /// Enter plays with the settings; Esc and q go back; any other key
    /// changes nothing.
    pub fn handle(&mut self, key: Key) -> (choice: CustomChoice)
        requires
            old(self).accepts_key(key),
        ensures
            final(self).bounds() == old(self).bounds(),
            (final(self).bounds().0 >= MIN_WIDTH && final(self).bounds().1 >= MIN_HEIGHT) ==> fits(
                final(self).draft(),
                final(self).bounds().0,
                final(self).bounds().1,
            ),
            final(self).setting() <= 2,
            2 <= final(self).draft().moves_per_second <= 20,
            final(self).draft() == custom_draft_after(
                old(self).draft(),
                old(self).setting(),
                old(self).bounds().0,
                old(self).bounds().1,
                key,
            ),
            ({
                let before = old(self).draft();
                let after = final(self).draft();
                let (max_width, max_height) = old(self).bounds();
                let s = old(self).setting();
                match key {
                    Key::Up => after == before && final(self).setting() == (if s == 0 {
                        0
                    } else {
                        s - 1
                    }) && choice == CustomChoice::Stay,
                    Key::Down => after == before && final(self).setting() == (if s >= 2 {
                        2
                    } else {
                        s + 1
                    }) && choice == CustomChoice::Stay,
                    Key::Left => final(self).setting() == s && choice == CustomChoice::Stay
                        && after == (if s == 0 {
                        GameConfig {
                            width: max_u16(
                                if before.width == 0 {
                                    0
                                } else {
                                    (before.width - 1) as u16
                                },
                                MIN_WIDTH,
                            ),
                            ..before
                        }
                    } else if s == 1 {
                        GameConfig {
                            height: max_u16(
                                if before.height == 0 {
                                    0
                                } else {
                                    (before.height - 1) as u16
                                },
                                MIN_HEIGHT,
                            ),
                            ..before
                        }
                    } else {
                        GameConfig {
                            moves_per_second: max_u16((before.moves_per_second - 1) as u16, 2),
                            ..before
                        }
                    }),
                    Key::Right => final(self).setting() == s && choice == CustomChoice::Stay
                        && after == (if s == 0 {
                        GameConfig { width: min_u16((before.width + 1) as u16, max_width), ..before }
                    } else if s == 1 {
                        GameConfig {
                            height: min_u16((before.height + 1) as u16, max_height),
                            ..before
                        }
                    } else {
                        GameConfig {
                            moves_per_second: min_u16((before.moves_per_second + 1) as u16, 20),
                            ..before
                        }
                    }),
                    Key::Enter => after == before && final(self).setting() == s && choice
                        == CustomChoice::Play(before),
                    Key::Esc => after == before && final(self).setting() == s && choice
                        == CustomChoice::Back,
                    Key::Char(c) => after == before && final(self).setting() == s && choice == (
                    if c == 'q' {
                        CustomChoice::Back
                    } else {
                        CustomChoice::Stay
                    }),
                    Key::Other => after == before && final(self).setting() == s && choice
                        == CustomChoice::Stay,
                }
            }),
    {
        proof {
            use_type_invariant(&*self);
        }
        match key {
            Key::Up => {
                self.selected = if self.selected == 0 {
                    0
                } else {
                    self.selected - 1
                };
                CustomChoice::Stay
            },
            Key::Down => {
                self.selected = if self.selected + 1 <= 2 {
                    self.selected + 1
                } else {
                    2
                };
                CustomChoice::Stay
            },
            Key::Left => {
                if self.selected == 0 {
                    self.config.width = max_of(self.config.width.saturating_sub(1), MIN_WIDTH);
                } else if self.selected == 1 {
                    self.config.height = max_of(self.config.height.saturating_sub(1), MIN_HEIGHT);
                } else {
                    self.config.moves_per_second = max_of(
                        self.config.moves_per_second.saturating_sub(1),
                        2,
                    );
                }
                CustomChoice::Stay
            },
            Key::Right => {
                if self.selected == 0 {
                    self.config.width = min_of(self.config.width + 1, self.max_width);
                } else if self.selected == 1 {
                    self.config.height = min_of(self.config.height + 1, self.max_height);
                } else {
                    self.config.moves_per_second = min_of(self.config.moves_per_second + 1, 20);
                }
                CustomChoice::Stay
            },
            Key::Enter => CustomChoice::Play(self.config),
            Key::Esc => CustomChoice::Back,
            Key::Char(c) => if c == 'q' {
                CustomChoice::Back
            } else {
                CustomChoice::Stay
            },
            Key::Other => CustomChoice::Stay,
        }
    }
}

/// `value` lowered by one, but not below `floor`.
pub open spec fn lowered(value: u16, floor: u16) -> u16 {
    max_u16(if value == 0 { 0 } else { (value - 1) as u16 }, floor)
}

/// `value` raised by one, but not above `ceiling`.
pub open spec fn raised(value: u16, ceiling: u16) -> u16 {
    min_u16((value + 1) as u16, ceiling)
}

/// The custom settings after `key`, with setting `setting` selected: Left
/// lowers the selected setting, Right raises it, other keys keep them.
pub open spec fn custom_draft_after(
    before: GameConfig,
    setting: usize,
    max_width: u16,
    max_height: u16,
    key: Key,
) -> GameConfig {
    match key {
        Key::Left => if setting == 0 {
            GameConfig { width: lowered(before.width, MIN_WIDTH), ..before }
        } else if setting == 1 {
            GameConfig { height: lowered(before.height, MIN_HEIGHT), ..before }
        } else {
            GameConfig { moves_per_second: lowered(before.moves_per_second, 2), ..before }
        },
        Key::Right => if setting == 0 {
            GameConfig { width: raised(before.width, max_width), ..before }
        } else if setting == 1 {
            GameConfig { height: raised(before.height, max_height), ..before }
        } else {
            GameConfig { moves_per_second: raised(before.moves_per_second, 20), ..before }
        },
        _ => before,
    }
}

/// On a terminal with room for the smallest arena, a key changes at most the
/// selected setting, Left lowers it and Right raises it by one step at most,
/// exactly one step unless it is at its bound, and the settings keep fitting
/// the terminal.
pub proof fn lemma_custom_key_adjusts_one_setting(
    before: GameConfig,
    setting: usize,
    max_width: u16,
    max_height: u16,
    key: Key,
)
    requires
        setting <= 2,
        fits(before, max_width, max_height),
        key == Key::Right && setting == 0 ==> before.width < u16::MAX,
        key == Key::Right && setting == 1 ==> before.height < u16::MAX,
    ensures
        ({
            let after = custom_draft_after(before, setting, max_width, max_height, key);
            &&& fits(after, max_width, max_height)
            &&& !(key == Key::Left || key == Key::Right) ==> after == before
            &&& setting != 0 ==> after.width == before.width
            &&& setting != 1 ==> after.height == before.height
            &&& setting != 2 ==> after.moves_per_second == before.moves_per_second
            &&& key == Key::Left ==> {
                &&& before.width - 1 <= after.width <= before.width
                &&& before.height - 1 <= after.height <= before.height
                &&& before.moves_per_second - 1 <= after.moves_per_second <= before.moves_per_second
                &&& setting == 0 && before.width > MIN_WIDTH ==> after.width + 1 == before.width
                &&& setting == 1 && before.height > MIN_HEIGHT ==> after.height + 1 == before.height
                &&& setting == 2 && before.moves_per_second > MIN_SPEED ==> after.moves_per_second
                    + 1 == before.moves_per_second
            }
            &&& key == Key::Right ==> {
                &&& before.width <= after.width <= before.width + 1
                &&& before.height <= after.height <= before.height + 1
                &&& before.moves_per_second <= after.moves_per_second <= before.moves_per_second + 1
                &&& setting == 0 && before.width < max_width ==> after.width == before.width + 1
                &&& setting == 1 && before.height < max_height ==> after.height == before.height + 1
                &&& setting == 2 && before.moves_per_second < MAX_SPEED ==> after.moves_per_second
                    == before.moves_per_second + 1
            }
        }),
{
}

/// A configuration that fits a terminal whose arena may be `max_width` by
/// `max_height`: at least the smallest supported arena, at most the
/// terminal's, and a supported speed.
pub open spec fn fits(config: GameConfig, max_width: u16, max_height: u16) -> bool {
    &&& MIN_WIDTH <= config.width <= max_width
    &&& MIN_HEIGHT <= config.height <= max_height
    &&& MIN_SPEED <= config.moves_per_second <= MAX_SPEED
}

/// On a terminal with room for the smallest arena, every terminal preset
/// fits it.
pub proof fn lemma_terminal_presets_fit(mode: int, max_width: u16, max_height: u16)
    requires
        0 <= mode < 3,
        max_width >= MIN_WIDTH,
        max_height >= MIN_HEIGHT,
    ensures
        fits(terminal_preset_of(mode, max_width, max_height), max_width, max_height),
{
}

/// A configuration that fits a terminal can start a game and has a tick.
pub proof fn lemma_fitting_config_playable(config: GameConfig, max_width: u16, max_height: u16)
    requires
        fits(config, max_width, max_height),
    ensures
        config.width >= 5,
        config.height >= 4,
        config.moves_per_second > 0,
{
}

/// The terminal's presets: easy is 80 by 40 at 5 moves per second, medium 60
/// by 28 at 8, hard 40 by 18 at 12, each arena shrunk to fit the terminal;
/// so a harder preset is faster and never larger, and every preset fits the
/// terminal's arena.
pub proof fn lemma_terminal_presets(max_width: u16, max_height: u16)
    ensures
        ({
            let easy = terminal_preset_of(0, max_width, max_height);
            let medium = terminal_preset_of(1, max_width, max_height);
            let hard = terminal_preset_of(2, max_width, max_height);
            &&& easy.moves_per_second == 5
            &&& medium.moves_per_second == 8
            &&& hard.moves_per_second == 12
            &&& easy.width == (if max_width < 80 { max_width } else { 80 })
            &&& easy.height == (if max_height < 40 { max_height } else { 40 })
            &&& medium.width == (if max_width < 60 { max_width } else { 60 })
            &&& medium.height == (if max_height < 28 { max_height } else { 28 })
            &&& hard.width == (if max_width < 40 { max_width } else { 40 })
            &&& hard.height == (if max_height < 18 { max_height } else { 18 })
            &&& easy.width >= medium.width >= hard.width
            &&& easy.height >= medium.height >= hard.height
            &&& easy.moves_per_second < medium.moves_per_second < hard.moves_per_second
            &&& easy.width <= max_width && medium.width <= max_width && hard.width <= max_width
            &&& easy.height <= max_height && medium.height <= max_height && hard.height
                <= max_height
        }),
{
}

/// The mode menu plays the preset of the selected entry itself, and the
/// last entry opens the custom menu.
pub proof fn lemma_mode_menu_plays_selected_preset(selected: int, max_width: u16, max_height: u16)
    requires
        0 <= selected <= 3,
    ensures
        selected < 3 ==> ModeMenu::chosen(selected, max_width, max_height) == MenuChoice::Play(
            terminal_preset_of(selected, max_width, max_height),
        ),
        selected == 3 ==> ModeMenu::chosen(selected, max_width, max_height) == MenuChoice::Custom,
{
}

} // verus!
