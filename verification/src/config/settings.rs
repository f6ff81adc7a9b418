//! The settings that the front end starts from when no configuration has
//! been saved.

use vstd::prelude::*;
use vstd::string::*;

verus! {

/// How the terminal looks and behaves.
#[derive(Debug)]
pub struct TerminalSettings {
    pub font_family: String,
    pub font_size: u32,
    pub scrollback_lines: u32,
    pub cursor_blink: bool,
    pub cursor_shape: String,
}

/// [`TerminalSettings`] as a mathematical value.
pub struct TerminalSettingsView {
    pub font_family: Seq<char>,
    pub font_size: u32,
    pub scrollback_lines: u32,
    pub cursor_blink: bool,
    pub cursor_shape: Seq<char>,
}

impl View for TerminalSettings {
    type V = TerminalSettingsView;

    open spec fn view(&self) -> TerminalSettingsView {
        TerminalSettingsView {
            font_family: self.font_family@,
            font_size: self.font_size,
            scrollback_lines: self.scrollback_lines,
            cursor_blink: self.cursor_blink,
            cursor_shape: self.cursor_shape@,
        }
    }
}

impl Default for TerminalSettings {
    /// An 11 point monospace font, ten thousand lines of scrollback and a
    /// blinking block cursor.
    fn default() -> (s: TerminalSettings)
        ensures
            s@ == (TerminalSettingsView {
                font_family: "Monospace"@,
                font_size: 11,
                scrollback_lines: 10000,
                cursor_blink: true,
                cursor_shape: "block"@,
            }),
    {
        TerminalSettings {
            font_family: "Monospace".to_owned(),
            font_size: 11,
            scrollback_lines: 10000,
            cursor_blink: true,
            cursor_shape: "block".to_owned(),
        }
    }
}

impl Clone for TerminalSettings {
    fn clone(&self) -> (r: TerminalSettings)
        ensures
            r@ == self@,
    {
        TerminalSettings {
            font_family: self.font_family.clone(),
            font_size: self.font_size,
            scrollback_lines: self.scrollback_lines,
            cursor_blink: self.cursor_blink,
            cursor_shape: self.cursor_shape.clone(),
        }
    }
}

/// The colours of the terminal: foreground, background and the sixteen
/// colours of the palette, each written as `#rrggbb`.
#[derive(Debug)]
pub struct ColorScheme {
    pub name: String,
    pub foreground: String,
    pub background: String,
    pub palette: [String; 16],
}

/// A [`ColorScheme`] as a mathematical value.
pub struct ColorSchemeView {
    pub name: Seq<char>,
    pub foreground: Seq<char>,
    pub background: Seq<char>,
    pub palette: Seq<Seq<char>>,
}

impl View for ColorScheme {
    type V = ColorSchemeView;

    open spec fn view(&self) -> ColorSchemeView {
        ColorSchemeView {
            name: self.name@,
            foreground: self.foreground@,
            background: self.background@,
            palette: Seq::new(16, |i: int| self.palette@[i]@),
        }
    }
}

/// The palette of the default scheme: black, red, green, yellow, blue,
/// magenta, cyan and white, then their bright variants.
pub open spec fn default_palette() -> Seq<Seq<char>> {
    seq![
        "#1e1e1e"@,
        "#f44747"@,
        "#6a9955"@,
        "#dcdcaa"@,
        "#569cd6"@,
        "#c586c0"@,
        "#4ec9b0"@,
        "#d4d4d4"@,
        "#808080"@,
        "#f44747"@,
        "#6a9955"@,
        "#dcdcaa"@,
        "#569cd6"@,
        "#c586c0"@,
        "#4ec9b0"@,
        "#e0e0e0"@,
    ]
}

impl Default for ColorScheme {
    /// The dark default scheme.
    fn default() -> (s: ColorScheme)
        ensures
            s@ == (ColorSchemeView {
                name: "Default Dark"@,
                foreground: "#e0e0e0"@,
                background: "#1e1e1e"@,
                palette: default_palette(),
            }),
    {
        let s = ColorScheme {
            name: "Default Dark".to_owned(),
            foreground: "#e0e0e0".to_owned(),
            background: "#1e1e1e".to_owned(),
            palette: [
                "#1e1e1e".to_owned(),
                "#f44747".to_owned(),
                "#6a9955".to_owned(),
                "#dcdcaa".to_owned(),
                "#569cd6".to_owned(),
                "#c586c0".to_owned(),
                "#4ec9b0".to_owned(),
                "#d4d4d4".to_owned(),
                "#808080".to_owned(),
                "#f44747".to_owned(),
                "#6a9955".to_owned(),
                "#dcdcaa".to_owned(),
                "#569cd6".to_owned(),
                "#c586c0".to_owned(),
                "#4ec9b0".to_owned(),
                "#e0e0e0".to_owned(),
            ],
        };
        assert(s@.palette =~= default_palette());
        s
    }
}

impl Clone for ColorScheme {
    fn clone(&self) -> (r: ColorScheme)
        ensures
            r@ == self@,
    {
        let r = ColorScheme {
            name: self.name.clone(),
            foreground: self.foreground.clone(),
            background: self.background.clone(),
            palette: [
                self.palette[0].clone(),
                self.palette[1].clone(),
                self.palette[2].clone(),
                self.palette[3].clone(),
                self.palette[4].clone(),
                self.palette[5].clone(),
                self.palette[6].clone(),
                self.palette[7].clone(),
                self.palette[8].clone(),
                self.palette[9].clone(),
                self.palette[10].clone(),
                self.palette[11].clone(),
                self.palette[12].clone(),
                self.palette[13].clone(),
                self.palette[14].clone(),
                self.palette[15].clone(),
            ],
        };
        assert(r@.palette =~= self@.palette);
        r
    }
}

/// The geometry of the main window.
#[derive(Debug, Clone, Copy, PartialEq, Eq, Structural)]
pub struct WindowSettings {
    pub width: i32,
    pub height: i32,
    pub sidebar_width: i32,
    pub sidebar_visible: bool,
}

impl Default for WindowSettings {
    /// 1200 by 800, with a visible sidebar 300 wide.
    fn default() -> (s: WindowSettings)
        ensures
            s == (WindowSettings {
                width: 1200,
                height: 800,
                sidebar_width: 300,
                sidebar_visible: true,
            }),
    {
        WindowSettings { width: 1200, height: 800, sidebar_width: 300, sidebar_visible: true }
    }
}

/// Everything the front end can be configured with.
#[derive(Debug)]
pub struct Settings {
    pub terminal: TerminalSettings,
    pub colors: ColorScheme,
    pub window: WindowSettings,
}

/// [`Settings`] as a mathematical value.
pub struct SettingsView {
    pub terminal: TerminalSettingsView,
    pub colors: ColorSchemeView,
    pub window: WindowSettings,
}

impl View for Settings {
    type V = SettingsView;

    open spec fn view(&self) -> SettingsView {
        SettingsView { terminal: self.terminal@, colors: self.colors@, window: self.window }
    }
}

impl Default for Settings {
    /// The defaults of each part.
    fn default() -> (s: Settings)
        ensures
            s@.terminal.font_family == "Monospace"@,
            s@.terminal.font_size == 11,
            s@.terminal.scrollback_lines == 10000,
            s@.terminal.cursor_blink,
            s@.terminal.cursor_shape == "block"@,
            s@.colors.name == "Default Dark"@,
            s@.colors.foreground == "#e0e0e0"@,
            s@.colors.background == "#1e1e1e"@,
            s@.colors.palette == default_palette(),
            s@.window == (WindowSettings {
                width: 1200,
                height: 800,
                sidebar_width: 300,
                sidebar_visible: true,
            }),
    {
        Settings {
            terminal: TerminalSettings::default(),
            colors: ColorScheme::default(),
            window: WindowSettings::default(),
        }
    }
}

impl Clone for Settings {
    fn clone(&self) -> (r: Settings)
        ensures
            r@ == self@,
    {
        Settings {
            terminal: self.terminal.clone(),
            colors: self.colors.clone(),
            window: self.window,
        }
    }
}

} // verus!
