//! The settings of the front end.

mod settings;

pub use settings::{
    default_palette, ColorScheme, ColorSchemeView, Settings, SettingsView, TerminalSettings,
    TerminalSettingsView, WindowSettings,
};
