//! What the front end decides without looking at a widget: which terminal
//! sizes are worth announcing, what the terminal shows for an event, which
//! session a filled-in form describes, and where the file browser goes.

mod file_browser;
mod matrix_rain;
mod session_dialog;
mod terminal_view;
mod window;

pub use file_browser::{BrowserView, FileBrowser};
pub use matrix_rain::{rain_characters, rain_charset};
pub use session_dialog::{
    described_session, parse_port, port_named, session_name, SessionForm, SessionFormView,
};
pub use terminal_view::{
    announced, banner_text, connecting_banner, error_text, render_event,
    same_size_is_announced_once, shortcut_for, shown_for, ResizeTracker, Shortcut,
};
pub use window::{closes_window, first_password};
