use terminux::config::{ColorScheme, Settings, TerminalSettings, WindowSettings};

#[test]
fn test_default_settings() {
    let settings = Settings::default();
    assert_eq!(settings.terminal.font_size, 11);
    assert!(settings.window.sidebar_visible);
}

#[test]
fn the_default_terminal_is_monospace_with_a_blinking_block() {
    let terminal = TerminalSettings::default();
    assert_eq!(terminal.font_family, "Monospace");
    assert_eq!(terminal.font_size, 11);
    assert_eq!(terminal.scrollback_lines, 10000);
    assert!(terminal.cursor_blink);
    assert_eq!(terminal.cursor_shape, "block");
}

#[test]
fn the_default_colours_are_the_dark_scheme() {
    let colors = ColorScheme::default();
    assert_eq!(colors.name, "Default Dark");
    assert_eq!(colors.foreground, "#e0e0e0");
    assert_eq!(colors.background, "#1e1e1e");
    let palette: Vec<&str> = colors.palette.iter().map(|c| c.as_str()).collect();
    assert_eq!(
        palette,
        vec![
            "#1e1e1e", "#f44747", "#6a9955", "#dcdcaa", "#569cd6", "#c586c0", "#4ec9b0",
            "#d4d4d4", "#808080", "#f44747", "#6a9955", "#dcdcaa", "#569cd6", "#c586c0",
            "#4ec9b0", "#e0e0e0",
        ]
    );
}

#[test]
fn the_default_window_is_1200_by_800() {
    let window = WindowSettings::default();
    assert_eq!(window.width, 1200);
    assert_eq!(window.height, 800);
    assert_eq!(window.sidebar_width, 300);
    assert!(window.sidebar_visible);
    assert_eq!(Settings::default().window, window);
}

#[test]
fn settings_copy_faithfully() {
    let mut settings = Settings::default();
    settings.terminal.font_size = 14;
    settings.colors.palette[3] = "#ffffff".to_string();
    settings.window.width = 640;
    let copy = settings.clone();
    assert_eq!(copy.terminal.font_size, 14);
    assert_eq!(copy.terminal.font_family, "Monospace");
    assert_eq!(copy.colors.palette[3], "#ffffff");
    assert_eq!(copy.colors.palette[15], "#e0e0e0");
    assert_eq!(copy.colors.name, "Default Dark");
    assert_eq!(copy.window.width, 640);
}
