use terminux::ssh::{SftpClient, SftpEntry, SshCommand, SshEvent};
use terminux::storage::{AuthType, Session};
use terminux::ui::{
    closes_window, connecting_banner, first_password, parse_port, render_event, shortcut_for,
    FileBrowser, ResizeTracker, SessionForm, Shortcut,
};

fn form() -> SessionForm {
    SessionForm {
        name: "Build box".to_string(),
        host: "build.example".to_string(),
        port: "2222".to_string(),
        username: "ci".to_string(),
        use_key: false,
        key_path: "~/.ssh/id_ed25519".to_string(),
        use_jump_host: false,
        jump_host: "bastion".to_string(),
        agent_forwarding: false,
        forward_port: false,
        local_port: "8080".to_string(),
        remote_address: "db:5432".to_string(),
        auto_connect: false,
    }
}

fn entry(name: &str, is_directory: bool) -> SftpEntry {
    SftpEntry { name: name.to_string(), is_directory, size: 1, permissions: 0o644, modified: None }
}

#[test]
fn a_size_is_announced_when_it_changes() {
    let mut tracker = ResizeTracker::new();
    assert_eq!(tracker.observe(80, 24), Some(SshCommand::Resize(80, 24)));
    assert_eq!(tracker.observe(80, 24), None);
    assert_eq!(tracker.observe(80, 24), None);
    assert_eq!(tracker.observe(81, 24), Some(SshCommand::Resize(81, 24)));
    assert_eq!(tracker.observe(81, 25), Some(SshCommand::Resize(81, 25)));
    assert_eq!(tracker.observe(80, 24), Some(SshCommand::Resize(80, 24)));
}

#[test]
fn a_tracker_starts_at_no_size() {
    let mut tracker = ResizeTracker::new();
    assert_eq!(tracker.observe(0, 0), None);
    assert_eq!(tracker.observe(0, 1), Some(SshCommand::Resize(0, 1)));
}

#[test]
fn sizes_out_of_range_wrap_as_a_cast_does() {
    let mut tracker = ResizeTracker::new();
    assert_eq!(tracker.observe(-1, 4_294_967_296 + 24), Some(SshCommand::Resize(u32::MAX, 24)));
    assert_eq!(tracker.observe(-1, 4_294_967_296 + 24), None);
}

#[test]
fn the_banner_names_the_target() {
    let mut session = Session::default();
    session.username = "root".to_string();
    session.host = "example.com".to_string();
    session.port = 2222;
    assert_eq!(connecting_banner(&session), "Connecting to root@example.com:2222...\r\n");
}

#[test]
fn events_are_shown_in_the_terminal() {
    assert_eq!(render_event(&SshEvent::Connected), (Vec::new(), false));
    assert_eq!(
        render_event(&SshEvent::Disconnected),
        (b"\r\n[Connection closed]\r\n".to_vec(), true)
    );
    assert_eq!(render_event(&SshEvent::Data(vec![27, 91, 0, 255])), (vec![27, 91, 0, 255], false));
    assert_eq!(
        render_event(&SshEvent::Error("Authentication failed".to_string())),
        (b"\r\n[Error: Authentication failed]\r\n".to_vec(), false)
    );
    assert_eq!(
        render_event(&SshEvent::Error("zu spät".to_string())),
        ("\r\n[Error: zu spät]\r\n".as_bytes().to_vec(), false)
    );
    assert_eq!(render_event(&SshEvent::SftpReady(SftpClient::new())), (Vec::new(), false));
}

#[test]
fn control_v_pastes_and_control_shift_c_copies() {
    assert_eq!(shortcut_for(true, false, 'v'), Shortcut::Paste);
    assert_eq!(shortcut_for(true, true, 'V'), Shortcut::Paste);
    assert_eq!(shortcut_for(true, true, 'c'), Shortcut::Copy);
    assert_eq!(shortcut_for(true, true, 'C'), Shortcut::Copy);
    assert_eq!(shortcut_for(true, false, 'c'), Shortcut::PassOn);
    assert_eq!(shortcut_for(false, true, 'c'), Shortcut::PassOn);
    assert_eq!(shortcut_for(false, false, 'v'), Shortcut::PassOn);
    assert_eq!(shortcut_for(true, true, 'x'), Shortcut::PassOn);
}

#[test]
fn a_password_session_starts_with_the_empty_password() {
    assert_eq!(first_password(AuthType::Password), Some(String::new()));
    assert_eq!(first_password(AuthType::Key), None);
}

#[test]
fn closing_the_last_tab_closes_the_window() {
    assert!(closes_window(0));
    assert!(closes_window(1));
    assert!(!closes_window(2));
    assert!(!closes_window(10));
}

#[test]
fn a_form_describes_a_session() {
    let session = form().session_with_id("id-1".to_string()).unwrap();
    assert_eq!(session.id, "id-1");
    assert_eq!(session.name, "Build box");
    assert_eq!(session.host, "build.example");
    assert_eq!(session.port, 2222);
    assert_eq!(session.username, "ci");
    assert_eq!(session.auth_type, AuthType::Password);
    assert_eq!(session.key_path, None);
    assert_eq!(session.folder_id, None);
    assert!(!session.auto_connect);
    assert_eq!(session.jump_host, None);
    assert!(!session.agent_forwarding);
    assert_eq!(session.port_forward_local, None);
    assert_eq!(session.port_forward_remote, None);
}

#[test]
fn a_form_without_host_or_user_describes_nothing() {
    let mut no_host = form();
    no_host.host = String::new();
    assert!(no_host.session_with_id("x".to_string()).is_none());
    let mut no_user = form();
    no_user.username = String::new();
    assert!(no_user.session_with_id("x".to_string()).is_none());
    let mut neither = form();
    neither.host = String::new();
    neither.username = String::new();
    assert!(neither.into_session().is_none());
}

#[test]
fn a_session_without_name_is_named_after_user_and_host() {
    let mut unnamed = form();
    unnamed.name = String::new();
    assert_eq!(unnamed.session_with_id("x".to_string()).unwrap().name, "ci@build.example");
}

#[test]
fn a_port_is_a_number_from_1_to_65535() {
    assert_eq!(parse_port("1"), Some(1));
    assert_eq!(parse_port("22"), Some(22));
    assert_eq!(parse_port("65535"), Some(65535));
    assert_eq!(parse_port("+8080"), Some(8080));
    assert_eq!(parse_port("0"), None);
    assert_eq!(parse_port("000"), None);
    assert_eq!(parse_port("65536"), None);
    assert_eq!(parse_port(""), None);
    assert_eq!(parse_port("http"), None);
}

#[test]
fn a_port_that_is_no_port_counts_as_22() {
    for text in ["", "ssh", "70000", "-22", "22 ", "2 2", "0"] {
        let mut f = form();
        f.port = text.to_string();
        assert_eq!(f.session_with_id("x".to_string()).unwrap().port, 22, "{:?}", text);
    }
    let mut f = form();
    f.port = "+443".to_string();
    assert_eq!(f.session_with_id("x".to_string()).unwrap().port, 443);
}

#[test]
fn switched_on_options_are_taken_over() {
    let mut f = form();
    f.use_key = true;
    f.use_jump_host = true;
    f.agent_forwarding = true;
    f.forward_port = true;
    f.auto_connect = true;
    let session = f.session_with_id("x".to_string()).unwrap();
    assert_eq!(session.auth_type, AuthType::Key);
    assert_eq!(session.key_path, Some("~/.ssh/id_ed25519".to_string()));
    assert_eq!(session.jump_host, Some("bastion".to_string()));
    assert!(session.agent_forwarding);
    assert_eq!(session.port_forward_local, Some(8080));
    assert_eq!(session.port_forward_remote, Some("db:5432".to_string()));
    assert!(session.auto_connect);

    let mut f = form();
    f.use_key = true;
    f.key_path = String::new();
    f.forward_port = true;
    f.local_port = "http".to_string();
    f.remote_address = String::new();
    let session = f.session_with_id("x".to_string()).unwrap();
    assert_eq!(session.key_path, Some(String::new()));
    assert_eq!(session.port_forward_local, None);
    assert_eq!(session.port_forward_remote, Some(String::new()));
}

#[test]
fn a_new_session_gets_a_new_identifier() {
    let a = form().into_session().unwrap();
    let b = form().into_session().unwrap();
    assert_eq!(a.id.len(), 36);
    assert_eq!(a.id.matches('-').count(), 4);
    assert_ne!(a.id, b.id);
    assert_eq!(a.name, "Build box");
    assert_eq!(a.port, 2222);
}

#[test]
fn the_browser_starts_at_the_root() {
    let browser = FileBrowser::new();
    assert_eq!(browser.current_path(), "/");
    assert_eq!(browser.entry_count(), 0);
    assert_eq!(browser.navigate_up(), None);
    assert_eq!(browser.refresh(), "/");
    assert_eq!(browser.activate("etc"), None);
}

#[test]
fn activating_a_directory_leads_into_it() {
    let mut browser = FileBrowser::new();
    browser.load_directory("/home/u");
    assert_eq!(browser.entry_count(), 0);
    browser.show(vec![entry("..", true), entry("docs", true), entry("notes.txt", false)]);
    assert_eq!(browser.entry_count(), 3);
    assert_eq!(browser.current_path(), "/home/u");
    assert_eq!(browser.activate("docs"), Some("/home/u/docs".to_string()));
    assert_eq!(browser.activate(".."), Some("/home".to_string()));
    assert_eq!(browser.activate("notes.txt"), None);
    assert_eq!(browser.activate("missing"), None);
    assert_eq!(browser.navigate_up(), Some("/home".to_string()));
    assert_eq!(browser.refresh(), "/home/u");
}

#[test]
fn the_first_entry_of_a_name_decides() {
    let mut browser = FileBrowser::new();
    browser.load_directory("/srv/");
    browser.show(vec![entry("x", false), entry("x", true), entry("y", true), entry("y", false)]);
    assert_eq!(browser.activate("x"), None);
    assert_eq!(browser.activate("y"), Some("/srv/y".to_string()));
}

#[test]
fn loading_a_directory_forgets_the_entries_before() {
    let mut browser = FileBrowser::new();
    browser.show(vec![entry("etc", true)]);
    assert_eq!(browser.activate("etc"), Some("/etc".to_string()));
    browser.load_directory("/etc");
    assert_eq!(browser.activate("etc"), None);
    assert_eq!(browser.navigate_up(), Some("/".to_string()));
}

#[test]
fn the_rain_is_made_of_katakana_digits_and_capitals() {
    let chars = terminux::ui::rain_charset();
    assert_eq!(chars.len(), 92);
    let mut expected: Vec<char> = Vec::new();
    for c in 0xFF66u32..=0xFF9Du32 {
        expected.push(char::from_u32(c).unwrap());
    }
    for c in '0'..='9' {
        expected.push(c);
    }
    for c in "ABCDEFGHIJKLMNOPQRSTUVWXYZ".chars() {
        expected.push(c);
    }
    assert_eq!(chars, expected);
}

#[test]
fn the_browser_starts_at_home_or_at_the_root() {
    assert_eq!(FileBrowser::home_or_root(Ok("/home/u".to_string())), "/home/u");
    assert_eq!(
        FileBrowser::home_or_root(Err(terminux::ssh::SshError::Io("lost".to_string()))),
        "/"
    );
}
