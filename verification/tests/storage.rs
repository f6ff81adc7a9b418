use terminux::storage::{AuthType, Folder, Session, SessionRow, SessionStore, StoreError};

fn session(id: &str, name: &str) -> Session {
    Session {
        id: id.to_string(),
        name: name.to_string(),
        host: format!("{}.example", id),
        port: 22,
        username: "u".to_string(),
        auth_type: AuthType::Password,
        key_path: None,
        folder_id: None,
        auto_connect: false,
        jump_host: None,
        agent_forwarding: false,
        port_forward_local: None,
        port_forward_remote: None,
    }
}

fn folder(id: &str, name: &str, parent: Option<&str>, order: i32) -> Folder {
    Folder {
        id: id.to_string(),
        name: name.to_string(),
        parent_id: parent.map(|p| p.to_string()),
        sort_order: order,
    }
}

fn is_uuid(text: &str) -> bool {
    text.len() == 36
        && text.char_indices().all(|(i, c)| match i {
            8 | 13 | 18 | 23 => c == '-',
            _ => c.is_ascii_digit() || ('a'..='f').contains(&c),
        })
}

fn session_names(store: &SessionStore) -> Vec<String> {
    store.get_all_sessions().unwrap().into_iter().map(|s| s.name).collect()
}

fn folder_ids(store: &SessionStore) -> Vec<String> {
    store.get_all_folders().unwrap().into_iter().map(|f| f.id).collect()
}

#[test]
fn the_default_session_is_blank_under_a_new_identifier() {
    let s = Session::default();
    assert!(is_uuid(&s.id), "{:?}", s.id);
    assert_eq!(s.name, "");
    assert_eq!(s.host, "");
    assert_eq!(s.port, 22);
    assert_eq!(s.username, "");
    assert_eq!(s.auth_type, AuthType::Password);
    assert_eq!(s.key_path, None);
    assert_eq!(s.folder_id, None);
    assert!(!s.auto_connect);
    assert_eq!(s.jump_host, None);
    assert!(!s.agent_forwarding);
    assert_eq!(s.port_forward_local, None);
    assert_eq!(s.port_forward_remote, None);
    assert_ne!(Session::default().id, s.id);
    assert_eq!(AuthType::default(), AuthType::Password);
}

#[test]
fn the_default_folder_is_nameless_under_a_new_identifier() {
    let f = Folder::default();
    assert!(is_uuid(&f.id), "{:?}", f.id);
    assert_eq!(f.name, "");
    assert_eq!(f.parent_id, None);
    assert_eq!(f.sort_order, 0);
    assert_ne!(Folder::default().id, f.id);
    assert_eq!(f.id.as_bytes()[14], b'4');
}

#[test]
fn sessions_copy_faithfully() {
    let mut s = session("a", "Alpha");
    s.key_path = Some("~/.ssh/id".to_string());
    s.port_forward_local = Some(8080);
    s.port_forward_remote = Some("db:5432".to_string());
    let copy = s.clone();
    assert_eq!(copy.id, s.id);
    assert_eq!(copy.key_path, s.key_path);
    assert_eq!(copy.port_forward_local, Some(8080));
    assert_eq!(copy.port_forward_remote, s.port_forward_remote);
    let f = folder("f", "Work", Some("root"), 3);
    let copy = f.clone();
    assert_eq!((copy.id, copy.name, copy.parent_id, copy.sort_order), (f.id, f.name, f.parent_id, 3));
}

#[test]
fn the_label_names_user_host_and_port() {
    let mut s = session("a", "Alpha");
    s.username = "root".to_string();
    s.host = "10.0.0.1".to_string();
    s.port = 2222;
    assert_eq!(s.label(), "root@10.0.0.1:2222");
}

#[test]
fn a_new_store_is_empty() {
    let store = SessionStore::new();
    assert!(store.get_all_sessions().unwrap().is_empty());
    assert!(store.get_all_folders().unwrap().is_empty());
    assert!(store.get_session("a").unwrap().is_none());
}

#[test]
fn sessions_are_listed_by_name() {
    let mut store = SessionStore::new();
    for (id, name) in [("1", "delta"), ("2", "Alpha"), ("3", "charlie"), ("4", "alpha"), ("5", "Bravo")] {
        assert_eq!(store.create_session(&session(id, name)), Ok(()));
    }
    assert_eq!(session_names(&store), vec!["Alpha", "Bravo", "alpha", "charlie", "delta"]);
}

#[test]
fn sessions_of_one_name_keep_the_order_of_creation() {
    let mut store = SessionStore::new();
    for id in ["z", "a", "m"] {
        store.create_session(&session(id, "same")).unwrap();
    }
    let ids: Vec<String> = store.get_all_sessions().unwrap().into_iter().map(|s| s.id).collect();
    assert_eq!(ids, vec!["z", "a", "m"]);
}

#[test]
fn a_session_is_found_by_its_identifier() {
    let mut store = SessionStore::new();
    store.create_session(&session("a", "Alpha")).unwrap();
    store.create_session(&session("b", "Bravo")).unwrap();
    let found = store.get_session("b").unwrap().unwrap();
    assert_eq!(found.name, "Bravo");
    assert_eq!(found.host, "b.example");
    assert!(store.get_session("c").unwrap().is_none());
    assert!(store.get_session("").unwrap().is_none());
}

#[test]
fn a_second_session_with_the_same_identifier_is_refused() {
    let mut store = SessionStore::new();
    store.create_session(&session("a", "first")).unwrap();
    assert_eq!(store.create_session(&session("a", "second")), Err(StoreError::SessionExists));
    assert_eq!(session_names(&store), vec!["first"]);
}

#[test]
fn update_replaces_the_session_with_that_identifier() {
    let mut store = SessionStore::new();
    store.create_session(&session("a", "Alpha")).unwrap();
    store.create_session(&session("b", "Bravo")).unwrap();
    let mut changed = session("a", "Zulu");
    changed.port = 2200;
    assert_eq!(store.update_session(&changed), Ok(()));
    assert_eq!(session_names(&store), vec!["Bravo", "Zulu"]);
    assert_eq!(store.get_session("a").unwrap().unwrap().port, 2200);
    assert_eq!(store.update_session(&session("missing", "Nobody")), Ok(()));
    assert_eq!(session_names(&store), vec!["Bravo", "Zulu"]);
}

#[test]
fn delete_removes_the_session_with_that_identifier() {
    let mut store = SessionStore::new();
    for (id, name) in [("a", "Alpha"), ("b", "Bravo"), ("c", "Charlie")] {
        store.create_session(&session(id, name)).unwrap();
    }
    assert_eq!(store.delete_session("b"), Ok(()));
    assert_eq!(session_names(&store), vec!["Alpha", "Charlie"]);
    assert_eq!(store.delete_session("b"), Ok(()));
    assert_eq!(session_names(&store), vec!["Alpha", "Charlie"]);
    assert_eq!(store.create_session(&session("b", "Back")), Ok(()));
    assert_eq!(session_names(&store), vec!["Alpha", "Back", "Charlie"]);
}

#[test]
fn folders_are_listed_by_sort_order_and_then_by_name() {
    let mut store = SessionStore::new();
    for f in [
        folder("1", "zeta", None, 0),
        folder("2", "alpha", None, 1),
        folder("3", "beta", None, 0),
        folder("4", "first", None, -5),
        folder("5", "last", None, i32::MAX),
        folder("6", "lowest", None, i32::MIN),
        folder("7", "beta", None, 0),
    ] {
        assert_eq!(store.create_folder(&f), Ok(()));
    }
    assert_eq!(folder_ids(&store), vec!["6", "4", "3", "7", "1", "2", "5"]);
    assert_eq!(store.create_folder(&folder("3", "again", None, 0)), Err(StoreError::FolderExists));
    assert_eq!(folder_ids(&store).len(), 7);
}

#[test]
fn deleting_a_folder_frees_its_sessions_and_removes_its_children() {
    let mut store = SessionStore::new();
    for f in [
        folder("work", "Work", None, 0),
        folder("home", "Home", None, 1),
        folder("prod", "Prod", Some("work"), 0),
        folder("test", "Test", Some("work"), 1),
        folder("deep", "Deep", Some("prod"), 0),
        folder("pets", "Pets", Some("home"), 0),
    ] {
        store.create_folder(&f).unwrap();
    }
    for (id, place) in [("a", Some("work")), ("b", Some("prod")), ("c", Some("home")), ("d", None)] {
        let mut s = session(id, id);
        s.folder_id = place.map(|p| p.to_string());
        store.create_session(&s).unwrap();
    }
    assert_eq!(store.delete_folder("work"), Ok(()));
    assert_eq!(folder_ids(&store), vec!["deep", "pets", "home"]);
    let places: Vec<(String, Option<String>)> =
        store.get_all_sessions().unwrap().into_iter().map(|s| (s.id, s.folder_id)).collect();
    assert_eq!(
        places,
        vec![
            ("a".to_string(), None),
            ("b".to_string(), Some("prod".to_string())),
            ("c".to_string(), Some("home".to_string())),
            ("d".to_string(), None),
        ]
    );
    assert_eq!(store.delete_folder("nowhere"), Ok(()));
    assert_eq!(folder_ids(&store), vec!["deep", "pets", "home"]);
}

#[test]
fn authentication_modes_are_stored_by_name() {
    assert_eq!(AuthType::Password.as_stored(), "Password");
    assert_eq!(AuthType::Key.as_stored(), "Key");
    assert_eq!(AuthType::from_stored("Key"), AuthType::Key);
    assert_eq!(AuthType::from_stored("Password"), AuthType::Password);
    for other in ["", "key", "KEY", "Keys", "Ke", "PublicKey", "anything"] {
        assert_eq!(AuthType::from_stored(other), AuthType::Password, "{:?}", other);
    }
}

#[test]
fn a_session_is_written_into_a_row_and_read_back() {
    let mut s = session("a", "Alpha");
    s.auth_type = AuthType::Key;
    s.key_path = Some("~/.ssh/id".to_string());
    s.auto_connect = true;
    s.jump_host = Some("bastion".to_string());
    s.port_forward_local = Some(8080);
    s.port_forward_remote = Some("db:5432".to_string());
    let row = s.to_row();
    assert_eq!(row.id, "a");
    assert_eq!(row.auth_type, "Key");
    assert_eq!(row.auto_connect, 1);
    assert_eq!(row.agent_forwarding, 0);
    assert_eq!(row.key_path, Some("~/.ssh/id".to_string()));
    assert_eq!(row.port_forward_local, Some(8080));
    let back = Session::from_row(row);
    assert_eq!(back.id, s.id);
    assert_eq!(back.name, s.name);
    assert_eq!(back.host, s.host);
    assert_eq!(back.port, s.port);
    assert_eq!(back.username, s.username);
    assert_eq!(back.auth_type, AuthType::Key);
    assert_eq!(back.key_path, s.key_path);
    assert_eq!(back.folder_id, None);
    assert!(back.auto_connect);
    assert_eq!(back.jump_host, s.jump_host);
    assert!(!back.agent_forwarding);
    assert_eq!(back.port_forward_local, Some(8080));
    assert_eq!(back.port_forward_remote, s.port_forward_remote);
}

#[test]
fn any_number_but_zero_is_a_set_flag() {
    let row = SessionRow {
        id: "a".to_string(),
        name: "n".to_string(),
        host: "h".to_string(),
        port: 22,
        username: "u".to_string(),
        auth_type: "Certificate".to_string(),
        key_path: None,
        folder_id: Some("f".to_string()),
        auto_connect: -1,
        jump_host: None,
        agent_forwarding: 7,
        port_forward_local: None,
        port_forward_remote: None,
    };
    let s = Session::from_row(row);
    assert!(s.auto_connect);
    assert!(s.agent_forwarding);
    assert_eq!(s.auth_type, AuthType::Password);
    assert_eq!(s.folder_id, Some("f".to_string()));
}
