use rusqlite::Connection;
use terminux::storage::{AuthType, Folder, Session, SessionRow, SessionStore};

// The store keeps in memory what the program keeps in its database. These
// tests run the same steps on both, the database with its checks of
// references switched off, as the store makes none, and hold the two against
// each other.

const SCHEMA: &str = "
    CREATE TABLE sessions (
        id TEXT PRIMARY KEY,
        name TEXT NOT NULL,
        host TEXT NOT NULL,
        port INTEGER DEFAULT 22,
        username TEXT NOT NULL,
        auth_type TEXT NOT NULL,
        key_path TEXT,
        folder_id TEXT,
        auto_connect INTEGER DEFAULT 0,
        jump_host TEXT,
        agent_forwarding INTEGER DEFAULT 0,
        port_forward_local INTEGER,
        port_forward_remote TEXT,
        FOREIGN KEY (folder_id) REFERENCES folders(id)
    );
    CREATE TABLE folders (
        id TEXT PRIMARY KEY,
        name TEXT NOT NULL,
        parent_id TEXT,
        sort_order INTEGER DEFAULT 0,
        FOREIGN KEY (parent_id) REFERENCES folders(id)
    );
    PRAGMA foreign_keys = OFF;
";

fn database() -> Connection {
    let conn = Connection::open_in_memory().unwrap();
    conn.execute_batch(SCHEMA).unwrap();
    conn
}

fn session(id: &str, name: &str, folder: Option<&str>) -> Session {
    Session {
        id: id.to_string(),
        name: name.to_string(),
        host: format!("{}.example", id),
        port: 2200,
        username: "u".to_string(),
        auth_type: AuthType::Key,
        key_path: Some("~/.ssh/id".to_string()),
        folder_id: folder.map(|f| f.to_string()),
        auto_connect: true,
        jump_host: None,
        agent_forwarding: false,
        port_forward_local: Some(8080),
        port_forward_remote: None,
    }
}

fn folder(id: &str, name: &str, parent: Option<&str>, order: i32) -> Folder {
    Folder {
        id: id.to_string(),
        name: name.to_string(),
        parent_id: parent.map(|p| p.to_string()),
        sort_order: order,
    }
}

fn insert_session(conn: &Connection, s: &Session) -> bool {
    let row = s.to_row();
    conn.execute(
        "INSERT INTO sessions (id, name, host, port, username, auth_type, key_path, folder_id,
                               auto_connect, jump_host, agent_forwarding, port_forward_local,
                               port_forward_remote)
         VALUES (?, ?, ?, ?, ?, ?, ?, ?, ?, ?, ?, ?, ?)",
        (
            row.id,
            row.name,
            row.host,
            row.port,
            row.username,
            row.auth_type,
            row.key_path,
            row.folder_id,
            row.auto_connect,
            row.jump_host,
            row.agent_forwarding,
            row.port_forward_local,
            row.port_forward_remote,
        ),
    )
    .is_ok()
}

fn update_session(conn: &Connection, s: &Session) {
    let row = s.to_row();
    conn.execute(
        "UPDATE sessions SET name = ?, host = ?, port = ?, username = ?, auth_type = ?,
                             key_path = ?, folder_id = ?, auto_connect = ?, jump_host = ?,
                             agent_forwarding = ?, port_forward_local = ?, port_forward_remote = ?
         WHERE id = ?",
        (
            row.name,
            row.host,
            row.port,
            row.username,
            row.auth_type,
            row.key_path,
            row.folder_id,
            row.auto_connect,
            row.jump_host,
            row.agent_forwarding,
            row.port_forward_local,
            row.port_forward_remote,
            row.id,
        ),
    )
    .unwrap();
}

fn insert_folder(conn: &Connection, f: &Folder) -> bool {
    conn.execute(
        "INSERT INTO folders (id, name, parent_id, sort_order) VALUES (?, ?, ?, ?)",
        (f.id.as_str(), f.name.as_str(), f.parent_id.as_deref(), f.sort_order),
    )
    .is_ok()
}

fn delete_folder(conn: &Connection, id: &str) {
    conn.execute("UPDATE sessions SET folder_id = NULL WHERE folder_id = ?", [id]).unwrap();
    conn.execute("DELETE FROM folders WHERE parent_id = ?", [id]).unwrap();
    conn.execute("DELETE FROM folders WHERE id = ?", [id]).unwrap();
}

/// The sessions of the database in its order, each as the text of its fields.
fn stored_sessions(conn: &Connection) -> Vec<String> {
    let mut stmt = conn
        .prepare(
            "SELECT id, name, host, port, username, auth_type, key_path, folder_id,
                    auto_connect, jump_host, agent_forwarding, port_forward_local,
                    port_forward_remote
             FROM sessions ORDER BY name, rowid",
        )
        .unwrap();
    let rows = stmt
        .query_map([], |row| {
            Ok(SessionRow {
                id: row.get(0)?,
                name: row.get(1)?,
                host: row.get(2)?,
                port: row.get(3)?,
                username: row.get(4)?,
                auth_type: row.get(5)?,
                key_path: row.get(6)?,
                folder_id: row.get(7)?,
                auto_connect: row.get(8)?,
                jump_host: row.get(9)?,
                agent_forwarding: row.get(10)?,
                port_forward_local: row.get(11)?,
                port_forward_remote: row.get(12)?,
            })
        })
        .unwrap();
    rows.map(|r| format!("{:?}", Session::from_row(r.unwrap()))).collect()
}

fn stored_folders(conn: &Connection) -> Vec<String> {
    let mut stmt = conn
        .prepare(
            "SELECT id, name, parent_id, sort_order FROM folders ORDER BY sort_order, name, rowid",
        )
        .unwrap();
    let rows = stmt
        .query_map([], |row| {
            Ok(Folder {
                id: row.get(0)?,
                name: row.get(1)?,
                parent_id: row.get(2)?,
                sort_order: row.get(3)?,
            })
        })
        .unwrap();
    rows.map(|r| format!("{:?}", r.unwrap())).collect()
}

fn kept_sessions(store: &SessionStore) -> Vec<String> {
    store.get_all_sessions().unwrap().iter().map(|s| format!("{:?}", s)).collect()
}

fn kept_folders(store: &SessionStore) -> Vec<String> {
    store.get_all_folders().unwrap().iter().map(|f| format!("{:?}", f)).collect()
}

#[test]
fn the_store_keeps_sessions_as_the_database_does() {
    let conn = database();
    let mut store = SessionStore::new();
    let names = ["delta", "Alpha", "charlie", "alpha", "Bravo", "", "Zoë", "zebra", "alpha", "é"];
    for (i, name) in names.iter().enumerate() {
        let s = session(&format!("s{}", i), name, None);
        assert_eq!(store.create_session(&s).is_ok(), insert_session(&conn, &s));
    }
    assert_eq!(kept_sessions(&store), stored_sessions(&conn));

    let again = session("s3", "second", None);
    assert_eq!(store.create_session(&again).is_ok(), insert_session(&conn, &again));
    assert!(store.create_session(&again).is_err());
    assert_eq!(kept_sessions(&store), stored_sessions(&conn));

    for s in [session("s0", "omega", Some("f")), session("s4", "", None), session("nope", "x", None)] {
        store.update_session(&s).unwrap();
        update_session(&conn, &s);
        assert_eq!(kept_sessions(&store), stored_sessions(&conn));
    }

    for id in ["s1", "s1", "missing", "s9"] {
        store.delete_session(id).unwrap();
        conn.execute("DELETE FROM sessions WHERE id = ?", [id]).unwrap();
        assert_eq!(kept_sessions(&store), stored_sessions(&conn));
    }

    for id in ["s0", "s1", "s5", "missing"] {
        let kept = store.get_session(id).unwrap().map(|s| format!("{:?}", s));
        let stored = stored_sessions(&conn).into_iter().find(|s| {
            s.contains(&format!("id: {:?},", id))
        });
        assert_eq!(kept, stored, "{}", id);
    }
}

#[test]
fn the_store_keeps_folders_as_the_database_does() {
    let conn = database();
    let mut store = SessionStore::new();
    let folders = [
        folder("work", "Work", None, 0),
        folder("home", "Home", None, 1),
        folder("prod", "Prod", Some("work"), 0),
        folder("test", "Test", Some("work"), -3),
        folder("deep", "Deep", Some("prod"), i32::MAX),
        folder("pets", "Pets", Some("home"), i32::MIN),
        folder("twin", "Prod", None, 0),
        folder("work", "Again", None, 5),
    ];
    for f in &folders {
        assert_eq!(store.create_folder(f).is_ok(), insert_folder(&conn, f), "{}", f.id);
    }
    assert_eq!(kept_folders(&store), stored_folders(&conn));

    for (id, place) in [("a", Some("work")), ("b", Some("prod")), ("c", Some("home")), ("d", None)] {
        let s = session(id, id, place);
        assert_eq!(store.create_session(&s).is_ok(), insert_session(&conn, &s));
    }

    for id in ["work", "nowhere", "pets", "work"] {
        store.delete_folder(id).unwrap();
        delete_folder(&conn, id);
        assert_eq!(kept_folders(&store), stored_folders(&conn), "{}", id);
        assert_eq!(kept_sessions(&store), stored_sessions(&conn), "{}", id);
    }
}
