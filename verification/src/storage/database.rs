//! Sessions as the rows of a table: how a session descriptor is written
//! into a row and read back from one.

use super::session_store::{clone_text, AuthType, Session, SessionView};
use crate::text::chars_of;
use vstd::prelude::*;
use vstd::string::*;

verus! {

/// A row of the table of sessions: the authentication mode by its name, the
/// flags as numbers.
#[derive(Debug)]
pub struct SessionRow {
    pub id: String,
    pub name: String,
    pub host: String,
    pub port: u16,
    pub username: String,
    pub auth_type: String,
    pub key_path: Option<String>,
    pub folder_id: Option<String>,
    pub auto_connect: i32,
    pub jump_host: Option<String>,
    pub agent_forwarding: i32,
    pub port_forward_local: Option<u16>,
    pub port_forward_remote: Option<String>,
}

/// A [`SessionRow`] as a mathematical value.
pub struct SessionRowView {
    pub id: Seq<char>,
    pub name: Seq<char>,
    pub host: Seq<char>,
    pub port: u16,
    pub username: Seq<char>,
    pub auth_type: Seq<char>,
    pub key_path: Option<Seq<char>>,
    pub folder_id: Option<Seq<char>>,
    pub auto_connect: i32,
    pub jump_host: Option<Seq<char>>,
    pub agent_forwarding: i32,
    pub port_forward_local: Option<u16>,
    pub port_forward_remote: Option<Seq<char>>,
}

impl View for SessionRow {
    type V = SessionRowView;

    open spec fn view(&self) -> SessionRowView {
        SessionRowView {
            id: self.id@,
            name: self.name@,
            host: self.host@,
            port: self.port,
            username: self.username@,
            auth_type: self.auth_type@,
            key_path: self.key_path.deep_view(),
            folder_id: self.folder_id.deep_view(),
            auto_connect: self.auto_connect,
            jump_host: self.jump_host.deep_view(),
            agent_forwarding: self.agent_forwarding,
            port_forward_local: self.port_forward_local,
            port_forward_remote: self.port_forward_remote.deep_view(),
        }
    }
}

/// The name under which an authentication mode is stored.
pub open spec fn stored_name(auth_type: AuthType) -> Seq<char> {
    match auth_type {
        AuthType::Password => seq!['P', 'a', 's', 's', 'w', 'o', 'r', 'd'],
        AuthType::Key => seq!['K', 'e', 'y'],
    }
}

/// The authentication mode that a stored name stands for: `Key` for key,
/// and any other name for password.
pub open spec fn auth_type_named(name: Seq<char>) -> AuthType {
    if name == seq!['K', 'e', 'y'] {
        AuthType::Key
    } else {
        AuthType::Password
    }
}

/// The number that a flag is stored as.
pub open spec fn stored_flag(flag: bool) -> i32 {
    if flag {
        1
    } else {
        0
    }
}

/// The row that a session is stored as.
pub open spec fn row_of(s: SessionView) -> SessionRowView {
    SessionRowView {
        id: s.id,
        name: s.name,
        host: s.host,
        port: s.port,
        username: s.username,
        auth_type: stored_name(s.auth_type),
        key_path: s.key_path,
        folder_id: s.folder_id,
        auto_connect: stored_flag(s.auto_connect),
        jump_host: s.jump_host,
        agent_forwarding: stored_flag(s.agent_forwarding),
        port_forward_local: s.port_forward_local,
        port_forward_remote: s.port_forward_remote,
    }
}

/// The session that a row stands for. Every number but zero is a flag that
/// is set.
pub open spec fn session_of(row: SessionRowView) -> SessionView {
    SessionView {
        id: row.id,
        name: row.name,
        host: row.host,
        port: row.port,
        username: row.username,
        auth_type: auth_type_named(row.auth_type),
        key_path: row.key_path,
        folder_id: row.folder_id,
        auto_connect: row.auto_connect != 0,
        jump_host: row.jump_host,
        agent_forwarding: row.agent_forwarding != 0,
        port_forward_local: row.port_forward_local,
        port_forward_remote: row.port_forward_remote,
    }
}

impl AuthType {
    /// The name under which this mode is stored.
    pub fn as_stored(&self) -> (name: &'static str)
        ensures
            name@ == stored_name(*self),
    {
        proof {
            reveal_strlit("Password");
            reveal_strlit("Key");
        }
        match self {
            AuthType::Password => {
                assert("Password"@ =~= seq!['P', 'a', 's', 's', 'w', 'o', 'r', 'd']);
                "Password"
            },
            AuthType::Key => {
                assert("Key"@ =~= seq!['K', 'e', 'y']);
                "Key"
            },
        }
    }

    /// The mode that a stored name stands for.
    pub fn from_stored(name: &str) -> (auth_type: AuthType)
        ensures
            auth_type == auth_type_named(name@),
    {
        let chars = chars_of(name);
        if chars.len() == 3 && chars[0] == 'K' && chars[1] == 'e' && chars[2] == 'y' {
            assert(name@ =~= seq!['K', 'e', 'y']);
            AuthType::Key
        } else {
            AuthType::Password
        }
    }
}

impl Session {
    /// The row that this session is stored as.
    pub fn to_row(&self) -> (row: SessionRow)
        ensures
            row@ == row_of(self@),
    {
        SessionRow {
            id: self.id.clone(),
            name: self.name.clone(),
            host: self.host.clone(),
            port: self.port,
            username: self.username.clone(),
            auth_type: self.auth_type.as_stored().to_owned(),
            key_path: clone_text(&self.key_path),
            folder_id: clone_text(&self.folder_id),
            auto_connect: if self.auto_connect {
                1
            } else {
                0
            },
            jump_host: clone_text(&self.jump_host),
            agent_forwarding: if self.agent_forwarding {
                1
            } else {
                0
            },
            port_forward_local: self.port_forward_local,
            port_forward_remote: clone_text(&self.port_forward_remote),
        }
    }

    /// The session that a row stands for.
    pub fn from_row(row: SessionRow) -> (session: Session)
        ensures
            session@ == session_of(row@),
    {
        Session {
            auth_type: AuthType::from_stored(row.auth_type.as_str()),
            id: row.id,
            name: row.name,
            host: row.host,
            port: row.port,
            username: row.username,
            key_path: row.key_path,
            folder_id: row.folder_id,
            auto_connect: row.auto_connect != 0,
            jump_host: row.jump_host,
            agent_forwarding: row.agent_forwarding != 0,
            port_forward_local: row.port_forward_local,
            port_forward_remote: row.port_forward_remote,
        }
    }
}

/// A session that is stored and read back is the session that was stored.
pub proof fn stored_session_reads_back(s: SessionView)
    ensures
        session_of(row_of(s)) == s,
{
    assert(seq!['P', 'a', 's', 's', 'w', 'o', 'r', 'd'].len() == 8);
    assert(seq!['K', 'e', 'y'].len() == 3);
}

} // verus!
