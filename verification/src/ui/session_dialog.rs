//! The dialog for a new session, without its widgets: which session the
//! filled-in form describes.

use crate::storage::{fresh_id, is_uuid_text, AuthType, Session, SessionView};
use crate::text::{parse_u16, parsed_u16};
use vstd::prelude::*;
use vstd::string::*;

verus! {

/// What the user has entered in the dialog.
#[derive(Debug)]
pub struct SessionForm {
    pub name: String,
    pub host: String,
    /// The port as it was typed.
    pub port: String,
    pub username: String,
    /// Authenticate by key rather than by password.
    pub use_key: bool,
    pub key_path: String,
    pub use_jump_host: bool,
    pub jump_host: String,
    pub agent_forwarding: bool,
    pub forward_port: bool,
    /// The local port of the forwarding as it was typed.
    pub local_port: String,
    pub remote_address: String,
    pub auto_connect: bool,
}

/// A [`SessionForm`] as a mathematical value.
pub struct SessionFormView {
    pub name: Seq<char>,
    pub host: Seq<char>,
    pub port: Seq<char>,
    pub username: Seq<char>,
    pub use_key: bool,
    pub key_path: Seq<char>,
    pub use_jump_host: bool,
    pub jump_host: Seq<char>,
    pub agent_forwarding: bool,
    pub forward_port: bool,
    pub local_port: Seq<char>,
    pub remote_address: Seq<char>,
    pub auto_connect: bool,
}

impl View for SessionForm {
    type V = SessionFormView;

    open spec fn view(&self) -> SessionFormView {
        SessionFormView {
            name: self.name@,
            host: self.host@,
            port: self.port@,
            username: self.username@,
            use_key: self.use_key,
            key_path: self.key_path@,
            use_jump_host: self.use_jump_host,
            jump_host: self.jump_host@,
            agent_forwarding: self.agent_forwarding,
            forward_port: self.forward_port,
            local_port: self.local_port@,
            remote_address: self.remote_address@,
            auto_connect: self.auto_connect,
        }
    }
}

/// The name of the session of a form: the name that was entered, or user
/// and host with `@` between if none was.
pub open spec fn session_name(form: SessionFormView) -> Seq<char> {
    if form.name.len() == 0 {
        form.username + seq!['@'] + form.host
    } else {
        form.name
    }
}

/// The port that `text` names: a number from 1 to 65535.
pub open spec fn port_named(text: Seq<char>) -> Option<u16> {
    match parsed_u16(text) {
        Some(port) => if port >= 1 {
            Some(port)
        } else {
            None
        },
        None => None,
    }
}

/// The session that `form` describes, under the identifier `id`. A form
/// without a host or without a user describes none.
///
/// A port that is no port counts as 22. The key path, the jump host and
/// the port forwarding are taken over only where the form has them switched
/// on; a local port that is no port is left out.
pub open spec fn described_session(form: SessionFormView, id: Seq<char>) -> Option<SessionView> {
    if form.host.len() == 0 || form.username.len() == 0 {
        None
    } else {
        Some(
            SessionView {
                id,
                name: session_name(form),
                host: form.host,
                port: match port_named(form.port) {
                    Some(port) => port,
                    None => 22,
                },
                username: form.username,
                auth_type: if form.use_key {
                    AuthType::Key
                } else {
                    AuthType::Password
                },
                key_path: if form.use_key {
                    Some(form.key_path)
                } else {
                    None
                },
                folder_id: None,
                auto_connect: form.auto_connect,
                jump_host: if form.use_jump_host {
                    Some(form.jump_host)
                } else {
                    None
                },
                agent_forwarding: form.agent_forwarding,
                port_forward_local: if form.forward_port {
                    port_named(form.local_port)
                } else {
                    None
                },
                port_forward_remote: if form.forward_port {
                    Some(form.remote_address)
                } else {
                    None
                },
            },
        )
    }
}

/// The port that `text` names, if it names one.
pub fn parse_port(text: &str) -> (port: Option<u16>)
    ensures
        port == port_named(text@),
{
    match parse_u16(text) {
        Some(port) => if port >= 1 {
            Some(port)
        } else {
            None
        },
        None => None,
    }
}

impl SessionForm {
    /// The session that this form describes, under the identifier `id`.
    pub fn session_with_id(self, id: String) -> (session: Option<Session>)
        ensures
            session.deep_view() == described_session(self@, id@),
    {
        proof {
            reveal_strlit("@");
        }
        if self.host.as_str().unicode_len() == 0 || self.username.as_str().unicode_len() == 0 {
            return None;
        }
        let port = match parse_port(self.port.as_str()) {
            Some(port) => port,
            None => 22,
        };
        let name = if self.name.as_str().unicode_len() == 0 {
            let mut name = self.username.clone();
            name.append("@");
            name.append(self.host.as_str());
            assert(name@ =~= self@.username + seq!['@'] + self@.host);
            name
        } else {
            self.name
        };
        let port_forward_local = if self.forward_port {
            parse_port(self.local_port.as_str())
        } else {
            None
        };
        Some(
            Session {
                id,
                name,
                host: self.host,
                port,
                username: self.username,
                auth_type: if self.use_key {
                    AuthType::Key
                } else {
                    AuthType::Password
                },
                key_path: if self.use_key {
                    Some(self.key_path)
                } else {
                    None
                },
                folder_id: None,
                auto_connect: self.auto_connect,
                jump_host: if self.use_jump_host {
                    Some(self.jump_host)
                } else {
                    None
                },
                agent_forwarding: self.agent_forwarding,
                port_forward_local,
                port_forward_remote: if self.forward_port {
                    Some(self.remote_address)
                } else {
                    None
                },
            },
        )
    }

    /// The session that this form describes, under a new random identifier.
    pub fn into_session(self) -> (session: Option<Session>)
        ensures
            match session {
                Some(s) => is_uuid_text(s@.id) && Some(s@) == described_session(self@, s@.id),
                None => self@.host.len() == 0 || self@.username.len() == 0,
            },
    {
        let id = fresh_id();
        self.session_with_id(id)
    }
}

} // verus!
