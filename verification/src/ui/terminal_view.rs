//! The terminal of an SSH tab, without the widget: which changes of size are
//! announced to the engine, and what is written into the terminal for each
//! event of the engine.

use crate::ssh::{SshCommand, SshCommandView, SshEvent, SshEventView};
use crate::storage::{Session, SessionView};
use crate::text::{decimal, push_decimal};
use vstd::prelude::*;
use vstd::string::*;
use vstd::utf8::encode_utf8;

verus! {

/// What a change of size to `columns` by `rows` leads to when the size last
/// seen was `last`: the size now seen, and the command that announces it if
/// it differs from the last one.
pub open spec fn announced(last: (i64, i64), columns: i64, rows: i64) -> (
    (i64, i64),
    Option<SshCommandView>,
) {
    if last == (columns, rows) {
        (last, None)
    } else {
        ((columns, rows), Some(SshCommandView::Resize(columns as u32, rows as u32)))
    }
}

/// Remembers the size of the terminal that was last announced to the engine,
/// so that a layout pass that changes nothing announces nothing.
#[derive(Debug, Clone, Copy, PartialEq, Eq, Structural)]
pub struct ResizeTracker {
    columns: i64,
    rows: i64,
}

impl View for ResizeTracker {
    type V = (i64, i64);

    /// The size last seen.
    closed spec fn view(&self) -> (i64, i64) {
        (self.columns, self.rows)
    }
}

impl ResizeTracker {
    /// A tracker that has seen no size yet.
    pub fn new() -> (t: ResizeTracker)
        ensures
            t@ == (0i64, 0i64),
    {
        ResizeTracker { columns: 0, rows: 0 }
    }

    /// The terminal now has `columns` by `rows`: the `Resize` to send, if
    /// this is not the size that was seen last.
    pub fn observe(&mut self, columns: i64, rows: i64) -> (command: Option<SshCommand>)
        ensures
            final(self)@ == announced(old(self)@, columns, rows).0,
            match command {
                Some(c) => Some(c@) == announced(old(self)@, columns, rows).1,
                None => announced(old(self)@, columns, rows).1 is None,
            },
    {
        if self.columns == columns && self.rows == rows {
            None
        } else {
            self.columns = columns;
            self.rows = rows;
            Some(SshCommand::Resize(
                #[verifier::truncate]
                (columns as u32),
                #[verifier::truncate]
                (rows as u32),
            ))
        }
    }
}

/// The same size seen twice in a row is announced at most once: the second
/// time nothing is sent.
pub proof fn same_size_is_announced_once(last: (i64, i64), columns: i64, rows: i64)
    ensures
        ({
            let first = announced(last, columns, rows);
            let second = announced(first.0, columns, rows);
            second.1 is None && second.0 == first.0
        }),
{
}

/// What is written for an `Error` event with this cause.
pub open spec fn error_text(cause: Seq<char>) -> Seq<char> {
    "\r\n[Error: "@ + cause + "]\r\n"@
}

/// What is written when the tab of `session` opens.
pub open spec fn banner_text(session: SessionView) -> Seq<char> {
    "Connecting to "@ + session.username + "@"@ + session.host + ":"@ + decimal(
        session.port as nat,
    ) + "...\r\n"@
}

/// What the terminal is fed for an event, and whether the terminal stops
/// listening after it.
pub open spec fn shown_for(event: SshEventView) -> (Seq<u8>, bool) {
    match event {
        SshEventView::Connected => (Seq::empty(), false),
        SshEventView::Disconnected => (encode_utf8("\r\n[Connection closed]\r\n"@), true),
        SshEventView::Data(data) => (data, false),
        SshEventView::Error(cause) => (encode_utf8(error_text(cause)), false),
        SshEventView::SftpReady(_) => (Seq::empty(), false),
    }
}

/// The line that a new SSH tab greets with.
pub fn connecting_banner(session: &Session) -> (text: String)
    ensures
        text@ == banner_text(session@),
{
    let mut text = "Connecting to ".to_owned();
    text.append(session.username.as_str());
    text.append("@");
    text.append(session.host.as_str());
    text.append(":");
    push_decimal(&mut text, session.port as u64);
    text.append("...\r\n");
    assert(text@ =~= banner_text(session@));
    text
}

/// The bytes to feed the terminal for `event`, and whether to stop listening
/// for events after them. Data goes into the terminal as it came; the end of
/// the session and an error are shown as a line of their own; after the end
/// of the session nothing is listened for.
pub fn render_event(event: &SshEvent) -> (shown: (Vec<u8>, bool))
    ensures
        (shown.0@, shown.1) == shown_for(event@),
{
    match event {
        SshEvent::Connected => (Vec::new(), false),
        SshEvent::Disconnected => ("\r\n[Connection closed]\r\n".as_bytes_vec(), true),
        SshEvent::Data(data) => {
            let copy = data.clone();
            assert(copy@ =~= data@);
            (copy, false)
        },
        SshEvent::Error(cause) => {
            let mut text = "\r\n[Error: ".to_owned();
            text.append(cause.as_str());
            text.append("]\r\n");
            assert(text@ =~= error_text(cause@));
            (text.as_str().as_bytes_vec(), false)
        },
        SshEvent::SftpReady(_) => (Vec::new(), false),
    }
}

/// What a key press asks of the terminal.
#[derive(Debug, Clone, Copy, PartialEq, Eq, Structural)]
pub enum Shortcut {
    /// Paste the clipboard.
    Paste,
    /// Copy the selection as text.
    Copy,
    /// Nothing: the key goes to the terminal.
    PassOn,
}

/// What the key `key`, pressed with these modifiers, asks of the terminal:
/// Control with `v` pastes, Control and Shift with `c` copies.
pub fn shortcut_for(control: bool, shift: bool, key: char) -> (s: Shortcut)
    ensures
        s == if control && (key == 'v' || key == 'V') {
            Shortcut::Paste
        } else if control && shift && (key == 'c' || key == 'C') {
            Shortcut::Copy
        } else {
            Shortcut::PassOn
        },
{
    if control && (key == 'v' || key == 'V') {
        Shortcut::Paste
    } else if control && shift && (key == 'c' || key == 'C') {
        Shortcut::Copy
    } else {
        Shortcut::PassOn
    }
}

} // verus!
