//! What a connection and its driver say to each other: the replies and
//! inputs that the driver hands in, and the actions that it is asked for.

use super::connection::{SshCommand, SshCommandView, SshEvent};
use super::error::{SshError, SshErrorView};
use super::sftp::SftpClient;
use vstd::prelude::*;

verus! {

/// What the driver reports of the action it was asked to perform.
#[derive(Debug, PartialEq, Eq)]
pub enum Reply {
    /// It succeeded.
    Done,
    /// The other side said no.
    Refused,
    /// It failed, for this cause.
    Failed(String),
}

/// What the handshake asks the driver to do next.
#[derive(Debug, PartialEq, Eq)]
pub enum ConnectAction {
    /// Open the transport to this address and let the connection check the
    /// key that the host presents.
    OpenTransport { address: String },
    /// Load the private key from this file.
    LoadKey { path: String },
    /// Offer this password for this user.
    AuthenticatePassword { username: String, password: String },
    /// Offer the key that was loaded for this user.
    AuthenticatePublicKey { username: String },
    /// Open the session channel.
    OpenChannel,
    /// Ask for a pseudo-terminal of this type and size on the channel.
    RequestPty { terminal: String, columns: u32, rows: u32 },
    /// Ask for an interactive shell on the channel.
    RequestShell,
    /// The handshake is complete: the session runs.
    Established,
    /// The handshake failed: release what was opened and report the error.
    Abort(SshError),
    /// The connection was not waiting for this. Nothing has changed.
    Nothing,
}

/// A message of the remote side on the interactive channel.
#[derive(Debug, PartialEq, Eq)]
pub enum ChannelMessage {
    /// Output on the normal stream.
    Data(Vec<u8>),
    /// Output on another stream, such as standard error.
    ExtendedData(Vec<u8>),
    /// The remote side will send no more.
    Eof,
    /// The remote side closed the channel.
    Close,
    /// The exit status of the remote command.
    ExitStatus(u32),
    /// Any other message.
    Other,
}

/// What the driver hands to a running session.
#[derive(Debug, PartialEq, Eq)]
pub enum LoopInput {
    /// The next command of the front end.
    Command(SshCommand),
    /// No command can come any more: every sender is gone.
    CommandsClosed,
    /// The next message of the remote side.
    Channel(ChannelMessage),
    /// The channel has ended.
    ChannelEnded,
    /// The write that was asked for failed.
    WriteFailed(String),
    /// The window change that was asked for failed.
    ResizeFailed(String),
    /// The file-transfer session has been opened over this connection.
    SftpOpened(SftpClient),
}

/// What a running session asks the driver to do.
#[derive(Debug, PartialEq, Eq)]
pub enum LoopAction {
    /// No session runs on this connection: it was never connected, its
    /// handshake failed, or its session is over. Nothing was done with the
    /// input, and there is no channel to wait on.
    NotRunning,
    /// Wait for the next input.
    Nothing,
    /// Write these bytes to the channel.
    Write(Vec<u8>),
    /// Tell the remote side the new size of the terminal.
    WindowChange { columns: u32, rows: u32 },
    /// The session is over for this reason: close the transport, as
    /// [`Farewell`] says, and stop.
    Close(SshError),
}

/// The outcome of a handshake step.
#[derive(Debug, PartialEq, Eq)]
pub struct ConnectStep {
    /// What the driver does next.
    pub action: ConnectAction,
    /// What the front end is told, in this order.
    pub events: Vec<SshEvent>,
}

/// The outcome of a turn of the session loop.
#[derive(Debug, PartialEq, Eq)]
pub struct LoopStep {
    /// What the driver does next.
    pub action: LoopAction,
    /// What the front end is told, in this order.
    pub events: Vec<SshEvent>,
}

/// Why a transport is closed, as the protocol numbers the reasons.
#[derive(Debug, Clone, Copy, PartialEq, Eq, Structural)]
pub enum DisconnectReason {
    ByApplication,
}

/// What the remote side is told when the transport is closed.
#[derive(Debug, PartialEq, Eq)]
pub struct Farewell {
    pub reason: DisconnectReason,
    pub description: String,
    pub language: String,
}

/// What the driver reports of the action it was asked to perform.
pub enum ReplyView {
    /// It succeeded.
    Done,
    /// The other side said no.
    Refused,
    /// It failed, for this cause.
    Failed(Seq<char>),
}

/// What the handshake asks the driver to do next.
pub enum ConnectActionView {
    OpenTransport { address: Seq<char> },
    LoadKey { path: Seq<char> },
    AuthenticatePassword { username: Seq<char>, password: Seq<char> },
    AuthenticatePublicKey { username: Seq<char> },
    OpenChannel,
    RequestPty { terminal: Seq<char>, columns: u32, rows: u32 },
    RequestShell,
    Established,
    Abort(SshErrorView),
    Nothing,
}

/// A message of the remote side on the interactive channel.
pub enum ChannelMessageView {
    Data(Seq<u8>),
    ExtendedData(Seq<u8>),
    Eof,
    Close,
    ExitStatus(u32),
    Other,
}

/// What the driver hands to a running session.
pub enum LoopInputView {
    Command(SshCommandView),
    CommandsClosed,
    Channel(ChannelMessageView),
    ChannelEnded,
    WriteFailed(Seq<char>),
    ResizeFailed(Seq<char>),
    SftpOpened(Seq<char>),
}

/// What a running session asks the driver to do.
pub enum LoopActionView {
    NotRunning,
    Nothing,
    Write(Seq<u8>),
    WindowChange { columns: u32, rows: u32 },
    Close(SshErrorView),
}

impl View for Reply {
    type V = ReplyView;

    open spec fn view(&self) -> ReplyView {
        match self {
            Reply::Done => ReplyView::Done,
            Reply::Refused => ReplyView::Refused,
            Reply::Failed(cause) => ReplyView::Failed(cause@),
        }
    }
}

impl View for ConnectAction {
    type V = ConnectActionView;

    open spec fn view(&self) -> ConnectActionView {
        match self {
            ConnectAction::OpenTransport { address } => ConnectActionView::OpenTransport {
                address: address@,
            },
            ConnectAction::LoadKey { path } => ConnectActionView::LoadKey { path: path@ },
            ConnectAction::AuthenticatePassword {
                username,
                password,
            } => ConnectActionView::AuthenticatePassword {
                username: username@,
                password: password@,
            },
            ConnectAction::AuthenticatePublicKey {
                username,
            } => ConnectActionView::AuthenticatePublicKey { username: username@ },
            ConnectAction::OpenChannel => ConnectActionView::OpenChannel,
            ConnectAction::RequestPty { terminal, columns, rows } => ConnectActionView::RequestPty {
                terminal: terminal@,
                columns: *columns,
                rows: *rows,
            },
            ConnectAction::RequestShell => ConnectActionView::RequestShell,
            ConnectAction::Established => ConnectActionView::Established,
            ConnectAction::Abort(error) => ConnectActionView::Abort(error@),
            ConnectAction::Nothing => ConnectActionView::Nothing,
        }
    }
}

impl View for ChannelMessage {
    type V = ChannelMessageView;

    open spec fn view(&self) -> ChannelMessageView {
        match self {
            ChannelMessage::Data(data) => ChannelMessageView::Data(data@),
            ChannelMessage::ExtendedData(data) => ChannelMessageView::ExtendedData(data@),
            ChannelMessage::Eof => ChannelMessageView::Eof,
            ChannelMessage::Close => ChannelMessageView::Close,
            ChannelMessage::ExitStatus(status) => ChannelMessageView::ExitStatus(*status),
            ChannelMessage::Other => ChannelMessageView::Other,
        }
    }
}

impl View for LoopInput {
    type V = LoopInputView;

    open spec fn view(&self) -> LoopInputView {
        match self {
            LoopInput::Command(command) => LoopInputView::Command(command@),
            LoopInput::CommandsClosed => LoopInputView::CommandsClosed,
            LoopInput::Channel(message) => LoopInputView::Channel(message@),
            LoopInput::ChannelEnded => LoopInputView::ChannelEnded,
            LoopInput::WriteFailed(cause) => LoopInputView::WriteFailed(cause@),
            LoopInput::ResizeFailed(cause) => LoopInputView::ResizeFailed(cause@),
            LoopInput::SftpOpened(client) => LoopInputView::SftpOpened(client@),
        }
    }
}

impl View for LoopAction {
    type V = LoopActionView;

    open spec fn view(&self) -> LoopActionView {
        match self {
            LoopAction::NotRunning => LoopActionView::NotRunning,
            LoopAction::Nothing => LoopActionView::Nothing,
            LoopAction::Write(data) => LoopActionView::Write(data@),
            LoopAction::WindowChange { columns, rows } => LoopActionView::WindowChange {
                columns: *columns,
                rows: *rows,
            },
            LoopAction::Close(cause) => LoopActionView::Close(cause@),
        }
    }
}

/// What the remote side is told when a session ends: the application
/// closed it.
pub fn farewell() -> (f: Farewell)
    ensures
        f.reason == DisconnectReason::ByApplication,
        f.description@ == "User disconnected"@,
        f.language@ == "en"@,
{
    Farewell {
        reason: DisconnectReason::ByApplication,
        description: "User disconnected".to_owned(),
        language: "en".to_owned(),
    }
}

} // verus!
