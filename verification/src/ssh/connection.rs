//! One connection to a remote host: what the front end and the engine tell
//! each other, and the state machine that decides, step by step, what the
//! driver of the connection does next.

use super::error::SshError;
use super::host_key::{HostKeyPolicy, HostKeyPolicyView};
use super::machine::{
    abort, authenticate, connect_model, handshake_model, host_key_model, initial, run_model,
    teardown, valid, ConnectionView, Stage, INITIAL_COLUMNS, INITIAL_ROWS,
};
use super::protocol::{
    ChannelMessage, ConnectAction, ConnectActionView, ConnectStep, LoopAction, LoopInput,
    LoopStep, Reply,
};
use super::sftp::SftpClient;
use crate::storage::{AuthType, Session};
use crate::text::{decimal, push_decimal, starts_with};
use vstd::prelude::*;
use vstd::string::*;

verus! {

/// Where a connection stands. `Disconnected` is the state of a connection
/// that has not started and of one whose session is over; `Error` is final.
#[derive(Debug, PartialEq, Eq)]
pub enum SshConnectionState {
    Disconnected,
    Connecting,
    Connected,
    Error(String),
}

/// An [`SshConnectionState`] as a mathematical value.
pub enum SshConnectionStateView {
    Disconnected,
    Connecting,
    Connected,
    Error(Seq<char>),
}

impl View for SshConnectionState {
    type V = SshConnectionStateView;

    open spec fn view(&self) -> SshConnectionStateView {
        match self {
            SshConnectionState::Disconnected => SshConnectionStateView::Disconnected,
            SshConnectionState::Connecting => SshConnectionStateView::Connecting,
            SshConnectionState::Connected => SshConnectionStateView::Connected,
            SshConnectionState::Error(reason) => SshConnectionStateView::Error(reason@),
        }
    }
}

impl Clone for SshConnectionState {
    fn clone(&self) -> (r: SshConnectionState)
        ensures
            r@ == self@,
    {
        match self {
            SshConnectionState::Disconnected => SshConnectionState::Disconnected,
            SshConnectionState::Connecting => SshConnectionState::Connecting,
            SshConnectionState::Connected => SshConnectionState::Connected,
            SshConnectionState::Error(reason) => SshConnectionState::Error(reason.clone()),
        }
    }
}

/// What the engine tells the front end.
#[derive(Debug, PartialEq, Eq)]
pub enum SshEvent {
    /// The interactive session runs.
    Connected,
    /// The life of the connection is over: its session has ended, or its
    /// handshake has failed. Nothing follows this event.
    Disconnected,
    /// Bytes that the remote side sent, as they came.
    Data(Vec<u8>),
    /// Something failed, for this cause.
    Error(String),
    /// The file-transfer session of this connection is ready.
    SftpReady(SftpClient),
}

/// An [`SshEvent`] as a mathematical value.
pub enum SshEventView {
    Connected,
    Disconnected,
    Data(Seq<u8>),
    Error(Seq<char>),
    SftpReady(Seq<char>),
}

impl View for SshEvent {
    type V = SshEventView;

    open spec fn view(&self) -> SshEventView {
        match self {
            SshEvent::Connected => SshEventView::Connected,
            SshEvent::Disconnected => SshEventView::Disconnected,
            SshEvent::Data(data) => SshEventView::Data(data@),
            SshEvent::Error(cause) => SshEventView::Error(cause@),
            SshEvent::SftpReady(client) => SshEventView::SftpReady(client@),
        }
    }
}

impl DeepView for SshEvent {
    type V = SshEventView;

    open spec fn deep_view(&self) -> SshEventView {
        self@
    }
}

impl Clone for SshEvent {
    fn clone(&self) -> (r: SshEvent)
        ensures
            r@ == self@,
    {
        match self {
            SshEvent::Connected => SshEvent::Connected,
            SshEvent::Disconnected => SshEvent::Disconnected,
            SshEvent::Data(data) => SshEvent::Data(data.clone()),
            SshEvent::Error(cause) => SshEvent::Error(cause.clone()),
            SshEvent::SftpReady(client) => SshEvent::SftpReady(client.clone()),
        }
    }
}

/// What the front end asks of the engine.
#[derive(Debug, PartialEq, Eq)]
pub enum SshCommand {
    /// Send these bytes to the remote shell.
    SendData(Vec<u8>),
    /// The terminal now has this many columns and rows.
    Resize(u32, u32),
    /// End the session.
    Disconnect,
}

/// An [`SshCommand`] as a mathematical value.
pub enum SshCommandView {
    SendData(Seq<u8>),
    Resize(u32, u32),
    Disconnect,
}

impl View for SshCommand {
    type V = SshCommandView;

    open spec fn view(&self) -> SshCommandView {
        match self {
            SshCommand::SendData(data) => SshCommandView::SendData(data@),
            SshCommand::Resize(columns, rows) => SshCommandView::Resize(*columns, *rows),
            SshCommand::Disconnect => SshCommandView::Disconnect,
        }
    }
}

impl Clone for SshCommand {
    fn clone(&self) -> (r: SshCommand)
        ensures
            r@ == self@,
    {
        match self {
            SshCommand::SendData(data) => SshCommand::SendData(data.clone()),
            SshCommand::Resize(columns, rows) => SshCommand::Resize(*columns, *rows),
            SshCommand::Disconnect => SshCommand::Disconnect,
        }
    }
}

/// Whether `output` can be what tilde expansion makes of `input`: the input
/// itself, or, for an input that is `~` or begins with `~` and a separator,
/// some home directory in place of that `~`.
pub open spec fn is_tilde_expansion(input: Seq<char>, output: Seq<char>) -> bool {
    ||| output == input
    ||| {
        &&& starts_with(input, '~')
        &&& input.len() == 1 || input[1] == '/' || input[1] == '\\'
        &&& output.len() >= input.len() - 1
        &&& output.skip(output.len() - (input.len() - 1)) == input.skip(1)
    }
}

/// `path` with a leading `~` replaced by the home directory of the current
/// user, by `shellexpand::tilde`.
///
/// Trusted: which directory that is depends on the machine and is left open.
/// What is claimed is what `shellexpand` does on every machine: a path
/// comes back as it is unless it is `~` or begins with `~` and a separator,
/// and such a path comes back as it is or with something in place of the
/// `~`.
#[verifier::external_body]
fn expand_tilde(path: &str) -> (expanded: String)
    ensures
        is_tilde_expansion(path@, expanded@),
{
    shellexpand::tilde(path).into_owned()
}

/// The part of a connection that moves: it is replaced as a whole at every
/// step, so that the connection is valid at every moment.
struct Progress {
    state: SshConnectionState,
    stage: Stage,
    host_key_accepted: bool,
    transport_open: bool,
    channel_open: bool,
    shell_started: bool,
    window: Option<(u32, u32)>,
    emitted: Ghost<Seq<SshEventView>>,
}

/// A connection to one remote host.
///
/// The connection performs no I/O. Its driver calls [`SshConnection::connect`],
/// carries out the action that comes back, reports the outcome with
/// [`SshConnection::handshake`], and so on until the session is established;
/// then it hands every command and every message of the remote side to
/// [`SshConnection::run`]. Each step says what to do next and which events to
/// pass to the front end. No step waits for anything: a driver that gives up
/// waiting for the network reports the action as failed.
pub struct SshConnection {
    session_info: Session,
    policy: HostKeyPolicy,
    secret: String,
    progress: Progress,
}

impl View for SshConnection {
    type V = ConnectionView;

    closed spec fn view(&self) -> ConnectionView {
        ConnectionView {
            session: self.session_info@,
            policy: self.policy@,
            secret: self.secret@,
            state: self.progress.state@,
            stage: self.progress.stage,
            host_key_accepted: self.progress.host_key_accepted,
            transport_open: self.progress.transport_open,
            channel_open: self.progress.channel_open,
            shell_started: self.progress.shell_started,
            window: self.progress.window,
            emitted: self.progress.emitted@,
        }
    }
}

impl SshConnection {
    /// Every connection is valid, at every moment.
    #[verifier::type_invariant]
    pub closed spec fn is_valid(&self) -> bool {
        valid(self@)
    }

    /// A connection for `session` that trusts every host key. That policy is
    /// insecure: see [`HostKeyPolicy`] and [`SshConnection::with_policy`].
    pub fn new(session: Session) -> (c: SshConnection)
        ensures
            c@ == initial(session@, HostKeyPolicyView::TrustAll),
            valid(c@),
    {
        SshConnection::with_policy(session, HostKeyPolicy::TrustAll)
    }

    /// A connection for `session` that trusts host keys as `policy` says.
    pub fn with_policy(session: Session, policy: HostKeyPolicy) -> (c: SshConnection)
        ensures
            c@ == initial(session@, policy@),
            valid(c@),
    {
        SshConnection {
            session_info: session,
            policy,
            secret: String::new(),
            progress: Progress {
                state: SshConnectionState::Disconnected,
                stage: Stage::Idle,
                host_key_accepted: false,
                transport_open: false,
                channel_open: false,
                shell_started: false,
                window: None,
                emitted: Ghost(Seq::empty()),
            },
        }
    }

    /// The descriptor that this connection was made for.
    pub fn session(&self) -> (s: &Session)
        ensures
            s@ == self@.session,
    {
        &self.session_info
    }

    /// The host key policy of this connection.
    pub fn policy(&self) -> (p: &HostKeyPolicy)
        ensures
            p@ == self@.policy,
    {
        &self.policy
    }

    /// Current state.
    pub fn state(&self) -> (s: &SshConnectionState)
        ensures
            s@ == self@.state,
            valid(self@),
    {
        proof {
            use_type_invariant(self);
        }
        &self.progress.state
    }

    /// How far the connection has come.
    pub fn stage(&self) -> (s: Stage)
        ensures
            s == self@.stage,
            valid(self@),
    {
        proof {
            use_type_invariant(self);
        }
        self.progress.stage
    }

    /// Whether the interactive session runs.
    pub fn is_connected(&self) -> (b: bool)
        ensures
            b == (self@.state is Connected),
            b == (self@.stage is Open),
            valid(self@),
    {
        proof {
            use_type_invariant(self);
        }
        match self.progress.state {
            SshConnectionState::Connected => true,
            _ => false,
        }
    }

    /// The address of the remote host: host, a colon, the port.
    pub fn address(&self) -> (a: String)
        ensures
            a@ == super::machine::endpoint(self@.session),
    {
        proof {
            reveal_strlit(":");
        }
        let mut a = self.session_info.host.clone();
        a.append(":");
        push_decimal(&mut a, self.session_info.port as u64);
        assert(a@ =~= self@.session.host + seq![':'] + decimal(self@.session.port as nat));
        a
    }

    /// Starts the handshake of a new connection: the state becomes
    /// `Connecting` and the driver is asked to open the transport. `password`
    /// is kept for the moment the host asks for it; none counts as the empty
    /// password. On a connection that has been started before, nothing
    /// happens: a connection connects once.
    pub fn connect(&mut self, password: Option<&str>) -> (step: ConnectStep)
        ensures
            (final(self)@, step.action@) == connect_model(
                old(self)@,
                match password {
                    Some(p) => Some(p@),
                    None => None,
                },
            ),
            step.events@.len() == 0,
            valid(final(self)@),
    {
        proof {
            use_type_invariant(&*self);
        }
        match self.progress.stage {
            Stage::Idle => {
                let address = self.address();
                self.secret = match password {
                    Some(p) => p.to_owned(),
                    None => String::new(),
                };
                self.progress = Progress {
                    state: SshConnectionState::Connecting,
                    stage: Stage::Transport,
                    host_key_accepted: false,
                    transport_open: false,
                    channel_open: false,
                    shell_started: false,
                    window: None,
                    emitted: Ghost(Seq::empty()),
                };
                assert(self.progress.emitted@ =~= old(self)@.emitted);
                ConnectStep { action: ConnectAction::OpenTransport { address }, events: Vec::new() }
            },
            _ => ConnectStep { action: ConnectAction::Nothing, events: Vec::new() },
        }
    }

    /// The host has presented the key with this fingerprint: whether the
    /// policy of the connection accepts it. The answer counts only while the
    /// transport is being opened; at any other time it is no.
    pub fn check_server_key(&mut self, fingerprint: &str) -> (accepted: bool)
        ensures
            (final(self)@, accepted) == host_key_model(old(self)@, fingerprint@),
            valid(final(self)@),
    {
        proof {
            use_type_invariant(&*self);
        }
        match self.progress.stage {
            Stage::Transport => {
                let accepted = self.policy.accepts(fingerprint);
                self.progress = Progress {
                    state: SshConnectionState::Connecting,
                    stage: Stage::Transport,
                    host_key_accepted: accepted,
                    transport_open: false,
                    channel_open: false,
                    shell_started: false,
                    window: None,
                    emitted: Ghost(Seq::empty()),
                };
                assert(self.progress.emitted@ =~= old(self)@.emitted);
                accepted
            },
            _ => false,
        }
    }

    /// The next step of the handshake, given how the last action went.
    ///
    /// Where the step is to load the private key, the path of the descriptor
    /// goes through tilde expansion first, and the expansion is what the
    /// driver is handed. For the rest, this is [`SshConnection::handshake_with`].
    pub fn handshake(&mut self, reply: Reply) -> (step: ConnectStep)
        ensures
            ({
                let key_file = match step.action@ {
                    ConnectActionView::LoadKey { path } => path,
                    _ => Seq::empty(),
                };
                &&& (final(self)@, step.action@, step.events.deep_view()) == handshake_model(
                    old(self)@,
                    reply@,
                    key_file,
                )
                &&& step.action@ is LoadKey ==> old(self)@.session.key_path is Some
                    && is_tilde_expansion(old(self)@.session.key_path->0, key_file)
            }),
            valid(final(self)@),
    {
        let key_file = match (
            self.progress.stage,
            self.session_info.auth_type,
            &self.session_info.key_path,
        ) {
            (Stage::Transport, AuthType::Key, Some(path)) => expand_tilde(path.as_str()),
            _ => String::new(),
        };
        self.handshake_with(reply, key_file)
    }

    /// The next step of the handshake, given how the last action went and
    /// the file to load the private key from.
    ///
    /// Success moves the handshake on: transport, credentials, channel,
    /// terminal, shell, and then the session runs and `Connected` is
    /// emitted. Anything else ends it: the state becomes `Error` with the
    /// cause, the cause is emitted as an `Error` event and `Disconnected`
    /// after it as the last event of the connection, and the driver is told
    /// to release what it had opened and to report the error.
    pub fn handshake_with(&mut self, reply: Reply, key_file: String) -> (step: ConnectStep)
        ensures
            (final(self)@, step.action@, step.events.deep_view()) == handshake_model(
                old(self)@,
                reply@,
                key_file@,
            ),
            valid(final(self)@),
    {
        proof {
            use_type_invariant(&*self);
        }
        let stage = self.progress.stage;
        match stage {
            Stage::Transport => match reply {
                Reply::Done => {
                    if self.progress.host_key_accepted {
                        self.authenticate(key_file)
                    } else {
                        self.abort(SshError::Transport("Host key not verified".to_owned()))
                    }
                },
                Reply::Refused => self.abort(
                    SshError::Transport("Connection refused".to_owned()),
                ),
                Reply::Failed(cause) => self.abort(SshError::Transport(cause)),
            },
            Stage::KeyLoad => match reply {
                Reply::Done => {
                    self.advance(Stage::Auth, false, None);
                    ConnectStep {
                        action: ConnectAction::AuthenticatePublicKey {
                            username: self.session_info.username.clone(),
                        },
                        events: Vec::new(),
                    }
                },
                Reply::Refused => self.abort(SshError::KeyLoad("Key rejected".to_owned())),
                Reply::Failed(cause) => self.abort(SshError::KeyLoad(cause)),
            },
            Stage::Auth => match reply {
                Reply::Done => {
                    self.secret = String::new();
                    self.advance(Stage::Channel, false, None);
                    ConnectStep { action: ConnectAction::OpenChannel, events: Vec::new() }
                },
                Reply::Refused => self.abort(SshError::Auth("Authentication failed".to_owned())),
                Reply::Failed(cause) => self.abort(SshError::Transport(cause)),
            },
            Stage::Channel => match reply {
                Reply::Done => {
                    self.advance(Stage::Pty, true, None);
                    ConnectStep {
                        action: ConnectAction::RequestPty {
                            terminal: "xterm-256color".to_owned(),
                            columns: INITIAL_COLUMNS,
                            rows: INITIAL_ROWS,
                        },
                        events: Vec::new(),
                    }
                },
                Reply::Refused => self.abort(SshError::Channel("Channel open refused".to_owned())),
                Reply::Failed(cause) => self.abort(SshError::Channel(cause)),
            },
            Stage::Pty => match reply {
                Reply::Done => {
                    self.advance(Stage::Shell, true, Some((INITIAL_COLUMNS, INITIAL_ROWS)));
                    ConnectStep { action: ConnectAction::RequestShell, events: Vec::new() }
                },
                Reply::Refused => self.abort(
                    SshError::Channel("Terminal request refused".to_owned()),
                ),
                Reply::Failed(cause) => self.abort(SshError::Channel(cause)),
            },
            Stage::Shell => match reply {
                Reply::Done => {
                    let ghost emitted = seq![SshEventView::Connected];
                    self.progress = Progress {
                        state: SshConnectionState::Connected,
                        stage: Stage::Open,
                        host_key_accepted: true,
                        transport_open: true,
                        channel_open: true,
                        shell_started: true,
                        window: Some((INITIAL_COLUMNS, INITIAL_ROWS)),
                        emitted: Ghost(emitted),
                    };
                    assert(self.progress.emitted@ =~= old(self)@.emitted.push(
                        SshEventView::Connected,
                    ));
                    let mut events: Vec<SshEvent> = Vec::new();
                    events.push(SshEvent::Connected);
                    assert(events.deep_view() =~= seq![SshEventView::Connected]);
                    ConnectStep { action: ConnectAction::Established, events }
                },
                Reply::Refused => self.abort(SshError::Channel("Shell request refused".to_owned())),
                Reply::Failed(cause) => self.abort(SshError::Channel(cause)),
            },
            _ => {
                let events: Vec<SshEvent> = Vec::new();
                assert(events.deep_view() =~= Seq::<SshEventView>::empty());
                ConnectStep { action: ConnectAction::Nothing, events }
            },
        }
    }

    /// Moves a handshake in progress to its next stage.
    fn advance(&mut self, stage: Stage, channel_open: bool, window: Option<(u32, u32)>)
        requires
            old(self)@.state is Connecting,
            old(self)@.emitted.len() == 0,
            valid(
                ConnectionView {
                    stage,
                    host_key_accepted: true,
                    transport_open: true,
                    channel_open,
                    shell_started: false,
                    window,
                    ..old(self)@
                },
            ),
        ensures
            final(self)@ == (ConnectionView {
                stage,
                host_key_accepted: true,
                transport_open: true,
                channel_open,
                shell_started: false,
                window,
                ..old(self)@
            }),
            valid(final(self)@),
    {
        self.progress = Progress {
            state: SshConnectionState::Connecting,
            stage,
            host_key_accepted: true,
            transport_open: true,
            channel_open,
            shell_started: false,
            window,
            emitted: Ghost(Seq::empty()),
        };
        assert(self.progress.emitted@ =~= old(self)@.emitted);
    }

    /// With the transport open, asks for the credentials to be offered.
    fn authenticate(&mut self, key_file: String) -> (step: ConnectStep)
        requires
            old(self)@.stage is Transport,
            old(self)@.host_key_accepted,
            valid(old(self)@),
        ensures
            (final(self)@, step.action@, step.events.deep_view()) == authenticate(
                ConnectionView { transport_open: true, ..old(self)@ },
                key_file@,
            ),
            valid(final(self)@),
    {
        let events: Vec<SshEvent> = Vec::new();
        assert(events.deep_view() =~= Seq::<SshEventView>::empty());
        match self.session_info.auth_type {
            AuthType::Password => {
                self.advance(Stage::Auth, false, None);
                ConnectStep {
                    action: ConnectAction::AuthenticatePassword {
                        username: self.session_info.username.clone(),
                        password: self.secret.clone(),
                    },
                    events,
                }
            },
            AuthType::Key => {
                if self.session_info.key_path.is_some() {
                    self.advance(Stage::KeyLoad, false, None);
                    ConnectStep { action: ConnectAction::LoadKey { path: key_file }, events }
                } else {
                    self.abort(SshError::KeyLoad("Key path not specified".to_owned()))
                }
            },
        }
    }

    /// Ends a handshake in progress with `error`.
    fn abort(&mut self, error: SshError) -> (step: ConnectStep)
        requires
            old(self)@.emitted.len() == 0,
        ensures
            (final(self)@, step.action@, step.events.deep_view()) == abort(old(self)@, error@),
            valid(final(self)@),
    {
        proof {
            use_type_invariant(&*self);
        }
        let cause = error.cause();
        let ghost emitted = seq![SshEventView::Error(cause@), SshEventView::Disconnected];
        self.secret = String::new();
        self.progress = Progress {
            state: SshConnectionState::Error(cause.clone()),
            stage: Stage::Failed,
            host_key_accepted: false,
            transport_open: false,
            channel_open: false,
            shell_started: false,
            window: None,
            emitted: Ghost(emitted),
        };
        assert(self.progress.emitted@ =~= old(self)@.emitted.push(
            SshEventView::Error(cause@),
        ).push(SshEventView::Disconnected));
        let mut events: Vec<SshEvent> = Vec::new();
        events.push(SshEvent::Error(cause));
        events.push(SshEvent::Disconnected);
        assert(events.deep_view() =~= seq![
            SshEventView::Error(error@.cause()),
            SshEventView::Disconnected,
        ]);
        ConnectStep { action: ConnectAction::Abort(error), events }
    }

    /// One turn of the session loop: what to do with the next command of the
    /// front end or the next message of the remote side.
    ///
    /// Bytes go through untouched in both directions. A `Resize` asks for a
    /// window change only if the size differs from the one last asked for.
    /// `Disconnect`, the end of the commands, and the end of the channel end
    /// the session, as does a failed write, which is reported as an `Error`
    /// first. The session ends once: the state becomes `Disconnected`,
    /// `Disconnected` is the last event, and the driver is asked to close the
    /// transport. On a connection whose session does not run, nothing
    /// happens, and the answer is `NotRunning`.
    pub fn run(&mut self, input: LoopInput) -> (step: LoopStep)
        ensures
            step.action@ is NotRunning <==> !(old(self)@.stage is Open),
            (final(self)@, step.action@, step.events.deep_view()) == run_model(
                old(self)@,
                input@,
            ),
            valid(final(self)@),
    {
        proof {
            use_type_invariant(&*self);
        }
        let mut events: Vec<SshEvent> = Vec::new();
        assert(events.deep_view() =~= Seq::<SshEventView>::empty());
        match self.progress.stage {
            Stage::Open => {},
            _ => {
                return LoopStep { action: LoopAction::NotRunning, events };
            },
        }
        match input {
            LoopInput::Command(SshCommand::SendData(data)) => LoopStep {
                action: LoopAction::Write(data),
                events,
            },
            LoopInput::Command(SshCommand::Resize(columns, rows)) => {
                let same = match self.progress.window {
                    Some((c, r)) => c == columns && r == rows,
                    None => false,
                };
                if same {
                    LoopStep { action: LoopAction::Nothing, events }
                } else {
                    self.set_window(Some((columns, rows)));
                    LoopStep { action: LoopAction::WindowChange { columns, rows }, events }
                }
            },
            LoopInput::Command(SshCommand::Disconnect) => self.teardown(
                events,
                SshError::ChannelClosed,
            ),
            LoopInput::CommandsClosed => self.teardown(events, SshError::ChannelClosed),
            LoopInput::Channel(ChannelMessage::Data(data)) => self.emit(SshEvent::Data(data)),
            LoopInput::Channel(ChannelMessage::ExtendedData(data)) => self.emit(
                SshEvent::Data(data),
            ),
            LoopInput::Channel(ChannelMessage::Eof) => self.teardown(
                events,
                SshError::ChannelClosed,
            ),
            LoopInput::Channel(ChannelMessage::Close) => self.teardown(
                events,
                SshError::ChannelClosed,
            ),
            LoopInput::Channel(ChannelMessage::ExitStatus(_)) => LoopStep {
                action: LoopAction::Nothing,
                events,
            },
            LoopInput::Channel(ChannelMessage::Other) => LoopStep {
                action: LoopAction::Nothing,
                events,
            },
            LoopInput::ChannelEnded => self.teardown(events, SshError::ChannelClosed),
            LoopInput::WriteFailed(cause) => {
                events.push(SshEvent::Error(cause.clone()));
                assert(events.deep_view() =~= seq![SshEventView::Error(cause@)]);
                self.teardown(events, SshError::Transport(cause))
            },
            LoopInput::ResizeFailed(_) => {
                self.set_window(None);
                LoopStep { action: LoopAction::Nothing, events }
            },
            LoopInput::SftpOpened(client) => self.emit(SshEvent::SftpReady(client)),
        }
    }

    /// Records the terminal size that the remote side is asked for.
    fn set_window(&mut self, window: Option<(u32, u32)>)
        requires
            old(self)@.stage is Open,
            valid(old(self)@),
        ensures
            final(self)@ == (ConnectionView { window, ..old(self)@ }),
            valid(final(self)@),
    {
        let ghost emitted = self.progress.emitted@;
        self.progress = Progress {
            state: SshConnectionState::Connected,
            stage: Stage::Open,
            host_key_accepted: true,
            transport_open: true,
            channel_open: true,
            shell_started: true,
            window,
            emitted: Ghost(emitted),
        };
    }

    /// Passes an event of the running session to the front end.
    fn emit(&mut self, event: SshEvent) -> (step: LoopStep)
        requires
            old(self)@.stage is Open,
            valid(old(self)@),
            event@ is Data || event@ is SftpReady,
        ensures
            final(self)@ == (ConnectionView {
                emitted: old(self)@.emitted.push(event@),
                ..old(self)@
            }),
            step.action@ is Nothing,
            step.events.deep_view() == seq![event@],
            valid(final(self)@),
    {
        let ghost emitted = self.progress.emitted@.push(event@);
        let window = self.progress.window;
        self.progress = Progress {
            state: SshConnectionState::Connected,
            stage: Stage::Open,
            host_key_accepted: true,
            transport_open: true,
            channel_open: true,
            shell_started: true,
            window,
            emitted: Ghost(emitted),
        };
        let ghost shown = event@;
        let mut events: Vec<SshEvent> = Vec::new();
        events.push(event);
        assert(events.deep_view() =~= seq![shown]);
        LoopStep { action: LoopAction::Nothing, events }
    }

    /// Ends the running session.
    fn teardown(&mut self, before: Vec<SshEvent>, cause: SshError) -> (step: LoopStep)
        requires
            old(self)@.stage is Open,
            valid(old(self)@),
            before.deep_view().len() == 0 || (before.deep_view().len() == 1
                && before.deep_view()[0] is Error),
        ensures
            (final(self)@, step.action@, step.events.deep_view()) == teardown(
                old(self)@,
                before.deep_view(),
                cause@,
            ),
            valid(final(self)@),
    {
        let ghost last = before.deep_view().push(SshEventView::Disconnected);
        let ghost emitted = self.progress.emitted@ + last;
        proof {
            if before.deep_view().len() == 0 {
                assert(emitted.drop_last() =~= self.progress.emitted@);
            } else {
                assert(emitted.take(emitted.len() - 2) =~= self.progress.emitted@);
            }
        }
        self.secret = String::new();
        self.progress = Progress {
            state: SshConnectionState::Disconnected,
            stage: Stage::Closed,
            host_key_accepted: false,
            transport_open: false,
            channel_open: false,
            shell_started: false,
            window: None,
            emitted: Ghost(emitted),
        };
        let mut events = before;
        events.push(SshEvent::Disconnected);
        assert(events.deep_view() =~= last);
        LoopStep { action: LoopAction::Close(cause), events }
    }
}

} // verus!
