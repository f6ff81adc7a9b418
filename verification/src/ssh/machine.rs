//! The connection as a state machine over mathematical values: what each
//! step does to the state, which action it asks of the driver and which
//! events it emits, and the laws that hold of every connection.

use super::connection::{SshCommandView, SshConnectionStateView, SshEventView};
use super::error::SshErrorView;
use super::protocol::{
    ChannelMessageView, ConnectActionView, LoopActionView, LoopInputView, ReplyView,
};
use super::host_key::HostKeyPolicyView;
use crate::storage::{AuthType, SessionView};
use crate::text::decimal;
use vstd::prelude::*;

verus! {

/// Columns of the terminal that a new session asks for.
pub const INITIAL_COLUMNS: u32 = 80;

/// Rows of the terminal that a new session asks for.
pub const INITIAL_ROWS: u32 = 24;

/// The terminal type that a new session asks for.
pub open spec fn terminal_type() -> Seq<char> {
    "xterm-256color"@
}

/// How far a connection has come.
#[derive(Debug, Clone, Copy, PartialEq, Eq, Structural)]
pub enum Stage {
    /// Created, `connect` not yet called.
    Idle,
    /// Waiting for the transport to the host.
    Transport,
    /// Waiting for the private key to be loaded.
    KeyLoad,
    /// Waiting for the host's answer to the credentials.
    Auth,
    /// Waiting for the channel to open.
    Channel,
    /// Waiting for the pseudo-terminal.
    Pty,
    /// Waiting for the shell.
    Shell,
    /// The interactive session runs.
    Open,
    /// The session ran and has ended.
    Closed,
    /// The handshake failed.
    Failed,
}

/// A connection as a mathematical value.
pub struct ConnectionView {
    /// The descriptor that the connection was made for.
    pub session: SessionView,
    /// Which host keys it trusts.
    pub policy: HostKeyPolicyView,
    /// The password handed to `connect`, kept until the host has answered.
    pub secret: Seq<char>,
    pub state: SshConnectionStateView,
    pub stage: Stage,
    /// The policy has accepted the key that the host presented.
    pub host_key_accepted: bool,
    /// The transport to the host is open.
    pub transport_open: bool,
    /// The interactive channel is open.
    pub channel_open: bool,
    /// The shell request on the channel has succeeded.
    pub shell_started: bool,
    /// The terminal size that the remote side was last asked for, unless
    /// that request is known to have failed.
    pub window: Option<(u32, u32)>,
    /// Every event emitted so far, oldest first.
    pub emitted: Seq<SshEventView>,
}

/// The address that the transport is opened to: host, a colon, the port.
pub open spec fn endpoint(session: SessionView) -> Seq<char> {
    session.host + seq![':'] + decimal(session.port as nat)
}

/// A connection that has just been created.
pub open spec fn initial(session: SessionView, policy: HostKeyPolicyView) -> ConnectionView {
    ConnectionView {
        session,
        policy,
        secret: Seq::empty(),
        state: SshConnectionStateView::Disconnected,
        stage: Stage::Idle,
        host_key_accepted: false,
        transport_open: false,
        channel_open: false,
        shell_started: false,
        window: None,
        emitted: Seq::empty(),
    }
}

/// The connection after its handshake failed for `reason`: nothing is left
/// open, the failure has been emitted, and after it `Disconnected`, the last
/// event of the connection.
pub open spec fn failed(c: ConnectionView, reason: Seq<char>) -> ConnectionView {
    ConnectionView {
        secret: Seq::empty(),
        state: SshConnectionStateView::Error(reason),
        stage: Stage::Failed,
        host_key_accepted: false,
        transport_open: false,
        channel_open: false,
        shell_started: false,
        window: None,
        emitted: c.emitted.push(SshEventView::Error(reason)).push(SshEventView::Disconnected),
        ..c
    }
}

/// The connection after its session ended, having emitted `last` on the way.
pub open spec fn closed(c: ConnectionView, last: Seq<SshEventView>) -> ConnectionView {
    ConnectionView {
        secret: Seq::empty(),
        state: SshConnectionStateView::Disconnected,
        stage: Stage::Closed,
        host_key_accepted: false,
        transport_open: false,
        channel_open: false,
        shell_started: false,
        window: None,
        emitted: c.emitted + last,
        ..c
    }
}

/// The outcome of a failed handshake step: the cause is emitted as an
/// `Error`, `Disconnected` follows as the last event of the connection, and
/// the driver is handed the error.
pub open spec fn abort(c: ConnectionView, error: SshErrorView) -> (
    ConnectionView,
    ConnectActionView,
    Seq<SshEventView>,
) {
    (
        failed(c, error.cause()),
        ConnectActionView::Abort(error),
        seq![SshEventView::Error(error.cause()), SshEventView::Disconnected],
    )
}

/// `connect`: a new connection starts its handshake by asking for the
/// transport. A connection that has left `Idle` cannot connect again.
pub open spec fn connect_model(c: ConnectionView, password: Option<Seq<char>>) -> (
    ConnectionView,
    ConnectActionView,
) {
    if c.stage is Idle {
        (
            ConnectionView {
                secret: match password {
                    Some(p) => p,
                    None => Seq::empty(),
                },
                state: SshConnectionStateView::Connecting,
                stage: Stage::Transport,
                ..c
            },
            ConnectActionView::OpenTransport { address: endpoint(c.session) },
        )
    } else {
        (c, ConnectActionView::Nothing)
    }
}

/// The host presents its key while the transport is being opened: the
/// policy decides, and the decision is remembered.
pub open spec fn host_key_model(c: ConnectionView, fingerprint: Seq<char>) -> (
    ConnectionView,
    bool,
) {
    if c.stage is Transport {
        let accepted = c.policy.accepts(fingerprint);
        (ConnectionView { host_key_accepted: accepted, ..c }, accepted)
    } else {
        (c, false)
    }
}

/// With the transport open, how the session authenticates. `key_file` is the
/// key path of the descriptor with a leading `~` expanded.
pub open spec fn authenticate(c: ConnectionView, key_file: Seq<char>) -> (
    ConnectionView,
    ConnectActionView,
    Seq<SshEventView>,
) {
    match c.session.auth_type {
        AuthType::Password => (
            ConnectionView { stage: Stage::Auth, ..c },
            ConnectActionView::AuthenticatePassword {
                username: c.session.username,
                password: c.secret,
            },
            Seq::empty(),
        ),
        AuthType::Key => match c.session.key_path {
            Some(_) => (
                ConnectionView { stage: Stage::KeyLoad, ..c },
                ConnectActionView::LoadKey { path: key_file },
                Seq::empty(),
            ),
            None => abort(c, SshErrorView::KeyLoad("Key path not specified"@)),
        },
    }
}

/// One step of the handshake: the driver reports how the action went that it
/// was last asked for, and learns what to do next.
pub open spec fn handshake_model(c: ConnectionView, reply: ReplyView, key_file: Seq<char>) -> (
    ConnectionView,
    ConnectActionView,
    Seq<SshEventView>,
) {
    match c.stage {
        Stage::Transport => match reply {
            ReplyView::Done => if c.host_key_accepted {
                authenticate(ConnectionView { transport_open: true, ..c }, key_file)
            } else {
                abort(c, SshErrorView::Transport("Host key not verified"@))
            },
            ReplyView::Refused => abort(c, SshErrorView::Transport("Connection refused"@)),
            ReplyView::Failed(cause) => abort(c, SshErrorView::Transport(cause)),
        },
        Stage::KeyLoad => match reply {
            ReplyView::Done => (
                ConnectionView { stage: Stage::Auth, ..c },
                ConnectActionView::AuthenticatePublicKey { username: c.session.username },
                Seq::empty(),
            ),
            ReplyView::Refused => abort(c, SshErrorView::KeyLoad("Key rejected"@)),
            ReplyView::Failed(cause) => abort(c, SshErrorView::KeyLoad(cause)),
        },
        Stage::Auth => match reply {
            ReplyView::Done => (
                ConnectionView { secret: Seq::empty(), stage: Stage::Channel, ..c },
                ConnectActionView::OpenChannel,
                Seq::empty(),
            ),
            ReplyView::Refused => abort(c, SshErrorView::Auth("Authentication failed"@)),
            ReplyView::Failed(cause) => abort(c, SshErrorView::Transport(cause)),
        },
        Stage::Channel => match reply {
            ReplyView::Done => (
                ConnectionView { stage: Stage::Pty, channel_open: true, ..c },
                ConnectActionView::RequestPty {
                    terminal: terminal_type(),
                    columns: INITIAL_COLUMNS,
                    rows: INITIAL_ROWS,
                },
                Seq::empty(),
            ),
            ReplyView::Refused => abort(c, SshErrorView::Channel("Channel open refused"@)),
            ReplyView::Failed(cause) => abort(c, SshErrorView::Channel(cause)),
        },
        Stage::Pty => match reply {
            ReplyView::Done => (
                ConnectionView {
                    stage: Stage::Shell,
                    window: Some((INITIAL_COLUMNS, INITIAL_ROWS)),
                    ..c
                },
                ConnectActionView::RequestShell,
                Seq::empty(),
            ),
            ReplyView::Refused => abort(c, SshErrorView::Channel("Terminal request refused"@)),
            ReplyView::Failed(cause) => abort(c, SshErrorView::Channel(cause)),
        },
        Stage::Shell => match reply {
            ReplyView::Done => (
                ConnectionView {
                    state: SshConnectionStateView::Connected,
                    stage: Stage::Open,
                    shell_started: true,
                    emitted: c.emitted.push(SshEventView::Connected),
                    ..c
                },
                ConnectActionView::Established,
                seq![SshEventView::Connected],
            ),
            ReplyView::Refused => abort(c, SshErrorView::Channel("Shell request refused"@)),
            ReplyView::Failed(cause) => abort(c, SshErrorView::Channel(cause)),
        },
        _ => (c, ConnectActionView::Nothing, Seq::empty()),
    }
}

/// The end of a session: the state becomes `Disconnected`, `Disconnected` is
/// the last event, and the driver is asked to close the transport.
pub open spec fn teardown(c: ConnectionView, before: Seq<SshEventView>, cause: SshErrorView) -> (
    ConnectionView,
    LoopActionView,
    Seq<SshEventView>,
) {
    let events = before.push(SshEventView::Disconnected);
    (closed(c, events), LoopActionView::Close(cause), events)
}

/// One turn of the session loop: what the connection does with the next
/// command or the next message of the remote side. Where no session runs,
/// the answer says so and nothing else happens.
pub open spec fn run_model(c: ConnectionView, input: LoopInputView) -> (
    ConnectionView,
    LoopActionView,
    Seq<SshEventView>,
) {
    if !(c.stage is Open) {
        (c, LoopActionView::NotRunning, Seq::empty())
    } else {
        match input {
            LoopInputView::Command(SshCommandView::SendData(data)) => (
                c,
                LoopActionView::Write(data),
                Seq::empty(),
            ),
            LoopInputView::Command(SshCommandView::Resize(columns, rows)) => if c.window == Some(
                (columns, rows),
            ) {
                (c, LoopActionView::Nothing, Seq::empty())
            } else {
                (
                    ConnectionView { window: Some((columns, rows)), ..c },
                    LoopActionView::WindowChange { columns, rows },
                    Seq::empty(),
                )
            },
            LoopInputView::Command(SshCommandView::Disconnect) => teardown(
                c,
                Seq::empty(),
                SshErrorView::ChannelClosed,
            ),
            LoopInputView::CommandsClosed => teardown(c, Seq::empty(), SshErrorView::ChannelClosed),
            LoopInputView::Channel(ChannelMessageView::Data(data)) => (
                ConnectionView { emitted: c.emitted.push(SshEventView::Data(data)), ..c },
                LoopActionView::Nothing,
                seq![SshEventView::Data(data)],
            ),
            LoopInputView::Channel(ChannelMessageView::ExtendedData(data)) => (
                ConnectionView { emitted: c.emitted.push(SshEventView::Data(data)), ..c },
                LoopActionView::Nothing,
                seq![SshEventView::Data(data)],
            ),
            LoopInputView::Channel(ChannelMessageView::Eof) => teardown(
                c,
                Seq::empty(),
                SshErrorView::ChannelClosed,
            ),
            LoopInputView::Channel(ChannelMessageView::Close) => teardown(
                c,
                Seq::empty(),
                SshErrorView::ChannelClosed,
            ),
            LoopInputView::Channel(ChannelMessageView::ExitStatus(_)) => (
                c,
                LoopActionView::Nothing,
                Seq::empty(),
            ),
            LoopInputView::Channel(ChannelMessageView::Other) => (
                c,
                LoopActionView::Nothing,
                Seq::empty(),
            ),
            LoopInputView::ChannelEnded => teardown(c, Seq::empty(), SshErrorView::ChannelClosed),
            LoopInputView::WriteFailed(cause) => teardown(
                c,
                seq![SshEventView::Error(cause)],
                SshErrorView::Transport(cause),
            ),
            LoopInputView::ResizeFailed(_) => (
                ConnectionView { window: None, ..c },
                LoopActionView::Nothing,
                Seq::empty(),
            ),
            LoopInputView::SftpOpened(path) => (
                ConnectionView { emitted: c.emitted.push(SshEventView::SftpReady(path)), ..c },
                LoopActionView::Nothing,
                seq![SshEventView::SftpReady(path)],
            ),
        }
    }
}

// ---------------------------------------------------------------------------
// What holds of every connection
// ---------------------------------------------------------------------------

/// Events that a running session emits: data of the remote side, and the
/// file-transfer session once it is there.
pub open spec fn is_session_event(e: SshEventView) -> bool {
    e is Data || e is SftpReady
}

/// The events of a session that runs: `Connected`, then session events.
pub open spec fn running_trace(t: Seq<SshEventView>) -> bool {
    &&& t.len() >= 1
    &&& t[0] is Connected
    &&& forall|i: int| 1 <= i < t.len() ==> is_session_event(#[trigger] t[i])
}

/// The events of a session that has ended: those of a running session, an
/// `Error` if it was lost, and `Disconnected` last.
pub open spec fn finished_trace(t: Seq<SshEventView>) -> bool {
    &&& t.len() >= 2
    &&& t.last() is Disconnected
    &&& running_trace(t.drop_last()) || (t.len() >= 3 && t[t.len() - 2] is Error && running_trace(
        t.take(t.len() - 2),
    ))
}

/// The invariant of a connection: its state, its stage, what it holds open
/// and what it has emitted agree.
pub open spec fn valid(c: ConnectionView) -> bool {
    match c.stage {
        Stage::Idle => {
            &&& c.state is Disconnected
            &&& c.emitted.len() == 0
            &&& !c.host_key_accepted && !c.transport_open && !c.channel_open && !c.shell_started
            &&& c.window is None
        },
        Stage::Transport => {
            &&& c.state is Connecting
            &&& c.emitted.len() == 0
            &&& !c.transport_open && !c.channel_open && !c.shell_started
            &&& c.window is None
        },
        Stage::KeyLoad | Stage::Auth | Stage::Channel => {
            &&& c.state is Connecting
            &&& c.emitted.len() == 0
            &&& c.host_key_accepted && c.transport_open && !c.channel_open && !c.shell_started
            &&& c.window is None
        },
        Stage::Pty => {
            &&& c.state is Connecting
            &&& c.emitted.len() == 0
            &&& c.host_key_accepted && c.transport_open && c.channel_open && !c.shell_started
            &&& c.window is None
        },
        Stage::Shell => {
            &&& c.state is Connecting
            &&& c.emitted.len() == 0
            &&& c.host_key_accepted && c.transport_open && c.channel_open && !c.shell_started
            &&& c.window == Some((INITIAL_COLUMNS, INITIAL_ROWS))
        },
        Stage::Open => {
            &&& c.state is Connected
            &&& running_trace(c.emitted)
            &&& c.host_key_accepted && c.transport_open && c.channel_open && c.shell_started
        },
        Stage::Closed => {
            &&& c.state is Disconnected
            &&& finished_trace(c.emitted)
            &&& !c.host_key_accepted && !c.transport_open && !c.channel_open && !c.shell_started
            &&& c.window is None
        },
        Stage::Failed => {
            &&& c.state is Error
            &&& c.emitted == seq![
                SshEventView::Error(c.state->Error_0),
                SshEventView::Disconnected,
            ]
            &&& !c.host_key_accepted && !c.transport_open && !c.channel_open && !c.shell_started
            &&& c.window is None
        },
    }
}

/// A new connection is valid.
pub proof fn initial_is_valid(session: SessionView, policy: HostKeyPolicyView)
    ensures
        valid(initial(session, policy)),
{
}

/// `connect` keeps a connection valid.
pub proof fn connect_keeps_valid(c: ConnectionView, password: Option<Seq<char>>)
    requires
        valid(c),
    ensures
        valid(connect_model(c, password).0),
{
}

/// Consulting the host key policy keeps a connection valid.
pub proof fn host_key_keeps_valid(c: ConnectionView, fingerprint: Seq<char>)
    requires
        valid(c),
    ensures
        valid(host_key_model(c, fingerprint).0),
{
}

/// Every handshake step keeps a connection valid, and what it emits is what
/// it adds to the connection's events.
pub proof fn handshake_keeps_valid(c: ConnectionView, reply: ReplyView, key_file: Seq<char>)
    requires
        valid(c),
    ensures
        valid(handshake_model(c, reply, key_file).0),
        handshake_model(c, reply, key_file).0.emitted == c.emitted + handshake_model(
            c,
            reply,
            key_file,
        ).2,
{
    let next = handshake_model(c, reply, key_file);
    assert(next.0.emitted =~= c.emitted + next.2);
}

/// Every turn of the session loop keeps a connection valid, and what it
/// emits is what it adds to the connection's events.
pub proof fn run_keeps_valid(c: ConnectionView, input: LoopInputView)
    requires
        valid(c),
    ensures
        valid(run_model(c, input).0),
        run_model(c, input).0.emitted == c.emitted + run_model(c, input).2,
{
    let next = run_model(c, input);
    assert(next.0.emitted =~= c.emitted + next.2);
    if c.stage is Open && next.0.stage is Closed {
        let t = next.0.emitted;
        if input is WriteFailed {
            assert(t.take(t.len() - 2) =~= c.emitted);
        } else {
            assert(t.drop_last() =~= c.emitted);
        }
    }
}

/// A connection is `Connected` only with the transport open to a host whose
/// key the policy accepted, the interactive channel open on it, and the
/// shell request on that channel succeeded.
pub proof fn connected_has_open_channel(c: ConnectionView)
    requires
        valid(c),
        c.state is Connected,
    ensures
        c.stage is Open,
        c.host_key_accepted,
        c.transport_open,
        c.channel_open,
        c.shell_started,
{
}

/// The handshake reaches `Connected` by one step only: the shell request
/// succeeding on a channel that is open.
pub proof fn connected_only_after_shell(c: ConnectionView, reply: ReplyView, key_file: Seq<char>)
    requires
        valid(c),
        !(c.state is Connected),
        handshake_model(c, reply, key_file).0.state is Connected,
    ensures
        c.stage is Shell,
        reply is Done,
        c.channel_open,
{
}

/// The channel counts as open by one step only: the driver reporting that
/// opening it succeeded.
pub proof fn channel_opens_only_on_success(
    c: ConnectionView,
    reply: ReplyView,
    key_file: Seq<char>,
)
    requires
        valid(c),
        !c.channel_open,
        handshake_model(c, reply, key_file).0.channel_open,
    ensures
        c.stage is Channel,
        reply is Done,
{
}

/// A failed handshake leaves nothing open.
pub proof fn failure_leaves_nothing_open(c: ConnectionView)
    requires
        valid(c),
        c.state is Error,
    ensures
        c.stage is Failed,
        !c.transport_open,
        !c.channel_open,
        !c.shell_started,
{
}

/// The order of the events of a connection: `Connected` comes first or not
/// at all, and it is there exactly if the handshake succeeded; nothing
/// follows `Disconnected`; a connection whose life is over, because its
/// session has ended or because its handshake failed, has `Disconnected` as
/// its last event; and a handshake that failed has emitted one `Error` and
/// after it `Disconnected`.
pub proof fn events_are_ordered(c: ConnectionView)
    requires
        valid(c),
    ensures
        forall|i: int| 0 <= i < c.emitted.len() && c.emitted[i] is Connected ==> i == 0,
        (c.emitted.len() > 0 && c.emitted[0] is Connected) <==> (c.stage is Open
            || c.stage is Closed),
        forall|i: int|
            0 <= i < c.emitted.len() && c.emitted[i] is Disconnected ==> i == c.emitted.len() - 1,
        c.stage is Closed || c.stage is Failed ==> c.emitted.len() > 0
            && c.emitted.last() is Disconnected,
        c.emitted.len() > 0 && c.emitted.last() is Disconnected ==> c.stage is Closed
            || c.stage is Failed,
        c.stage is Failed ==> c.emitted.len() == 2 && c.emitted[0] is Error
            && c.state is Error && c.emitted[0]->Error_0 == c.state->Error_0,
        !(c.stage is Open || c.stage is Closed || c.stage is Failed) ==> c.emitted.len() == 0,
{
    let t = c.emitted;
    if c.stage is Open {
        assert forall|i: int| 0 <= i < t.len() implies !(t[i] is Disconnected) && (t[i] is Connected
            ==> i == 0) by {
            if i >= 1 {
                assert(is_session_event(t[i]));
            }
        }
    } else if c.stage is Closed {
        let n = t.len() as int;
        if running_trace(t.drop_last()) {
            let body = t.drop_last();
            assert forall|i: int| 0 <= i < n implies (t[i] is Disconnected ==> i == n - 1) && (
            t[i] is Connected ==> i == 0) by {
                if i < n - 1 {
                    assert(t[i] == body[i]);
                    if i >= 1 {
                        assert(is_session_event(body[i]));
                    }
                }
            }
            assert(t[0] == body[0]);
        } else {
            let body = t.take(n - 2);
            assert forall|i: int| 0 <= i < n implies (t[i] is Disconnected ==> i == n - 1) && (
            t[i] is Connected ==> i == 0) by {
                if i < n - 2 {
                    assert(t[i] == body[i]);
                    if i >= 1 {
                        assert(is_session_event(body[i]));
                    }
                }
            }
            assert(t[0] == body[0]);
        }
    }
}

/// Once the life of a connection is over, because its session has ended or
/// its handshake has failed, nothing happens any more: every input is
/// ignored, so nothing is emitted after `Disconnected` and the transport is
/// asked to close only once.
pub proof fn closed_is_final(
    c: ConnectionView,
    input: LoopInputView,
    reply: ReplyView,
    key_file: Seq<char>,
    password: Option<Seq<char>>,
)
    requires
        valid(c),
        c.stage is Closed || c.stage is Failed,
    ensures
        run_model(c, input) == (c, LoopActionView::NotRunning, Seq::<SshEventView>::empty()),
        handshake_model(c, reply, key_file) == (
            c,
            ConnectActionView::Nothing,
            Seq::<SshEventView>::empty(),
        ),
        connect_model(c, password) == (c, ConnectActionView::Nothing),
{
}

/// `Disconnect` on a connection that is already `Disconnected` does nothing
/// and is no error: the state stays, nothing is emitted, nothing is asked of
/// the remote side, and the caller learns that no session runs.
pub proof fn disconnect_when_disconnected_is_noop(c: ConnectionView)
    requires
        valid(c),
        c.state is Disconnected,
    ensures
        run_model(c, LoopInputView::Command(SshCommandView::Disconnect)) == (
            c,
            LoopActionView::NotRunning,
            Seq::<SshEventView>::empty(),
        ),
{
}

/// The same terminal size twice in a row: the second `Resize` asks nothing
/// of the remote side, so the two together ask for at most one window
/// change.
pub proof fn repeated_resize_is_dropped(c: ConnectionView, columns: u32, rows: u32)
    requires
        valid(c),
    ensures
        ({
            let resize = LoopInputView::Command(SshCommandView::Resize(columns, rows));
            let first = run_model(c, resize);
            let second = run_model(first.0, resize);
            &&& second.1 == if c.stage is Open {
                LoopActionView::Nothing
            } else {
                LoopActionView::NotRunning
            }
            &&& second.2.len() == 0
            &&& second.0 == first.0
            &&& first.1 == second.1 || first.1 == (LoopActionView::WindowChange { columns, rows })
        }),
{
}

/// A `Resize` asks for a window change exactly if the session runs and the
/// size differs from the one last asked for.
pub proof fn resize_asks_only_for_changes(c: ConnectionView, columns: u32, rows: u32)
    requires
        valid(c),
    ensures
        run_model(c, LoopInputView::Command(SshCommandView::Resize(columns, rows))).1
            is WindowChange <==> c.stage is Open && c.window != Some((columns, rows)),
{
}

/// Bytes pass through a running session untouched: what a `SendData`
/// command carries is what is written to the channel, and what the remote
/// side sends, on either stream, is what the `Data` event carries.
pub proof fn bytes_pass_verbatim(c: ConnectionView, bytes: Seq<u8>)
    requires
        valid(c),
        c.stage is Open,
    ensures
        run_model(c, LoopInputView::Command(SshCommandView::SendData(bytes))) == (
            c,
            LoopActionView::Write(bytes),
            Seq::<SshEventView>::empty(),
        ),
        run_model(c, LoopInputView::Channel(ChannelMessageView::Data(bytes))).2
            == seq![SshEventView::Data(bytes)],
        run_model(c, LoopInputView::Channel(ChannelMessageView::ExtendedData(bytes))).2
            == seq![SshEventView::Data(bytes)],
        run_model(c, LoopInputView::Channel(ChannelMessageView::Data(bytes))).0.stage is Open,
{
}

/// The session loop over `inputs`, one after the other: the connection
/// after them, and everything emitted on the way.
pub open spec fn run_all(c: ConnectionView, inputs: Seq<LoopInputView>) -> (
    ConnectionView,
    Seq<SshEventView>,
)
    decreases inputs.len(),
{
    if inputs.len() == 0 {
        (c, Seq::empty())
    } else {
        let before = run_all(c, inputs.drop_last());
        let step = run_model(before.0, inputs.last());
        (step.0, before.1 + step.2)
    }
}

/// The bytes that an input brings from the remote side.
pub open spec fn bytes_of_input(input: LoopInputView) -> Seq<u8> {
    match input {
        LoopInputView::Channel(ChannelMessageView::Data(data)) => data,
        LoopInputView::Channel(ChannelMessageView::ExtendedData(data)) => data,
        _ => Seq::empty(),
    }
}

/// The bytes that an event brings to the front end.
pub open spec fn bytes_of_event(event: SshEventView) -> Seq<u8> {
    match event {
        SshEventView::Data(data) => data,
        _ => Seq::empty(),
    }
}

/// The bytes that the remote side sent with `inputs`, in order.
pub open spec fn bytes_received(inputs: Seq<LoopInputView>) -> Seq<u8>
    decreases inputs.len(),
{
    if inputs.len() == 0 {
        Seq::empty()
    } else {
        bytes_received(inputs.drop_last()) + bytes_of_input(inputs.last())
    }
}

/// The bytes that `events` bring to the front end, in order.
pub open spec fn bytes_delivered(events: Seq<SshEventView>) -> Seq<u8>
    decreases events.len(),
{
    if events.len() == 0 {
        Seq::empty()
    } else {
        bytes_delivered(events.drop_last()) + bytes_of_event(events.last())
    }
}

/// Whether an input ends a running session.
pub open spec fn ends_session(input: LoopInputView) -> bool {
    match input {
        LoopInputView::Command(SshCommandView::Disconnect) => true,
        LoopInputView::CommandsClosed => true,
        LoopInputView::Channel(ChannelMessageView::Eof) => true,
        LoopInputView::Channel(ChannelMessageView::Close) => true,
        LoopInputView::ChannelEnded => true,
        LoopInputView::WriteFailed(_) => true,
        _ => false,
    }
}

/// Whatever the driver hands in and in whatever order, the connection stays
/// valid, and what it has emitted grows by what the turns emitted.
pub proof fn run_all_keeps_valid(c: ConnectionView, inputs: Seq<LoopInputView>)
    requires
        valid(c),
    ensures
        valid(run_all(c, inputs).0),
        run_all(c, inputs).0.emitted == c.emitted + run_all(c, inputs).1,
    decreases inputs.len(),
{
    if inputs.len() > 0 {
        run_all_keeps_valid(c, inputs.drop_last());
        let before = run_all(c, inputs.drop_last());
        run_keeps_valid(before.0, inputs.last());
        let step = run_model(before.0, inputs.last());
        assert(step.0.emitted =~= c.emitted + (before.1 + step.2));
    } else {
        assert(c.emitted =~= c.emitted + Seq::<SshEventView>::empty());
    }
}

/// While the session runs, the bytes of the remote side reach the front end
/// verbatim and in order: the `Data` events carry, one after the other,
/// exactly the bytes that the remote side sent, whatever commands came in
/// between.
pub proof fn data_arrives_verbatim_and_in_order(c: ConnectionView, inputs: Seq<LoopInputView>)
    requires
        valid(c),
        c.stage is Open,
        forall|i: int| 0 <= i < inputs.len() ==> !ends_session(#[trigger] inputs[i]),
    ensures
        run_all(c, inputs).0.stage is Open,
        bytes_delivered(run_all(c, inputs).1) == bytes_received(inputs),
    decreases inputs.len(),
{
    if inputs.len() > 0 {
        let front = inputs.drop_last();
        assert forall|i: int| 0 <= i < front.len() implies !ends_session(#[trigger] front[i]) by {
            assert(front[i] == inputs[i]);
        }
        data_arrives_verbatim_and_in_order(c, front);
        run_all_keeps_valid(c, front);
        let before = run_all(c, front);
        let last = inputs.last();
        assert(!ends_session(inputs[inputs.len() - 1]));
        let step = run_model(before.0, last);
        let events = before.1 + step.2;
        if step.2.len() == 0 {
            assert(events =~= before.1);
            assert(bytes_of_input(last) =~= Seq::<u8>::empty());
            assert(bytes_received(inputs) =~= bytes_received(front));
        } else {
            assert(step.2.len() == 1);
            assert(events.drop_last() =~= before.1);
            assert(events.last() == step.2[0]);
            assert(bytes_of_event(step.2[0]) == bytes_of_input(last));
        }
    }
}

/// What a listener observes that begins to listen when `heard` events have
/// been emitted: `Connected` comes first or not at all, nothing follows
/// `Disconnected`, and once the life of the connection is over the last
/// event the listener has is `Disconnected`.
pub proof fn every_listener_sees_events_in_order(c: ConnectionView, heard: int)
    requires
        valid(c),
        0 <= heard <= c.emitted.len(),
    ensures
        ({
            let seen = c.emitted.skip(heard);
            &&& forall|i: int| 0 <= i < seen.len() && seen[i] is Connected ==> i == 0
            &&& forall|i: int| 0 <= i < seen.len() && seen[i] is Disconnected ==> i == seen.len() - 1
            &&& (c.stage is Closed || c.stage is Failed) && seen.len() > 0 ==> seen.last()
                is Disconnected
        }),
{
    events_are_ordered(c);
    let seen = c.emitted.skip(heard);
    assert forall|i: int| 0 <= i < seen.len() implies (seen[i] is Connected ==> i == 0) && (
    seen[i] is Disconnected ==> i == seen.len() - 1) by {
        assert(seen[i] == c.emitted[heard + i]);
    }
    if seen.len() > 0 {
        assert(seen.last() == c.emitted.last());
    }
}

/// A failed handshake is reported both ways: the error that the caller of
/// `connect` is handed is also emitted, once, as an `Error` event with the
/// same cause, and the state keeps that cause. `Disconnected` follows the
/// `Error` and is the last event of the connection.
pub proof fn handshake_failure_is_reported_both_ways(
    c: ConnectionView,
    reply: ReplyView,
    key_file: Seq<char>,
)
    requires
        valid(c),
        handshake_model(c, reply, key_file).1 is Abort,
    ensures
        ({
            let next = handshake_model(c, reply, key_file);
            let cause = next.1->Abort_0.cause();
            &&& next.2 == seq![SshEventView::Error(cause), SshEventView::Disconnected]
            &&& next.0.state == SshConnectionStateView::Error(cause)
            &&& next.0.stage is Failed
        }),
{
}

/// A step of the handshake either goes on, or completes it, or fails it,
/// and it fails exactly if the driver did not report success, the host key
/// is not verified, or a key session names no key.
pub proof fn handshake_fails_only_for_a_cause(
    c: ConnectionView,
    reply: ReplyView,
    key_file: Seq<char>,
)
    requires
        valid(c),
        c.state is Connecting,
    ensures
        handshake_model(c, reply, key_file).1 is Abort <==> !(reply is Done) || (c.stage
            is Transport && (!c.host_key_accepted || (c.session.auth_type == AuthType::Key
            && c.session.key_path is None))),
        !(handshake_model(c, reply, key_file).1 is Nothing),
{
}

/// A session that is lost is reported and torn down: the failed write is
/// emitted as an `Error`, `Disconnected` follows, and the driver is asked
/// to close the transport.
pub proof fn a_lost_session_is_reported_and_torn_down(c: ConnectionView, cause: Seq<char>)
    requires
        valid(c),
        c.stage is Open,
    ensures
        ({
            let next = run_model(c, LoopInputView::WriteFailed(cause));
            &&& next.2 == seq![SshEventView::Error(cause), SshEventView::Disconnected]
            &&& next.1 == LoopActionView::Close(SshErrorView::Transport(cause))
            &&& next.0.state is Disconnected
            &&& next.0.stage is Closed
        }),
{
    let next = run_model(c, LoopInputView::WriteFailed(cause));
    assert(next.2 =~= seq![SshEventView::Error(cause), SshEventView::Disconnected]);
}

/// Every way out of a running session goes through the same teardown: the
/// state becomes `Disconnected`, `Disconnected` is the last event of the
/// turn, and the driver is asked to close the transport.
pub proof fn every_exit_tears_down(c: ConnectionView, input: LoopInputView)
    requires
        valid(c),
        c.stage is Open,
    ensures
        ({
            let next = run_model(c, input);
            &&& ends_session(input) <==> next.0.stage is Closed
            &&& ends_session(input) <==> next.1 is Close
            &&& ends_session(input) ==> next.0.state is Disconnected && next.2.len() > 0
                && next.2.last() is Disconnected
            &&& !ends_session(input) ==> next.0.stage is Open
        }),
{
}

/// A turn of the loop tells its caller whether a session runs: it answers
/// `NotRunning` exactly where none does, that is before `connect`, during
/// the handshake, after a failed handshake and after the session has ended.
/// Then nothing was taken up, nothing is emitted, no request goes to the
/// remote side and the state is as it was.
pub proof fn run_tells_when_no_session_runs(c: ConnectionView, input: LoopInputView)
    requires
        valid(c),
    ensures
        run_model(c, input).1 is NotRunning <==> !(c.stage is Open),
        run_model(c, input).1 is NotRunning <==> !(c.state is Connected),
        !(c.stage is Open) ==> run_model(c, input).0 == c && run_model(c, input).2.len() == 0,
{
}

} // verus!
