use terminux::ssh::{
    farewell, ChannelMessage, ConnectAction, DisconnectReason, HostKeyPolicy, LoopAction,
    LoopInput, Reply, SftpClient, SshCommand, SshConnection, SshConnectionState, SshError,
    SshEvent, Stage, INITIAL_COLUMNS, INITIAL_ROWS,
};
use terminux::storage::{AuthType, Session};

fn descriptor() -> Session {
    Session {
        id: "s-1".to_string(),
        name: "example".to_string(),
        host: "example.com".to_string(),
        port: 22,
        username: "u".to_string(),
        auth_type: AuthType::Password,
        key_path: None,
        folder_id: None,
        auto_connect: false,
        jump_host: None,
        agent_forwarding: false,
        port_forward_local: None,
        port_forward_remote: None,
    }
}

fn key_descriptor(path: Option<&str>) -> Session {
    let mut session = descriptor();
    session.auth_type = AuthType::Key;
    session.key_path = path.map(|p| p.to_string());
    session
}

/// A connection whose handshake has gone through.
fn established() -> SshConnection {
    let mut connection = SshConnection::new(descriptor());
    connection.connect(Some("secret"));
    assert!(connection.check_server_key("SHA256:abc"));
    connection.handshake(Reply::Done);
    connection.handshake(Reply::Done);
    connection.handshake(Reply::Done);
    connection.handshake(Reply::Done);
    let last = connection.handshake(Reply::Done);
    assert_eq!(last.action, ConnectAction::Established);
    connection
}

#[test]
fn wrong_password_fails_with_one_error_event() {
    let mut connection = SshConnection::new(descriptor());
    let mut seen: Vec<SshEvent> = Vec::new();
    let step = connection.connect(Some("wrong"));
    assert_eq!(
        step.action,
        ConnectAction::OpenTransport { address: "example.com:22".to_string() }
    );
    seen.extend(step.events);
    assert_eq!(*connection.state(), SshConnectionState::Connecting);
    assert!(connection.check_server_key("SHA256:abc"));
    let step = connection.handshake(Reply::Done);
    assert_eq!(
        step.action,
        ConnectAction::AuthenticatePassword {
            username: "u".to_string(),
            password: "wrong".to_string()
        }
    );
    seen.extend(step.events);
    let step = connection.handshake(Reply::Refused);
    assert_eq!(
        step.action,
        ConnectAction::Abort(SshError::Auth("Authentication failed".to_string()))
    );
    seen.extend(step.events);
    assert_eq!(
        seen,
        vec![SshEvent::Error("Authentication failed".to_string()), SshEvent::Disconnected]
    );
    assert_eq!(seen.iter().filter(|e| matches!(e, SshEvent::Error(_))).count(), 1);
    assert_eq!(
        *connection.state(),
        SshConnectionState::Error("Authentication failed".to_string())
    );
    assert_eq!(connection.stage(), Stage::Failed);
    assert!(!connection.is_connected());
}

#[test]
fn a_new_connection_is_disconnected_and_insecure_by_default() {
    let connection = SshConnection::new(descriptor());
    assert_eq!(*connection.state(), SshConnectionState::Disconnected);
    assert_eq!(connection.stage(), Stage::Idle);
    assert!(!connection.is_connected());
    assert!(connection.policy().is_insecure());
    assert_eq!(connection.session().host, "example.com");
    assert_eq!(connection.address(), "example.com:22");
}

#[test]
fn the_address_writes_the_port_in_decimal() {
    for (port, text) in [(0u16, "h:0"), (7, "h:7"), (2222, "h:2222"), (65535, "h:65535")] {
        let mut session = descriptor();
        session.host = "h".to_string();
        session.port = port;
        assert_eq!(SshConnection::new(session).address(), text);
    }
}

#[test]
fn password_handshake_runs_through_every_stage() {
    let mut connection = SshConnection::new(descriptor());
    let step = connection.connect(Some("secret"));
    assert_eq!(
        step.action,
        ConnectAction::OpenTransport { address: "example.com:22".to_string() }
    );
    assert!(step.events.is_empty());
    assert_eq!(connection.stage(), Stage::Transport);
    assert!(connection.check_server_key("SHA256:abc"));

    let step = connection.handshake(Reply::Done);
    assert_eq!(
        step.action,
        ConnectAction::AuthenticatePassword {
            username: "u".to_string(),
            password: "secret".to_string()
        }
    );
    assert!(step.events.is_empty());
    assert_eq!(connection.stage(), Stage::Auth);

    let step = connection.handshake(Reply::Done);
    assert_eq!(step.action, ConnectAction::OpenChannel);
    assert_eq!(connection.stage(), Stage::Channel);

    let step = connection.handshake(Reply::Done);
    assert_eq!(
        step.action,
        ConnectAction::RequestPty {
            terminal: "xterm-256color".to_string(),
            columns: 80,
            rows: 24
        }
    );
    assert_eq!((INITIAL_COLUMNS, INITIAL_ROWS), (80, 24));
    assert_eq!(connection.stage(), Stage::Pty);

    let step = connection.handshake(Reply::Done);
    assert_eq!(step.action, ConnectAction::RequestShell);
    assert_eq!(*connection.state(), SshConnectionState::Connecting);
    assert!(!connection.is_connected());

    let step = connection.handshake(Reply::Done);
    assert_eq!(step.action, ConnectAction::Established);
    assert_eq!(step.events, vec![SshEvent::Connected]);
    assert_eq!(*connection.state(), SshConnectionState::Connected);
    assert_eq!(connection.stage(), Stage::Open);
    assert!(connection.is_connected());
}

#[test]
fn no_password_counts_as_the_empty_password() {
    let mut connection = SshConnection::new(descriptor());
    connection.connect(None);
    connection.check_server_key("k");
    let step = connection.handshake(Reply::Done);
    assert_eq!(
        step.action,
        ConnectAction::AuthenticatePassword { username: "u".to_string(), password: String::new() }
    );
}

#[test]
fn key_handshake_loads_the_key_before_it_authenticates() {
    let mut connection = SshConnection::new(key_descriptor(Some("/keys/id_ed25519")));
    connection.connect(None);
    connection.check_server_key("k");
    let step = connection.handshake(Reply::Done);
    assert_eq!(step.action, ConnectAction::LoadKey { path: "/keys/id_ed25519".to_string() });
    assert_eq!(connection.stage(), Stage::KeyLoad);
    let step = connection.handshake(Reply::Done);
    assert_eq!(step.action, ConnectAction::AuthenticatePublicKey { username: "u".to_string() });
    assert_eq!(connection.stage(), Stage::Auth);
    let step = connection.handshake(Reply::Done);
    assert_eq!(step.action, ConnectAction::OpenChannel);
}

#[test]
fn the_key_path_goes_through_tilde_expansion() {
    let mut connection = SshConnection::new(key_descriptor(Some("~/.ssh/id_rsa")));
    connection.connect(None);
    connection.check_server_key("k");
    let step = connection.handshake(Reply::Done);
    match step.action {
        ConnectAction::LoadKey { path } => {
            assert!(path.ends_with("/.ssh/id_rsa"));
            match dirs::home_dir().and_then(|home| home.into_os_string().into_string().ok()) {
                Some(home) => {
                    assert_eq!(path, format!("{}/.ssh/id_rsa", home));
                    assert_ne!(path, "~/.ssh/id_rsa");
                }
                None => assert_eq!(path, "~/.ssh/id_rsa"),
            }
        }
        other => panic!("unexpected action {:?}", other),
    }
}

#[test]
fn the_key_file_given_is_the_key_file_asked_for() {
    let mut connection = SshConnection::new(key_descriptor(Some("~/.ssh/id_rsa")));
    connection.connect(None);
    connection.check_server_key("k");
    let step = connection.handshake_with(Reply::Done, "/home/u/.ssh/id_rsa".to_string());
    assert_eq!(step.action, ConnectAction::LoadKey { path: "/home/u/.ssh/id_rsa".to_string() });
}

#[test]
fn a_key_session_without_key_path_fails_to_load_a_key() {
    let mut connection = SshConnection::new(key_descriptor(None));
    connection.connect(None);
    connection.check_server_key("k");
    let step = connection.handshake(Reply::Done);
    assert_eq!(
        step.action,
        ConnectAction::Abort(SshError::KeyLoad("Key path not specified".to_string()))
    );
    assert_eq!(
        step.events,
        vec![SshEvent::Error("Key path not specified".to_string()), SshEvent::Disconnected]
    );
    assert_eq!(
        *connection.state(),
        SshConnectionState::Error("Key path not specified".to_string())
    );
}

#[test]
fn an_unreadable_key_is_a_key_load_error() {
    let mut connection = SshConnection::new(key_descriptor(Some("/keys/none")));
    connection.connect(None);
    connection.check_server_key("k");
    connection.handshake(Reply::Done);
    let step = connection.handshake(Reply::Failed("No such file".to_string()));
    let error = SshError::KeyLoad("No such file".to_string());
    assert_eq!(error.message(), "Failed to load key: No such file");
    assert_eq!(error.cause(), "No such file");
    assert_eq!(step.action, ConnectAction::Abort(error));
    assert_eq!(
        step.events,
        vec![SshEvent::Error("No such file".to_string()), SshEvent::Disconnected]
    );
    assert_eq!(*connection.state(), SshConnectionState::Error("No such file".to_string()));
}

#[test]
fn an_unreachable_host_is_a_transport_error() {
    let mut connection = SshConnection::new(descriptor());
    connection.connect(Some("x"));
    let step = connection.handshake(Reply::Failed("Connection timed out".to_string()));
    assert_eq!(
        step.action,
        ConnectAction::Abort(SshError::Transport("Connection timed out".to_string()))
    );
    assert_eq!(
        step.events,
        vec![SshEvent::Error("Connection timed out".to_string()), SshEvent::Disconnected]
    );
    assert_eq!(
        *connection.state(),
        SshConnectionState::Error("Connection timed out".to_string())
    );
}

#[test]
fn a_transport_without_verified_host_key_is_refused() {
    let mut connection = SshConnection::new(descriptor());
    connection.connect(Some("x"));
    let step = connection.handshake(Reply::Done);
    assert_eq!(
        step.action,
        ConnectAction::Abort(SshError::Transport("Host key not verified".to_string()))
    );
    assert_eq!(connection.stage(), Stage::Failed);
}

#[test]
fn a_pinned_policy_accepts_only_known_keys() {
    let policy = HostKeyPolicy::Known(vec!["SHA256:good".to_string(), "SHA256:also".to_string()]);
    assert!(!policy.is_insecure());
    assert!(policy.accepts("SHA256:good"));
    assert!(policy.accepts("SHA256:also"));
    assert!(!policy.accepts("SHA256:evil"));
    assert!(!policy.accepts(""));
    assert!(HostKeyPolicy::TrustAll.accepts("anything"));
    assert!(HostKeyPolicy::default().is_insecure());
    assert_eq!(policy.clone(), policy);

    let mut connection = SshConnection::with_policy(descriptor(), policy);
    assert!(!connection.policy().is_insecure());
    connection.connect(Some("x"));
    assert!(!connection.check_server_key("SHA256:evil"));
    let step = connection.handshake(Reply::Done);
    assert_eq!(
        step.action,
        ConnectAction::Abort(SshError::Transport("Host key not verified".to_string()))
    );

    let pinned = HostKeyPolicy::Known(vec!["SHA256:good".to_string()]);
    let mut connection = SshConnection::with_policy(descriptor(), pinned);
    connection.connect(Some("x"));
    assert!(connection.check_server_key("SHA256:good"));
    let step = connection.handshake(Reply::Done);
    assert!(matches!(step.action, ConnectAction::AuthenticatePassword { .. }));
}

#[test]
fn the_host_key_counts_only_while_the_transport_opens() {
    let mut connection = SshConnection::new(descriptor());
    assert!(!connection.check_server_key("k"));
    assert_eq!(connection.stage(), Stage::Idle);
    let mut running = established();
    assert!(!running.check_server_key("k"));
    assert!(running.is_connected());
}

#[test]
fn a_failure_while_authenticating_is_a_transport_error() {
    let mut connection = SshConnection::new(descriptor());
    connection.connect(Some("x"));
    connection.check_server_key("k");
    connection.handshake(Reply::Done);
    let step = connection.handshake(Reply::Failed("Connection reset".to_string()));
    assert_eq!(
        step.action,
        ConnectAction::Abort(SshError::Transport("Connection reset".to_string()))
    );
}

#[test]
fn channel_terminal_and_shell_failures_are_channel_errors() {
    for (done, refused) in [
        (2, "Channel open refused"),
        (3, "Terminal request refused"),
        (4, "Shell request refused"),
    ] {
        let mut connection = SshConnection::new(descriptor());
        connection.connect(Some("x"));
        connection.check_server_key("k");
        for _ in 0..done {
            connection.handshake(Reply::Done);
        }
        let step = connection.handshake(Reply::Refused);
        assert_eq!(step.action, ConnectAction::Abort(SshError::Channel(refused.to_string())));
        assert_eq!(
            step.events,
            vec![SshEvent::Error(refused.to_string()), SshEvent::Disconnected]
        );
        assert_eq!(*connection.state(), SshConnectionState::Error(refused.to_string()));
        assert!(!connection.is_connected());

        let mut connection = SshConnection::new(descriptor());
        connection.connect(Some("x"));
        connection.check_server_key("k");
        for _ in 0..done {
            connection.handshake(Reply::Done);
        }
        let step = connection.handshake(Reply::Failed("boom".to_string()));
        assert_eq!(step.action, ConnectAction::Abort(SshError::Channel("boom".to_string())));
        assert_eq!(*connection.state(), SshConnectionState::Error("boom".to_string()));
    }
}

#[test]
fn a_connection_connects_once() {
    let mut failed = SshConnection::new(descriptor());
    failed.connect(Some("x"));
    failed.handshake(Reply::Failed("down".to_string()));
    let again = failed.connect(Some("x"));
    assert_eq!(again.action, ConnectAction::Nothing);
    assert!(again.events.is_empty());
    assert_eq!(*failed.state(), SshConnectionState::Error("down".to_string()));
    let reply = failed.handshake(Reply::Done);
    assert_eq!(reply.action, ConnectAction::Nothing);
    assert!(reply.events.is_empty());

    let mut running = established();
    let again = running.connect(Some("x"));
    assert_eq!(again.action, ConnectAction::Nothing);
    assert!(running.is_connected());
    let reply = running.handshake(Reply::Failed("late".to_string()));
    assert_eq!(reply.action, ConnectAction::Nothing);
    assert!(running.is_connected());
}

#[test]
fn a_reply_before_connect_is_ignored() {
    let mut connection = SshConnection::new(descriptor());
    let step = connection.handshake(Reply::Done);
    assert_eq!(step.action, ConnectAction::Nothing);
    assert!(step.events.is_empty());
    assert_eq!(connection.stage(), Stage::Idle);
}

#[test]
fn bytes_make_the_round_trip_verbatim_and_in_order() {
    let mut connection = established();
    let sent = connection.run(LoopInput::Command(SshCommand::SendData(b"ls\n".to_vec())));
    assert_eq!(sent.action, LoopAction::Write(b"ls\n".to_vec()));
    assert!(sent.events.is_empty());

    let mut seen: Vec<u8> = Vec::new();
    for part in [&b"ls\r\n"[..], &b"notes.txt  "[..], &b"todo.txt\r\n$ "[..]] {
        let step = connection.run(LoopInput::Channel(ChannelMessage::Data(part.to_vec())));
        assert_eq!(step.action, LoopAction::Nothing);
        assert_eq!(step.events, vec![SshEvent::Data(part.to_vec())]);
        for event in step.events {
            if let SshEvent::Data(bytes) = event {
                seen.extend(bytes);
            }
        }
    }
    assert_eq!(seen, b"ls\r\nnotes.txt  todo.txt\r\n$ ".to_vec());
    assert!(connection.is_connected());
}

#[test]
fn extended_data_is_forwarded_as_data() {
    let mut connection = established();
    let step = connection.run(LoopInput::Channel(ChannelMessage::ExtendedData(vec![0, 255, 7])));
    assert_eq!(step.action, LoopAction::Nothing);
    assert_eq!(step.events, vec![SshEvent::Data(vec![0, 255, 7])]);
}

#[test]
fn the_same_size_twice_asks_for_one_window_change() {
    let mut connection = established();
    let first = connection.run(LoopInput::Command(SshCommand::Resize(100, 30)));
    assert_eq!(first.action, LoopAction::WindowChange { columns: 100, rows: 30 });
    let second = connection.run(LoopInput::Command(SshCommand::Resize(100, 30)));
    assert_eq!(second.action, LoopAction::Nothing);
    assert!(second.events.is_empty());
    let third = connection.run(LoopInput::Command(SshCommand::Resize(100, 31)));
    assert_eq!(third.action, LoopAction::WindowChange { columns: 100, rows: 31 });
}

#[test]
fn resize_to_the_initial_size_asks_for_nothing() {
    let mut connection = established();
    let first = connection.run(LoopInput::Command(SshCommand::Resize(80, 24)));
    assert_eq!(first.action, LoopAction::Nothing);
    let second = connection.run(LoopInput::Command(SshCommand::Resize(80, 24)));
    assert_eq!(second.action, LoopAction::Nothing);
}

#[test]
fn a_failed_window_change_is_not_fatal_and_is_asked_again() {
    let mut connection = established();
    let first = connection.run(LoopInput::Command(SshCommand::Resize(120, 40)));
    assert_eq!(first.action, LoopAction::WindowChange { columns: 120, rows: 40 });
    let failed = connection.run(LoopInput::ResizeFailed("channel busy".to_string()));
    assert_eq!(failed.action, LoopAction::Nothing);
    assert!(failed.events.is_empty());
    assert!(connection.is_connected());
    let again = connection.run(LoopInput::Command(SshCommand::Resize(120, 40)));
    assert_eq!(again.action, LoopAction::WindowChange { columns: 120, rows: 40 });
}

#[test]
fn disconnect_tears_down_once() {
    let mut connection = established();
    let step = connection.run(LoopInput::Command(SshCommand::Disconnect));
    assert_eq!(step.action, LoopAction::Close(SshError::ChannelClosed));
    assert_eq!(step.events, vec![SshEvent::Disconnected]);
    assert_eq!(*connection.state(), SshConnectionState::Disconnected);
    assert_eq!(connection.stage(), Stage::Closed);

    let again = connection.run(LoopInput::Command(SshCommand::Disconnect));
    assert_eq!(again.action, LoopAction::NotRunning);
    assert!(again.events.is_empty());
    assert_eq!(*connection.state(), SshConnectionState::Disconnected);

    let late = connection.run(LoopInput::Channel(ChannelMessage::Data(b"late".to_vec())));
    assert_eq!(late.action, LoopAction::NotRunning);
    assert!(late.events.is_empty());
    let late = connection.run(LoopInput::WriteFailed("late".to_string()));
    assert_eq!(late.action, LoopAction::NotRunning);
    assert!(late.events.is_empty());
}

#[test]
fn disconnect_before_connect_is_a_no_op() {
    let mut connection = SshConnection::new(descriptor());
    let step = connection.run(LoopInput::Command(SshCommand::Disconnect));
    assert_eq!(step.action, LoopAction::NotRunning);
    assert!(step.events.is_empty());
    assert_eq!(*connection.state(), SshConnectionState::Disconnected);
    assert_eq!(connection.stage(), Stage::Idle);
}

#[test]
fn the_end_of_the_channel_ends_the_session() {
    for input in [
        LoopInput::Channel(ChannelMessage::Eof),
        LoopInput::Channel(ChannelMessage::Close),
        LoopInput::ChannelEnded,
        LoopInput::CommandsClosed,
    ] {
        let mut connection = established();
        let step = connection.run(input);
        assert_eq!(step.action, LoopAction::Close(SshError::ChannelClosed));
        assert_eq!(step.events, vec![SshEvent::Disconnected]);
        assert_eq!(*connection.state(), SshConnectionState::Disconnected);
    }
}

#[test]
fn a_failed_write_is_reported_and_ends_the_session() {
    let mut connection = established();
    connection.run(LoopInput::Command(SshCommand::SendData(b"x".to_vec())));
    let step = connection.run(LoopInput::WriteFailed("broken pipe".to_string()));
    assert_eq!(step.action, LoopAction::Close(SshError::Transport("broken pipe".to_string())));
    assert_eq!(
        step.events,
        vec![SshEvent::Error("broken pipe".to_string()), SshEvent::Disconnected]
    );
    assert_eq!(*connection.state(), SshConnectionState::Disconnected);
}

#[test]
fn exit_status_and_other_messages_are_ignored() {
    let mut connection = established();
    for input in [
        LoopInput::Channel(ChannelMessage::ExitStatus(3)),
        LoopInput::Channel(ChannelMessage::Other),
    ] {
        let step = connection.run(input);
        assert_eq!(step.action, LoopAction::Nothing);
        assert!(step.events.is_empty());
        assert!(connection.is_connected());
    }
}

#[test]
fn the_file_transfer_session_is_handed_over_as_an_event() {
    let mut connection = established();
    let mut client = SftpClient::new();
    client.change_directory("/home/u").unwrap();
    let step = connection.run(LoopInput::SftpOpened(client.clone()));
    assert_eq!(step.action, LoopAction::Nothing);
    assert_eq!(step.events, vec![SshEvent::SftpReady(client)]);
    assert!(connection.is_connected());
}

#[test]
fn events_of_a_lifetime_come_in_order() {
    let mut connection = SshConnection::new(descriptor());
    let mut seen: Vec<SshEvent> = Vec::new();
    seen.extend(connection.connect(Some("p")).events);
    connection.check_server_key("k");
    for _ in 0..5 {
        seen.extend(connection.handshake(Reply::Done).events);
    }
    seen.extend(connection.run(LoopInput::Channel(ChannelMessage::Data(b"a".to_vec()))).events);
    seen.extend(connection.run(LoopInput::Command(SshCommand::Resize(90, 20))).events);
    seen.extend(connection.run(LoopInput::Channel(ChannelMessage::Data(b"b".to_vec()))).events);
    seen.extend(connection.run(LoopInput::WriteFailed("lost".to_string())).events);
    seen.extend(connection.run(LoopInput::Channel(ChannelMessage::Data(b"c".to_vec()))).events);
    seen.extend(connection.run(LoopInput::Command(SshCommand::Disconnect)).events);
    assert_eq!(
        seen,
        vec![
            SshEvent::Connected,
            SshEvent::Data(b"a".to_vec()),
            SshEvent::Data(b"b".to_vec()),
            SshEvent::Error("lost".to_string()),
            SshEvent::Disconnected,
        ]
    );
}

#[test]
fn the_farewell_names_the_application() {
    let f = farewell();
    assert_eq!(f.reason, DisconnectReason::ByApplication);
    assert_eq!(f.description, "User disconnected");
    assert_eq!(f.language, "en");
}

#[test]
fn errors_say_what_they_are() {
    assert_eq!(SshError::Transport("t".to_string()).message(), "t");
    assert_eq!(SshError::Auth("a".to_string()).message(), "a");
    assert_eq!(SshError::Channel("c".to_string()).message(), "c");
    assert_eq!(SshError::Io("i".to_string()).message(), "i");
    assert_eq!(SshError::ChannelClosed.message(), "Channel closed");
    assert_eq!(SshError::ChannelClosed.cause(), "Channel closed");
    assert!(!SshError::ChannelClosed.is_failure());
    assert!(SshError::Io("i".to_string()).is_failure());
    assert_eq!(SshError::KeyLoad("k".to_string()).clone(), SshError::KeyLoad("k".to_string()));
}

#[test]
fn commands_events_and_states_copy_faithfully() {
    let command = SshCommand::SendData(vec![1, 2, 3]);
    assert_eq!(command.clone(), command);
    assert_eq!(SshCommand::Resize(1, 2).clone(), SshCommand::Resize(1, 2));
    let event = SshEvent::Error("e".to_string());
    assert_eq!(event.clone(), event);
    assert_eq!(SshEvent::Data(vec![9]).clone(), SshEvent::Data(vec![9]));
    let state = SshConnectionState::Error("why".to_string());
    assert_eq!(state.clone(), state);
}

#[test]
fn nothing_follows_the_disconnected_of_a_failed_handshake() {
    let mut connection = SshConnection::new(descriptor());
    let mut seen: Vec<SshEvent> = Vec::new();
    seen.extend(connection.connect(Some("x")).events);
    seen.extend(connection.handshake(Reply::Failed("unreachable".to_string())).events);
    assert_eq!(seen.last(), Some(&SshEvent::Disconnected));
    seen.extend(connection.connect(Some("x")).events);
    seen.extend(connection.handshake(Reply::Done).events);
    seen.extend(connection.run(LoopInput::Command(SshCommand::Disconnect)).events);
    seen.extend(connection.run(LoopInput::WriteFailed("late".to_string())).events);
    seen.extend(connection.run(LoopInput::Channel(ChannelMessage::Data(b"x".to_vec()))).events);
    assert_eq!(
        seen,
        vec![SshEvent::Error("unreachable".to_string()), SshEvent::Disconnected]
    );
    assert_eq!(*connection.state(), SshConnectionState::Error("unreachable".to_string()));
}

#[test]
fn a_turn_without_a_session_says_that_none_runs() {
    let inputs = || {
        vec![
            LoopInput::Command(SshCommand::SendData(b"x".to_vec())),
            LoopInput::Command(SshCommand::Resize(100, 30)),
            LoopInput::Command(SshCommand::Disconnect),
            LoopInput::CommandsClosed,
            LoopInput::Channel(ChannelMessage::Data(b"x".to_vec())),
            LoopInput::Channel(ChannelMessage::Eof),
            LoopInput::ChannelEnded,
            LoopInput::WriteFailed("w".to_string()),
            LoopInput::ResizeFailed("r".to_string()),
            LoopInput::SftpOpened(SftpClient::new()),
        ]
    };

    let mut never = SshConnection::new(descriptor());
    let mut connecting = SshConnection::new(descriptor());
    connecting.connect(Some("p"));
    let mut failed = SshConnection::new(descriptor());
    failed.connect(Some("p"));
    failed.handshake(Reply::Failed("down".to_string()));
    let mut over = established();
    over.run(LoopInput::ChannelEnded);

    for (connection, state) in [
        (&mut never, SshConnectionState::Disconnected),
        (&mut connecting, SshConnectionState::Connecting),
        (&mut failed, SshConnectionState::Error("down".to_string())),
        (&mut over, SshConnectionState::Disconnected),
    ] {
        for input in inputs() {
            let step = connection.run(input);
            assert_eq!(step.action, LoopAction::NotRunning);
            assert!(step.events.is_empty());
            assert_eq!(*connection.state(), state);
        }
    }

    let mut running = established();
    let step = running.run(LoopInput::Channel(ChannelMessage::Other));
    assert_eq!(step.action, LoopAction::Nothing);
}
