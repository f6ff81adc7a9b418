//! The engine: connections, their registry, and the file-transfer session.

mod connection;
mod error;
mod host_key;
mod machine;
mod manager;
mod outbox;
mod path;
mod protocol;
mod sftp;

pub use connection::{
    is_tilde_expansion, SshCommand, SshCommandView, SshConnection, SshConnectionState,
    SshConnectionStateView, SshEvent, SshEventView,
};
pub use error::{SshError, SshErrorView};
pub use host_key::{HostKeyPolicy, HostKeyPolicyView};
pub use machine::{
    a_lost_session_is_reported_and_torn_down, abort, authenticate, bytes_delivered, bytes_of_event,
    bytes_of_input, bytes_pass_verbatim, bytes_received, channel_opens_only_on_success, closed,
    closed_is_final, connect_keeps_valid, connect_model, connected_has_open_channel,
    connected_only_after_shell, ConnectionView, data_arrives_verbatim_and_in_order,
    disconnect_when_disconnected_is_noop, endpoint, ends_session, events_are_ordered,
    every_exit_tears_down, every_listener_sees_events_in_order, failed, failure_leaves_nothing_open,
    finished_trace, handshake_fails_only_for_a_cause, handshake_failure_is_reported_both_ways,
    handshake_keeps_valid, handshake_model, host_key_keeps_valid, host_key_model, initial,
    INITIAL_COLUMNS, initial_is_valid, INITIAL_ROWS, is_session_event, repeated_resize_is_dropped,
    resize_asks_only_for_changes, run_all, run_all_keeps_valid, run_keeps_valid, run_model,
    run_tells_when_no_session_runs,
    running_trace, Stage, teardown, terminal_type, valid,
};
pub use manager::{
    a_connection_stays_with_its_session, a_handle_is_its_place, calls_for_one_session_name_one_connection,
    ConnectionHandle, ConnectionManager, create_all, create_keeps_valid,
    driving_keeps_every_connection_in_place, ManagerView,
    one_connection_per_session, other_sessions_keep_their_connection, same_session_same_connection,
    slot_view, slot_views,
};
pub use outbox::{a_reader_sees_every_event_since_it_began, EventOutbox, EventReader, read};
pub use path::{
    anchor, cut, directory_above, entry_path, file_name, file_name_of, is_root, is_skipped,
    names_root, parent_is_a_prefix, parent_of, parent_or_root, parent_path, path_of_entry, resolve,
    resolved, segment_start, trimmed, without_trailing_slashes,
};
pub use protocol::{
    ChannelMessage, ChannelMessageView, ConnectAction, ConnectActionView, ConnectStep,
    DisconnectReason, farewell, Farewell, LoopAction, LoopActionView, LoopInput, LoopInputView,
    LoopStep, Reply, ReplyView,
};
pub use sftp::{
    arrange, arrange_by, chunk_after, chunk_count, CHUNK_SIZE, chunks_cover_the_file,
    chunks_left, entry_key, entry_keys, every_shown_entry_is_listed, is_dot_name, is_listing,
    is_listing_by, listing_is_ordered, listing_is_unique, listing_ranks_the_shown_entries,
    lowercase_of, lowered, order_key, pair_entries, pair_keys, parent_entry, RemoteAttributes,
    SftpClient, SftpEntry, SftpEntryView, shown_entries, shown_pairs,
};
