//! Session descriptors and folders: the store that keeps them, and the rows
//! that they are written to.

mod database;
mod session_store;

pub use database::{
    auth_type_named, row_of, session_of, stored_flag, stored_name, stored_session_reads_back,
    SessionRow, SessionRowView,
};
pub(crate) use session_store::fresh_id;
pub use session_store::{
    clone_text, distinct_folders, distinct_rows, distinct_sessions, folder_key, folder_keys,
    folder_position, is_lower_hex, is_uuid_text, listing_keys, row_position,
    row_stands_where_its_identifier_is, session_keys,
    session_position, without_folder, AuthType, Folder, FolderView, Session, SessionStore,
    SessionView, StoreError, StoreView, TableRow,
};
