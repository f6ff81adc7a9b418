//! Session descriptors and folders, and the store that keeps them: two
//! tables keyed by identifier.

use crate::text::{
    decimal, is_ranked_listing, is_ranking, key_of_text, push_decimal, rank, text_key,
};
use vstd::string::*;
use vstd::prelude::*;

verus! {

/// How a session proves its identity to the remote host.
#[derive(Debug, Clone, Copy, PartialEq, Eq, Structural)]
pub enum AuthType {
    Password,
    Key,
}

impl Default for AuthType {
    fn default() -> (a: AuthType)
        ensures
            a == AuthType::Password,
    {
        AuthType::Password
    }
}

/// Whether `c` is a digit or one of `a` to `f`.
pub open spec fn is_lower_hex(c: char) -> bool {
    ('0' <= c && c <= '9') || ('a' <= c && c <= 'f')
}

/// The shape of a hyphenated lower-case UUID: 36 characters, hexadecimal
/// digits in groups of 8, 4, 4, 4 and 12 with `-` between the groups.
pub open spec fn is_uuid_text(s: Seq<char>) -> bool {
    &&& s.len() == 36
    &&& forall|i: int|
        0 <= i < 36 ==> if i == 8 || i == 13 || i == 18 || i == 23 {
            #[trigger] s[i] == '-'
        } else {
            is_lower_hex(s[i])
        }
}

/// A new random identifier, from `uuid::Uuid::new_v4` and the `to_string` of
/// the value it returns.
///
/// Trusted: which identifier comes back is left open; only its written form
/// is claimed, the hyphenated lower-case one that `uuid` formats a `Uuid`
/// with. `uuid` panics if the operating system cannot supply random bytes.
#[verifier::external_body]
pub(crate) fn fresh_id() -> (id: String)
    ensures
        is_uuid_text(id@),
{
    uuid::Uuid::new_v4().to_string()
}

/// A remote target and how to authenticate to it.
#[derive(Debug)]
pub struct Session {
    pub id: String,
    pub name: String,
    pub host: String,
    pub port: u16,
    pub username: String,
    pub auth_type: AuthType,
    pub key_path: Option<String>,
    pub folder_id: Option<String>,
    pub auto_connect: bool,
    pub jump_host: Option<String>,
    pub agent_forwarding: bool,
    pub port_forward_local: Option<u16>,
    pub port_forward_remote: Option<String>,
}

/// A [`Session`] as a mathematical value.
pub struct SessionView {
    pub id: Seq<char>,
    pub name: Seq<char>,
    pub host: Seq<char>,
    pub port: u16,
    pub username: Seq<char>,
    pub auth_type: AuthType,
    pub key_path: Option<Seq<char>>,
    pub folder_id: Option<Seq<char>>,
    pub auto_connect: bool,
    pub jump_host: Option<Seq<char>>,
    pub agent_forwarding: bool,
    pub port_forward_local: Option<u16>,
    pub port_forward_remote: Option<Seq<char>>,
}

impl View for Session {
    type V = SessionView;

    open spec fn view(&self) -> SessionView {
        SessionView {
            id: self.id@,
            name: self.name@,
            host: self.host@,
            port: self.port,
            username: self.username@,
            auth_type: self.auth_type,
            key_path: self.key_path.deep_view(),
            folder_id: self.folder_id.deep_view(),
            auto_connect: self.auto_connect,
            jump_host: self.jump_host.deep_view(),
            agent_forwarding: self.agent_forwarding,
            port_forward_local: self.port_forward_local,
            port_forward_remote: self.port_forward_remote.deep_view(),
        }
    }
}

/// A copy of an optional text.
pub fn clone_text(t: &Option<String>) -> (r: Option<String>)
    ensures
        r.deep_view() == t.deep_view(),
{
    match t {
        Some(s) => Some(s.clone()),
        None => None,
    }
}

impl Clone for Session {
    fn clone(&self) -> (r: Session)
        ensures
            r@ == self@,
    {
        Session {
            id: self.id.clone(),
            name: self.name.clone(),
            host: self.host.clone(),
            port: self.port,
            username: self.username.clone(),
            auth_type: self.auth_type,
            key_path: clone_text(&self.key_path),
            folder_id: clone_text(&self.folder_id),
            auto_connect: self.auto_connect,
            jump_host: clone_text(&self.jump_host),
            agent_forwarding: self.agent_forwarding,
            port_forward_local: self.port_forward_local,
            port_forward_remote: clone_text(&self.port_forward_remote),
        }
    }
}

impl Session {
    /// User, host and port as one text: `user@host:port`.
    pub fn label(&self) -> (text: String)
        ensures
            text@ == self@.username + seq!['@'] + self@.host + seq![':'] + decimal(
                self@.port as nat,
            ),
    {
        proof {
            reveal_strlit("@");
            reveal_strlit(":");
        }
        let mut text = self.username.clone();
        text.append("@");
        text.append(self.host.as_str());
        text.append(":");
        push_decimal(&mut text, self.port as u64);
        assert(text@ =~= self@.username + seq!['@'] + self@.host + seq![':'] + decimal(
            self@.port as nat,
        ));
        text
    }
}

impl Default for Session {
    /// A blank password session on port 22 under a new random identifier.
    fn default() -> (s: Session)
        ensures
            is_uuid_text(s@.id),
            s@ == (SessionView {
                id: s@.id,
                name: Seq::empty(),
                host: Seq::empty(),
                port: 22,
                username: Seq::empty(),
                auth_type: AuthType::Password,
                key_path: None,
                folder_id: None,
                auto_connect: false,
                jump_host: None,
                agent_forwarding: false,
                port_forward_local: None,
                port_forward_remote: None,
            }),
    {
        Session {
            id: fresh_id(),
            name: String::new(),
            host: String::new(),
            port: 22,
            username: String::new(),
            auth_type: AuthType::Password,
            key_path: None,
            folder_id: None,
            auto_connect: false,
            jump_host: None,
            agent_forwarding: false,
            port_forward_local: None,
            port_forward_remote: None,
        }
    }
}

/// A folder that groups sessions in the sidebar.
#[derive(Debug)]
pub struct Folder {
    pub id: String,
    pub name: String,
    pub parent_id: Option<String>,
    pub sort_order: i32,
}

/// A [`Folder`] as a mathematical value.
pub struct FolderView {
    pub id: Seq<char>,
    pub name: Seq<char>,
    pub parent_id: Option<Seq<char>>,
    pub sort_order: i32,
}

impl View for Folder {
    type V = FolderView;

    open spec fn view(&self) -> FolderView {
        FolderView {
            id: self.id@,
            name: self.name@,
            parent_id: self.parent_id.deep_view(),
            sort_order: self.sort_order,
        }
    }
}

impl Clone for Folder {
    fn clone(&self) -> (r: Folder)
        ensures
            r@ == self@,
    {
        Folder {
            id: self.id.clone(),
            name: self.name.clone(),
            parent_id: clone_text(&self.parent_id),
            sort_order: self.sort_order,
        }
    }
}

impl Default for Folder {
    /// A nameless top-level folder under a new random identifier.
    fn default() -> (f: Folder)
        ensures
            is_uuid_text(f@.id),
            f@ == (FolderView { id: f@.id, name: Seq::empty(), parent_id: None, sort_order: 0 }),
    {
        Folder { id: fresh_id(), name: String::new(), parent_id: None, sort_order: 0 }
    }
}

impl DeepView for Session {
    type V = SessionView;

    open spec fn deep_view(&self) -> SessionView {
        self@
    }
}

impl DeepView for Folder {
    type V = FolderView;

    open spec fn deep_view(&self) -> FolderView {
        self@
    }
}

/// Why the store refused a row.
#[derive(Debug, Clone, Copy, PartialEq, Eq, Structural)]
pub enum StoreError {
    /// A session with this identifier is already stored.
    SessionExists,
    /// A folder with this identifier is already stored.
    FolderExists,
}

/// The store as a mathematical value: its rows, in the order in which they
/// were created.
pub struct StoreView {
    pub sessions: Seq<SessionView>,
    pub folders: Seq<FolderView>,
}

/// A row of a table as a mathematical value: it has an identifier, which is
/// its key in the table, and a key by which it is listed.
pub trait TableRow {
    /// The identifier of the row.
    spec fn row_id(self) -> Seq<char>;

    /// The key by which the row is listed.
    spec fn listing_key(self) -> Seq<u32>;
}

impl TableRow for SessionView {
    open spec fn row_id(self) -> Seq<char> {
        self.id
    }

    /// Sessions are listed by name.
    open spec fn listing_key(self) -> Seq<u32> {
        text_key(self.name)
    }
}

impl TableRow for FolderView {
    open spec fn row_id(self) -> Seq<char> {
        self.id
    }

    /// Folders are listed by sort order, then by name.
    open spec fn listing_key(self) -> Seq<u32> {
        folder_key(self)
    }
}

/// Where the row with identifier `id` stands among `rows`, if it is there.
pub open spec fn row_position<R: TableRow>(rows: Seq<R>, id: Seq<char>) -> Option<int> {
    if exists|i: int| 0 <= i < rows.len() && (#[trigger] rows[i]).row_id() == id {
        Some(choose|i: int| 0 <= i < rows.len() && (#[trigger] rows[i]).row_id() == id)
    } else {
        None
    }
}

/// No two rows share an identifier.
pub open spec fn distinct_rows<R: TableRow>(rows: Seq<R>) -> bool {
    forall|i: int, j: int|
        0 <= i < j < rows.len() ==> (#[trigger] rows[i]).row_id() != (#[trigger] rows[j]).row_id()
}

/// The keys by which rows are listed.
pub open spec fn listing_keys<R: TableRow>(rows: Seq<R>) -> Seq<Seq<u32>> {
    rows.map_values(|r: R| r.listing_key())
}

/// Where the session with identifier `id` stands among `rows`, if it is there.
pub open spec fn session_position(rows: Seq<SessionView>, id: Seq<char>) -> Option<int> {
    row_position(rows, id)
}

/// Where the folder with identifier `id` stands among `rows`, if it is there.
pub open spec fn folder_position(rows: Seq<FolderView>, id: Seq<char>) -> Option<int> {
    row_position(rows, id)
}

/// No two sessions share an identifier.
pub open spec fn distinct_sessions(rows: Seq<SessionView>) -> bool {
    distinct_rows(rows)
}

/// No two folders share an identifier.
pub open spec fn distinct_folders(rows: Seq<FolderView>) -> bool {
    distinct_rows(rows)
}

/// The keys by which sessions are listed: their names.
pub open spec fn session_keys(rows: Seq<SessionView>) -> Seq<Seq<u32>> {
    listing_keys(rows)
}

/// The key by which a folder is listed: its sort order, then its name.
pub open spec fn folder_key(f: FolderView) -> Seq<u32> {
    seq![(f.sort_order + 0x8000_0000) as u32] + text_key(f.name)
}

/// The keys by which folders are listed.
pub open spec fn folder_keys(rows: Seq<FolderView>) -> Seq<Seq<u32>> {
    listing_keys(rows)
}

/// A row of a table: what the store needs of a session and of a folder
/// alike.
trait Row: Sized {
    /// The row as a mathematical value.
    type Form: TableRow;

    spec fn form(&self) -> Self::Form;

    /// The identifier of the row.
    fn id(&self) -> (id: &String)
        ensures
            id@ == self.form().row_id(),
    ;

    /// The key by which the row is listed.
    fn key(&self) -> (key: Vec<u32>)
        ensures
            key@ == self.form().listing_key(),
    ;

    /// A copy of the row.
    fn copy(&self) -> (r: Self)
        ensures
            r.form() == self.form(),
    ;
}

impl Row for Session {
    type Form = SessionView;

    spec fn form(&self) -> SessionView {
        self@
    }

    fn id(&self) -> (id: &String) {
        &self.id
    }

    fn key(&self) -> (key: Vec<u32>) {
        key_of_text(self.name.as_str())
    }

    fn copy(&self) -> (r: Session) {
        self.clone()
    }
}

impl Row for Folder {
    type Form = FolderView;

    spec fn form(&self) -> FolderView {
        self@
    }

    fn id(&self) -> (id: &String) {
        &self.id
    }

    fn key(&self) -> (key: Vec<u32>) {
        let mut key: Vec<u32> = Vec::new();
        key.push((self.sort_order as i64 + 0x8000_0000) as u32);
        let mut name = key_of_text(self.name.as_str());
        key.append(&mut name);
        assert(key@ =~= folder_key(self@));
        key
    }

    fn copy(&self) -> (r: Folder) {
        self.clone()
    }
}

/// Rows as mathematical values.
spec fn forms<T: Row>(rows: Seq<T>) -> Seq<T::Form> {
    rows.map_values(|r: T| r.form())
}

/// In a table whose identifiers are keys, a row stands where its identifier
/// is found.
pub proof fn row_stands_where_its_identifier_is<R: TableRow>(rows: Seq<R>, id: Seq<char>, i: int)
    requires
        distinct_rows(rows),
        0 <= i < rows.len(),
        rows[i].row_id() == id,
    ensures
        row_position(rows, id) == Some(i),
{
    let chosen = row_position(rows, id)->0;
    if chosen < i {
        assert(rows[chosen].row_id() != rows[i].row_id());
    } else if chosen > i {
        assert(rows[i].row_id() != rows[chosen].row_id());
    }
}

/// Where the row with identifier `id` stands in a table, if it is there.
fn find_row<T: Row>(rows: &Vec<T>, id: &str) -> (found: Option<usize>)
    requires
        distinct_rows(forms(rows@)),
    ensures
        match found {
            Some(i) => i < rows.len() && forms(rows@)[i as int].row_id() == id@ && row_position(
                forms(rows@),
                id@,
            ) == Some(i as int),
            None => row_position(forms(rows@), id@) is None,
        },
{
    let wanted = id.to_owned();
    let ghost shapes = forms(rows@);
    let mut i: usize = 0;
    while i < rows.len()
        invariant
            i <= rows.len(),
            shapes == forms(rows@),
            distinct_rows(shapes),
            wanted@ == id@,
            forall|k: int| 0 <= k < i ==> (#[trigger] shapes[k]).row_id() != id@,
        decreases rows.len() - i,
    {
        if *rows[i].id() == wanted {
            proof {
                row_stands_where_its_identifier_is(shapes, id@, i as int);
            }
            return Some(i);
        }
        i = i + 1;
    }
    None
}

/// The rows of a table in the order of their listing keys, rows with equal
/// keys in the order of the table.
fn list_rows<T: Row>(rows: &Vec<T>) -> (listed: Vec<T>)
    ensures
        is_ranked_listing(forms(rows@), listing_keys(forms(rows@)), forms(listed@)),
{
    let ghost shapes = forms(rows@);
    let mut keys: Vec<Vec<u32>> = Vec::new();
    let mut i: usize = 0;
    while i < rows.len()
        invariant
            i <= rows.len(),
            shapes == forms(rows@),
            keys.len() == i,
            forall|j: int|
                0 <= j < i ==> (#[trigger] keys@[j]).deep_view() == shapes[j].listing_key(),
        decreases rows.len() - i,
    {
        let key = rows[i].key();
        assert(key.deep_view() =~= key@);
        keys.push(key);
        i = i + 1;
    }
    assert(keys.deep_view() =~= listing_keys(shapes));
    let order = rank(&keys);
    let mut listed: Vec<T> = Vec::new();
    let mut k: usize = 0;
    while k < order.len()
        invariant
            k <= order.len(),
            shapes == forms(rows@),
            is_ranking(listing_keys(shapes), order@),
            listed.len() == k,
            forall|j: int| 0 <= j < k ==> (#[trigger] listed@[j]).form() == shapes[order[j] as int],
        decreases order.len() - k,
    {
        let at = order[k];
        listed.push(rows[at].copy());
        k = k + 1;
    }
    assert(forall|j: int| 0 <= j < listed.len() ==> forms(listed@)[j] == shapes[order@[j] as int]);
    listed
}

/// `s` taken out of its folder, if that folder is `folder`.
pub open spec fn without_folder(s: SessionView, folder: Seq<char>) -> SessionView {
    if s.folder_id == Some(folder) {
        SessionView { folder_id: None, ..s }
    } else {
        s
    }
}

/// Session store for CRUD operations on sessions and folders.
///
/// The store keeps its rows in memory. Identifiers are keys: no two
/// sessions and no two folders share one. What refers to a folder, the
/// folder of a session and the parent of a folder, is not checked against
/// the folders that exist.
pub struct SessionStore {
    sessions: Vec<Session>,
    folders: Vec<Folder>,
}

impl View for SessionStore {
    type V = StoreView;

    closed spec fn view(&self) -> StoreView {
        StoreView { sessions: self.sessions.deep_view(), folders: self.folders.deep_view() }
    }
}

impl SessionStore {
    /// Identifiers are keys.
    #[verifier::type_invariant]
    pub closed spec fn is_valid(&self) -> bool {
        distinct_sessions(self@.sessions) && distinct_folders(self@.folders)
    }

    /// An empty store.
    pub fn new() -> (store: SessionStore)
        ensures
            store@.sessions.len() == 0,
            store@.folders.len() == 0,
    {
        let store = SessionStore { sessions: Vec::new(), folders: Vec::new() };
        assert(store.sessions.deep_view() =~= Seq::<SessionView>::empty());
        assert(store.folders.deep_view() =~= Seq::<FolderView>::empty());
        store
    }

    fn find_session(&self, id: &str) -> (found: Option<usize>)
        ensures
            distinct_sessions(self@.sessions),
            match found {
                Some(i) => i < self@.sessions.len() && self@.sessions[i as int].id == id@
                    && session_position(self@.sessions, id@) == Some(i as int),
                None => session_position(self@.sessions, id@) is None,
            },
    {
        proof {
            use_type_invariant(self);
            assert(forms(self.sessions@) =~= self.sessions.deep_view());
        }
        find_row(&self.sessions, id)
    }

    fn find_folder(&self, id: &str) -> (found: Option<usize>)
        ensures
            distinct_folders(self@.folders),
            match found {
                Some(i) => i < self@.folders.len() && self@.folders[i as int].id == id@
                    && folder_position(self@.folders, id@) == Some(i as int),
                None => folder_position(self@.folders, id@) is None,
            },
    {
        proof {
            use_type_invariant(self);
            assert(forms(self.folders@) =~= self.folders.deep_view());
        }
        find_row(&self.folders, id)
    }

    /// Every session, ordered by name; sessions of the same name in the
    /// order in which they were created.
    pub fn get_all_sessions(&self) -> (r: Result<Vec<Session>, StoreError>)
        ensures
            r is Ok,
            is_ranked_listing(self@.sessions, session_keys(self@.sessions), r->Ok_0.deep_view()),
            distinct_sessions(self@.sessions),
            distinct_folders(self@.folders),
    {
        proof {
            use_type_invariant(self);
        }
        let listed = list_rows(&self.sessions);
        proof {
            assert(forms(self.sessions@) =~= self.sessions.deep_view());
            assert(forms(listed@) =~= listed.deep_view());
        }
        Ok(listed)
    }

    /// The session with this identifier, if there is one.
    pub fn get_session(&self, id: &str) -> (r: Result<Option<Session>, StoreError>)
        ensures
            r is Ok,
            match session_position(self@.sessions, id@) {
                Some(i) => r->Ok_0 is Some && r->Ok_0->0@ == self@.sessions[i]
                    && r->Ok_0->0@.id == id@,
                None => r->Ok_0 is None,
            },
            distinct_sessions(self@.sessions),
            distinct_folders(self@.folders),
    {
        proof {
            use_type_invariant(self);
        }
        match self.find_session(id) {
            Some(i) => {
                assert(self@.sessions[i as int] == self.sessions@[i as int]@);
                Ok(Some(self.sessions[i].clone()))
            },
            None => Ok(None),
        }
    }

    /// Stores a new session. A session whose identifier is already stored is
    /// refused, and the store stays as it was.
    pub fn create_session(&mut self, session: &Session) -> (r: Result<(), StoreError>)
        ensures
            distinct_sessions(final(self)@.sessions),
            distinct_folders(final(self)@.folders),
            match r {
                Ok(_) => {
                    &&& session_position(old(self)@.sessions, session@.id) is None
                    &&& final(self)@.sessions == old(self)@.sessions.push(session@)
                    &&& final(self)@.folders == old(self)@.folders
                },
                Err(e) => {
                    &&& e == StoreError::SessionExists
                    &&& session_position(old(self)@.sessions, session@.id) is Some
                    &&& final(self)@ == old(self)@
                },
            },
            session_position(final(self)@.sessions, session@.id) is Some,
    {
        proof {
            use_type_invariant(&*self);
        }
        match self.find_session(session.id.as_str()) {
            Some(_) => Err(StoreError::SessionExists),
            None => {
                let ghost before = self.sessions.deep_view();
                let mut rows: Vec<Session> = Vec::new();
                core::mem::swap(&mut self.sessions, &mut rows);
                rows.push(session.clone());
                proof {
                    let after = rows.deep_view();
                    assert(after =~= before.push(session@));
                    assert(after[before.len() as int].id == session@.id);
                    assert forall|i: int, j: int| 0 <= i < j < after.len() implies (
                    #[trigger] after[i]).id != (#[trigger] after[j]).id by {
                        if j == before.len() {
                            assert(before[i].id != session@.id);
                        } else {
                            assert(before[i].id != before[j].id);
                        }
                    }
                }
                self.sessions = rows;
                Ok(())
            },
        }
    }

    /// Replaces the stored session that has the identifier of `session`. If
    /// there is none, nothing changes.
    pub fn update_session(&mut self, session: &Session) -> (r: Result<(), StoreError>)
        ensures
            distinct_sessions(final(self)@.sessions),
            distinct_folders(final(self)@.folders),
            r is Ok,
            final(self)@.folders == old(self)@.folders,
            match session_position(old(self)@.sessions, session@.id) {
                Some(i) => final(self)@.sessions == old(self)@.sessions.update(i, session@),
                None => final(self)@.sessions == old(self)@.sessions,
            },
    {
        proof {
            use_type_invariant(&*self);
        }
        match self.find_session(session.id.as_str()) {
            Some(i) => {
                let ghost before = self.sessions.deep_view();
                let mut rows: Vec<Session> = Vec::new();
                core::mem::swap(&mut self.sessions, &mut rows);
                rows.set(i, session.clone());
                proof {
                    let after = rows.deep_view();
                    assert(after =~= before.update(i as int, session@));
                    assert forall|a: int, b: int| 0 <= a < b < after.len() implies (
                    #[trigger] after[a]).id != (#[trigger] after[b]).id by {
                        assert(before[a].id != before[b].id);
                    }
                }
                self.sessions = rows;
                Ok(())
            },
            None => Ok(()),
        }
    }

    /// Removes the session with this identifier. If there is none, nothing
    /// changes.
    pub fn delete_session(&mut self, id: &str) -> (r: Result<(), StoreError>)
        ensures
            distinct_sessions(final(self)@.sessions),
            distinct_folders(final(self)@.folders),
            r is Ok,
            final(self)@.folders == old(self)@.folders,
            match session_position(old(self)@.sessions, id@) {
                Some(i) => final(self)@.sessions == old(self)@.sessions.remove(i),
                None => final(self)@.sessions == old(self)@.sessions,
            },
            session_position(final(self)@.sessions, id@) is None,
    {
        proof {
            use_type_invariant(&*self);
        }
        match self.find_session(id) {
            Some(i) => {
                let ghost before = self.sessions.deep_view();
                let mut rows: Vec<Session> = Vec::new();
                core::mem::swap(&mut self.sessions, &mut rows);
                rows.remove(i);
                proof {
                    let after = rows.deep_view();
                    assert(after =~= before.remove(i as int));
                    assert forall|a: int, b: int| 0 <= a < b < after.len() implies (
                    #[trigger] after[a]).id != (#[trigger] after[b]).id by {
                        let a0 = if a < i { a } else { a + 1 };
                        let b0 = if b < i { b } else { b + 1 };
                        assert(before[a0].id != before[b0].id);
                    }
                    assert forall|a: int| 0 <= a < after.len() implies (#[trigger] after[a]).id
                        != id@ by {
                        let a0 = if a < i { a } else { a + 1 };
                        if a0 < i {
                            assert(before[a0].id != before[i as int].id);
                        } else {
                            assert(before[i as int].id != before[a0].id);
                        }
                    }
                }
                self.sessions = rows;
                Ok(())
            },
            None => Ok(()),
        }
    }

    /// Every folder, ordered by sort order and then by name; folders that
    /// agree in both in the order in which they were created.
    pub fn get_all_folders(&self) -> (r: Result<Vec<Folder>, StoreError>)
        ensures
            r is Ok,
            is_ranked_listing(self@.folders, folder_keys(self@.folders), r->Ok_0.deep_view()),
            distinct_sessions(self@.sessions),
            distinct_folders(self@.folders),
    {
        proof {
            use_type_invariant(self);
        }
        let listed = list_rows(&self.folders);
        proof {
            assert(forms(self.folders@) =~= self.folders.deep_view());
            assert(forms(listed@) =~= listed.deep_view());
        }
        Ok(listed)
    }

    /// Stores a new folder. A folder whose identifier is already stored is
    /// refused, and the store stays as it was.
    pub fn create_folder(&mut self, folder: &Folder) -> (r: Result<(), StoreError>)
        ensures
            distinct_sessions(final(self)@.sessions),
            distinct_folders(final(self)@.folders),
            match r {
                Ok(_) => {
                    &&& folder_position(old(self)@.folders, folder@.id) is None
                    &&& final(self)@.folders == old(self)@.folders.push(folder@)
                    &&& final(self)@.sessions == old(self)@.sessions
                },
                Err(e) => {
                    &&& e == StoreError::FolderExists
                    &&& folder_position(old(self)@.folders, folder@.id) is Some
                    &&& final(self)@ == old(self)@
                },
            },
            folder_position(final(self)@.folders, folder@.id) is Some,
    {
        proof {
            use_type_invariant(&*self);
        }
        match self.find_folder(folder.id.as_str()) {
            Some(_) => Err(StoreError::FolderExists),
            None => {
                let ghost before = self.folders.deep_view();
                let mut rows: Vec<Folder> = Vec::new();
                core::mem::swap(&mut self.folders, &mut rows);
                rows.push(folder.clone());
                proof {
                    let after = rows.deep_view();
                    assert(after =~= before.push(folder@));
                    assert(after[before.len() as int].id == folder@.id);
                    assert forall|i: int, j: int| 0 <= i < j < after.len() implies (
                    #[trigger] after[i]).id != (#[trigger] after[j]).id by {
                        if j == before.len() {
                            assert(before[i].id != folder@.id);
                        } else {
                            assert(before[i].id != before[j].id);
                        }
                    }
                }
                self.folders = rows;
                Ok(())
            },
        }
    }

    /// Removes the folder with this identifier and the folders directly
    /// below it; sessions that were in the folder are in no folder after.
    pub fn delete_folder(&mut self, id: &str) -> (r: Result<(), StoreError>)
        ensures
            distinct_sessions(final(self)@.sessions),
            distinct_folders(final(self)@.folders),
            r is Ok,
            final(self)@.sessions == old(self)@.sessions.map_values(
                |s: SessionView| without_folder(s, id@),
            ),
            final(self)@.folders == old(self)@.folders.filter(
                |f: FolderView| f.id != id@ && f.parent_id != Some(id@),
            ),
    {
        proof {
            use_type_invariant(&*self);
        }
        let wanted = id.to_owned();
        let ghost old_sessions = self.sessions.deep_view();
        let ghost old_folders = self.folders.deep_view();
        let ghost moved = |s: SessionView| without_folder(s, id@);
        let ghost kept = |f: FolderView| f.id != id@ && f.parent_id != Some(id@);

        let mut sessions: Vec<Session> = Vec::new();
        let mut i: usize = 0;
        while i < self.sessions.len()
            invariant
                i <= self.sessions.len(),
                old_sessions == self.sessions.deep_view(),
                wanted@ == id@,
                moved == |s: SessionView| without_folder(s, id@),
                sessions.len() == i,
                sessions.deep_view() == old_sessions.take(i as int).map_values(moved),
            decreases self.sessions.len() - i,
        {
            assert(old_sessions[i as int] == self.sessions@[i as int]@);
            let mut row = self.sessions[i].clone();
            let inside = match &row.folder_id {
                Some(folder) => *folder == wanted,
                None => false,
            };
            if inside {
                row.folder_id = None;
            }
            assert(row@ == without_folder(old_sessions[i as int], id@));
            let ghost earlier = sessions.deep_view();
            sessions.push(row);
            proof {
                let now = sessions.deep_view();
                let wanted = old_sessions.take(i + 1).map_values(moved);
                assert forall|j: int| 0 <= j < now.len() implies now[j] == wanted[j] by {
                    if j < i {
                        assert(now[j] == earlier[j]);
                        assert(earlier[j] == old_sessions.take(i as int).map_values(moved)[j]);
                    }
                }
                assert(now =~= wanted);
            }
            i = i + 1;
        }
        assert(old_sessions.take(i as int) =~= old_sessions);

        let mut folders: Vec<Folder> = Vec::new();
        let mut k: usize = 0;
        while k < self.folders.len()
            invariant
                k <= self.folders.len(),
                old_folders == self.folders.deep_view(),
                distinct_folders(old_folders),
                wanted@ == id@,
                kept == |f: FolderView| f.id != id@ && f.parent_id != Some(id@),
                folders.deep_view() == old_folders.take(k as int).filter(kept),
            decreases self.folders.len() - k,
        {
            assert(old_folders[k as int] == self.folders@[k as int]@);
            let folder = &self.folders[k];
            let below = match &folder.parent_id {
                Some(parent) => *parent == wanted,
                None => false,
            };
            proof {
                reveal(Seq::filter);
                assert(old_folders.take(k + 1).drop_last() =~= old_folders.take(k as int));
            }
            if !(folder.id == wanted) && !below {
                folders.push(folder.clone());
                assert(folders.deep_view() =~= old_folders.take(k + 1).filter(kept));
            }
            k = k + 1;
        }
        assert(old_folders.take(k as int) =~= old_folders);
        proof {
            let new_sessions = old_sessions.map_values(moved);
            assert forall|a: int, b: int| 0 <= a < b < new_sessions.len() implies (
            #[trigger] new_sessions[a]).id != (#[trigger] new_sessions[b]).id by {
                assert(old_sessions[a].id != old_sessions[b].id);
            }
            lemma_filter_keeps_distinct(old_folders, kept);
        }
        self.sessions = sessions;
        self.folders = folders;
        Ok(())
    }
}

/// Leaving rows out of a table whose identifiers are keys leaves a table
/// whose identifiers are keys.
proof fn lemma_filter_keeps_distinct(rows: Seq<FolderView>, kept: spec_fn(FolderView) -> bool)
    requires
        distinct_folders(rows),
    ensures
        distinct_folders(rows.filter(kept)),
        forall|i: int|
            0 <= i < rows.filter(kept).len() ==> rows.contains(#[trigger] rows.filter(kept)[i]),
    decreases rows.len(),
{
    reveal(Seq::filter);
    if rows.len() > 0 {
        let front = rows.drop_last();
        assert forall|i: int, j: int| 0 <= i < j < front.len() implies (#[trigger] front[i]).id != (
        #[trigger] front[j]).id by {
            assert(rows[i].id != rows[j].id);
        }
        lemma_filter_keeps_distinct(front, kept);
        let out = rows.filter(kept);
        let inner = front.filter(kept);
        assert forall|i: int| 0 <= i < out.len() implies rows.contains(#[trigger] out[i]) by {
            if i < inner.len() {
                assert(front.contains(inner[i]));
                let at = choose|at: int| 0 <= at < front.len() && front[at] == inner[i];
                assert(rows[at] == inner[i]);
            } else {
                assert(out[i] == rows.last());
                assert(rows[rows.len() - 1] == rows.last());
            }
        }
        assert forall|i: int, j: int| 0 <= i < j < out.len() implies (#[trigger] out[i]).id != (
        #[trigger] out[j]).id by {
            if j < inner.len() {
                assert(inner[i].id != inner[j].id);
            } else {
                assert(out[j] == rows.last());
                assert(front.contains(inner[i]));
                let at = choose|at: int| 0 <= at < front.len() && front[at] == inner[i];
                assert(rows[at].id != rows[rows.len() - 1].id);
            }
        }
    }
}

} // verus!
