//! The file-transfer session: what a directory listing looks like, where the
//! browser stands on the remote host, and how a transfer is cut into chunks.
//!
//! The round trips to the remote host are made by the driver. It hands in
//! what the host answered and gets back what the front end is shown.

use super::error::{SshError, SshErrorView};
use super::path::{file_name, file_name_of, is_root, names_root, resolve, resolved};
use crate::text::{
    chars_of, every_row_is_listed, is_ranked_listing, is_ranking, key_of_text, lex_lt, rank,
    ranked_before, ranked_listing_is_unique, text_key,
};
use vstd::prelude::*;
use vstd::string::*;

verus! {

/// SFTP file entry information.
#[derive(Debug, PartialEq, Eq)]
pub struct SftpEntry {
    pub name: String,
    pub is_directory: bool,
    /// Size in bytes.
    pub size: u64,
    /// Permission bits.
    pub permissions: u32,
    /// Time of the last modification, in seconds since the Unix epoch.
    pub modified: Option<i64>,
}

/// An [`SftpEntry`] as a mathematical value.
pub struct SftpEntryView {
    pub name: Seq<char>,
    pub is_directory: bool,
    pub size: u64,
    pub permissions: u32,
    pub modified: Option<i64>,
}

impl View for SftpEntry {
    type V = SftpEntryView;

    open spec fn view(&self) -> SftpEntryView {
        SftpEntryView {
            name: self.name@,
            is_directory: self.is_directory,
            size: self.size,
            permissions: self.permissions,
            modified: self.modified,
        }
    }
}

impl DeepView for SftpEntry {
    type V = SftpEntryView;

    open spec fn deep_view(&self) -> SftpEntryView {
        self@
    }
}

impl Clone for SftpEntry {
    fn clone(&self) -> (r: SftpEntry)
        ensures
            r@ == self@,
    {
        SftpEntry {
            name: self.name.clone(),
            is_directory: self.is_directory,
            size: self.size,
            permissions: self.permissions,
            modified: self.modified,
        }
    }
}

/// What the remote host reports of a file. It may leave the size and the
/// permissions out.
#[derive(Debug, Clone, Copy, PartialEq, Eq, Structural)]
pub struct RemoteAttributes {
    pub is_directory: bool,
    pub size: Option<u64>,
    pub permissions: Option<u32>,
    pub modified: Option<i64>,
}

/// The entry that leads to the directory above.
pub open spec fn parent_entry() -> SftpEntryView {
    SftpEntryView {
        name: seq!['.', '.'],
        is_directory: true,
        size: 0,
        permissions: 0o755,
        modified: None,
    }
}

/// The names `.` and `..`, which a listing of the remote host may hold for
/// the directory itself and the one above.
pub open spec fn is_dot_name(name: Seq<char>) -> bool {
    name == seq!['.'] || name == seq!['.', '.']
}

/// The entries of a raw listing that are shown: all but `.` and `..`.
pub open spec fn shown_entries(raw: Seq<SftpEntryView>) -> Seq<SftpEntryView> {
    raw.filter(|e: SftpEntryView| !is_dot_name(e.name))
}

/// `name` in lower case: every letter that has a lower case is replaced by
/// it, as `str::to_lowercase` of the standard library does.
pub uninterp spec fn lowercase_of(name: Seq<char>) -> Seq<char>;

/// `name` in lower case, by `str::to_lowercase`.
///
/// Trusted: the result is named, not spelled out, since it rests on the
/// tables of Unicode. It is a function of the name alone: the same on every
/// machine and in every locale.
#[verifier::external_body]
fn lowercase(name: &str) -> (lower: String)
    ensures
        lower@ == lowercase_of(name@),
{
    name.to_lowercase()
}

/// The key by which an entry is listed, given the name that it is ordered
/// by: directories before files, then the code points of that name.
pub open spec fn order_key(is_directory: bool, order_name: Seq<char>) -> Seq<u32> {
    seq![if is_directory { 0u32 } else { 1u32 }] + text_key(order_name)
}

/// The key by which an entry is listed: directories before files, then the
/// name in lower case, so that the case of its letters plays no part.
pub open spec fn entry_key(e: SftpEntryView) -> Seq<u32> {
    order_key(e.is_directory, lowercase_of(e.name))
}

/// The keys by which entries are listed.
pub open spec fn entry_keys(entries: Seq<SftpEntryView>) -> Seq<Seq<u32>> {
    entries.map_values(|e: SftpEntryView| entry_key(e))
}

/// Of entries that come with the names they are ordered by, those that are
/// shown: all but `.` and `..`.
pub open spec fn shown_pairs(pairs: Seq<(SftpEntryView, Seq<char>)>) -> Seq<
    (SftpEntryView, Seq<char>),
> {
    pairs.filter(|p: (SftpEntryView, Seq<char>)| !is_dot_name(p.0.name))
}

/// The entries of entries that come with the names they are ordered by.
pub open spec fn pair_entries(pairs: Seq<(SftpEntryView, Seq<char>)>) -> Seq<SftpEntryView> {
    pairs.map_values(|p: (SftpEntryView, Seq<char>)| p.0)
}

/// The keys of entries that come with the names they are ordered by.
pub open spec fn pair_keys(pairs: Seq<(SftpEntryView, Seq<char>)>) -> Seq<Seq<u32>> {
    pairs.map_values(|p: (SftpEntryView, Seq<char>)| order_key(p.0.is_directory, p.1))
}

/// `listing` is what is shown of the directory `path` whose entries come
/// with the names they are ordered by: directories first, then files, each
/// group by the code points of those names, entries of equal names in the
/// order they came in; before them the entry `..`, unless `path` is the
/// root.
pub open spec fn is_listing_by(
    path: Seq<char>,
    pairs: Seq<(SftpEntryView, Seq<char>)>,
    listing: Seq<SftpEntryView>,
) -> bool {
    let shown = shown_pairs(pairs);
    if is_root(path) {
        is_ranked_listing(pair_entries(shown), pair_keys(shown), listing)
    } else {
        &&& listing.len() == shown.len() + 1
        &&& listing[0] == parent_entry()
        &&& is_ranked_listing(pair_entries(shown), pair_keys(shown), listing.skip(1))
    }
}

/// Entries, each with its name in lower case.
pub open spec fn lowered(raw: Seq<SftpEntryView>) -> Seq<(SftpEntryView, Seq<char>)> {
    raw.map_values(|e: SftpEntryView| (e, lowercase_of(e.name)))
}

/// `listing` is what is shown of the directory `path` whose raw listing is
/// `raw`: directories first, then files, each group by name without regard
/// to case; before them the entry `..`, unless `path` is the root.
pub open spec fn is_listing(
    path: Seq<char>,
    raw: Seq<SftpEntryView>,
    listing: Seq<SftpEntryView>,
) -> bool {
    is_listing_by(path, lowered(raw), listing)
}

/// The size of the pieces in which a file is transferred.
pub const CHUNK_SIZE: u64 = 32768;

/// The piece of a file of `total` bytes that is transferred next when `done`
/// bytes have been: where it starts and how long it is. None when the file
/// is complete.
pub open spec fn chunk_after(done: u64, total: u64) -> Option<(u64, u64)> {
    if done >= total {
        None
    } else if total - done < CHUNK_SIZE {
        Some((done, (total - done) as u64))
    } else {
        Some((done, CHUNK_SIZE))
    }
}

/// How many pieces a file of `total` bytes is transferred in.
pub open spec fn chunk_count(total: nat) -> nat {
    (total + CHUNK_SIZE - 1) as nat / (CHUNK_SIZE as nat)
}

/// How many pieces are still to be transferred when `done` bytes of `total` have been.
pub open spec fn chunks_left(done: u64, total: u64) -> nat
    decreases total - done,
{
    match chunk_after(done, total) {
        None => 0,
        Some((start, length)) => 1 + chunks_left((start + length) as u64, total),
    }
}

/// The file-transfer session of a connection: the directory that the file
/// browser currently shows on the remote host.
#[derive(Debug, PartialEq, Eq)]
pub struct SftpClient {
    current_path: String,
}

impl View for SftpClient {
    type V = Seq<char>;

    /// The current directory.
    closed spec fn view(&self) -> Seq<char> {
        self.current_path@
    }
}

impl Clone for SftpClient {
    fn clone(&self) -> (r: SftpClient)
        ensures
            r@ == self@,
    {
        SftpClient { current_path: self.current_path.clone() }
    }
}

impl Default for SftpClient {
    fn default() -> (client: SftpClient)
        ensures
            client@ == seq!['/'],
    {
        SftpClient::new()
    }
}

impl SftpClient {
    /// A session that starts at the root of the remote file system.
    pub fn new() -> (client: SftpClient)
        ensures
            client@ == seq!['/'],
    {
        proof {
            reveal_strlit("/");
        }
        let client = SftpClient { current_path: "/".to_owned() };
        assert(client@ =~= seq!['/']);
        client
    }

    /// The current working directory.
    pub fn current_path(&self) -> (path: &str)
        ensures
            path@ == self@,
    {
        self.current_path.as_str()
    }

    /// Change to a directory: an absolute path as it is, `..` for the
    /// directory above, anything else below the current directory. Whether
    /// the directory exists on the remote host is for the caller to find
    /// out; this always succeeds.
    pub fn change_directory(&mut self, path: &str) -> (r: Result<(), SshError>)
        ensures
            r is Ok,
            final(self)@ == resolved(old(self)@, path@),
    {
        let target = resolve(self.current_path.as_str(), path);
        self.current_path = target;
        Ok(())
    }

    /// The directory that a listing is asked for: `path`, or the current
    /// directory if there is none.
    pub fn listing_target(&self, path: Option<&str>) -> (target: String)
        ensures
            target@ == match path {
                Some(p) => p@,
                None => self@,
            },
    {
        match path {
            Some(p) => p.to_owned(),
            None => self.current_path.clone(),
        }
    }

    /// List directory contents: what is shown of the directory `path`, or of
    /// the current directory if there is none, given what the remote host
    /// answered. See [`arrange`] for the order. A failure of the remote host
    /// comes back as an I/O error with the cause that it gave.
    pub fn list_directory(&self, path: Option<&str>, answer: Result<Vec<SftpEntry>, String>) -> (r:
        Result<Vec<SftpEntry>, SshError>)
        ensures
            match answer {
                Ok(raw) => r is Ok && is_listing(
                    match path {
                        Some(p) => p@,
                        None => self@,
                    },
                    raw.deep_view(),
                    r->Ok_0.deep_view(),
                ),
                Err(cause) => r is Err && r->Err_0@ == SshErrorView::Io(cause@),
            },
    {
        match answer {
            Ok(raw) => {
                let listing = match path {
                    Some(p) => arrange(p, &raw),
                    None => arrange(self.current_path.as_str(), &raw),
                };
                Ok(listing)
            },
            Err(cause) => Err(SshError::Io(cause)),
        }
    }

    /// The directory that the remote host starts a session in, given what it
    /// answered when asked. A failure comes back as an I/O error with the
    /// cause that it gave.
    pub fn home_directory(&self, answer: Result<String, String>) -> (r: Result<String, SshError>)
        ensures
            match answer {
                Ok(home) => r is Ok && r->Ok_0@ == home@,
                Err(cause) => r is Err && r->Err_0@ == SshErrorView::Io(cause@),
            },
    {
        match answer {
            Ok(home) => Ok(home),
            Err(cause) => Err(SshError::Io(cause)),
        }
    }

    /// Get file information: the entry for `path`, given what the remote
    /// host reported of it. The entry is named by the last component of the
    /// path, a size or permissions that the host left out count as zero. A
    /// failure comes back as an I/O error with the cause that the host gave.
    pub fn stat(&self, path: &str, answer: Result<RemoteAttributes, String>) -> (r: Result<
        SftpEntry,
        SshError,
    >)
        ensures
            match answer {
                Ok(attributes) => r is Ok && r->Ok_0@ == (SftpEntryView {
                    name: match file_name_of(path@) {
                        Some(name) => name,
                        None => Seq::empty(),
                    },
                    is_directory: attributes.is_directory,
                    size: match attributes.size {
                        Some(size) => size,
                        None => 0,
                    },
                    permissions: match attributes.permissions {
                        Some(bits) => bits,
                        None => 0,
                    },
                    modified: attributes.modified,
                }),
                Err(cause) => r is Err && r->Err_0@ == SshErrorView::Io(cause@),
            },
    {
        match answer {
            Ok(attributes) => {
                let name = match file_name(path) {
                    Some(name) => name,
                    None => String::new(),
                };
                Ok(
                    SftpEntry {
                        name,
                        is_directory: attributes.is_directory,
                        size: match attributes.size {
                            Some(size) => size,
                            None => 0,
                        },
                        permissions: match attributes.permissions {
                            Some(bits) => bits,
                            None => 0,
                        },
                        modified: attributes.modified,
                    },
                )
            },
            Err(cause) => Err(SshError::Io(cause)),
        }
    }

    /// The outcome of an operation that returns nothing, such as creating a
    /// directory, deleting or renaming: success, or an I/O error with the
    /// cause that the remote host gave.
    pub fn outcome(answer: Result<(), String>) -> (r: Result<(), SshError>)
        ensures
            match answer {
                Ok(_) => r is Ok,
                Err(cause) => r is Err && r->Err_0@ == SshErrorView::Io(cause@),
            },
    {
        match answer {
            Ok(_) => Ok(()),
            Err(cause) => Err(SshError::Io(cause)),
        }
    }

    /// The piece of a file of `total` bytes to transfer next when `done`
    /// bytes have been transferred: where it starts and how long it is.
    /// Progress is reported once for each piece.
    pub fn next_chunk(done: u64, total: u64) -> (chunk: Option<(u64, u64)>)
        ensures
            chunk == chunk_after(done, total),
            chunk matches Some((start, length)) ==> start == done && 0 < length <= CHUNK_SIZE
                && start + length <= total,
    {
        if done >= total {
            None
        } else if total - done < CHUNK_SIZE {
            Some((done, total - done))
        } else {
            Some((done, CHUNK_SIZE))
        }
    }
}

/// The key by which an entry is listed, given the name it is ordered by.
fn order_key_of(is_directory: bool, order_name: &str) -> (key: Vec<u32>)
    ensures
        key@ == order_key(is_directory, order_name@),
{
    let mut key: Vec<u32> = Vec::new();
    key.push(if is_directory { 0 } else { 1 });
    let mut name = key_of_text(order_name);
    key.append(&mut name);
    assert(key@ =~= order_key(is_directory, order_name@));
    key
}

/// Whether `name` is `.` or `..`.
fn is_dot(name: &str) -> (r: bool)
    ensures
        r == is_dot_name(name@),
{
    let chars = chars_of(name);
    if chars.len() == 1 && chars[0] == '.' {
        assert(name@ =~= seq!['.']);
        true
    } else if chars.len() == 2 && chars[0] == '.' && chars[1] == '.' {
        assert(name@ =~= seq!['.', '.']);
        true
    } else {
        false
    }
}

/// What is shown of the directory `path` whose raw listing is `raw`.
///
/// The entries `.` and `..` of the raw listing are left out. The others come
/// with the directories first and the files after them, each group ordered
/// by name without regard to case, that is by the code points of the name in
/// lower case; entries that this does not tell apart keep the order of the
/// raw listing. Unless `path` is the root, the entry `..` for the directory
/// above comes first.
pub fn arrange(path: &str, raw: &Vec<SftpEntry>) -> (listing: Vec<SftpEntry>)
    ensures
        is_listing(path@, raw.deep_view(), listing.deep_view()),
{
    let ghost all = raw.deep_view();
    let mut named: Vec<(SftpEntry, String)> = Vec::new();
    let mut i: usize = 0;
    while i < raw.len()
        invariant
            i <= raw.len(),
            all == raw.deep_view(),
            named.len() == i,
            forall|j: int|
                0 <= j < i ==> (#[trigger] named@[j]).deep_view() == (
                    all[j],
                    lowercase_of(all[j].name),
                ),
        decreases raw.len() - i,
    {
        assert(all[i as int] == raw@[i as int]@);
        let lower = lowercase(raw[i].name.as_str());
        named.push((raw[i].clone(), lower));
        i = i + 1;
    }
    assert(named.deep_view() =~= lowered(all));
    arrange_by(path, &named)
}

/// What is shown of the directory `path`, given its entries and with each
/// the name that it is ordered by.
///
/// The entries `.` and `..` are left out. The others come with the
/// directories first and the files after them, each group ordered by the
/// code points of the names given; entries of equal names keep the order
/// they came in. Unless `path` is the root, the entry `..` for the directory
/// above comes first.
pub fn arrange_by(path: &str, named: &Vec<(SftpEntry, String)>) -> (listing: Vec<SftpEntry>)
    ensures
        is_listing_by(path@, named.deep_view(), listing.deep_view()),
{
    let ghost all = named.deep_view();
    let ghost wanted = |p: (SftpEntryView, Seq<char>)| !is_dot_name(p.0.name);
    let ghost mut kept: Seq<(SftpEntryView, Seq<char>)> = Seq::empty();
    let mut shown: Vec<SftpEntry> = Vec::new();
    let mut keys: Vec<Vec<u32>> = Vec::new();
    let mut i: usize = 0;
    proof {
        reveal(Seq::filter);
        assert(all.take(0).filter(wanted) =~= kept);
    }
    while i < named.len()
        invariant
            i <= named.len(),
            all == named.deep_view(),
            wanted == |p: (SftpEntryView, Seq<char>)| !is_dot_name(p.0.name),
            kept == all.take(i as int).filter(wanted),
            shown.len() == kept.len(),
            keys.len() == kept.len(),
            forall|j: int| 0 <= j < kept.len() ==> (#[trigger] shown@[j])@ == kept[j].0,
            forall|j: int|
                0 <= j < kept.len() ==> (#[trigger] keys@[j]).deep_view() == order_key(
                    kept[j].0.is_directory,
                    kept[j].1,
                ),
        decreases named.len() - i,
    {
        assert(all[i as int] == named@[i as int].deep_view());
        proof {
            reveal(Seq::filter);
            assert(all.take(i + 1).drop_last() =~= all.take(i as int));
        }
        if !is_dot(named[i].0.name.as_str()) {
            let key = order_key_of(named[i].0.is_directory, named[i].1.as_str());
            assert(key.deep_view() =~= key@);
            keys.push(key);
            shown.push(named[i].0.clone());
            proof {
                kept = kept.push(all[i as int]);
            }
        }
        i = i + 1;
    }
    assert(all.take(i as int) =~= all);
    let ghost rows = pair_entries(kept);
    assert(shown.deep_view() =~= rows);
    assert(keys.deep_view() =~= pair_keys(kept));
    let order = rank(&keys);
    let root = names_root(path);
    let mut listing: Vec<SftpEntry> = Vec::new();
    if !root {
        listing.push(
            SftpEntry {
                name: "..".to_owned(),
                is_directory: true,
                size: 0,
                permissions: 0o755,
                modified: None,
            },
        );
        proof {
            reveal_strlit("..");
            assert(listing@[0]@.name =~= seq!['.', '.']);
        }
    }
    let head = listing.len();
    let mut k: usize = 0;
    while k < order.len()
        invariant
            k <= order.len(),
            rows == shown.deep_view(),
            is_ranking(pair_keys(kept), order@),
            pair_keys(kept).len() == rows.len(),
            head == if root { 0usize } else { 1usize },
            listing.len() == head + k,
            !root ==> listing@[0]@ == parent_entry(),
            forall|j: int| 0 <= j < k ==> (#[trigger] listing@[head + j])@ == rows[order[j] as int],
        decreases order.len() - k,
    {
        let at = order[k];
        assert(rows[at as int] == shown@[at as int]@);
        listing.push(shown[at].clone());
        k = k + 1;
    }
    proof {
        let out = listing.deep_view();
        let body = out.skip(head as int);
        assert(body.len() == rows.len());
        assert forall|j: int| 0 <= j < body.len() implies body[j] == rows[order@[j] as int] by {
            assert(body[j] == listing@[head + j]@);
        }
        assert(is_ranked_listing(rows, pair_keys(kept), body));
        if root {
            assert(body =~= out);
        }
    }
    listing
}

/// What is shown of entries that come with their names in lower case is
/// what is shown of the entries, and their keys are the keys of the entries.
proof fn lemma_lowered_shown(raw: Seq<SftpEntryView>)
    ensures
        pair_entries(shown_pairs(lowered(raw))) == shown_entries(raw),
        pair_keys(shown_pairs(lowered(raw))) == entry_keys(shown_entries(raw)),
        shown_pairs(lowered(raw)).len() == shown_entries(raw).len(),
    decreases raw.len(),
{
    reveal(Seq::filter);
    if raw.len() > 0 {
        let front = raw.drop_last();
        lemma_lowered_shown(front);
        assert(lowered(raw).drop_last() =~= lowered(front));
        assert(lowered(raw).last() == (raw.last(), lowercase_of(raw.last().name)));
        assert(pair_entries(shown_pairs(lowered(raw))) =~= shown_entries(raw));
        let pairs = shown_pairs(lowered(raw));
        let before = shown_pairs(lowered(front));
        let keys = pair_keys(pairs);
        let wanted = entry_keys(shown_entries(raw));
        assert forall|j: int| 0 <= j < keys.len() implies keys[j] == wanted[j] by {
            if j < before.len() {
                assert(pairs[j] == before[j]);
                assert(pair_keys(before)[j] == entry_keys(shown_entries(front))[j]);
                assert(shown_entries(raw)[j] == shown_entries(front)[j]);
            } else {
                assert(pairs[j] == lowered(raw).last());
                assert(shown_entries(raw)[j] == raw.last());
            }
        }
        assert(keys =~= wanted);
    } else {
        assert(pair_entries(shown_pairs(lowered(raw))) =~= shown_entries(raw));
        assert(pair_keys(shown_pairs(lowered(raw))) =~= entry_keys(shown_entries(raw)));
    }
}

/// The listing of a directory is the listing by rank of its shown entries
/// under their keys, behind the entry `..` unless the directory is the root.
pub proof fn listing_ranks_the_shown_entries(
    path: Seq<char>,
    raw: Seq<SftpEntryView>,
    listing: Seq<SftpEntryView>,
)
    requires
        is_listing(path, raw, listing),
    ensures
        ({
            let shown = shown_entries(raw);
            if is_root(path) {
                is_ranked_listing(shown, entry_keys(shown), listing)
            } else {
                &&& listing.len() == shown.len() + 1
                &&& listing[0] == parent_entry()
                &&& is_ranked_listing(shown, entry_keys(shown), listing.skip(1))
            }
        }),
{
    lemma_lowered_shown(raw);
}

/// In a listing no file stands before a directory, and within the
/// directories and within the files no name stands before a name that is
/// smaller without regard to case.
pub proof fn listing_is_ordered(
    path: Seq<char>,
    raw: Seq<SftpEntryView>,
    listing: Seq<SftpEntryView>,
    i: int,
    j: int,
)
    requires
        is_listing(path, raw, listing),
        0 <= i < j < listing.len(),
        is_root(path) || 1 <= i,
    ensures
        listing[i].is_directory || !listing[j].is_directory,
        !lex_lt(entry_key(listing[j]), entry_key(listing[i])),
        listing[i].is_directory == listing[j].is_directory ==> !lex_lt(
            text_key(lowercase_of(listing[j].name)),
            text_key(lowercase_of(listing[i].name)),
        ),
{
    listing_ranks_the_shown_entries(path, raw, listing);
    let rows = shown_entries(raw);
    let head = if is_root(path) { 0int } else { 1int };
    let listed = listing.skip(head);
    assert(listed[i - head] == listing[i]);
    assert(listed[j - head] == listing[j]);
    let keys = entry_keys(rows);
    let order = choose|order: Seq<usize>|
        #![trigger is_ranking(keys, order)]
        {
            &&& is_ranking(keys, order)
            &&& keys.len() == rows.len()
            &&& listed.len() == rows.len()
            &&& forall|k: int| 0 <= k < listed.len() ==> listed[k] == rows[order[k] as int]
        };
    let a = order[i - head] as int;
    let b = order[j - head] as int;
    assert(ranked_before(keys, a, b));
    assert(keys[a] == entry_key(listing[i]));
    assert(keys[b] == entry_key(listing[j]));
    if lex_lt(keys[a], keys[b]) {
        crate::text::lemma_lex_asymmetric(keys[a], keys[b]);
    } else {
        crate::text::lemma_lex_irreflexive(keys[a]);
    }
    let ka = keys[a];
    let kb = keys[b];
    assert(ka[0] == if listing[i].is_directory { 0u32 } else { 1u32 });
    assert(kb[0] == if listing[j].is_directory { 0u32 } else { 1u32 });
    assert(ka.drop_first() =~= text_key(lowercase_of(listing[i].name)));
    assert(kb.drop_first() =~= text_key(lowercase_of(listing[j].name)));
}

/// A listing shows every entry of the directory but `.` and `..`, each once,
/// and nothing else besides the entry for the directory above.
pub proof fn every_shown_entry_is_listed(
    path: Seq<char>,
    raw: Seq<SftpEntryView>,
    listing: Seq<SftpEntryView>,
    at: int,
)
    requires
        is_listing(path, raw, listing),
        0 <= at < shown_entries(raw).len(),
    ensures
        listing.len() == shown_entries(raw).len() + if is_root(path) {
            0int
        } else {
            1int
        },
        !is_root(path) ==> listing[0] == parent_entry(),
        exists|i: int| 0 <= i < listing.len() && #[trigger] listing[i] == shown_entries(raw)[at],
{
    listing_ranks_the_shown_entries(path, raw, listing);
    let shown = shown_entries(raw);
    if is_root(path) {
        every_row_is_listed(shown, entry_keys(shown), listing, at);
    } else {
        let body = listing.skip(1);
        every_row_is_listed(shown, entry_keys(shown), body, at);
        let i = choose|i: int| 0 <= i < body.len() && #[trigger] body[i] == shown[at];
        assert(listing[i + 1] == shown[at]);
    }
}

/// A directory has one listing: what is stated of a listing determines it.
pub proof fn listing_is_unique(
    path: Seq<char>,
    raw: Seq<SftpEntryView>,
    first: Seq<SftpEntryView>,
    second: Seq<SftpEntryView>,
)
    requires
        is_listing(path, raw, first),
        is_listing(path, raw, second),
    ensures
        first == second,
{
    listing_ranks_the_shown_entries(path, raw, first);
    listing_ranks_the_shown_entries(path, raw, second);
    let shown = shown_entries(raw);
    if is_root(path) {
        ranked_listing_is_unique(shown, entry_keys(shown), first, second);
    } else {
        ranked_listing_is_unique(shown, entry_keys(shown), first.skip(1), second.skip(1));
        assert forall|i: int| 0 <= i < first.len() implies first[i] == second[i] by {
            if i > 0 {
                assert(first[i] == first.skip(1)[i - 1]);
                assert(second[i] == second.skip(1)[i - 1]);
            }
        }
        assert(first =~= second);
    }
}

/// Following the pieces from the start of a file transfers all of it, piece
/// by piece without gap or overlap, in as many pieces as the size divided by
/// the size of a piece, rounded up. So progress is reported that many times.
pub proof fn chunks_cover_the_file(done: u64, total: u64)
    requires
        done <= total,
        done % CHUNK_SIZE == 0,
    ensures
        chunks_left(done, total) == chunk_count((total - done) as nat),
    decreases total - done,
{
    let size = CHUNK_SIZE as int;
    let rest = total - done;
    match chunk_after(done, total) {
        None => {
            assert(rest == 0);
            assert((0 + size - 1) / size == 0) by (nonlinear_arith)
                requires
                    size == 32768,
            ;
        },
        Some((start, length)) => {
            let next = (start + length) as u64;
            if rest < size {
                assert(next == total);
                assert(chunks_left(next, total) == 0);
                assert((rest + size - 1) / size == 1) by (nonlinear_arith)
                    requires
                        0 < rest < size,
                        size == 32768,
                ;
            } else {
                assert(next == done + size);
                assert(next % CHUNK_SIZE == 0) by (nonlinear_arith)
                    requires
                        next == done + 32768,
                        done % 32768 == 0,
                        CHUNK_SIZE == 32768,
                ;
                chunks_cover_the_file(next, total);
                assert((rest + size - 1) / size == 1 + (rest - size + size - 1) / size)
                    by (nonlinear_arith)
                    requires
                        rest >= size,
                        size == 32768,
                ;
            }
        },
    }
}

} // verus!
