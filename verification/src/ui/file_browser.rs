//! The file browser without its widgets: the directory it shows, the
//! entries of that directory, and where an activated entry leads.

use crate::ssh::{
    directory_above, entry_path, parent_or_root, path_of_entry, SftpEntry, SftpEntryView, SshError,
};
use vstd::prelude::*;
use vstd::string::*;

verus! {

/// A file browser as a mathematical value.
pub struct BrowserView {
    /// The directory that is shown.
    pub current_path: Seq<char>,
    /// Its entries, in the order in which they are shown.
    pub entries: Seq<SftpEntryView>,
}

impl BrowserView {
    /// The first entry with this name, if there is one.
    pub open spec fn entry_named(self, name: Seq<char>) -> Option<SftpEntryView> {
        if exists|i: int| 0 <= i < self.entries.len() && (#[trigger] self.entries[i]).name == name {
            let first = choose|i: int|
                0 <= i < self.entries.len() && (#[trigger] self.entries[i]).name == name && forall|
                    j: int,
                | 0 <= j < i ==> (#[trigger] self.entries[j]).name != name;
            Some(self.entries[first])
        } else {
            None
        }
    }

    /// Where activating the entry `name` leads: into the directory of that
    /// name. A file leads nowhere, and neither does a name that is not shown.
    pub open spec fn target_of(self, name: Seq<char>) -> Option<Seq<char>> {
        match self.entry_named(name) {
            Some(entry) => if entry.is_directory {
                Some(entry_path(self.current_path, name))
            } else {
                None
            },
            None => None,
        }
    }
}

/// The state of the file browser. Entries are found by their name, never by
/// the row that happens to show them.
pub struct FileBrowser {
    current_path: String,
    entries: Vec<SftpEntry>,
}

impl View for FileBrowser {
    type V = BrowserView;

    closed spec fn view(&self) -> BrowserView {
        BrowserView { current_path: self.current_path@, entries: self.entries.deep_view() }
    }
}

impl FileBrowser {
    /// A browser that shows the root and has no entries yet.
    pub fn new() -> (b: FileBrowser)
        ensures
            b@.current_path == seq!['/'],
            b@.entries.len() == 0,
    {
        proof {
            reveal_strlit("/");
        }
        let b = FileBrowser { current_path: "/".to_owned(), entries: Vec::new() };
        assert(b@.current_path =~= seq!['/']);
        b
    }

    /// The directory that is shown.
    pub fn current_path(&self) -> (path: &str)
        ensures
            path@ == self@.current_path,
    {
        self.current_path.as_str()
    }

    /// How many entries are shown.
    pub fn entry_count(&self) -> (n: usize)
        ensures
            n == self@.entries.len(),
    {
        self.entries.len()
    }

    /// Starts to show `path`: the entries of the directory before are gone,
    /// those of `path` are not there yet.
    pub fn load_directory(&mut self, path: &str)
        ensures
            final(self)@.current_path == path@,
            final(self)@.entries.len() == 0,
    {
        self.current_path = path.to_owned();
        self.entries = Vec::new();
    }

    /// The listing of the directory that is shown has arrived.
    pub fn show(&mut self, listing: Vec<SftpEntry>)
        ensures
            final(self)@.current_path == old(self)@.current_path,
            final(self)@.entries == listing.deep_view(),
    {
        self.entries = listing;
    }

    /// Where activating the entry `name` leads: the path of the directory to
    /// load next, if the entry is a directory.
    pub fn activate(&self, name: &str) -> (target: Option<String>)
        ensures
            target.deep_view() == self@.target_of(name@),
    {
        let wanted = name.to_owned();
        let ghost entries = self.entries.deep_view();
        let mut i: usize = 0;
        while i < self.entries.len()
            invariant
                i <= self.entries.len(),
                entries == self.entries.deep_view(),
                wanted@ == name@,
                forall|k: int| 0 <= k < i ==> (#[trigger] entries[k]).name != name@,
            decreases self.entries.len() - i,
        {
            assert(entries[i as int] == self.entries@[i as int]@);
            if self.entries[i].name == wanted {
                proof {
                    let first = choose|f: int|
                        0 <= f < entries.len() && (#[trigger] entries[f]).name == name@ && forall|
                            j: int,
                        | 0 <= j < f ==> (#[trigger] entries[j]).name != name@;
                    assert(entries[i as int].name == name@);
                    assert(first == i) by {
                        if first < i {
                            assert(entries[first].name != name@);
                        } else if first > i {
                            assert(entries[i as int].name != name@);
                        }
                    }
                }
                if self.entries[i].is_directory {
                    return Some(path_of_entry(self.current_path.as_str(), name));
                } else {
                    return None;
                }
            }
            i = i + 1;
        }
        None
    }

    /// Where the button for the directory above leads: nowhere from the
    /// root, else into the directory above the one that is shown.
    pub fn navigate_up(&self) -> (target: Option<String>)
        ensures
            target.deep_view() == if self@.current_path == seq!['/'] {
                None
            } else {
                Some(directory_above(self@.current_path))
            },
    {
        proof {
            reveal_strlit("/");
        }
        let root = "/".to_owned();
        assert(root@ =~= seq!['/']);
        if self.current_path == root {
            None
        } else {
            Some(parent_or_root(self.current_path.as_str()))
        }
    }

    /// Where the browser starts once the file-transfer session is there: in
    /// the home directory that the remote host named, or at the root if it
    /// named none.
    pub fn home_or_root(answer: Result<String, SshError>) -> (target: String)
        ensures
            target@ == match answer {
                Ok(home) => home@,
                Err(_) => seq!['/'],
            },
    {
        match answer {
            Ok(home) => home,
            Err(_) => {
                proof {
                    reveal_strlit("/");
                }
                let root = "/".to_owned();
                assert(root@ =~= seq!['/']);
                root
            },
        }
    }

    /// What to load when the view is refreshed: the directory that is shown.
    pub fn refresh(&self) -> (target: String)
        ensures
            target@ == self@.current_path,
    {
        self.current_path.clone()
    }
}

} // verus!
