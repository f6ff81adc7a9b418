//! Paths on the remote host: text with `/` between the components.

use crate::text::{chars_of, ends_with, starts_with};
use vstd::prelude::*;
use vstd::string::*;

verus! {

/// Where the components of `p` begin: after the leading `/` of an absolute
/// path, after the leading `.` of a path that is `.` or begins with `./`,
/// and at the start of any other.
pub open spec fn anchor(p: Seq<char>) -> int {
    if starts_with(p, '/') {
        1
    } else if p.len() >= 1 && p[0] == '.' && (p.len() == 1 || p[1] == '/') {
        1
    } else {
        0
    }
}

/// Where the last segment of `p` begins: after the last `/` at or behind
/// `base`, or at `base` if there is none.
pub open spec fn segment_start(p: Seq<char>, base: int) -> int
    decreases p.len(),
{
    if p.len() <= base || p.len() == 0 {
        base
    } else if p.last() == '/' {
        p.len() as int
    } else {
        segment_start(p.drop_last(), base)
    }
}

/// A segment that names nothing: the empty one between two `/`, and `.`.
pub open spec fn is_skipped(segment: Seq<char>) -> bool {
    segment.len() == 0 || segment == seq!['.']
}

/// How much of `p` is left when its last segment and the `/` before it are
/// dropped.
pub open spec fn cut(p: Seq<char>, base: int) -> int {
    let start = segment_start(p, base);
    if start > base {
        start - 1
    } else {
        base
    }
}

/// `p` without what trails its last component: `/` and `.` segments.
pub open spec fn trimmed(p: Seq<char>, base: int) -> Seq<char>
    decreases p.len(),
{
    if p.len() <= base || base < 0 {
        p
    } else if is_skipped(p.skip(segment_start(p, base))) && cut(p, base) < p.len() {
        trimmed(p.take(cut(p, base)), base)
    } else {
        p
    }
}

/// The path without its last component. The root has none, and neither has
/// the empty path.
pub open spec fn parent_of(p: Seq<char>) -> Option<Seq<char>> {
    let base = anchor(p);
    let t = trimmed(p, base);
    if t.len() > base {
        Some(trimmed(t.take(cut(t, base)), base))
    } else if starts_with(p, '/') {
        None
    } else if base == 1 {
        Some(Seq::empty())
    } else {
        None
    }
}

/// The directory above `p`; of a path without a parent, the root.
pub open spec fn directory_above(p: Seq<char>) -> Seq<char> {
    match parent_of(p) {
        Some(parent) => parent,
        None => seq!['/'],
    }
}

/// The last component of `p`, if it names a file or directory: not for the
/// root, for an empty path, or for a path that ends in `..`.
pub open spec fn file_name_of(p: Seq<char>) -> Option<Seq<char>> {
    let base = anchor(p);
    let t = trimmed(p, base);
    if t.len() > base {
        let name = t.skip(segment_start(t, base));
        if name == seq!['.', '.'] {
            None
        } else {
            Some(name)
        }
    } else {
        None
    }
}

/// Whether `p` names the root of the file system.
pub open spec fn is_root(p: Seq<char>) -> bool {
    starts_with(p, '/') && trimmed(p, 1).len() == 1
}

/// `p` without the `/` at its end, however many there are.
pub open spec fn without_trailing_slashes(p: Seq<char>) -> Seq<char>
    decreases p.len(),
{
    if ends_with(p, '/') {
        without_trailing_slashes(p.drop_last())
    } else {
        p
    }
}

/// What `path` names when the current directory is `current`: an absolute
/// path stands for itself, `..` is the directory above the current one, and
/// anything else is appended to the current directory.
pub open spec fn resolved(current: Seq<char>, path: Seq<char>) -> Seq<char> {
    if starts_with(path, '/') {
        path
    } else if path == seq!['.', '.'] {
        directory_above(current)
    } else {
        without_trailing_slashes(current) + seq!['/'] + path
    }
}

/// The path of the entry `name` of the directory `current`: for `..` the
/// directory above, else the name appended with one `/` between.
pub open spec fn entry_path(current: Seq<char>, name: Seq<char>) -> Seq<char> {
    if name == seq!['.', '.'] {
        directory_above(current)
    } else if ends_with(current, '/') {
        current + name
    } else {
        current + seq!['/'] + name
    }
}

proof fn lemma_segment_start_bounds(p: Seq<char>, base: int)
    requires
        0 <= base <= p.len(),
    ensures
        base <= segment_start(p, base) <= p.len(),
        forall|i: int| segment_start(p, base) <= i < p.len() ==> p[i] != '/',
        segment_start(p, base) > base ==> p[segment_start(p, base) - 1] == '/',
    decreases p.len(),
{
    if p.len() > base && p.last() != '/' {
        let front = p.drop_last();
        lemma_segment_start_bounds(front, base);
        assert forall|i: int| segment_start(p, base) <= i < p.len() implies p[i] != '/' by {
            if i < front.len() {
                assert(front[i] == p[i]);
            }
        }
        if segment_start(p, base) > base {
            assert(front[segment_start(p, base) - 1] == p[segment_start(p, base) - 1]);
        }
    }
}

/// Trimming leaves a beginning of the path.
proof fn lemma_trimmed_is_prefix(p: Seq<char>, base: int)
    requires
        0 <= base <= p.len(),
    ensures
        base <= trimmed(p, base).len() <= p.len(),
        trimmed(p, base) == p.take(trimmed(p, base).len() as int),
    decreases p.len(),
{
    if p.len() > base {
        lemma_segment_start_bounds(p, base);
        if is_skipped(p.skip(segment_start(p, base))) {
            let shorter = p.take(cut(p, base));
            lemma_trimmed_is_prefix(shorter, base);
            assert(shorter.take(trimmed(shorter, base).len() as int) =~= p.take(
                trimmed(shorter, base).len() as int,
            ));
        } else {
            assert(p.take(p.len() as int) =~= p);
        }
    } else {
        assert(p.take(p.len() as int) =~= p);
    }
}

/// The parent of a path is a beginning of the path: going up never invents
/// a name.
pub proof fn parent_is_a_prefix(p: Seq<char>)
    requires
        parent_of(p) is Some,
    ensures
        parent_of(p)->0.len() <= p.len(),
        parent_of(p)->0 == p.take(parent_of(p)->0.len() as int),
{
    let base = anchor(p);
    lemma_trimmed_is_prefix(p, base);
    let t = trimmed(p, base);
    if t.len() > base {
        lemma_segment_start_bounds(t, base);
        let shorter = t.take(cut(t, base));
        lemma_trimmed_is_prefix(shorter, base);
        let parent = trimmed(shorter, base);
        assert(parent =~= p.take(parent.len() as int));
    } else {
        assert(Seq::<char>::empty() =~= p.take(0));
    }
}

fn anchor_of(chars: &Vec<char>) -> (base: usize)
    ensures
        base == anchor(chars@),
        base <= chars.len(),
{
    if chars.len() >= 1 && chars[0] == '/' {
        1
    } else if chars.len() >= 1 && chars[0] == '.' && (chars.len() == 1 || chars[1] == '/') {
        1
    } else {
        0
    }
}

fn segment_start_of(chars: &Vec<char>, base: usize, n: usize) -> (start: usize)
    requires
        base <= n <= chars.len(),
    ensures
        start == segment_start(chars@.take(n as int), base as int),
        base <= start <= n,
{
    let ghost p = chars@.take(n as int);
    let mut j: usize = n;
    while j > base && chars[j - 1] != '/'
        invariant
            base <= j <= n <= chars.len(),
            p == chars@.take(n as int),
            segment_start(p, base as int) == segment_start(chars@.take(j as int), base as int),
        decreases j,
    {
        assert(chars@.take(j as int).drop_last() =~= chars@.take(j - 1));
        assert(chars@.take(j as int).last() == chars@[j - 1]);
        j = j - 1;
    }
    proof {
        if j > base {
            assert(chars@.take(j as int).last() == chars@[j - 1]);
        }
    }
    j
}

fn trimmed_length(chars: &Vec<char>, base: usize, from: usize) -> (n: usize)
    requires
        base <= from <= chars.len(),
    ensures
        base <= n <= from,
        chars@.take(n as int) == trimmed(chars@.take(from as int), base as int),
{
    let mut n: usize = from;
    while n > base
        invariant
            base <= n <= from <= chars.len(),
            trimmed(chars@.take(from as int), base as int) == trimmed(
                chars@.take(n as int),
                base as int,
            ),
        ensures
            base <= n <= from,
            chars@.take(n as int) == trimmed(chars@.take(from as int), base as int),
        decreases n,
    {
        let ghost p = chars@.take(n as int);
        let start = segment_start_of(chars, base, n);
        let skipped = n - start == 0 || (n - start == 1 && chars[start] == '.');
        proof {
            let segment = p.skip(start as int);
            assert(segment.len() == n - start);
            if n - start == 1 {
                assert(segment[0] == chars@[start as int]);
                assert((segment == seq!['.']) == (chars@[start as int] == '.')) by {
                    if chars@[start as int] == '.' {
                        assert(segment =~= seq!['.']);
                    }
                }
            }
            assert(skipped == is_skipped(segment));
        }
        if !skipped {
            break ;
        }
        let shorter = if start > base {
            start - 1
        } else {
            base
        };
        assert(p.take(shorter as int) =~= chars@.take(shorter as int));
        n = shorter;
    }
    n
}

/// The path without its last component, if it has one.
pub fn parent_path(path: &str) -> (parent: Option<String>)
    ensures
        parent.deep_view() == parent_of(path@),
{
    let chars = chars_of(path);
    let base = anchor_of(&chars);
    assert(chars@.take(chars.len() as int) =~= chars@);
    let n = trimmed_length(&chars, base, chars.len());
    if n > base {
        let ghost t = chars@.take(n as int);
        let start = segment_start_of(&chars, base, n);
        let shorter = if start > base {
            start - 1
        } else {
            base
        };
        assert(t.take(shorter as int) =~= chars@.take(shorter as int));
        let m = trimmed_length(&chars, base, shorter);
        let parent = path.substring_char(0, m).to_owned();
        assert(parent@ =~= chars@.take(m as int));
        Some(parent)
    } else if chars.len() > 0 && chars[0] == '/' {
        None
    } else if base == 1 {
        let parent = String::new();
        assert(parent@ =~= Seq::<char>::empty());
        Some(parent)
    } else {
        None
    }
}

/// The directory above `path`; of a path without a parent, the root.
pub fn parent_or_root(path: &str) -> (above: String)
    ensures
        above@ == directory_above(path@),
{
    match parent_path(path) {
        Some(parent) => parent,
        None => {
            proof {
                reveal_strlit("/");
            }
            let root = "/".to_owned();
            assert(root@ =~= seq!['/']);
            root
        },
    }
}

/// The last component of `path`, if it names a file or directory.
pub fn file_name(path: &str) -> (name: Option<String>)
    ensures
        name.deep_view() == file_name_of(path@),
{
    let chars = chars_of(path);
    let base = anchor_of(&chars);
    assert(chars@.take(chars.len() as int) =~= chars@);
    let n = trimmed_length(&chars, base, chars.len());
    if n > base {
        let ghost t = chars@.take(n as int);
        let start = segment_start_of(&chars, base, n);
        let name = path.substring_char(start, n).to_owned();
        assert(name@ =~= t.skip(start as int));
        let dots = n - start == 2 && chars[start] == '.' && chars[start + 1] == '.';
        proof {
            if n - start == 2 {
                assert(name@[0] == chars@[start as int]);
                assert(name@[1] == chars@[start + 1]);
                if dots {
                    assert(name@ =~= seq!['.', '.']);
                }
            }
        }
        if dots {
            None
        } else {
            Some(name)
        }
    } else {
        None
    }
}

/// Whether `path` names the root of the file system.
pub fn names_root(path: &str) -> (root: bool)
    ensures
        root == is_root(path@),
{
    let chars = chars_of(path);
    if chars.len() >= 1 && chars[0] == '/' {
        assert(chars@.take(chars.len() as int) =~= chars@);
        let n = trimmed_length(&chars, 1, chars.len());
        n == 1
    } else {
        false
    }
}

/// How many characters of `chars` are left without the `/` at its end.
fn length_without_trailing_slashes(chars: &Vec<char>) -> (n: usize)
    ensures
        n <= chars.len(),
        chars@.take(n as int) == without_trailing_slashes(chars@),
{
    let mut n: usize = chars.len();
    assert(chars@.take(n as int) =~= chars@);
    while n > 0 && chars[n - 1] == '/'
        invariant
            n <= chars.len(),
            without_trailing_slashes(chars@) == without_trailing_slashes(chars@.take(n as int)),
        decreases n,
    {
        assert(chars@.take(n as int).drop_last() =~= chars@.take(n - 1));
        n = n - 1;
    }
    n
}

/// What `path` names when the current directory is `current`.
pub fn resolve(current: &str, path: &str) -> (target: String)
    ensures
        target@ == resolved(current@, path@),
{
    proof {
        reveal_strlit("/");
    }
    let chars = chars_of(path);
    if chars.len() >= 1 && chars[0] == '/' {
        path.to_owned()
    } else if chars.len() == 2 && chars[0] == '.' && chars[1] == '.' {
        assert(path@ =~= seq!['.', '.']);
        parent_or_root(current)
    } else {
        let here = chars_of(current);
        let n = length_without_trailing_slashes(&here);
        let mut target = current.substring_char(0, n).to_owned();
        target.append("/");
        target.append(path);
        assert(target@ =~= without_trailing_slashes(current@) + seq!['/'] + path@);
        target
    }
}

/// The path of the entry `name` of the directory `current`.
pub fn path_of_entry(current: &str, name: &str) -> (target: String)
    ensures
        target@ == entry_path(current@, name@),
{
    proof {
        reveal_strlit("/");
    }
    let chars = chars_of(name);
    if chars.len() == 2 && chars[0] == '.' && chars[1] == '.' {
        assert(name@ =~= seq!['.', '.']);
        parent_or_root(current)
    } else {
        let here = chars_of(current);
        let mut target = current.to_owned();
        if !(here.len() > 0 && here[here.len() - 1] == '/') {
            target.append("/");
        }
        target.append(name);
        assert(target@ =~= entry_path(current@, name@));
        target
    }
}

} // verus!
