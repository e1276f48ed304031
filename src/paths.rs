//! Lexical paths: a descriptor's location and the payload location derived from it.
use vstd::prelude::*;
use vstd::string::{StrSliceExecFns, StringExecFns};

verus! {

/// A path held as its components, the way `std::path::Path::components` yields
/// them: whether it starts at the root, then each further component as text
/// (`.` and `..` included, as they appear).
pub struct TrashPath {
    pub absolute: bool,
    pub parts: Vec<String>,
}

/// The mathematical value of a `TrashPath`.
pub struct PathView {
    pub absolute: bool,
    pub parts: Seq<Seq<char>>,
}

/// The text of each string in `v`.
pub open spec fn views_of(v: Seq<String>) -> Seq<Seq<char>> {
    v.map_values(|p: String| p@)
}

impl View for TrashPath {
    type V = PathView;

    open spec fn view(&self) -> PathView {
        PathView { absolute: self.absolute, parts: views_of(self.parts@) }
    }
}

/// The component `..`.
pub open spec fn parent_marker() -> Seq<char> {
    seq!['.', '.']
}

/// The name of the directory that holds payloads, beside the descriptors' `info`.
pub open spec fn files_dir_name() -> Seq<char> {
    seq!['f', 'i', 'l', 'e', 's']
}

/// The extension that marks a descriptor.
pub open spec fn descriptor_extension() -> Seq<char> {
    seq!['t', 'r', 'a', 's', 'h', 'i', 'n', 'f', 'o']
}

/// Index of the last `c` in `s`, or -1 where there is none.
pub open spec fn last_index_of(s: Seq<char>, c: char) -> int
    decreases s.len(),
{
    if s.len() == 0 {
        -1
    } else if s.last() == c {
        s.len() - 1
    } else {
        last_index_of(s.drop_last(), c)
    }
}

/// The stem of a file name: the name without its last `.` and what follows it.
/// A name with no `.`, or whose only `.` leads it, is its own stem.
pub open spec fn stem_of(name: Seq<char>) -> Seq<char> {
    let k = last_index_of(name, '.');
    if k <= 0 {
        name
    } else {
        name.subrange(0, k)
    }
}

/// The extension of a file name: what follows its last `.`, where that `.` does
/// not lead the name.
pub open spec fn extension_of(name: Seq<char>) -> Option<Seq<char>> {
    let k = last_index_of(name, '.');
    if k <= 0 {
        None
    } else {
        Some(name.subrange(k + 1, name.len() as int))
    }
}

/// The file name of a path: its last component, unless that is `..` or there is none.
pub open spec fn file_name_of(p: PathView) -> Option<Seq<char>> {
    if p.parts.len() == 0 || p.parts.last() == parent_marker() {
        None
    } else {
        Some(p.parts.last())
    }
}

/// Whether a directory entry names a descriptor: its file name has exactly the
/// descriptor extension (compared case-sensitively).
pub open spec fn is_descriptor_path(p: PathView) -> bool {
    match file_name_of(p) {
        Some(name) => extension_of(name) == Some(descriptor_extension()),
        None => false,
    }
}

/// Where the payload of the descriptor at `info` lies: the descriptor's
/// grandparent, then `files`, then the descriptor's file stem. `None` where the
/// descriptor has no grandparent or no file name.
pub open spec fn payload_of(info: PathView) -> Option<PathView> {
    if info.parts.len() < 2 || info.parts.last() == parent_marker() {
        None
    } else {
        Some(
            PathView {
                absolute: info.absolute,
                parts: info.parts.subrange(0, info.parts.len() - 2).push(files_dir_name()).push(
                    stem_of(info.parts.last()),
                ),
            },
        )
    }
}

/// `last_index_of` lies in `-1 .. s.len()`, and names a `c` where it is not -1.
proof fn lemma_last_index_bounds(s: Seq<char>, c: char)
    ensures
        -1 <= last_index_of(s, c) < s.len(),
        last_index_of(s, c) >= 0 ==> s[last_index_of(s, c)] == c,
    decreases s.len(),
{
    if s.len() > 0 && s.last() != c {
        lemma_last_index_bounds(s.drop_last(), c);
    }
}

/// Position of the last `c` in `s`, if any.
fn find_last(s: &str, c: char) -> (r: Option<usize>)
    ensures
        match r {
            Some(k) => k == last_index_of(s@, c),
            None => last_index_of(s@, c) == -1,
        },
{
    let n = s.unicode_len();
    let mut i: usize = n;
    assert(s@.subrange(0, n as int) == s@);
    while i > 0
        invariant
            i <= n,
            n == s@.len(),
            last_index_of(s@, c) == last_index_of(s@.subrange(0, i as int), c),
        decreases i,
    {
        let ch = s.get_char(i - 1);
        assert(s@.subrange(0, i as int).drop_last() == s@.subrange(0, i - 1));
        if ch == c {
            return Some(i - 1);
        }
        i = i - 1;
    }
    assert(s@.subrange(0, 0).len() == 0);
    None
}

/// Whether `s` is exactly the two characters `..`.
fn is_parent_marker(s: &str) -> (r: bool)
    ensures
        r == (s@ == parent_marker()),
{
    let n = s.unicode_len();
    if n != 2 {
        return false;
    }
    let a = s.get_char(0);
    let b = s.get_char(1);
    if a == '.' && b == '.' {
        assert(s@ == parent_marker());
        true
    } else {
        false
    }
}

/// The stem of a file name, as `stem_of` says.
pub fn file_stem(name: &str) -> (r: String)
    ensures
        r@ == stem_of(name@),
{
    proof {
        lemma_last_index_bounds(name@, '.');
    }
    match find_last(name, '.') {
        Some(k) if k > 0 => String::from_str(name.substring_char(0, k)),
        _ => String::from_str(name),
    }
}

/// The extension of a file name, as `extension_of` says.
pub fn file_extension(name: &str) -> (r: Option<String>)
    ensures
        r matches Some(e) ==> extension_of(name@) == Some(e@),
        r is None ==> extension_of(name@) is None,
{
    proof {
        lemma_last_index_bounds(name@, '.');
    }
    let n = name.unicode_len();
    match find_last(name, '.') {
        Some(k) if k > 0 => Some(String::from_str(name.substring_char(k + 1, n))),
        _ => None,
    }
}

impl TrashPath {
    /// The payload location of the descriptor at this path, as `payload_of` says.
    /// Purely lexical: nothing on disk is consulted.
    pub fn payload_path(&self) -> (r: Option<TrashPath>)
        ensures
            match r {
                Some(p) => payload_of(self@) == Some(p@),
                None => payload_of(self@) is None,
            },
    {
        let n = self.parts.len();
        if n < 2 {
            return None;
        }
        let name = self.parts[n - 1].as_str();
        assert(self@.parts.last() == name@);
        if is_parent_marker(name) {
            return None;
        }
        let mut parts: Vec<String> = Vec::new();
        let mut i: usize = 0;
        while i < n - 2
            invariant
                n == self.parts@.len(),
                n >= 2,
                i <= n - 2,
                parts@.len() == i,
                views_of(parts@) == self@.parts.subrange(0, i as int),
            decreases n - 2 - i,
        {
            let part = self.parts[i].clone();
            assert(part@ == self@.parts[i as int]);
            let ghost before = parts@;
            parts.push(part);
            assert forall|j: int| 0 <= j < i + 1 implies #[trigger] views_of(parts@)[j] == self@.parts.subrange(0, i + 1)[j] by {
                if j < i {
                    assert(views_of(before)[j] == self@.parts.subrange(0, i as int)[j]);
                }
            }
            assert(views_of(parts@) =~= self@.parts.subrange(0, i + 1));
            i = i + 1;
        }
        let files = "files";
        proof {
            reveal_strlit("files");
        }
        assert(files@ == files_dir_name());
        parts.push(String::from_str(files));
        parts.push(file_stem(name));
        let r = TrashPath { absolute: self.absolute, parts };
        assert(r@.parts =~= self@.parts.subrange(0, n - 2).push(files_dir_name()).push(
            stem_of(self@.parts.last()),
        ));
        Some(r)
    }

    /// Whether this path names a descriptor, as `is_descriptor_path` says.
    pub fn is_descriptor(&self) -> (r: bool)
        ensures
            r == is_descriptor_path(self@),
    {
        let n = self.parts.len();
        if n == 0 {
            return false;
        }
        let name = self.parts[n - 1].as_str();
        assert(self@.parts.last() == name@);
        if is_parent_marker(name) {
            return false;
        }
        match file_extension(name) {
            Some(e) => {
                let ok = is_descriptor_extension(e.as_str());
                ok
            },
            None => false,
        }
    }
}

/// Whether `s` is exactly the descriptor extension.
fn is_descriptor_extension(s: &str) -> (r: bool)
    ensures
        r == (s@ == descriptor_extension()),
{
    let want = "trashinfo";
    proof {
        reveal_strlit("trashinfo");
    }
    let n = s.unicode_len();
    if n != 9 {
        return false;
    }
    let mut i: usize = 0;
    while i < 9
        invariant
            i <= 9,
            n == 9,
            s@.len() == 9,
            want@ == descriptor_extension(),
            forall|j: int| 0 <= j < i ==> s@[j] == want@[j],
        decreases 9 - i,
    {
        if s.get_char(i) != want.get_char(i) {
            return false;
        }
        i = i + 1;
    }
    assert(s@ == descriptor_extension());
    true
}

} // verus!
