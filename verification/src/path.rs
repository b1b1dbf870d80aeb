//! Paths as text: the lexical steps of resolving a reference.
//!
//! A path is the sequence of its characters, with `/` between its segments.
//! Nothing here touches a file system: making a path canonical is the
//! caller's part, and these functions decide what is asked of it and what
//! follows from its answer.

use vstd::prelude::*;
use vstd::string::*;
use crate::text::chars_of;

verus! {

/// Whether `c` is an ASCII letter, as a drive letter is.
pub open spec fn is_ascii_letter(c: char) -> bool {
    ('a' <= c && c <= 'z') || ('A' <= c && c <= 'Z')
}

/// Whether `s` begins with the root marker `/`.
pub open spec fn has_root_marker(s: Seq<char>) -> bool {
    s.len() >= 1 && s[0] == '/'
}

/// Whether `s` begins with a drive prefix: a letter and a colon, as in `C:`.
pub open spec fn has_drive_prefix(s: Seq<char>) -> bool {
    s.len() >= 2 && is_ascii_letter(s[0]) && s[1] == ':'
}

/// Whether `s` begins with the UNC prefix: two backslashes, as in `\\server\share`.
pub open spec fn has_unc_prefix(s: Seq<char>) -> bool {
    s.len() >= 2 && s[0] == '\\' && s[1] == '\\'
}

/// Whether the reference `s` is an absolute path in one of the three
/// recognised forms. Such a reference is never followed.
pub open spec fn is_absolute_reference(s: Seq<char>) -> bool {
    has_root_marker(s) || has_drive_prefix(s) || has_unc_prefix(s)
}

/// The length of `s` without the run of `/` at its end.
pub open spec fn trimmed_len(s: Seq<char>) -> int
    decreases s.len(),
{
    if s.len() > 0 && s.last() == '/' {
        trimmed_len(s.drop_last())
    } else {
        s.len() as int
    }
}

/// The index of the last `/` of `s`, or -1 where it has none.
pub open spec fn last_separator(s: Seq<char>) -> int
    decreases s.len(),
{
    if s.len() == 0 {
        -1
    } else if s.last() == '/' {
        s.len() - 1
    } else {
        last_separator(s.drop_last())
    }
}

/// The directory that holds `path`, by the text alone: what stands before
/// the last segment. A path that is empty or only the root has none; a bare
/// file name has the empty directory, which stands for the current one.
pub open spec fn parent_dir(path: Seq<char>) -> Option<Seq<char>> {
    let body = path.subrange(0, trimmed_len(path));
    if body.len() == 0 {
        None
    } else {
        let cut = last_separator(body);
        if cut < 0 {
            Some(Seq::empty())
        } else {
            let dir = body.subrange(0, trimmed_len(body.subrange(0, cut)));
            if dir.len() == 0 {
                Some(seq!['/'])
            } else {
                Some(dir)
            }
        }
    }
}

/// The directory that a reference found in `base_file` is relative to: the
/// parent of `base_file`, or the workspace root where it has none.
pub open spec fn base_directory(base_file: Seq<char>, root: Seq<char>) -> Seq<char> {
    match parent_dir(base_file) {
        Some(dir) => dir,
        None => root,
    }
}

/// The path that `reference` names below the directory `base`.
pub open spec fn joined(base: Seq<char>, reference: Seq<char>) -> Seq<char> {
    if base.len() == 0 {
        reference
    } else if base.last() == '/' {
        base + reference
    } else {
        base + seq!['/'] + reference
    }
}

/// Whether the canonical path `path` lies within the directory `root`: it is
/// `root` itself, or continues `root` at a segment boundary. Both are
/// canonical, so they hold no `.`, no `..` and no doubled `/`, and a sibling
/// whose name merely begins like the root (`/ws-old` beside `/ws`) is outside.
pub open spec fn within(path: Seq<char>, root: Seq<char>) -> bool {
    path == root || (root.len() < path.len() && path.subrange(0, root.len() as int) == root && (
    root.len() == 0 || root.last() == '/' || path[root.len() as int] == '/'))
}

fn is_letter(c: char) -> (b: bool)
    ensures
        b == is_ascii_letter(c),
{
    ('a' <= c && c <= 'z') || ('A' <= c && c <= 'Z')
}

/// Decides [`is_absolute_reference`].
pub fn is_absolute(reference: &str) -> (b: bool)
    ensures
        b == is_absolute_reference(reference@),
{
    let cs = chars_of(reference);
    if cs.len() >= 1 && cs[0] == '/' {
        return true;
    }
    if cs.len() >= 2 {
        if is_letter(cs[0]) && cs[1] == ':' {
            return true;
        }
        if cs[0] == '\\' && cs[1] == '\\' {
            return true;
        }
    }
    false
}

fn trimmed_length(cs: &Vec<char>, len: usize) -> (n: usize)
    requires
        len <= cs.len(),
    ensures
        n == trimmed_len(cs@.subrange(0, len as int)),
        n <= len,
{
    let mut n = len;
    while n > 0 && cs[n - 1] == '/'
        invariant
            n <= len <= cs.len(),
            trimmed_len(cs@.subrange(0, n as int)) == trimmed_len(cs@.subrange(0, len as int)),
        decreases n,
    {
        assert(cs@.subrange(0, n as int).drop_last() =~= cs@.subrange(0, n - 1));
        n = n - 1;
    }
    n
}

fn last_separator_before(cs: &Vec<char>, len: usize) -> (r: Option<usize>)
    requires
        len <= cs.len(),
    ensures
        match r {
            Some(k) => k == last_separator(cs@.subrange(0, len as int)) && k < len,
            None => last_separator(cs@.subrange(0, len as int)) == -1,
        },
{
    let mut n = len;
    while n > 0
        invariant
            n <= len <= cs.len(),
            last_separator(cs@.subrange(0, n as int)) == last_separator(
                cs@.subrange(0, len as int),
            ),
        decreases n,
    {
        if cs[n - 1] == '/' {
            return Some(n - 1);
        }
        assert(cs@.subrange(0, n as int).drop_last() =~= cs@.subrange(0, n - 1));
        n = n - 1;
    }
    None
}

/// Computes [`parent_dir`].
pub fn parent_of(path: &str) -> (r: Option<String>)
    ensures
        match r {
            Some(dir) => parent_dir(path@) == Some(dir@),
            None => parent_dir(path@) is None,
        },
{
    let cs = chars_of(path);
    assert(cs@.subrange(0, cs.len() as int) =~= cs@);
    let body_len = trimmed_length(&cs, cs.len());
    if body_len == 0 {
        return None;
    }
    let ghost body = cs@.subrange(0, body_len as int);
    match last_separator_before(&cs, body_len) {
        None => Some(String::new()),
        Some(cut) => {
            assert(body.subrange(0, cut as int) =~= cs@.subrange(0, cut as int));
            let dir_len = trimmed_length(&cs, cut);
            assert(body.subrange(0, dir_len as int) =~= cs@.subrange(0, dir_len as int));
            if dir_len == 0 {
                proof {
                    reveal_strlit("/");
                }
                let r = String::from_str("/");
                assert(r@ =~= seq!['/']);
                Some(r)
            } else {
                Some(path.substring_char(0, dir_len).to_owned())
            }
        },
    }
}

/// Computes [`base_directory`].
pub fn base_directory_of(base_file: &str, root: &str) -> (dir: String)
    ensures
        dir@ == base_directory(base_file@, root@),
{
    match parent_of(base_file) {
        Some(dir) => dir,
        None => root.to_owned(),
    }
}

/// Computes [`joined`].
pub fn join(base: &str, reference: &str) -> (r: String)
    ensures
        r@ == joined(base@, reference@),
{
    let cs = chars_of(base);
    let mut r = base.to_owned();
    if cs.len() > 0 && cs[cs.len() - 1] != '/' {
        proof {
            reveal_strlit("/");
        }
        r.append("/");
        assert("/"@ =~= seq!['/']);
    }
    r.append(reference);
    assert(r@ =~= joined(base@, reference@));
    r
}

/// Decides [`within`].
pub fn is_within(path: &str, root: &str) -> (b: bool)
    ensures
        b == within(path@, root@),
{
    let p = chars_of(path);
    let r = chars_of(root);
    if p.len() < r.len() {
        return false;
    }
    let mut i: usize = 0;
    while i < r.len()
        invariant
            i <= r.len() <= p.len(),
            p@ == path@,
            r@ == root@,
            p@.subrange(0, i as int) == r@.subrange(0, i as int),
        decreases r.len() - i,
    {
        if p[i] != r[i] {
            proof {
                let head = p@.subrange(0, r.len() as int);
                assert(head[i as int] == p@[i as int]);
                assert(head != r@);
                assert(p@ != r@);
            }
            return false;
        }
        assert(p@.subrange(0, i + 1) =~= p@.subrange(0, i as int).push(p@[i as int]));
        assert(r@.subrange(0, i + 1) =~= r@.subrange(0, i as int).push(r@[i as int]));
        i = i + 1;
    }
    assert(r@.subrange(0, r.len() as int) =~= r@);
    if p.len() == r.len() {
        assert(p@.subrange(0, p.len() as int) =~= p@);
        return true;
    }
    r.len() == 0 || r[r.len() - 1] == '/' || p[r.len()] == '/'
}

} // verus!
