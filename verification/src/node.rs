//! Nodes and their references: the one-line format `[id] **title** - description`.

use vstd::prelude::*;
use vstd::string::*;
use crate::text::{
    all_digits, chars_of, find, find_char, first_match, has_at, is_digit, lemma_first_match,
    matches_at, parse_u32, parse_u32_at, skip_spaces, slice_chars, string_from, trim_start,
    NumberError,
};

verus! {

/// A reference from a node's description to another node.
#[derive(Debug, Clone, PartialEq)]
pub enum Reference {
    /// `[id]`: a node of the same file.
    Internal(u32),
    /// `[id](path)`: a node of the file at the relative path.
    External(u32, String),
}

/// The mathematical content of a [`Reference`].
pub enum ReferenceView {
    Internal(u32),
    External(u32, Seq<char>),
}

impl View for Reference {
    type V = ReferenceView;

    open spec fn view(&self) -> ReferenceView {
        match self {
            Reference::Internal(id) => ReferenceView::Internal(*id),
            Reference::External(id, path) => ReferenceView::External(*id, path@),
        }
    }
}

/// The contents of a vector of references.
pub open spec fn ref_views(v: Seq<Reference>) -> Seq<ReferenceView> {
    Seq::new(v.len(), |i: int| v[i]@)
}

/// One node: a line of the file in the node format.
#[derive(Debug, Clone)]
pub struct Node {
    pub id: u32,
    pub raw_title: String,
    pub description: String,
    pub references: Vec<Reference>,
    pub line_index: usize,
}

/// The mathematical content of a [`Node`].
pub struct NodeView {
    pub id: u32,
    pub raw_title: Seq<char>,
    pub description: Seq<char>,
    pub references: Seq<ReferenceView>,
    pub line_index: usize,
}

impl View for Node {
    type V = NodeView;

    open spec fn view(&self) -> NodeView {
        NodeView {
            id: self.id,
            raw_title: self.raw_title@,
            description: self.description@,
            references: ref_views(self.references@),
            line_index: self.line_index,
        }
    }
}

/// The contents of a vector of nodes.
pub open spec fn node_views(v: Seq<Node>) -> Seq<NodeView> {
    Seq::new(v.len(), |i: int| v[i]@)
}

/// Why a line is not a node.
#[derive(Debug, Clone, Copy, PartialEq, Eq, Structural)]
pub enum LineError {
    /// The line does not have the shape `[id] **title** - description`.
    Format,
    /// What stands between the brackets is not the numeral of a `u32`.
    Id(NumberError),
}

/// The id that the text between two brackets refers to: the text is one or
/// more digits, their number fits a `u32`, and it is not the id to skip.
pub open spec fn ref_id(text: Seq<char>, skip: Option<u32>) -> Option<u32> {
    if text.len() > 0 && all_digits(text) {
        match parse_u32(text) {
            Ok(id) => if skip == Some(id) {
                None
            } else {
                Some(id)
            },
            Err(_) => None,
        }
    } else {
        None
    }
}

/// Where the path of an external reference ends: the index of the first `)`
/// after a `](` at index `close`, if both are there.
pub open spec fn path_end(s: Seq<char>, close: int) -> Option<int> {
    if matches_at(s, seq![']', '('], close) {
        first_match(s, seq![')'], close)
    } else {
        None
    }
}

/// The references that `s` holds from index `from` on, in the order in which
/// they stand. Scanning goes from one `[` to the next `]`: where a valid id
/// stands between them, it is a reference, external if `(path)` follows at
/// once; scanning goes on behind what was read, and ends at a `[` that is
/// never closed.
pub open spec fn refs_from(s: Seq<char>, from: int, skip: Option<u32>) -> Seq<ReferenceView>
    decreases s.len() - from,
{
    if from < 0 || from >= s.len() {
        Seq::empty()
    } else {
        match first_match(s, seq!['['], from) {
            None => Seq::empty(),
            Some(open) => match first_match(s, seq![']'], open) {
                None => Seq::empty(),
                Some(close) => {
                    proof {
                        lemma_first_match(s, seq!['['], from);
                        lemma_first_match(s, seq![']'], open);
                        lemma_first_match(s, seq![')'], close);
                    }
                    match ref_id(s.subrange(open + 1, close), skip) {
                        None => refs_from(s, close + 1, skip),
                        Some(id) => match path_end(s, close) {
                            Some(end) => seq![
                                ReferenceView::External(id, s.subrange(close + 2, end)),
                            ] + refs_from(s, end + 1, skip),
                            None => seq![ReferenceView::Internal(id)] + refs_from(
                                s,
                                close + 1,
                                skip,
                            ),
                        },
                    }
                },
            },
        }
    }
}

/// The references in the description `s`, without those to the node `skip` itself.
pub open spec fn refs_in(s: Seq<char>, skip: Option<u32>) -> Seq<ReferenceView> {
    refs_from(s, 0, skip)
}

/// The node that `line` denotes, at the given line index.
///
/// After leading white space the line reads `[`, a numeral, `] **`, the
/// title up to the next `**`, ` - `, and the description to the end of the
/// line.
pub open spec fn node_of_line(line: Seq<char>, line_index: usize) -> Result<NodeView, LineError> {
    let t = trim_start(line);
    if !(t.len() > 0 && t[0] == '[') {
        Err(LineError::Format)
    } else {
        match first_match(t, seq![']'], 0) {
            None => Err(LineError::Format),
            Some(close) => match parse_u32(t.subrange(1, close)) {
                Err(e) => Err(LineError::Id(e)),
                Ok(id) => if !matches_at(t, seq![' ', '*', '*'], close + 1) {
                    Err(LineError::Format)
                } else {
                    match first_match(t, seq!['*', '*'], close + 4) {
                        None => Err(LineError::Format),
                        Some(star) => if !matches_at(t, seq![' ', '-', ' '], star + 2) {
                            Err(LineError::Format)
                        } else {
                            let description = t.subrange(star + 5, t.len() as int);
                            Ok(
                                NodeView {
                                    id,
                                    raw_title: t.subrange(close + 4, star),
                                    description,
                                    references: refs_in(description, Some(id)),
                                    line_index,
                                },
                            )
                        },
                    }
                },
            },
        }
    }
}

/// Whether `line` is a node.
pub open spec fn is_node_line(line: Seq<char>) -> bool {
    node_of_line(line, 0) is Ok
}

fn all_digits_at(cs: &Vec<char>, from: usize, to: usize) -> (b: bool)
    requires
        from <= to <= cs.len(),
    ensures
        b == all_digits(cs@.subrange(from as int, to as int)),
{
    let ghost s = cs@.subrange(from as int, to as int);
    let mut i = from;
    while i < to
        invariant
            from <= i <= to <= cs.len(),
            s == cs@.subrange(from as int, to as int),
            forall|j: int| 0 <= j < i - from ==> is_digit(#[trigger] s[j]),
        decreases to - i,
    {
        let c = cs[i];
        if !('0' <= c && c <= '9') {
            assert(!is_digit(s[i - from]));
            return false;
        }
        i = i + 1;
    }
    true
}

fn ref_id_at(cs: &Vec<char>, from: usize, to: usize, skip: Option<u32>) -> (r: Option<u32>)
    requires
        from <= to <= cs.len(),
    ensures
        r == ref_id(cs@.subrange(from as int, to as int), skip),
{
    if from == to || !all_digits_at(cs, from, to) {
        return None;
    }
    match parse_u32_at(cs, from, to) {
        Ok(id) => {
            match skip {
                Some(own) => if own == id {
                    None
                } else {
                    Some(id)
                },
                None => Some(id),
            }
        },
        Err(_) => None,
    }
}

/// Computes [`refs_in`] on a vector of characters.
pub fn refs_of_chars(cs: &Vec<char>, skip: Option<u32>) -> (refs: Vec<Reference>)
    ensures
        ref_views(refs@) == refs_in(cs@, skip),
{
    let mut refs: Vec<Reference> = Vec::new();
    let mut i: usize = 0;
    let link: Vec<char> = vec![']', '('];
    assert(link@ =~= seq![']', '(']);
    assert(ref_views(refs@) =~= Seq::<ReferenceView>::empty());
    while i < cs.len()
        invariant
            link@ == seq![']', '('],
            ref_views(refs@) + refs_from(cs@, i as int, skip) == refs_in(cs@, skip),
        decreases cs.len() - i,
    {
        let ghost done = ref_views(refs@);
        let open = match find_char(cs, '[', i) {
            Some(open) => open,
            None => {
                assert(done + Seq::<ReferenceView>::empty() =~= done);
                return refs;
            },
        };
        let close = match find_char(cs, ']', open) {
            Some(close) => close,
            None => {
                assert(done + Seq::<ReferenceView>::empty() =~= done);
                return refs;
            },
        };
        match ref_id_at(cs, open + 1, close, skip) {
            None => {
                i = close + 1;
            },
            Some(id) => {
                let end = if has_at(cs, &link, close) {
                    find_char(cs, ')', close)
                } else {
                    None
                };
                match end {
                    Some(end) => {
                        proof {
                            lemma_first_match(cs@, seq![')'], close as int);
                            assert(cs@.subrange(close as int, close + 2)[1] == '(');
                        }
                        let path = string_from(cs, close + 2, end);
                        refs.push(Reference::External(id, path));
                        assert(ref_views(refs@) =~= done + seq![
                            ReferenceView::External(
                                id,
                                cs@.subrange(close + 2, end as int),
                            ),
                        ]);
                        assert(ref_views(refs@) + refs_from(cs@, end + 1, skip) =~= done
                            + refs_from(cs@, i as int, skip));
                        i = end + 1;
                    },
                    None => {
                        refs.push(Reference::Internal(id));
                        assert(ref_views(refs@) =~= done + seq![ReferenceView::Internal(id)]);
                        assert(ref_views(refs@) + refs_from(cs@, close + 1, skip) =~= done
                            + refs_from(cs@, i as int, skip));
                        i = close + 1;
                    },
                }
            },
        }
    }
    assert(ref_views(refs@) + Seq::<ReferenceView>::empty() =~= ref_views(refs@));
    refs
}

/// The references in the description `s`, in the order in which they stand;
/// those to the node `skip_self` itself are left out.
pub fn extract_refs_from_str(s: &str, skip_self: Option<u32>) -> (refs: Vec<Reference>)
    ensures
        ref_views(refs@) == refs_in(s@, skip_self),
{
    let cs = chars_of(s);
    refs_of_chars(&cs, skip_self)
}

/// Computes [`node_of_line`] on a vector of characters.
pub fn parse_node_chars(cs: &Vec<char>, line_index: usize) -> (r: Result<Node, LineError>)
    ensures
        match r {
            Ok(node) => node_of_line(cs@, line_index) == Ok::<NodeView, LineError>(node@),
            Err(e) => node_of_line(cs@, line_index) == Err::<NodeView, LineError>(e),
        },
{
    assert(cs@.subrange(0, cs.len() as int) =~= cs@);
    let skip = skip_spaces(cs, 0, cs.len());
    let t = slice_chars(cs, skip, cs.len());
    assert(t@ == trim_start(cs@));
    if !(t.len() > 0 && t[0] == '[') {
        return Err(LineError::Format);
    }
    let close = match find_char(&t, ']', 0) {
        Some(close) => close,
        None => {
            return Err(LineError::Format);
        },
    };
    proof {
        lemma_first_match(t@, seq![']'], 0);
    }
    let id = match parse_u32_at(&t, 1, close) {
        Ok(id) => id,
        Err(e) => {
            return Err(LineError::Id(e));
        },
    };
    let opening: Vec<char> = vec![' ', '*', '*'];
    assert(opening@ =~= seq![' ', '*', '*']);
    if !has_at(&t, &opening, close + 1) {
        return Err(LineError::Format);
    }
    let stars: Vec<char> = vec!['*', '*'];
    assert(stars@ =~= seq!['*', '*']);
    let star = match find(&t, &stars, close + 4) {
        Some(star) => star,
        None => {
            return Err(LineError::Format);
        },
    };
    let dash: Vec<char> = vec![' ', '-', ' '];
    assert(dash@ =~= seq![' ', '-', ' ']);
    if !has_at(&t, &dash, star + 2) {
        return Err(LineError::Format);
    }
    let raw_title = string_from(&t, close + 4, star);
    let description_chars = slice_chars(&t, star + 5, t.len());
    let description = string_from(&t, star + 5, t.len());
    let references = refs_of_chars(&description_chars, Some(id));
    Ok(Node { id, raw_title, description, references, line_index })
}

/// Reads `line` as a node at the given line index.
pub fn parse_node_line(line: &str, line_index: usize) -> (r: Result<Node, LineError>)
    ensures
        match r {
            Ok(node) => node_of_line(line@, line_index) == Ok::<NodeView, LineError>(node@),
            Err(e) => node_of_line(line@, line_index) == Err::<NodeView, LineError>(e),
        },
{
    let cs = chars_of(line);
    parse_node_chars(&cs, line_index)
}

} // verus!
