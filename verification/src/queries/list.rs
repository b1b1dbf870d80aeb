//! Listings of nodes, filtered by type and by text.

use vstd::prelude::*;
use vstd::string::*;
use crate::commands::{node_line, render_node_line};
use crate::mindmap::{Mindmap, MindmapView};
use crate::node::{Node, NodeView};
use crate::pattern::{regex_accepts, regex_matches, Pattern};
use crate::text::{
    chars_of, contains_text, find, has_at, lowercase, starts_with, text_or_none, texts,
};

verus! {

/// Whether a node passes the type filter: there is none, or the raw title
/// begins with the type and a colon.
pub open spec fn passes_type(node: NodeView, type_filter: Option<Seq<char>>) -> bool {
    match type_filter {
        Some(typ) => starts_with(node.raw_title, typ + seq![':']),
        None => true,
    }
}

/// `s` as it is compared: as it stands, or in lower case where case does not count.
pub open spec fn folded(s: Seq<char>, case_sensitive: bool) -> Seq<char> {
    if case_sensitive {
        s
    } else {
        lowercase(s)
    }
}

/// Whether `text` is the phrase `query`, or holds it between two spaces.
pub open spec fn has_phrase(text: Seq<char>, query: Seq<char>) -> bool {
    text == query || contains_text(text, seq![' '] + query + seq![' '])
}

/// Whether a node passes the text filter `query`: as a regular expression,
/// as an exact phrase, or as a part of the text, in title or description.
pub open spec fn passes_text(
    node: NodeView,
    query: Seq<char>,
    case_sensitive: bool,
    exact_match: bool,
    regex_mode: bool,
) -> bool {
    if regex_mode {
        regex_matches(query, node.raw_title) || regex_matches(query, node.description)
    } else {
        let q = folded(query, case_sensitive);
        let title = folded(node.raw_title, case_sensitive);
        let description = folded(node.description, case_sensitive);
        if exact_match {
            has_phrase(title, q) || has_phrase(description, q)
        } else {
            contains_text(title, q) || contains_text(description, q)
        }
    }
}

/// Whether a node is listed under the given filters.
pub open spec fn is_listed(
    node: NodeView,
    type_filter: Option<Seq<char>>,
    grep: Option<Seq<char>>,
    case_sensitive: bool,
    exact_match: bool,
    regex_mode: bool,
) -> bool {
    passes_type(node, type_filter) && match grep {
        Some(query) => passes_text(node, query, case_sensitive, exact_match, regex_mode),
        None => true,
    }
}

/// The lines of those among the first `n` nodes that are listed.
pub open spec fn listed_upto(
    nodes: Seq<NodeView>,
    type_filter: Option<Seq<char>>,
    grep: Option<Seq<char>>,
    case_sensitive: bool,
    exact_match: bool,
    regex_mode: bool,
    n: int,
) -> Seq<Seq<char>>
    decreases n,
{
    if n <= 0 {
        Seq::empty()
    } else if is_listed(nodes[n - 1], type_filter, grep, case_sensitive, exact_match, regex_mode) {
        listed_upto(nodes, type_filter, grep, case_sensitive, exact_match, regex_mode, n - 1).push(
            node_line(nodes[n - 1].id, nodes[n - 1].raw_title, nodes[n - 1].description),
        )
    } else {
        listed_upto(nodes, type_filter, grep, case_sensitive, exact_match, regex_mode, n - 1)
    }
}

/// What `list` gives: the lines of the nodes that pass the filters, in file
/// order; or, where the text filter is to be a regular expression and is
/// none, the one line `Invalid regex pattern`.
pub open spec fn list_text(
    mm: MindmapView,
    type_filter: Option<Seq<char>>,
    grep: Option<Seq<char>>,
    case_sensitive: bool,
    exact_match: bool,
    regex_mode: bool,
) -> Seq<Seq<char>> {
    if regex_mode && grep is Some && !regex_accepts(grep->Some_0) {
        seq!["Invalid regex pattern"@]
    } else {
        listed_upto(
            mm.nodes,
            type_filter,
            grep,
            case_sensitive,
            exact_match,
            regex_mode,
            mm.nodes.len() as int,
        )
    }
}

fn fold_case(s: &str, case_sensitive: bool) -> (r: String)
    ensures
        r@ == folded(s@, case_sensitive),
{
    if case_sensitive {
        s.to_owned()
    } else {
        s.to_lowercase()
    }
}

fn text_has_phrase(text: &String, query: &String, spaced: &Vec<char>) -> (b: bool)
    requires
        spaced@ == seq![' '] + query@ + seq![' '],
    ensures
        b == has_phrase(text@, query@),
{
    if *text == *query {
        return true;
    }
    let cs = chars_of(text.as_str());
    find(&cs, spaced, 0).is_some()
}

fn node_passes_text(
    node: &Node,
    query: &str,
    compiled: &Option<Pattern>,
    case_sensitive: bool,
    exact_match: bool,
    regex_mode: bool,
) -> (b: bool)
    requires
        regex_mode ==> compiled is Some && compiled->Some_0.source() == query@,
    ensures
        b == passes_text(node@, query@, case_sensitive, exact_match, regex_mode),
{
    if regex_mode {
        match compiled {
            Some(pattern) => pattern.is_match(node.raw_title.as_str()) || pattern.is_match(
                node.description.as_str(),
            ),
            None => false,
        }
    } else {
        let q = fold_case(query, case_sensitive);
        let title = fold_case(node.raw_title.as_str(), case_sensitive);
        let description = fold_case(node.description.as_str(), case_sensitive);
        if exact_match {
            let mut spaced: Vec<char> = Vec::new();
            spaced.push(' ');
            let qs = chars_of(q.as_str());
            let mut i: usize = 0;
            while i < qs.len()
                invariant
                    i <= qs.len(),
                    spaced@ == seq![' '] + qs@.subrange(0, i as int),
                decreases qs.len() - i,
            {
                spaced.push(qs[i]);
                assert(spaced@ =~= seq![' '] + qs@.subrange(0, i + 1));
                i = i + 1;
            }
            spaced.push(' ');
            assert(spaced@ =~= seq![' '] + q@ + seq![' ']) by {
                assert(qs@.subrange(0, qs.len() as int) =~= qs@);
            }
            text_has_phrase(&title, &q, &spaced) || text_has_phrase(&description, &q, &spaced)
        } else {
            let qs = chars_of(q.as_str());
            let ts = chars_of(title.as_str());
            let ds = chars_of(description.as_str());
            find(&ts, &qs, 0).is_some() || find(&ds, &qs, 0).is_some()
        }
    }
}

/// The lines of the nodes that pass the filters; see [`list_text`].
pub fn cmd_list(
    mm: &Mindmap,
    type_filter: Option<&str>,
    grep: Option<&str>,
    case_sensitive: bool,
    exact_match: bool,
    regex_mode: bool,
) -> (out: Vec<String>)
    ensures
        texts(out@) == list_text(
            mm@,
            text_or_none(type_filter),
            text_or_none(grep),
            case_sensitive,
            exact_match,
            regex_mode,
        ),
{
    let mut out: Vec<String> = Vec::new();
    let compiled: Option<Pattern> = match grep {
        Some(query) => if regex_mode {
            match Pattern::compile(query) {
                Some(pattern) => Some(pattern),
                None => {
                    out.push(String::from_str("Invalid regex pattern"));
                    assert(texts(out@) =~= seq!["Invalid regex pattern"@]);
                    return out;
                },
            }
        } else {
            None
        },
        None => None,
    };
    let prefix: Option<Vec<char>> = match type_filter {
        Some(typ) => {
            let mut p = chars_of(typ);
            p.push(':');
            assert(p@ =~= typ@ + seq![':']);
            Some(p)
        },
        None => None,
    };
    let ghost tf = text_or_none(type_filter);
    let ghost gq = text_or_none(grep);
    let mut i: usize = 0;
    assert(texts(out@) =~= listed_upto(
        mm@.nodes,
        tf,
        gq,
        case_sensitive,
        exact_match,
        regex_mode,
        0,
    ));
    while i < mm.nodes.len()
        invariant
            i <= mm.nodes.len(),
            tf == text_or_none(type_filter),
            gq == text_or_none(grep),
            match prefix {
                Some(p) => type_filter matches Some(typ) && p@ == typ@ + seq![':'],
                None => type_filter is None,
            },
            regex_mode && grep is Some ==> compiled is Some && compiled->Some_0.source()
                == grep->Some_0@,
            texts(out@) == listed_upto(
                mm@.nodes,
                tf,
                gq,
                case_sensitive,
                exact_match,
                regex_mode,
                i as int,
            ),
        decreases mm.nodes.len() - i,
    {
        let node = &mm.nodes[i];
        assert(mm@.nodes[i as int] == node@);
        let typed = match &prefix {
            Some(p) => {
                let title = chars_of(node.raw_title.as_str());
                has_at(&title, p, 0)
            },
            None => true,
        };
        let listed = typed && match grep {
            Some(query) => node_passes_text(
                node,
                query,
                &compiled,
                case_sensitive,
                exact_match,
                regex_mode,
            ),
            None => true,
        };
        assert(listed == is_listed(node@, tf, gq, case_sensitive, exact_match, regex_mode));
        if listed {
            let ghost before = texts(out@);
            let line = render_node_line(node.id, node.raw_title.as_str(), node.description.as_str());
            out.push(line);
            assert(texts(out@) =~= before.push(
                node_line(node@.id, node@.raw_title, node@.description),
            ));
        }
        i = i + 1;
    }
    out
}

} // verus!
