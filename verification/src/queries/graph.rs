//! The neighbourhood of a node as a graph in the DOT language.

use vstd::prelude::*;
use vstd::string::*;
use crate::commands::refers_to;
use crate::error::{CommandError, CommandErrorView};
use crate::mindmap::{Mindmap, MindmapView};
use crate::node::{Node, NodeView, Reference, ReferenceView};
use crate::text::{chars_of, decimal, push_decimal};

verus! {

/// `ids`, with `id` at the end unless it is there already.
pub open spec fn with_id(ids: Seq<u32>, id: u32) -> Seq<u32> {
    if ids.contains(id) {
        ids
    } else {
        ids.push(id)
    }
}

/// `ids`, with the targets of the first `k` references that stay in the file.
pub open spec fn with_targets(ids: Seq<u32>, refs: Seq<ReferenceView>, k: int) -> Seq<u32>
    decreases k,
{
    if k <= 0 {
        ids
    } else {
        match refs[k - 1] {
            ReferenceView::Internal(target) => with_id(with_targets(ids, refs, k - 1), target),
            ReferenceView::External(_, _) => with_targets(ids, refs, k - 1),
        }
    }
}

/// `ids`, with those of the first `n` nodes that refer to the node `id`.
pub open spec fn with_referrers(ids: Seq<u32>, nodes: Seq<NodeView>, id: u32, n: int) -> Seq<u32>
    decreases n,
{
    if n <= 0 {
        ids
    } else if refers_to(nodes[n - 1], id) {
        with_id(with_referrers(ids, nodes, id, n - 1), nodes[n - 1].id)
    } else {
        with_referrers(ids, nodes, id, n - 1)
    }
}

/// The neighbourhood of the node `node`: itself, then the nodes it refers
/// to, then the nodes that refer to it; each id once, where it comes first.
pub open spec fn neighbourhood(mm: MindmapView, node: NodeView) -> Seq<u32> {
    with_referrers(
        with_targets(seq![node.id], node.references, node.references.len() as int),
        mm.nodes,
        node.id,
        mm.nodes.len() as int,
    )
}

/// `s` with a backslash before every double quote.
pub open spec fn escaped(s: Seq<char>) -> Seq<char>
    decreases s.len(),
{
    if s.len() == 0 {
        Seq::empty()
    } else if s.last() == '"' {
        escaped(s.drop_last()) + seq!['\\', '"']
    } else {
        escaped(s.drop_last()).push(s.last())
    }
}

/// The line that declares the node `id` in a graph, if there is such a node.
pub open spec fn label_line(mm: MindmapView, id: u32) -> Seq<char> {
    match mm.node(id) {
        Some(node) => "  "@ + decimal(id as nat) + " [label=\""@ + decimal(node.id as nat) + ": "@
            + escaped(node.raw_title) + "\"];\n"@,
        None => Seq::empty(),
    }
}

/// The lines that declare the first `n` nodes of `hood`.
pub open spec fn label_lines(mm: MindmapView, hood: Seq<u32>, n: int) -> Seq<char>
    decreases n,
{
    if n <= 0 {
        Seq::empty()
    } else {
        label_lines(mm, hood, n - 1) + label_line(mm, hood[n - 1])
    }
}

/// The edges from the node `from` along the first `k` references, to nodes of `hood` only.
pub open spec fn edges_of(hood: Seq<u32>, from: u32, refs: Seq<ReferenceView>, k: int) -> Seq<char>
    decreases k,
{
    if k <= 0 {
        Seq::empty()
    } else {
        match refs[k - 1] {
            ReferenceView::Internal(target) => if hood.contains(target) {
                edges_of(hood, from, refs, k - 1) + "  "@ + decimal(from as nat) + " -> "@
                    + decimal(target as nat) + ";\n"@
            } else {
                edges_of(hood, from, refs, k - 1)
            },
            ReferenceView::External(_, _) => edges_of(hood, from, refs, k - 1),
        }
    }
}

/// The edges from the first `n` nodes of `hood`.
pub open spec fn edge_lines(mm: MindmapView, hood: Seq<u32>, n: int) -> Seq<char>
    decreases n,
{
    if n <= 0 {
        Seq::empty()
    } else {
        edge_lines(mm, hood, n - 1) + match mm.node(hood[n - 1]) {
            Some(node) => edges_of(
                hood,
                hood[n - 1],
                node.references,
                node.references.len() as int,
            ),
            None => Seq::empty(),
        }
    }
}

/// The neighbourhood of a node as a graph in the DOT language.
pub open spec fn graph_text(mm: MindmapView, node: NodeView) -> Seq<char> {
    let hood = neighbourhood(mm, node);
    "digraph {\n"@ + "  rankdir=LR;\n"@ + label_lines(mm, hood, hood.len() as int) + edge_lines(
        mm,
        hood,
        hood.len() as int,
    ) + "}\n"@
}

fn contains_id(ids: &Vec<u32>, id: u32) -> (b: bool)
    ensures
        b == ids@.contains(id),
{
    let mut i: usize = 0;
    while i < ids.len()
        invariant
            i <= ids.len(),
            forall|j: int| 0 <= j < i ==> ids@[j] != id,
        decreases ids.len() - i,
    {
        if ids[i] == id {
            return true;
        }
        i = i + 1;
    }
    false
}

fn push_id(ids: &mut Vec<u32>, id: u32)
    ensures
        final(ids)@ == with_id(old(ids)@, id),
{
    if !contains_id(ids, id) {
        ids.push(id);
    }
}

fn push_escaped(out: &mut String, s: &str)
    ensures
        final(out)@ == old(out)@ + escaped(s@),
{
    let cs = chars_of(s);
    let mut i: usize = 0;
    assert(cs@.subrange(0, 0) =~= Seq::<char>::empty());
    while i < cs.len()
        invariant
            i <= cs.len(),
            out@ == old(out)@ + escaped(cs@.subrange(0, i as int)),
        decreases cs.len() - i,
    {
        let ghost upto = cs@.subrange(0, i + 1);
        assert(upto.drop_last() =~= cs@.subrange(0, i as int));
        if cs[i] == '"' {
            out.push('\\');
            out.push('"');
        } else {
            out.push(cs[i]);
        }
        assert(out@ =~= old(out)@ + escaped(upto));
        i = i + 1;
    }
    assert(cs@.subrange(0, i as int) =~= cs@);
}

fn neighbourhood_of(mm: &Mindmap, node: &Node) -> (hood: Vec<u32>)
    ensures
        hood@ == neighbourhood(mm@, node@),
{
    let mut hood: Vec<u32> = Vec::new();
    hood.push(node.id);
    assert(hood@ =~= seq![node.id]);
    let mut k: usize = 0;
    while k < node.references.len()
        invariant
            k <= node.references.len(),
            hood@ == with_targets(seq![node.id], node@.references, k as int),
        decreases node.references.len() - k,
    {
        assert(node@.references[k as int] == node.references@[k as int]@);
        match &node.references[k] {
            Reference::Internal(target) => {
                push_id(&mut hood, *target);
            },
            Reference::External(_, _) => {},
        }
        k = k + 1;
    }
    let ghost start = hood@;
    let mut i: usize = 0;
    while i < mm.nodes.len()
        invariant
            i <= mm.nodes.len(),
            hood@ == with_referrers(start, mm@.nodes, node.id, i as int),
        decreases mm.nodes.len() - i,
    {
        if crate::commands::node_refers_to(&mm.nodes[i], node.id) {
            push_id(&mut hood, mm.nodes[i].id);
        }
        i = i + 1;
    }
    hood
}

/// The neighbourhood of the node `id` as a graph in the DOT language: the
/// node, the nodes it refers to and the nodes that refer to it, with the
/// references among them as edges.
pub fn cmd_graph(mm: &Mindmap, id: u32) -> (r: Result<String, CommandError>)
    requires
        mm.wf(),
    ensures
        match r {
            Ok(dot) => mm@.node(id) matches Some(node) && dot@ == graph_text(mm@, node),
            Err(e) => mm@.node(id) is None && e@ == (CommandErrorView::NotInGraph { id }),
        },
{
    let node = match mm.get_node(id) {
        Some(node) => node,
        None => {
            return Err(CommandError::NotInGraph { id });
        },
    };
    let hood = neighbourhood_of(mm, node);
    let mut dot = String::from_str("digraph {\n");
    dot.append("  rankdir=LR;\n");
    let ghost head = dot@;
    let mut i: usize = 0;
    while i < hood.len()
        invariant
            i <= hood.len(),
            mm.wf(),
            dot@ == head + label_lines(mm@, hood@, i as int),
        decreases hood.len() - i,
    {
        match mm.get_node(hood[i]) {
            Some(member) => {
                dot.append("  ");
                push_decimal(&mut dot, hood[i] as u64);
                dot.append(" [label=\"");
                push_decimal(&mut dot, member.id as u64);
                dot.append(": ");
                push_escaped(&mut dot, member.raw_title.as_str());
                dot.append("\"];\n");
            },
            None => {},
        }
        assert(dot@ =~= head + label_lines(mm@, hood@, i + 1));
        i = i + 1;
    }
    let ghost labelled = dot@;
    let mut i: usize = 0;
    while i < hood.len()
        invariant
            i <= hood.len(),
            mm.wf(),
            dot@ == labelled + edge_lines(mm@, hood@, i as int),
        decreases hood.len() - i,
    {
        let ghost before = dot@;
        match mm.get_node(hood[i]) {
            Some(member) => {
                let mut k: usize = 0;
                while k < member.references.len()
                    invariant
                        k <= member.references.len(),
                        i < hood.len(),
                        dot@ == before + edges_of(hood@, hood@[i as int], member@.references, k as int),
                    decreases member.references.len() - k,
                {
                    assert(member@.references[k as int] == member.references@[k as int]@);
                    match &member.references[k] {
                        Reference::Internal(target) => {
                            if contains_id(&hood, *target) {
                                dot.append("  ");
                                push_decimal(&mut dot, hood[i] as u64);
                                dot.append(" -> ");
                                push_decimal(&mut dot, *target as u64);
                                dot.append(";\n");
                            }
                        },
                        Reference::External(_, _) => {},
                    }
                    assert(dot@ =~= before + edges_of(
                        hood@,
                        hood@[i as int],
                        member@.references,
                        k + 1,
                    ));
                    k = k + 1;
                }
            },
            None => {},
        }
        assert(dot@ =~= labelled + edge_lines(mm@, hood@, i + 1));
        i = i + 1;
    }
    dot.append("}\n");
    assert(dot@ =~= graph_text(mm@, node@));
    Ok(dot)
}

} // verus!
