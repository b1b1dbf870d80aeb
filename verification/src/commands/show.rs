//! Showing a node, the nodes that refer to it, and the nodes it refers to.

use vstd::prelude::*;
use vstd::string::*;
use crate::error::{CommandError, CommandErrorView};
use crate::mindmap::{Mindmap, MindmapView};
use crate::node::{ref_views, Node, NodeView, Reference, ReferenceView};
use crate::text::{decimal, push_decimal, texts};

verus! {

/// The line that shows a node: `[id] **title** - description`.
pub open spec fn node_line(id: u32, raw_title: Seq<char>, description: Seq<char>) -> Seq<char> {
    "["@ + decimal(id as nat) + "] **"@ + raw_title + "** - "@ + description
}

/// Builds [`node_line`].
pub fn render_node_line(id: u32, raw_title: &str, description: &str) -> (line: String)
    ensures
        line@ == node_line(id, raw_title@, description@),
{
    let mut line = String::from_str("[");
    push_decimal(&mut line, id as u64);
    line.append("] **");
    line.append(raw_title);
    line.append("** - ");
    line.append(description);
    line
}

/// The decimal numerals of `ids[..n]`, with `, ` between them.
pub open spec fn id_items(ids: Seq<u32>, n: int) -> Seq<char>
    decreases n,
{
    if n <= 0 {
        Seq::empty()
    } else if n == 1 {
        decimal(ids[0] as nat)
    } else {
        id_items(ids, n - 1) + ", "@ + decimal(ids[n - 1] as nat)
    }
}

/// A list of ids as text: `[1, 2, 3]`.
pub open spec fn id_list(ids: Seq<u32>) -> Seq<char> {
    "["@ + id_items(ids, ids.len() as int) + "]"@
}

/// Appends [`id_list`] to `out`.
pub fn push_id_list(out: &mut String, ids: &Vec<u32>)
    ensures
        final(out)@ == old(out)@ + id_list(ids@),
{
    out.append("[");
    let mut i: usize = 0;
    while i < ids.len()
        invariant
            i <= ids.len(),
            out@ == old(out)@ + "["@ + id_items(ids@, i as int),
        decreases ids.len() - i,
    {
        if i > 0 {
            out.append(", ");
        }
        push_decimal(out, ids[i] as u64);
        assert(out@ =~= old(out)@ + "["@ + id_items(ids@, i + 1));
        i = i + 1;
    }
    out.append("]");
    assert(out@ =~= old(out)@ + id_list(ids@));
}

/// A copy of a reference.
pub fn clone_reference(r: &Reference) -> (copy: Reference)
    ensures
        copy@ == r@,
{
    match r {
        Reference::Internal(id) => Reference::Internal(*id),
        Reference::External(id, path) => Reference::External(*id, path.clone()),
    }
}

/// A copy of a list of references.
pub fn clone_references(refs: &Vec<Reference>) -> (copy: Vec<Reference>)
    ensures
        ref_views(copy@) == ref_views(refs@),
{
    let mut copy: Vec<Reference> = Vec::new();
    let mut i: usize = 0;
    while i < refs.len()
        invariant
            i <= refs.len(),
            ref_views(copy@) == ref_views(refs@).subrange(0, i as int),
        decreases refs.len() - i,
    {
        let ghost before = ref_views(copy@);
        copy.push(clone_reference(&refs[i]));
        assert(ref_views(copy@) =~= before.push(refs@[i as int]@));
        assert(ref_views(copy@) =~= ref_views(refs@).subrange(0, i + 1));
        i = i + 1;
    }
    assert(ref_views(refs@).subrange(0, i as int) =~= ref_views(refs@));
    copy
}

/// Whether `node` refers to the node `id` of its own file.
pub open spec fn refers_to(node: NodeView, id: u32) -> bool {
    exists|k: int|
        0 <= k < node.references.len() && #[trigger] node.references[k]
            == ReferenceView::Internal(id)
}

/// Decides [`refers_to`].
pub fn node_refers_to(node: &Node, id: u32) -> (b: bool)
    ensures
        b == refers_to(node@, id),
{
    let mut k: usize = 0;
    while k < node.references.len()
        invariant
            k <= node.references.len(),
            forall|j: int|
                0 <= j < k ==> #[trigger] node@.references[j] != ReferenceView::Internal(id),
        decreases node.references.len() - k,
    {
        match &node.references[k] {
            Reference::Internal(target) => {
                if *target == id {
                    assert(node@.references[k as int] == ReferenceView::Internal(id));
                    return true;
                }
            },
            Reference::External(_, _) => {},
        }
        assert(node@.references[k as int] == node.references@[k as int]@);
        k = k + 1;
    }
    false
}

/// The ids of those among the first `n` nodes that refer to the node `id`.
pub open spec fn referrers_upto(nodes: Seq<NodeView>, id: u32, n: int) -> Seq<u32>
    decreases n,
{
    if n <= 0 {
        Seq::empty()
    } else if refers_to(nodes[n - 1], id) {
        referrers_upto(nodes, id, n - 1).push(nodes[n - 1].id)
    } else {
        referrers_upto(nodes, id, n - 1)
    }
}

/// The ids of the nodes that refer to the node `id`, in file order.
pub open spec fn referrers(nodes: Seq<NodeView>, id: u32) -> Seq<u32> {
    referrers_upto(nodes, id, nodes.len() as int)
}

/// Computes [`referrers`].
pub fn referrers_of(mm: &Mindmap, id: u32) -> (ids: Vec<u32>)
    ensures
        ids@ == referrers(mm@.nodes, id),
{
    let mut ids: Vec<u32> = Vec::new();
    let mut i: usize = 0;
    while i < mm.nodes.len()
        invariant
            i <= mm.nodes.len(),
            ids@ == referrers_upto(mm@.nodes, id, i as int),
        decreases mm.nodes.len() - i,
    {
        if node_refers_to(&mm.nodes[i], id) {
            ids.push(mm.nodes[i].id);
        }
        i = i + 1;
    }
    ids
}

/// What `show` says of the node `id`: its line, and below it the nodes that
/// refer to it if there are any; or that there is no such node.
pub open spec fn show_text(mm: MindmapView, id: u32) -> Seq<char> {
    match mm.node(id) {
        Some(node) => {
            let line = node_line(node.id, node.raw_title, node.description);
            if referrers(mm.nodes, id).len() > 0 {
                line + "\nReferred to by: "@ + id_list(referrers(mm.nodes, id))
            } else {
                line
            }
        },
        None => "Node ["@ + decimal(id as nat) + "] not found"@,
    }
}

/// Shows the node `id` with the nodes that refer to it.
pub fn cmd_show(mm: &Mindmap, id: u32) -> (out: String)
    requires
        mm.wf(),
    ensures
        out@ == show_text(mm@, id),
{
    match mm.get_node(id) {
        Some(node) => {
            let mut out = render_node_line(node.id, node.raw_title.as_str(), node.description.as_str());
            let inbound = referrers_of(mm, id);
            if inbound.len() > 0 {
                out.append("\nReferred to by: ");
                push_id_list(&mut out, &inbound);
            }
            out
        },
        None => {
            let mut out = String::from_str("Node [");
            push_decimal(&mut out, id as u64);
            out.append("] not found");
            out
        },
    }
}

/// The lines of those among the first `n` nodes that refer to the node `id`.
pub open spec fn referrer_lines_upto(nodes: Seq<NodeView>, id: u32, n: int) -> Seq<Seq<char>>
    decreases n,
{
    if n <= 0 {
        Seq::empty()
    } else if refers_to(nodes[n - 1], id) {
        referrer_lines_upto(nodes, id, n - 1).push(
            node_line(nodes[n - 1].id, nodes[n - 1].raw_title, nodes[n - 1].description),
        )
    } else {
        referrer_lines_upto(nodes, id, n - 1)
    }
}

/// The lines of the nodes that refer to the node `id`, in file order.
pub fn cmd_refs(mm: &Mindmap, id: u32) -> (out: Vec<String>)
    ensures
        texts(out@) == referrer_lines_upto(mm@.nodes, id, mm@.nodes.len() as int),
{
    let mut out: Vec<String> = Vec::new();
    let mut i: usize = 0;
    assert(texts(out@) =~= referrer_lines_upto(mm@.nodes, id, 0));
    while i < mm.nodes.len()
        invariant
            i <= mm.nodes.len(),
            texts(out@) == referrer_lines_upto(mm@.nodes, id, i as int),
        decreases mm.nodes.len() - i,
    {
        let node = &mm.nodes[i];
        if node_refers_to(node, id) {
            let ghost before = texts(out@);
            let line = render_node_line(node.id, node.raw_title.as_str(), node.description.as_str());
            out.push(line);
            assert(texts(out@) =~= before.push(line@));
        }
        i = i + 1;
    }
    out
}

/// The references of the node `id`, if there is such a node.
pub fn cmd_links(mm: &Mindmap, id: u32) -> (out: Option<Vec<Reference>>)
    requires
        mm.wf(),
    ensures
        match out {
            Some(refs) => mm@.node(id) matches Some(node) && ref_views(refs@) == node.references,
            None => mm@.node(id) is None,
        },
{
    match mm.get_node(id) {
        Some(node) => Some(clone_references(&node.references)),
        None => None,
    }
}

/// The nodes that refer to the node `id`, and the references of that node.
pub fn cmd_relationships(mm: &Mindmap, id: u32) -> (r: Result<
    (Vec<u32>, Vec<Reference>),
    CommandError,
>)
    requires
        mm.wf(),
    ensures
        match r {
            Ok((incoming, outgoing)) => {
                &&& mm@.node(id) matches Some(node) && ref_views(outgoing@) == node.references
                &&& incoming@ == referrers(mm@.nodes, id)
            },
            Err(e) => mm@.node(id) is None && e@ == (CommandErrorView::NodeNotFound { id }),
        },
{
    match mm.get_node(id) {
        None => Err(CommandError::NodeNotFound { id }),
        Some(node) => {
            let incoming = referrers_of(mm, id);
            let outgoing = clone_references(&node.references);
            Ok((incoming, outgoing))
        },
    }
}

} // verus!
