//! Nodes that nothing refers to and that refer to nothing.

use std::collections::HashSet;
use vstd::prelude::*;
use vstd::string::*;
use crate::commands::{node_line, refers_to, render_node_line};
use crate::error::CommandError;
use crate::mindmap::{Mindmap, MindmapView};
use crate::node::{NodeView, Reference, ReferenceView};
use crate::text::{chars_of, decimal, decimal_string, has_at, starts_with, texts, uppercase};

verus! {

/// Whether some node refers to the node `id`.
pub open spec fn is_referenced(nodes: Seq<NodeView>, id: u32) -> bool {
    exists|i: int| 0 <= i < nodes.len() && refers_to(#[trigger] nodes[i], id)
}

/// Whether a node is an orphan: no node refers to it, it refers to nothing,
/// and its title does not begin with `META`, in whatever case.
pub open spec fn is_orphan(nodes: Seq<NodeView>, node: NodeView) -> bool {
    &&& !is_referenced(nodes, node.id)
    &&& node.references.len() == 0
    &&& !starts_with(uppercase(node.raw_title), "META"@)
}

/// How an orphan is listed: with its whole line, or with its id alone.
pub open spec fn orphan_entry(node: NodeView, with_descriptions: bool) -> Seq<char> {
    if with_descriptions {
        node_line(node.id, node.raw_title, node.description)
    } else {
        decimal(node.id as nat)
    }
}

/// The entries for the orphans among the first `n` nodes.
pub open spec fn orphans_upto(nodes: Seq<NodeView>, with_descriptions: bool, n: int) -> Seq<
    Seq<char>,
>
    decreases n,
{
    if n <= 0 {
        Seq::empty()
    } else if is_orphan(nodes, nodes[n - 1]) {
        orphans_upto(nodes, with_descriptions, n - 1).push(
            orphan_entry(nodes[n - 1], with_descriptions),
        )
    } else {
        orphans_upto(nodes, with_descriptions, n - 1)
    }
}

/// What `orphans` lists: the orphans in file order, or the one line `No orphans`.
pub open spec fn orphans_text(mm: MindmapView, with_descriptions: bool) -> Seq<Seq<char>> {
    let found = orphans_upto(mm.nodes, with_descriptions, mm.nodes.len() as int);
    if found.len() == 0 {
        seq!["No orphans"@]
    } else {
        found
    }
}

/// Whether one of the first `k` references leads to the node `id` of the same file.
pub open spec fn targeted_among(refs: Seq<ReferenceView>, k: int, id: u32) -> bool {
    exists|j: int| 0 <= j < k && #[trigger] refs[j] == ReferenceView::Internal(id)
}

fn referenced_ids(mm: &Mindmap) -> (targets: HashSet<u32>)
    ensures
        forall|id: u32| targets@.contains(id) <==> is_referenced(mm@.nodes, id),
{
    let mut targets: HashSet<u32> = HashSet::new();
    let mut i: usize = 0;
    let ghost nodes = mm@.nodes;
    while i < mm.nodes.len()
        invariant
            i <= mm.nodes.len(),
            nodes == mm@.nodes,
            nodes.len() == mm.nodes.len(),
            forall|id: u32|
                targets@.contains(id) <==> is_referenced(nodes.subrange(0, i as int), id),
        decreases mm.nodes.len() - i,
    {
        let node = &mm.nodes[i];
        let ghost before = targets@;
        let mut k: usize = 0;
        while k < node.references.len()
            invariant
                k <= node.references.len(),
                i < nodes.len(),
                node@ == nodes[i as int],
                forall|id: u32|
                    #[trigger] targets@.contains(id) <==> (before.contains(id) || targeted_among(
                        node@.references,
                        k as int,
                        id,
                    )),
            decreases node.references.len() - k,
        {
            assert(node@.references[k as int] == node.references@[k as int]@);
            let ghost earlier = targets@;
            match &node.references[k] {
                Reference::Internal(target) => {
                    targets.insert(*target);
                },
                Reference::External(_, _) => {},
            }
            proof {
                let refs = node@.references;
                assert forall|id: u32| #[trigger]
                    targets@.contains(id) <==> (before.contains(id) || targeted_among(
                        refs,
                        k + 1,
                        id,
                    )) by {
                    assert(earlier.contains(id) <==> (before.contains(id) || targeted_among(
                        refs,
                        k as int,
                        id,
                    )));
                    if targeted_among(refs, k + 1, id) {
                        let j = choose|j: int|
                            0 <= j < k + 1 && #[trigger] refs[j] == ReferenceView::Internal(id);
                        if j < k {
                            assert(targeted_among(refs, k as int, id));
                        }
                    }
                    if targeted_among(refs, k as int, id) {
                        let j = choose|j: int|
                            0 <= j < k && #[trigger] refs[j] == ReferenceView::Internal(id);
                        assert(0 <= j < k + 1 && refs[j] == ReferenceView::Internal(id));
                    }
                    if targets@.contains(id) && !earlier.contains(id) {
                        assert(refs[k as int] == ReferenceView::Internal(id));
                    }
                }
            }
            k = k + 1;
        }
        proof {
            let upto = nodes.subrange(0, i as int);
            let next = nodes.subrange(0, i + 1);
            assert forall|id: u32| targets@.contains(id) <==> is_referenced(next, id) by {
                if is_referenced(next, id) {
                    let w = choose|w: int| 0 <= w < next.len() && refers_to(#[trigger] next[w], id);
                    if w < i {
                        assert(upto[w] == next[w]);
                        assert(is_referenced(upto, id));
                    } else {
                        assert(next[w] == node@);
                    }
                }
                if before.contains(id) {
                    let w = choose|w: int| 0 <= w < upto.len() && refers_to(#[trigger] upto[w], id);
                    assert(next[w] == upto[w]);
                }
                if refers_to(node@, id) {
                    assert(next[i as int] == node@);
                }
            }
        }
        i = i + 1;
    }
    assert(nodes.subrange(0, i as int) =~= nodes);
    targets
}

/// The orphans of a mindmap: see [`is_orphan`] and [`orphans_text`].
pub fn cmd_orphans(mm: &Mindmap, with_descriptions: bool) -> (r: Result<
    Vec<String>,
    CommandError,
>)
    ensures
        r matches Ok(out) && texts(out@) == orphans_text(mm@, with_descriptions),
{
    let targets = referenced_ids(mm);
    let meta = chars_of("META");
    let mut out: Vec<String> = Vec::new();
    let mut i: usize = 0;
    let ghost nodes = mm@.nodes;
    assert(texts(out@) =~= orphans_upto(nodes, with_descriptions, 0));
    while i < mm.nodes.len()
        invariant
            i <= mm.nodes.len(),
            nodes == mm@.nodes,
            nodes.len() == mm.nodes.len(),
            meta@ == "META"@,
            forall|id: u32| targets@.contains(id) <==> is_referenced(nodes, id),
            texts(out@) == orphans_upto(nodes, with_descriptions, i as int),
        decreases mm.nodes.len() - i,
    {
        let node = &mm.nodes[i];
        assert(nodes[i as int] == node@);
        let upper = chars_of(node.raw_title.as_str().to_uppercase().as_str());
        if !targets.contains(&node.id) && node.references.len() == 0 && !has_at(&upper, &meta, 0) {
            let ghost before = texts(out@);
            let entry = if with_descriptions {
                render_node_line(node.id, node.raw_title.as_str(), node.description.as_str())
            } else {
                decimal_string(node.id as u64)
            };
            out.push(entry);
            assert(texts(out@) =~= before.push(orphan_entry(node@, with_descriptions)));
        }
        i = i + 1;
    }
    if out.len() == 0 {
        let mut none: Vec<String> = Vec::new();
        none.push(String::from_str("No orphans"));
        assert(texts(none@) =~= seq!["No orphans"@]);
        return Ok(none);
    }
    Ok(out)
}

} // verus!
