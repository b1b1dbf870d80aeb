//! Removing a node and its line.

use vstd::prelude::*;
use vstd::string::*;
use super::show::{referrers, referrers_of};
use crate::error::{CommandError, CommandErrorView};
use crate::mindmap::{id_index, lemma_id_index, Mindmap, MindmapView};
use crate::node::NodeView;

verus! {

/// The nodes after the line `line` was taken out: a node below that line is
/// one line further up.
pub open spec fn moved_up(nodes: Seq<NodeView>, line: usize) -> Seq<NodeView> {
    Seq::new(
        nodes.len(),
        |i: int|
            if nodes[i].line_index > line {
                NodeView { line_index: (nodes[i].line_index - 1) as usize, ..nodes[i] }
            } else {
                nodes[i]
            },
    )
}

impl MindmapView {
    /// This mindmap without the node at position `at` and without its line.
    pub open spec fn without_node(self, at: int) -> MindmapView {
        let line = self.nodes[at].line_index;
        let nodes = moved_up(self.nodes.remove(at), line);
        MindmapView {
            lines: self.lines.remove(line as int),
            nodes,
            by_id: id_index(nodes),
            ..self
        }
    }
}

/// What `delete` does: the error that refuses it, or the mindmap afterwards.
pub open spec fn delete_outcome(mm: MindmapView, id: u32, force: bool) -> Result<
    MindmapView,
    CommandErrorView,
> {
    match mm.node(id) {
        None => Err(CommandErrorView::NodeNotFound { id }),
        Some(_) => if referrers(mm.nodes, id).len() > 0 && !force {
            Err(CommandErrorView::Referenced { id, by: referrers(mm.nodes, id) })
        } else {
            Ok(mm.without_node(mm.by_id[id] as int))
        },
    }
}

/// Taking a node out with its line keeps a mindmap well formed.
pub proof fn lemma_without_node_wf(mm: MindmapView, at: int)
    requires
        mm.wf(),
        0 <= at < mm.nodes.len(),
    ensures
        mm.without_node(at).wf(),
{
    let after = mm.without_node(at);
    let line = mm.nodes[at].line_index;
    assert(mm.nodes[at].line_index < mm.lines.len());
    let old_of = |i: int| if i < at { i } else { i + 1 };
    assert forall|i: int| 0 <= i < after.nodes.len() implies (#[trigger] after.nodes[i]).line_index
        < after.lines.len() by {
        let o = old_of(i);
        assert(mm.nodes.remove(at)[i] == mm.nodes[o]);
        assert(mm.nodes[o].line_index < mm.lines.len());
        if o < at {
            assert(mm.nodes[o].line_index < mm.nodes[at].line_index);
        }
    }
    assert forall|i: int, j: int| 0 <= i < j < after.nodes.len() implies (
    #[trigger] after.nodes[i]).line_index < (#[trigger] after.nodes[j]).line_index by {
        let oi = old_of(i);
        let oj = old_of(j);
        assert(mm.nodes.remove(at)[i] == mm.nodes[oi]);
        assert(mm.nodes.remove(at)[j] == mm.nodes[oj]);
        assert(mm.nodes[oi].line_index < mm.nodes[oj].line_index);
        if oi < at {
            assert(mm.nodes[oi].line_index < mm.nodes[at].line_index);
        }
        if oj > at {
            assert(mm.nodes[at].line_index < mm.nodes[oj].line_index);
        }
        if oi > at {
            assert(mm.nodes[at].line_index < mm.nodes[oi].line_index);
        }
    }
}

/// Removes the node `id` and its line. Where other nodes refer to it, this
/// is refused unless `force` is set.
pub fn cmd_delete(mm: &mut Mindmap, id: u32, force: bool) -> (r: Result<(), CommandError>)
    requires
        old(mm).wf(),
    ensures
        match r {
            Ok(_) => delete_outcome(old(mm)@, id, force) == Ok::<MindmapView, CommandErrorView>(
                final(mm)@,
            ),
            Err(e) => delete_outcome(old(mm)@, id, force) == Err::<MindmapView, CommandErrorView>(
                e@,
            ) && final(mm)@ == old(mm)@,
        },
        final(mm).wf(),
{
    proof {
        assert(mm@.nodes.len() == mm.nodes.len());
        lemma_id_index(mm@.nodes, id);
    }
    let idx = match mm.by_id.get(&id) {
        Some(idx) => *idx,
        None => {
            return Err(CommandError::NodeNotFound { id });
        },
    };
    let incoming = referrers_of(mm, id);
    if incoming.len() > 0 && !force {
        return Err(CommandError::Referenced { id, by: incoming });
    }
    let ghost before = mm@;
    proof {
        lemma_without_node_wf(before, idx as int);
    }
    let line_idx = mm.nodes[idx].line_index;
    mm.lines.remove(line_idx);
    mm.nodes.remove(idx);
    mm.by_id.clear();
    let ghost removed = before.nodes.remove(idx as int);
    let ghost target = moved_up(removed, line_idx);
    proof {
        assert(mm@.lines =~= before.lines.remove(line_idx as int));
        assert(mm@.nodes =~= removed);
    }
    let mut i: usize = 0;
    while i < mm.nodes.len()
        invariant
            i <= mm.nodes.len(),
            mm.nodes.len() == removed.len(),
            target == moved_up(removed, line_idx),
            0 <= line_idx < before.lines.len(),
            mm@.lines == before.lines.remove(line_idx as int),
            mm@.path == before.path,
            forall|j: int| 0 <= j < i ==> (#[trigger] mm@.nodes[j]) == target[j],
            forall|j: int| i <= j < removed.len() ==> (#[trigger] mm@.nodes[j]) == removed[j],
            mm.by_id@ == id_index(target.subrange(0, i as int)),
        decreases mm.nodes.len() - i,
    {
        let ghost nodes_before = mm@.nodes;
        assert(nodes_before[i as int] == removed[i as int]);
        if mm.nodes[i].line_index > line_idx {
            let moved = mm.nodes[i].line_index - 1;
            mm.nodes[i].line_index = moved;
        }
        let node_id = mm.nodes[i].id;
        mm.by_id.insert(node_id, i);
        proof {
            assert(mm@.nodes[i as int] == target[i as int]);
            assert forall|j: int| 0 <= j < i + 1 implies (#[trigger] mm@.nodes[j]) == target[j] by {
                if j < i {
                    assert(mm@.nodes[j] == nodes_before[j]);
                }
            }
            assert forall|j: int| i + 1 <= j < removed.len() implies (#[trigger] mm@.nodes[j])
                == removed[j] by {
                assert(mm@.nodes[j] == nodes_before[j]);
            }
            assert(target.subrange(0, i + 1).drop_last() =~= target.subrange(0, i as int));
        }
        i = i + 1;
    }
    proof {
        assert(target.subrange(0, i as int) =~= target);
        assert(mm@.nodes =~= target);
    }
    Ok(())
}

} // verus!
