//! Marking a node: as deprecated, or as to be verified.

use vstd::prelude::*;
use vstd::string::*;
use super::replace::lemma_replace_keeps_wf;
use super::show::{node_line, render_node_line};
use crate::error::{CommandError, CommandErrorView};
use crate::mindmap::{lemma_id_index, Mindmap, MindmapView};
use crate::node::NodeView;
use crate::text::{chars_of, contains_text, decimal, find, has_at, push_decimal, starts_with};

verus! {

/// The raw title of a deprecated node: the old one behind a mark that names
/// the node to use in its place.
pub open spec fn deprecated_title(raw_title: Seq<char>, to: u32) -> Seq<char> {
    "[DEPRECATED → "@ + decimal(to as nat) + "] "@ + raw_title
}

/// What `deprecate` does. A node whose title already begins with
/// `[DEPRECATED` stays as it is.
pub open spec fn deprecate_outcome(mm: MindmapView, id: u32, to: u32) -> Result<
    MindmapView,
    CommandErrorView,
> {
    match mm.node(id) {
        None => Err(CommandErrorView::NodeNotFound { id }),
        Some(node) => if starts_with(node.raw_title, "[DEPRECATED"@) {
            Ok(mm)
        } else {
            let raw_title = deprecated_title(node.raw_title, to);
            Ok(
                mm.with_node_replaced(
                    mm.by_id[id] as int,
                    node_line(node.id, raw_title, node.description),
                    NodeView { raw_title, ..node },
                ),
            )
        },
    }
}

/// Marks the node `id` as deprecated in favour of the node `to`.
pub fn cmd_deprecate(mm: &mut Mindmap, id: u32, to: u32) -> (r: Result<(), CommandError>)
    requires
        old(mm).wf(),
    ensures
        match r {
            Ok(_) => deprecate_outcome(old(mm)@, id, to) == Ok::<MindmapView, CommandErrorView>(
                final(mm)@,
            ),
            Err(e) => deprecate_outcome(old(mm)@, id, to) == Err::<MindmapView, CommandErrorView>(
                e@,
            ) && final(mm)@ == old(mm)@,
        },
        final(mm).wf(),
{
    proof {
        assert(mm@.nodes.len() == mm.nodes.len());
        lemma_id_index(mm@.nodes, id);
    }
    let idx = match mm.by_id.get(&id) {
        Some(idx) => *idx,
        None => {
            return Err(CommandError::NodeNotFound { id });
        },
    };
    let title = chars_of(mm.nodes[idx].raw_title.as_str());
    let mark = chars_of("[DEPRECATED");
    if has_at(&title, &mark, 0) {
        return Ok(());
    }
    let mut raw_title = String::from_str("[DEPRECATED → ");
    push_decimal(&mut raw_title, to as u64);
    raw_title.append("] ");
    raw_title.append(mm.nodes[idx].raw_title.as_str());
    let line = render_node_line(id, raw_title.as_str(), mm.nodes[idx].description.as_str());
    let line_index = mm.nodes[idx].line_index;
    let ghost before = mm@;
    let ghost line_text = line@;
    let ghost new_node = NodeView { raw_title: raw_title@, ..before.nodes[idx as int] };
    proof {
        lemma_replace_keeps_wf(before, idx as int, line_text, new_node);
    }
    mm.lines[line_index] = line;
    mm.nodes[idx].raw_title = raw_title;
    proof {
        assert(mm@.lines =~= before.lines.update(line_index as int, line_text));
        assert(mm@.nodes =~= before.nodes.update(idx as int, new_node));
    }
    Ok(())
}

/// The description of a node marked for verification on `date`.
pub open spec fn verify_description(description: Seq<char>, date: Seq<char>) -> Seq<char> {
    let tag = "(verify "@ + date + ")"@;
    if description.len() == 0 {
        tag
    } else {
        description + " "@ + tag
    }
}

/// What marking for verification on `date` does. A node whose description
/// already holds `(verify ` stays as it is.
pub open spec fn verify_outcome(mm: MindmapView, id: u32, date: Seq<char>) -> Result<
    MindmapView,
    CommandErrorView,
> {
    match mm.node(id) {
        None => Err(CommandErrorView::NodeNotFound { id }),
        Some(node) => if contains_text(node.description, "(verify "@) {
            Ok(mm)
        } else {
            let description = verify_description(node.description, date);
            Ok(
                mm.with_node_replaced(
                    mm.by_id[id] as int,
                    node_line(node.id, node.raw_title, description),
                    NodeView { description, ..node },
                ),
            )
        },
    }
}

/// Marks the node `id` as to be verified, with the date `date`.
pub fn cmd_verify_on(mm: &mut Mindmap, id: u32, date: &str) -> (r: Result<(), CommandError>)
    requires
        old(mm).wf(),
    ensures
        match r {
            Ok(_) => verify_outcome(old(mm)@, id, date@) == Ok::<MindmapView, CommandErrorView>(
                final(mm)@,
            ),
            Err(e) => verify_outcome(old(mm)@, id, date@) == Err::<MindmapView, CommandErrorView>(
                e@,
            ) && final(mm)@ == old(mm)@,
        },
        final(mm).wf(),
{
    proof {
        assert(mm@.nodes.len() == mm.nodes.len());
        lemma_id_index(mm@.nodes, id);
    }
    let idx = match mm.by_id.get(&id) {
        Some(idx) => *idx,
        None => {
            return Err(CommandError::NodeNotFound { id });
        },
    };
    let old_description = chars_of(mm.nodes[idx].description.as_str());
    let mark = chars_of("(verify ");
    if find(&old_description, &mark, 0).is_some() {
        return Ok(());
    }
    let mut description = mm.nodes[idx].description.clone();
    if old_description.len() > 0 {
        description.append(" ");
    }
    description.append("(verify ");
    description.append(date);
    description.append(")");
    assert(description@ =~= verify_description(mm@.nodes[idx as int].description, date@));
    let line = render_node_line(id, mm.nodes[idx].raw_title.as_str(), description.as_str());
    let line_index = mm.nodes[idx].line_index;
    let ghost before = mm@;
    let ghost line_text = line@;
    let ghost new_node = NodeView { description: description@, ..before.nodes[idx as int] };
    proof {
        lemma_replace_keeps_wf(before, idx as int, line_text, new_node);
    }
    mm.lines[line_index] = line;
    mm.nodes[idx].description = description;
    proof {
        assert(mm@.lines =~= before.lines.update(line_index as int, line_text));
        assert(mm@.nodes =~= before.nodes.update(idx as int, new_node));
    }
    Ok(())
}

/// Marks the node `id` as to be verified, with today's date.
pub fn cmd_verify(mm: &mut Mindmap, id: u32) -> (r: Result<(), CommandError>)
    requires
        old(mm).wf(),
    ensures
        exists|date: Seq<char>|
            match r {
                Ok(_) => #[trigger] verify_outcome(old(mm)@, id, date) == Ok::<
                    MindmapView,
                    CommandErrorView,
                >(final(mm)@),
                Err(e) => #[trigger] verify_outcome(old(mm)@, id, date) == Err::<
                    MindmapView,
                    CommandErrorView,
                >(e@) && final(mm)@ == old(mm)@,
            },
        final(mm).wf(),
{
    let date = crate::clock::today();
    let r = cmd_verify_on(mm, id, date.as_str());
    proof {
        let witness = date@;
        assert(match r {
            Ok(_) => verify_outcome(old(mm)@, id, witness) == Ok::<MindmapView, CommandErrorView>(
                mm@,
            ),
            Err(e) => verify_outcome(old(mm)@, id, witness) == Err::<
                MindmapView,
                CommandErrorView,
            >(e@) && mm@ == old(mm)@,
        });
    }
    r
}

} // verus!
