//! Adding a node on a new last line.

use vstd::prelude::*;
use vstd::string::*;
use super::show::{node_line, render_node_line};
use crate::error::CommandError;
use crate::mindmap::{max_id, Mindmap, MindmapView};
use crate::node::{extract_refs_from_str, refs_in, Node, NodeView};

verus! {

/// The mindmap after `add`: a node with the next free id stands on a new last line.
pub open spec fn added(
    mm: MindmapView,
    type_prefix: Seq<char>,
    title: Seq<char>,
    desc: Seq<char>,
) -> MindmapView {
    let id = (max_id(mm.nodes) + 1) as u32;
    let full_title = type_prefix + ": "@ + title;
    mm.with_node_added(
        node_line(id, full_title, desc),
        NodeView {
            id,
            raw_title: full_title,
            description: desc,
            references: refs_in(desc, Some(id)),
            line_index: mm.lines.len() as usize,
        },
    )
}

/// Adds a node with the next free id, the title `type_prefix: title` and the
/// description `desc`, on a new last line. Returns the id.
pub fn cmd_add(mm: &mut Mindmap, type_prefix: &str, title: &str, desc: &str) -> (r: Result<
    u32,
    CommandError,
>)
    requires
        old(mm).wf(),
        max_id(old(mm)@.nodes) < u32::MAX,
    ensures
        r matches Ok(id) && id == max_id(old(mm)@.nodes) + 1,
        final(mm)@ == added(old(mm)@, type_prefix@, title@, desc@),
        final(mm).wf(),
{
    let id = mm.next_id();
    let mut full_title = type_prefix.to_owned();
    full_title.append(": ");
    full_title.append(title);
    let line = render_node_line(id, full_title.as_str(), desc);
    let ghost before = mm@;
    let ghost line_text = line@;
    mm.lines.push(line);
    let line_index = mm.lines.len() - 1;
    let references = extract_refs_from_str(desc, Some(id));
    let node = Node { id, raw_title: full_title, description: desc.to_owned(), references, line_index };
    let ghost node_view = node@;
    mm.by_id.insert(id, mm.nodes.len());
    mm.nodes.push(node);
    proof {
        assert(mm@.lines =~= before.lines.push(line_text));
        assert(mm@.nodes =~= before.nodes.push(node_view));
        assert(mm@.nodes.drop_last() =~= before.nodes);
        assert(full_title@ =~= type_prefix@ + ": "@ + title@);
    }
    Ok(id)
}

} // verus!
