//! Replacing a node: the whole line by `put`, parts of it by `patch`.

use vstd::prelude::*;
use vstd::string::*;
use super::show::{node_line, render_node_line};
use crate::error::{CommandError, CommandErrorView, StrictCommand};
use crate::mindmap::{id_index, lemma_id_index, Mindmap, MindmapView};
use crate::node::{node_of_line, parse_node_line, ref_views, NodeView, Reference, ReferenceView};
use crate::text::{chars_of, find_char, first_match, string_of, text_or_none, trim, trim_chars};

verus! {

/// The index depends on the ids alone.
pub proof fn lemma_id_index_of_same_ids(a: Seq<NodeView>, b: Seq<NodeView>)
    requires
        a.len() == b.len(),
        forall|i: int| 0 <= i < a.len() ==> (#[trigger] a[i]).id == b[i].id,
    ensures
        id_index(a) == id_index(b),
    decreases a.len(),
{
    if a.len() > 0 {
        assert(a.last().id == a[a.len() - 1].id);
        assert forall|i: int| 0 <= i < a.drop_last().len() implies (#[trigger] a.drop_last()[i]).id
            == b.drop_last()[i].id by {
            assert(a.drop_last()[i] == a[i]);
        }
        lemma_id_index_of_same_ids(a.drop_last(), b.drop_last());
    }
}

impl MindmapView {
    /// This mindmap with one more line, which is the node `node`.
    pub open spec fn with_node_added(self, line: Seq<char>, node: NodeView) -> MindmapView {
        MindmapView {
            lines: self.lines.push(line),
            nodes: self.nodes.push(node),
            by_id: self.by_id.insert(node.id, self.nodes.len() as usize),
            ..self
        }
    }

    /// This mindmap with the node at position `at` replaced by `node`, and
    /// the line of that node by `line`.
    pub open spec fn with_node_replaced(
        self,
        at: int,
        line: Seq<char>,
        node: NodeView,
    ) -> MindmapView {
        MindmapView {
            lines: self.lines.update(self.nodes[at].line_index as int, line),
            nodes: self.nodes.update(at, node),
            ..self
        }
    }
}

/// The first reference in `refs` to a node of the same file that `by_id` does not know.
pub open spec fn first_missing(refs: Seq<ReferenceView>, by_id: Map<u32, usize>) -> Option<u32>
    decreases refs.len(),
{
    if refs.len() == 0 {
        None
    } else {
        match refs[0] {
            ReferenceView::Internal(target) => if by_id.contains_key(target) {
                first_missing(refs.drop_first(), by_id)
            } else {
                Some(target)
            },
            ReferenceView::External(_, _) => first_missing(refs.drop_first(), by_id),
        }
    }
}

/// Computes [`first_missing`].
pub fn find_missing_reference(mm: &Mindmap, refs: &Vec<Reference>) -> (r: Option<u32>)
    ensures
        r == first_missing(ref_views(refs@), mm@.by_id),
{
    let mut k: usize = 0;
    assert(ref_views(refs@).subrange(0, ref_views(refs@).len() as int) =~= ref_views(refs@));
    while k < refs.len()
        invariant
            k <= refs.len(),
            first_missing(ref_views(refs@).subrange(k as int, refs.len() as int), mm@.by_id)
                == first_missing(ref_views(refs@), mm@.by_id),
        decreases refs.len() - k,
    {
        let ghost rest = ref_views(refs@).subrange(k as int, refs.len() as int);
        assert(rest.drop_first() =~= ref_views(refs@).subrange(k + 1, refs.len() as int));
        assert(rest[0] == refs@[k as int]@);
        match &refs[k] {
            Reference::Internal(target) => {
                if !mm.by_id.contains_key(target) {
                    return Some(*target);
                }
            },
            Reference::External(_, _) => {},
        }
        k = k + 1;
    }
    None
}

/// What `put` does: the error that refuses it, or the mindmap afterwards.
pub open spec fn put_outcome(mm: MindmapView, id: u32, line: Seq<char>, strict: bool) -> Result<
    MindmapView,
    CommandErrorView,
> {
    match mm.node(id) {
        None => Err(CommandErrorView::NodeNotFound { id }),
        Some(node) => match node_of_line(line, node.line_index) {
            Err(e) => Err(CommandErrorView::Line(e)),
            Ok(parsed) => if parsed.id != id {
                Err(CommandErrorView::PutIdMismatch)
            } else {
                match first_missing(parsed.references, mm.by_id) {
                    Some(target) if strict => Err(
                        CommandErrorView::MissingReference { command: StrictCommand::Put, target },
                    ),
                    _ => Ok(mm.with_node_replaced(mm.by_id[id] as int, line, parsed)),
                }
            },
        },
    }
}

/// Replacing a node by one with the same id on the same line keeps a mindmap well formed.
pub proof fn lemma_replace_keeps_wf(mm: MindmapView, at: int, line: Seq<char>, node: NodeView)
    requires
        mm.wf(),
        0 <= at < mm.nodes.len(),
        node.id == mm.nodes[at].id,
        node.line_index == mm.nodes[at].line_index,
    ensures
        mm.with_node_replaced(at, line, node).wf(),
{
    let after = mm.with_node_replaced(at, line, node);
    lemma_id_index_of_same_ids(mm.nodes, after.nodes);
    assert forall|i: int| 0 <= i < after.nodes.len() implies (#[trigger] after.nodes[i]).line_index
        < after.lines.len() by {
        assert(mm.nodes[i].line_index < mm.lines.len());
    }
    assert forall|i: int, j: int| 0 <= i < j < after.nodes.len() implies (
    #[trigger] after.nodes[i]).line_index < (#[trigger] after.nodes[j]).line_index by {
        assert(mm.nodes[i].line_index < mm.nodes[j].line_index);
    }
}

/// Replaces the whole line of the node `id` by `line`, which must be a node
/// with the same id. With `strict`, every node that the new line refers to
/// must exist.
pub fn cmd_put(mm: &mut Mindmap, id: u32, line: &str, strict: bool) -> (r: Result<(), CommandError>)
    requires
        old(mm).wf(),
    ensures
        match r {
            Ok(_) => put_outcome(old(mm)@, id, line@, strict) == Ok::<
                MindmapView,
                CommandErrorView,
            >(final(mm)@),
            Err(e) => put_outcome(old(mm)@, id, line@, strict) == Err::<
                MindmapView,
                CommandErrorView,
            >(e@) && final(mm)@ == old(mm)@,
        },
        final(mm).wf(),
{
    proof {
        assert(mm@.nodes.len() == mm.nodes.len());
        lemma_id_index(mm@.nodes, id);
    }
    let idx = match mm.by_id.get(&id) {
        Some(idx) => *idx,
        None => {
            return Err(CommandError::NodeNotFound { id });
        },
    };
    let line_index = mm.nodes[idx].line_index;
    let parsed = match parse_node_line(line, line_index) {
        Ok(parsed) => parsed,
        Err(e) => {
            return Err(CommandError::Line(e));
        },
    };
    if parsed.id != id {
        return Err(CommandError::PutIdMismatch);
    }
    if strict {
        match find_missing_reference(mm, &parsed.references) {
            Some(target) => {
                return Err(
                    CommandError::MissingReference { command: StrictCommand::Put, target },
                );
            },
            None => {},
        }
    }
    let ghost before = mm@;
    let ghost parsed_view = parsed@;
    proof {
        lemma_replace_keeps_wf(before, idx as int, line@, parsed_view);
    }
    mm.lines[line_index] = line.to_owned();
    mm.nodes[idx] = parsed;
    proof {
        assert(mm@.lines =~= before.lines.update(line_index as int, line@));
        assert(mm@.nodes =~= before.nodes.update(idx as int, parsed_view));
    }
    Ok(())
}

/// The type that a raw title begins with, if it holds a colon: what stands
/// before the first colon, trimmed.
pub open spec fn title_type(raw_title: Seq<char>) -> Option<Seq<char>> {
    match first_match(raw_title, seq![':'], 0) {
        Some(colon) => Some(trim(raw_title.subrange(0, colon))),
        None => None,
    }
}

/// The title proper of a raw title: what stands behind the first colon,
/// trimmed; all of it where it holds no colon.
pub open spec fn title_proper(raw_title: Seq<char>) -> Seq<char> {
    match first_match(raw_title, seq![':'], 0) {
        Some(colon) => trim(raw_title.subrange(colon + 1, raw_title.len() as int)),
        None => raw_title,
    }
}

/// A raw title made of a type and a title; an empty type is left out.
pub open spec fn typed_title(typ: Seq<char>, title: Seq<char>) -> Seq<char> {
    if typ.len() == 0 {
        title
    } else {
        typ + ": "@ + title
    }
}

/// The raw title after a patch: type and title, each as given or as it was.
pub open spec fn patched_title(
    raw_title: Seq<char>,
    typ: Option<Seq<char>>,
    title: Option<Seq<char>>,
) -> Seq<char> {
    typed_title(
        match typ {
            Some(typ) => typ,
            None => match title_type(raw_title) {
                Some(typ) => typ,
                None => Seq::empty(),
            },
        },
        match title {
            Some(title) => title,
            None => title_proper(raw_title),
        },
    )
}

/// The line that a patch builds for the node, before it is read back.
pub open spec fn patched_line(
    node: NodeView,
    typ: Option<Seq<char>>,
    title: Option<Seq<char>>,
    desc: Option<Seq<char>>,
) -> Seq<char> {
    node_line(
        node.id,
        patched_title(node.raw_title, typ, title),
        match desc {
            Some(desc) => desc,
            None => node.description,
        },
    )
}

/// What `patch` does: the error that refuses it, or the mindmap afterwards.
/// The new line is built from the parts and read back as a node, and it is
/// what was read back that replaces the node.
pub open spec fn patch_outcome(
    mm: MindmapView,
    id: u32,
    typ: Option<Seq<char>>,
    title: Option<Seq<char>>,
    desc: Option<Seq<char>>,
    strict: bool,
) -> Result<MindmapView, CommandErrorView> {
    match mm.node(id) {
        None => Err(CommandErrorView::NodeNotFound { id }),
        Some(node) => {
            let line = patched_line(node, typ, title, desc);
            match node_of_line(line, node.line_index) {
                Err(e) => Err(CommandErrorView::Line(e)),
                Ok(parsed) => if parsed.id != id {
                    Err(CommandErrorView::PatchIdMismatch)
                } else {
                    match first_missing(parsed.references, mm.by_id) {
                        Some(target) if strict => Err(
                            CommandErrorView::MissingReference {
                                command: StrictCommand::Patch,
                                target,
                            },
                        ),
                        _ => Ok(mm.with_node_replaced(mm.by_id[id] as int, line, parsed)),
                    }
                },
            }
        },
    }
}

fn build_patched_title(raw_title: &str, typ: Option<&str>, title: Option<&str>) -> (r: String)
    ensures
        r@ == patched_title(raw_title@, text_or_none(typ), text_or_none(title)),
{
    let raw = chars_of(raw_title);
    let colon = find_char(&raw, ':', 0);
    let new_type: String = match typ {
        Some(typ) => typ.to_owned(),
        None => match colon {
            Some(colon) => string_of(&trim_chars(&raw, 0, colon)),
            None => String::new(),
        },
    };
    let new_title: String = match title {
        Some(title) => title.to_owned(),
        None => match colon {
            Some(colon) => string_of(&trim_chars(&raw, colon + 1, raw.len())),
            None => raw_title.to_owned(),
        },
    };
    if new_type.as_str().is_empty() {
        new_title
    } else {
        let mut r = new_type;
        r.append(": ");
        r.append(new_title.as_str());
        r
    }
}

/// Replaces type, title and description of the node `id`, each where one is
/// given. With `strict`, every node that the new text refers to must exist.
pub fn cmd_patch(
    mm: &mut Mindmap,
    id: u32,
    typ: Option<&str>,
    title: Option<&str>,
    desc: Option<&str>,
    strict: bool,
) -> (r: Result<(), CommandError>)
    requires
        old(mm).wf(),
    ensures
        match r {
            Ok(_) => patch_outcome(
                old(mm)@,
                id,
                text_or_none(typ),
                text_or_none(title),
                text_or_none(desc),
                strict,
            ) == Ok::<MindmapView, CommandErrorView>(final(mm)@),
            Err(e) => patch_outcome(
                old(mm)@,
                id,
                text_or_none(typ),
                text_or_none(title),
                text_or_none(desc),
                strict,
            ) == Err::<MindmapView, CommandErrorView>(e@) && final(mm)@ == old(mm)@,
        },
        final(mm).wf(),
{
    proof {
        assert(mm@.nodes.len() == mm.nodes.len());
        lemma_id_index(mm@.nodes, id);
    }
    let idx = match mm.by_id.get(&id) {
        Some(idx) => *idx,
        None => {
            return Err(CommandError::NodeNotFound { id });
        },
    };
    let line_index = mm.nodes[idx].line_index;
    let new_title = build_patched_title(mm.nodes[idx].raw_title.as_str(), typ, title);
    let new_line = match desc {
        Some(desc) => render_node_line(id, new_title.as_str(), desc),
        None => render_node_line(id, new_title.as_str(), mm.nodes[idx].description.as_str()),
    };
    let parsed = match parse_node_line(new_line.as_str(), line_index) {
        Ok(parsed) => parsed,
        Err(e) => {
            return Err(CommandError::Line(e));
        },
    };
    if parsed.id != id {
        return Err(CommandError::PatchIdMismatch);
    }
    if strict {
        match find_missing_reference(mm, &parsed.references) {
            Some(target) => {
                return Err(
                    CommandError::MissingReference { command: StrictCommand::Patch, target },
                );
            },
            None => {},
        }
    }
    let ghost before = mm@;
    let ghost parsed_view = parsed@;
    let ghost line_text = new_line@;
    proof {
        lemma_replace_keeps_wf(before, idx as int, line_text, parsed_view);
    }
    mm.lines[line_index] = new_line;
    mm.nodes[idx] = parsed;
    proof {
        assert(mm@.lines =~= before.lines.update(line_index as int, line_text));
        assert(mm@.nodes =~= before.nodes.update(idx as int, parsed_view));
    }
    Ok(())
}

} // verus!
