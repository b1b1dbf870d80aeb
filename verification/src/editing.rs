//! Commands that pass through an editor, and writing a mindmap back.
//!
//! The editor and the file are the caller's: it hands in a function that
//! shows a text for editing and gives the edited text back, or one that
//! writes a text to a path. What is asked of them, and what is done with
//! each answer, is decided here.

use vstd::prelude::*;
use vstd::string::*;
use crate::commands::{
    find_missing_reference, first_missing, lemma_replace_keeps_wf, node_line, render_node_line,
};
use crate::error::{CommandError, CommandErrorView, StrictCommand};
use crate::fixes::{normalized, render_lines, saved_text};
use crate::mindmap::{lemma_id_index, max_id, Mindmap, MindmapView};
use crate::node::{node_of_line, parse_node_chars};
use crate::text::{
    chars_of, decimal, lines_of, push_decimal, split_lines, string_of, texts, trim, trim_chars,
};

verus! {

/// The line that the editor is opened with for a new node with the id `id`.
pub open spec fn add_template(id: u32) -> Seq<char> {
    "["@ + decimal(id as nat) + "] **TYPE: Title** - description"@
}

/// Those among the first `n` lines that are not blank, each trimmed.
pub open spec fn written_lines(lines: Seq<Seq<char>>, n: int) -> Seq<Seq<char>>
    decreases n,
{
    if n <= 0 {
        Seq::empty()
    } else if trim(lines[n - 1]).len() == 0 {
        written_lines(lines, n - 1)
    } else {
        written_lines(lines, n - 1).push(trim(lines[n - 1]))
    }
}

/// What adding the text that came back from the editor does: the text must
/// hold exactly one line that is not blank, that line must be a node with
/// the id that was offered, and under strict checking every node it refers
/// to must exist; then the node is added on a new last line.
pub open spec fn add_edited_outcome(mm: MindmapView, edited: Seq<char>, strict: bool) -> Result<
    MindmapView,
    CommandErrorView,
> {
    let id = (max_id(mm.nodes) + 1) as u32;
    let written = written_lines(lines_of(edited), lines_of(edited).len() as int);
    if written.len() == 0 {
        Err(CommandErrorView::EditorEmpty)
    } else if written.len() > 1 {
        Err(CommandErrorView::EditorManyLines)
    } else {
        match node_of_line(written[0], mm.lines.len() as usize) {
            Err(e) => Err(CommandErrorView::Line(e)),
            Ok(parsed) => if parsed.id != id {
                Err(CommandErrorView::AddIdMismatch { expected: id })
            } else {
                match first_missing(parsed.references, mm.by_id) {
                    Some(target) if strict => Err(
                        CommandErrorView::MissingReference { command: StrictCommand::Add, target },
                    ),
                    _ => Ok(mm.with_node_added(written[0], parsed)),
                }
            },
        }
    }
}

fn written_lines_of(text: &str) -> (written: Vec<Vec<char>>)
    ensures
        Seq::new(written@.len(), |i: int| written@[i]@) == written_lines(
            lines_of(text@),
            lines_of(text@).len() as int,
        ),
{
    let lines = split_lines(text);
    let ghost all = texts(lines@);
    let mut written: Vec<Vec<char>> = Vec::new();
    let mut i: usize = 0;
    assert(Seq::new(written@.len(), |i: int| written@[i]@) =~= written_lines(all, 0));
    while i < lines.len()
        invariant
            i <= lines.len(),
            all == texts(lines@),
            Seq::new(written@.len(), |i: int| written@[i]@) == written_lines(all, i as int),
        decreases lines.len() - i,
    {
        let cs = chars_of(lines[i].as_str());
        assert(cs@.subrange(0, cs.len() as int) =~= cs@);
        assert(all[i as int] == cs@);
        let trimmed = trim_chars(&cs, 0, cs.len());
        if trimmed.len() > 0 {
            let ghost before = Seq::new(written@.len(), |i: int| written@[i]@);
            let ghost line = trimmed@;
            written.push(trimmed);
            assert(Seq::new(written@.len(), |i: int| written@[i]@) =~= before.push(line));
        }
        i = i + 1;
    }
    written
}

/// Adds the node that the text from the editor holds; see [`add_edited_outcome`].
pub fn add_edited_line(mm: &mut Mindmap, edited: &str, strict: bool) -> (r: Result<
    u32,
    CommandError,
>)
    requires
        old(mm).wf(),
        max_id(old(mm)@.nodes) < u32::MAX,
    ensures
        final(mm).wf(),
        match r {
            Ok(id) => id == max_id(old(mm)@.nodes) + 1 && add_edited_outcome(
                old(mm)@,
                edited@,
                strict,
            ) == Ok::<MindmapView, CommandErrorView>(final(mm)@),
            Err(e) => add_edited_outcome(old(mm)@, edited@, strict) == Err::<
                MindmapView,
                CommandErrorView,
            >(e@) && final(mm)@ == old(mm)@,
        },
{
    let id = mm.next_id();
    let written = written_lines_of(edited);
    let ghost lines = Seq::new(written@.len(), |i: int| written@[i]@);
    if written.len() == 0 {
        return Err(CommandError::EditorEmpty);
    }
    if written.len() > 1 {
        return Err(CommandError::EditorManyLines);
    }
    assert(lines[0] == written@[0]@);
    let parsed = match parse_node_chars(&written[0], mm.lines.len()) {
        Ok(parsed) => parsed,
        Err(e) => {
            return Err(CommandError::Line(e));
        },
    };
    if parsed.id != id {
        return Err(CommandError::AddIdMismatch { expected: id });
    }
    if strict {
        match find_missing_reference(mm, &parsed.references) {
            Some(target) => {
                return Err(
                    CommandError::MissingReference { command: StrictCommand::Add, target },
                );
            },
            None => {},
        }
    }
    let ghost before = mm@;
    let ghost parsed_view = parsed@;
    let line = string_of(&written[0]);
    mm.lines.push(line);
    mm.by_id.insert(id, mm.nodes.len());
    mm.nodes.push(parsed);
    proof {
        assert(mm@.lines =~= before.lines.push(lines[0]));
        assert(mm@.nodes =~= before.nodes.push(parsed_view));
        assert(mm@.nodes.drop_last() =~= before.nodes);
        assert(mm@ == before.with_node_added(lines[0], parsed_view));
    }
    Ok(id)
}

/// `answer` is what `editor` gave back when it was opened with `shown`.
pub open spec fn editor_answer<E: FnOnce(&str) -> Option<String>>(
    editor: E,
    shown: Seq<char>,
    answer: Option<Seq<char>>,
) -> bool {
    exists|text: &str, given: Option<String>|
        text@ == shown && crate::text::option_text(given) == answer && #[trigger] call_ensures(
            editor,
            (text,),
            given,
        )
}

/// Adds a node that is written in an editor: `editor` is opened with a
/// template that holds the next free id, and what it gives back is added by
/// [`add_edited_line`]. An editor that gives nothing back fails the command.
pub fn cmd_add_editor<E: FnOnce(&str) -> Option<String>>(
    mm: &mut Mindmap,
    editor: E,
    strict: bool,
) -> (r: Result<u32, CommandError>)
    requires
        old(mm).wf(),
        max_id(old(mm)@.nodes) < u32::MAX,
        forall|text: &str| call_requires(editor, (text,)),
    ensures
        final(mm).wf(),
        exists|answer: Option<Seq<char>>|
            {
                &&& #[trigger] editor_answer(
                    editor,
                    add_template((max_id(old(mm)@.nodes) + 1) as u32),
                    answer,
                )
                &&& match answer {
                    None => r matches Err(e) && e@ == CommandErrorView::EditorFailed && final(mm)@
                        == old(mm)@,
                    Some(edited) => match r {
                        Ok(id) => id == max_id(old(mm)@.nodes) + 1 && add_edited_outcome(
                            old(mm)@,
                            edited,
                            strict,
                        ) == Ok::<MindmapView, CommandErrorView>(final(mm)@),
                        Err(e) => add_edited_outcome(old(mm)@, edited, strict) == Err::<
                            MindmapView,
                            CommandErrorView,
                        >(e@) && final(mm)@ == old(mm)@,
                    },
                }
            },
{
    let id = mm.next_id();
    let mut template = String::from_str("[");
    push_decimal(&mut template, id as u64);
    template.append("] **TYPE: Title** - description");
    let shown = template.as_str();
    let given = editor(shown);
    let ghost answer = crate::text::option_text(given);
    proof {
        assert(editor_answer(editor, add_template(id), answer));
    }
    let r = match given {
        None => Err(CommandError::EditorFailed),
        Some(edited) => add_edited_line(mm, edited.as_str(), strict),
    };
    proof {
        assert(editor_answer(editor, add_template((max_id(old(mm)@.nodes) + 1) as u32), answer)
            && match answer {
            None => r matches Err(e) && e@ == CommandErrorView::EditorFailed && mm@ == old(mm)@,
            Some(edited) => match r {
                Ok(id) => id == max_id(old(mm)@.nodes) + 1 && add_edited_outcome(
                    old(mm)@,
                    edited,
                    strict,
                ) == Ok::<MindmapView, CommandErrorView>(mm@),
                Err(e) => add_edited_outcome(old(mm)@, edited, strict) == Err::<
                    MindmapView,
                    CommandErrorView,
                >(e@) && mm@ == old(mm)@,
            },
        });
    }
    r
}

/// The first line of a text, trimmed; empty where the text has no line.
pub open spec fn first_line(text: Seq<char>) -> Seq<char> {
    if lines_of(text).len() == 0 {
        Seq::empty()
    } else {
        trim(lines_of(text)[0])
    }
}

/// What replacing a node by its edited line does: the first line of the
/// text must be a node with the same id; it then replaces the node and its line.
pub open spec fn edit_outcome(mm: MindmapView, id: u32, edited: Seq<char>) -> Result<
    MindmapView,
    CommandErrorView,
> {
    match mm.node(id) {
        None => Err(CommandErrorView::NodeNotFound { id }),
        Some(node) => match node_of_line(first_line(edited), node.line_index) {
            Err(e) => Err(CommandErrorView::Line(e)),
            Ok(parsed) => if parsed.id != id {
                Err(CommandErrorView::EditIdMismatch)
            } else {
                Ok(mm.with_node_replaced(mm.by_id[id] as int, first_line(edited), parsed))
            },
        },
    }
}

/// Replaces the node `id` by the line that came back from the editor; see [`edit_outcome`].
pub fn replace_with_edited(mm: &mut Mindmap, id: u32, edited: &str) -> (r: Result<
    (),
    CommandError,
>)
    requires
        old(mm).wf(),
    ensures
        final(mm).wf(),
        match r {
            Ok(_) => edit_outcome(old(mm)@, id, edited@) == Ok::<MindmapView, CommandErrorView>(
                final(mm)@,
            ),
            Err(e) => edit_outcome(old(mm)@, id, edited@) == Err::<MindmapView, CommandErrorView>(
                e@,
            ) && final(mm)@ == old(mm)@,
        },
{
    proof {
        assert(mm@.nodes.len() == mm.nodes.len());
        lemma_id_index(mm@.nodes, id);
    }
    let idx = match mm.by_id.get(&id) {
        Some(idx) => *idx,
        None => {
            return Err(CommandError::NodeNotFound { id });
        },
    };
    let lines = split_lines(edited);
    let first: Vec<char> = if lines.len() == 0 {
        Vec::new()
    } else {
        let cs = chars_of(lines[0].as_str());
        assert(cs@.subrange(0, cs.len() as int) =~= cs@);
        assert(texts(lines@)[0] == cs@);
        trim_chars(&cs, 0, cs.len())
    };
    assert(first@ == first_line(edited@));
    let line_index = mm.nodes[idx].line_index;
    let parsed = match parse_node_chars(&first, line_index) {
        Ok(parsed) => parsed,
        Err(e) => {
            return Err(CommandError::Line(e));
        },
    };
    if parsed.id != id {
        return Err(CommandError::EditIdMismatch);
    }
    let ghost before = mm@;
    let ghost parsed_view = parsed@;
    proof {
        lemma_replace_keeps_wf(before, idx as int, first@, parsed_view);
    }
    mm.lines[line_index] = string_of(&first);
    mm.nodes[idx] = parsed;
    proof {
        assert(mm@.lines =~= before.lines.update(line_index as int, first@));
        assert(mm@.nodes =~= before.nodes.update(idx as int, parsed_view));
    }
    Ok(())
}

/// Edits the node `id` in an editor: `editor` is opened with the line of
/// the node, and what it gives back replaces the node by
/// [`replace_with_edited`]. An editor that gives nothing back fails the command.
pub fn cmd_edit<E: FnOnce(&str) -> Option<String>>(mm: &mut Mindmap, id: u32, editor: E) -> (r:
    Result<(), CommandError>)
    requires
        old(mm).wf(),
        forall|text: &str| call_requires(editor, (text,)),
    ensures
        final(mm).wf(),
        match old(mm)@.node(id) {
            None => r matches Err(e) && e@ == (CommandErrorView::NodeNotFound { id }) && final(mm)@
                == old(mm)@,
            Some(node) => exists|answer: Option<Seq<char>>|
                {
                    &&& #[trigger] editor_answer(
                        editor,
                        node_line(node.id, node.raw_title, node.description),
                        answer,
                    )
                    &&& match answer {
                        None => r matches Err(e) && e@ == CommandErrorView::EditorFailed
                            && final(mm)@ == old(mm)@,
                        Some(edited) => match r {
                            Ok(_) => edit_outcome(old(mm)@, id, edited) == Ok::<
                                MindmapView,
                                CommandErrorView,
                            >(final(mm)@),
                            Err(e) => edit_outcome(old(mm)@, id, edited) == Err::<
                                MindmapView,
                                CommandErrorView,
                            >(e@) && final(mm)@ == old(mm)@,
                        },
                    }
                },
        },
{
    let shown = match mm.get_node(id) {
        Some(node) => render_node_line(node.id, node.raw_title.as_str(), node.description.as_str()),
        None => {
            return Err(CommandError::NodeNotFound { id });
        },
    };
    let text = shown.as_str();
    let given = editor(text);
    let ghost answer = crate::text::option_text(given);
    proof {
        assert(editor_answer(editor, shown@, answer));
    }
    let r = match given {
        None => Err(CommandError::EditorFailed),
        Some(edited) => replace_with_edited(mm, id, edited.as_str()),
    };
    proof {
        let node = old(mm)@.node(id)->Some_0;
        assert(editor_answer(editor, node_line(node.id, node.raw_title, node.description), answer)
            && match answer {
            None => r matches Err(e) && e@ == CommandErrorView::EditorFailed && mm@ == old(mm)@,
            Some(edited) => match r {
                Ok(_) => edit_outcome(old(mm)@, id, edited) == Ok::<MindmapView, CommandErrorView>(
                    mm@,
                ),
                Err(e) => edit_outcome(old(mm)@, id, edited) == Err::<
                    MindmapView,
                    CommandErrorView,
                >(e@) && mm@ == old(mm)@,
            },
        });
    }
    r
}

/// Whether a mindmap can be written back: one that was read from standard
/// input, which has the path `-`, cannot.
pub open spec fn can_save(mm: MindmapView) -> bool {
    mm.path != "-"@
}

/// `done` is what `write` answered when it was given `text` for `path`.
pub open spec fn write_answer<W: FnOnce(&str, &str) -> bool>(
    write: W,
    path: Seq<char>,
    text: Seq<char>,
    done: bool,
) -> bool {
    exists|p: &str, t: &str|
        p@ == path && t@ == text && #[trigger] call_ensures(write, (p, t), done)
}

impl Mindmap {
    /// Writes the mindmap back to its file. The spacing is normalised
    /// first; then `write` is given the path and the text, which is every
    /// line with a line feed behind it. A mindmap from standard input is not
    /// written and not changed.
    pub fn save<W: FnOnce(&str, &str) -> bool>(&mut self, write: W) -> (r: Result<
        (),
        CommandError,
    >)
        requires
            old(self).wf(),
            forall|p: &str, t: &str| call_requires(write, (p, t)),
        ensures
            final(self).wf(),
            !can_save(old(self)@) ==> (r matches Err(e) && e@ == CommandErrorView::CannotSave
                && final(self)@ == old(self)@),
            can_save(old(self)@) ==> final(self)@ == normalized(old(self)@) && exists|done: bool|
                {
                    &&& #[trigger] write_answer(
                        write,
                        old(self)@.path,
                        saved_text(final(self)@.lines),
                        done,
                    )
                    &&& done ==> r is Ok
                    &&& !done ==> (r matches Err(e) && e@ == (CommandErrorView::WriteFailed {
                        path: old(self)@.path,
                    }))
                },
    {
        if self.path == String::from_str("-") {
            return Err(CommandError::CannotSave);
        }
        let _ = self.normalize_spacing();
        let text = render_lines(&self.lines);
        let p = self.path.as_str();
        let t = text.as_str();
        let done = write(p, t);
        proof {
            assert(write_answer(write, self@.path, text@, done));
            assert(crate::fixes::normalized(old(self)@).path == old(self)@.path);
        }
        if done {
            Ok(())
        } else {
            Err(CommandError::WriteFailed { path: self.path.clone() })
        }
    }
}

} // verus!
