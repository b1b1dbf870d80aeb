//! Checks of a mindmap: syntax, duplicate ids, missing references.

use vstd::prelude::*;
use vstd::string::*;
use crate::error::CommandError;
use crate::mindmap::{Mindmap, MindmapView};
use crate::node::{is_node_line, node_of_line, parse_node_chars, NodeView, Reference, ReferenceView};
use crate::text::{chars_of, decimal, push_decimal, skip_spaces, slice_chars, texts, trim_start};

verus! {

/// The decimal numerals of `numbers[..n]`, with `, ` between them.
pub open spec fn number_items(numbers: Seq<usize>, n: int) -> Seq<char>
    decreases n,
{
    if n <= 0 {
        Seq::empty()
    } else if n == 1 {
        decimal(numbers[0] as nat)
    } else {
        number_items(numbers, n - 1) + ", "@ + decimal(numbers[n - 1] as nat)
    }
}

/// A list of line numbers as text: `[2, 3]`.
pub open spec fn number_list(numbers: Seq<usize>) -> Seq<char> {
    "["@ + number_items(numbers, numbers.len() as int) + "]"@
}

fn push_number_list(out: &mut String, numbers: &Vec<usize>)
    ensures
        final(out)@ == old(out)@ + number_list(numbers@),
{
    out.append("[");
    let mut i: usize = 0;
    while i < numbers.len()
        invariant
            i <= numbers.len(),
            out@ == old(out)@ + "["@ + number_items(numbers@, i as int),
        decreases numbers.len() - i,
    {
        if i > 0 {
            out.append(", ");
        }
        push_decimal(out, numbers[i] as u64);
        assert(out@ =~= old(out)@ + "["@ + number_items(numbers@, i + 1));
        i = i + 1;
    }
    out.append("]");
    assert(out@ =~= old(out)@ + number_list(numbers@));
}

/// Whether a line begins like a node, with `[` after white space, and is none.
pub open spec fn is_bad_syntax(line: Seq<char>) -> bool {
    let t = trim_start(line);
    t.len() > 0 && t[0] == '[' && !is_node_line(t)
}

/// The warning for the line with index `i`, which begins like a node and is none.
pub open spec fn syntax_warning(i: int) -> Seq<char> {
    "Syntax: line "@ + decimal((i + 1) as nat)
        + " starts with '[' but does not match node format"@
}

/// The syntax warnings for the first `n` lines.
pub open spec fn syntax_warnings(lines: Seq<Seq<char>>, n: int) -> Seq<Seq<char>>
    decreases n,
{
    if n <= 0 {
        Seq::empty()
    } else if is_bad_syntax(lines[n - 1]) {
        syntax_warnings(lines, n - 1).push(syntax_warning(n - 1))
    } else {
        syntax_warnings(lines, n - 1)
    }
}

/// The id of the node on a line, if the line is a node.
pub open spec fn line_id(line: Seq<char>) -> Option<u32> {
    match node_of_line(line, 0) {
        Ok(node) => Some(node.id),
        Err(_) => None,
    }
}

/// The numbers, counted from 1, of those among the first `n` lines that are
/// nodes with the id `id`.
pub open spec fn occurrences(lines: Seq<Seq<char>>, id: u32, n: int) -> Seq<usize>
    decreases n,
{
    if n <= 0 {
        Seq::empty()
    } else if line_id(lines[n - 1]) == Some(id) {
        occurrences(lines, id, n - 1).push(n as usize)
    } else {
        occurrences(lines, id, n - 1)
    }
}

/// The warning for an id that several lines have.
pub open spec fn duplicate_warning(id: u32, on: Seq<usize>) -> Seq<char> {
    "Duplicate ID: node "@ + decimal(id as nat) + " appears on lines "@ + number_list(on)
}

/// The duplicate warnings for the ids that come first on one of the first
/// `n` lines: one warning for each id that several lines have, where the
/// first of those lines stands.
pub open spec fn duplicate_warnings(lines: Seq<Seq<char>>, n: int) -> Seq<Seq<char>>
    decreases n,
{
    if n <= 0 {
        Seq::empty()
    } else {
        match line_id(lines[n - 1]) {
            Some(id) => if occurrences(lines, id, n - 1).len() == 0 && occurrences(
                lines,
                id,
                lines.len() as int,
            ).len() > 1 {
                duplicate_warnings(lines, n - 1).push(
                    duplicate_warning(id, occurrences(lines, id, lines.len() as int)),
                )
            } else {
                duplicate_warnings(lines, n - 1)
            },
            None => duplicate_warnings(lines, n - 1),
        }
    }
}

/// The references of a node, each with the id of the node.
pub open spec fn node_items(node: NodeView) -> Seq<(u32, ReferenceView)> {
    Seq::new(node.references.len(), |k: int| (node.id, node.references[k]))
}

/// All references of the first `n` nodes, in order, each with the id of its node.
pub open spec fn all_references(nodes: Seq<NodeView>, n: int) -> Seq<(u32, ReferenceView)>
    decreases n,
{
    if n <= 0 {
        Seq::empty()
    } else {
        all_references(nodes, n - 1) + node_items(nodes[n - 1])
    }
}

/// The warning, if any, for one reference of the node `from`. `found`
/// says, for a reference into another file, whether that file was found.
pub open spec fn reference_warning(
    by_id: Map<u32, usize>,
    from: u32,
    reference: ReferenceView,
    found: bool,
) -> Option<Seq<char>> {
    match reference {
        ReferenceView::Internal(target) => if by_id.contains_key(target) {
            None
        } else {
            Some(
                "Missing ref: node "@ + decimal(from as nat) + " references missing node "@
                    + decimal(target as nat),
            )
        },
        ReferenceView::External(target, file) => if found {
            None
        } else {
            Some(
                "Missing file: node "@ + decimal(from as nat) + " references "@ + decimal(
                    target as nat,
                ) + " in missing file "@ + file,
            )
        },
    }
}

/// The warnings for the references `items`, where `found[k]` is what was
/// found out about the file of the reference `items[k]`.
pub open spec fn reference_warnings(
    by_id: Map<u32, usize>,
    items: Seq<(u32, ReferenceView)>,
    found: Seq<bool>,
) -> Seq<Seq<char>>
    decreases items.len(),
{
    if items.len() == 0 || found.len() == 0 {
        Seq::empty()
    } else {
        let earlier = reference_warnings(by_id, items.drop_last(), found.drop_last());
        match reference_warning(by_id, items.last().0, items.last().1, found.last()) {
            Some(warning) => earlier.push(warning),
            None => earlier,
        }
    }
}

/// `answer` is what `file_exists` gave when it was asked for `path`.
pub open spec fn exists_answer<E: Fn(&str) -> bool>(
    file_exists: E,
    path: Seq<char>,
    answer: bool,
) -> bool {
    exists|asked: &str| asked@ == path && #[trigger] call_ensures(file_exists, (asked,), answer)
}

/// What `lint` reports, given what was found out about the files that
/// references lead to: syntax warnings, then duplicate ids, then missing
/// references; or the one line `Lint OK`.
pub open spec fn lint_text(mm: MindmapView, found: Seq<bool>) -> Seq<Seq<char>> {
    let warnings = syntax_warnings(mm.lines, mm.lines.len() as int) + duplicate_warnings(
        mm.lines,
        mm.lines.len() as int,
    ) + reference_warnings(mm.by_id, all_references(mm.nodes, mm.nodes.len() as int), found);
    if warnings.len() == 0 {
        seq!["Lint OK"@]
    } else {
        warnings
    }
}

fn line_id_of(line: &str) -> (r: Option<u32>)
    ensures
        r == line_id(line@),
{
    let cs = chars_of(line);
    match parse_node_chars(&cs, 0) {
        Ok(node) => Some(node.id),
        Err(_) => None,
    }
}

fn occurrences_of(ids: &Vec<Option<u32>>, id: u32, n: usize) -> (on: Vec<usize>)
    requires
        n <= ids.len(),
    ensures
        forall|lines: Seq<Seq<char>>|
            lines.len() == ids.len() && (forall|i: int|
                0 <= i < ids.len() ==> ids@[i] == line_id(#[trigger] lines[i]))
                ==> on@ == #[trigger] occurrences(lines, id, n as int),
{
    let mut on: Vec<usize> = Vec::new();
    let mut i: usize = 0;
    while i < n
        invariant
            i <= n <= ids.len(),
            forall|lines: Seq<Seq<char>>|
                lines.len() == ids.len() && (forall|i: int|
                    0 <= i < ids.len() ==> ids@[i] == line_id(#[trigger] lines[i]))
                    ==> on@ == #[trigger] occurrences(lines, id, i as int),
        decreases n - i,
    {
        let ghost before = on@;
        let here = match ids[i] {
            Some(found) => found == id,
            None => false,
        };
        if here {
            on.push(i + 1);
        }
        proof {
            assert forall|lines: Seq<Seq<char>>|
                lines.len() == ids.len() && (forall|i: int|
                    0 <= i < ids.len() ==> ids@[i] == line_id(#[trigger] lines[i])) implies on@
                == #[trigger] occurrences(lines, id, i + 1) by {
                assert(before == occurrences(lines, id, i as int));
                assert(ids@[i as int] == line_id(lines[i as int]));
            }
        }
        i = i + 1;
    }
    on
}

/// Checks a mindmap: lines that begin like a node and are none, ids that
/// several lines have, references to nodes that do not exist, and
/// references into files that `file_exists` does not find; see [`lint_text`].
pub fn cmd_lint<E: Fn(&str) -> bool>(mm: &Mindmap, file_exists: E) -> (r: Result<
    Vec<String>,
    CommandError,
>)
    requires
        forall|p: &str| call_requires(file_exists, (p,)),
    ensures
        r matches Ok(out) && exists|found: Seq<bool>|
            {
                &&& found.len() == all_references(mm@.nodes, mm@.nodes.len() as int).len()
                &&& forall|k: int|
                    0 <= k < found.len() ==> match (#[trigger] all_references(
                        mm@.nodes,
                        mm@.nodes.len() as int,
                    )[k]).1 {
                        ReferenceView::External(_, file) => exists_answer(
                            file_exists,
                            file,
                            found[k],
                        ),
                        ReferenceView::Internal(_) => true,
                    }
                &&& texts(out@) == lint_text(mm@, found)
            },
{
    let mut out: Vec<String> = Vec::new();
    let ghost lines = mm@.lines;
    let mut ids: Vec<Option<u32>> = Vec::new();
    let mut i: usize = 0;
    assert(texts(out@) =~= syntax_warnings(lines, 0));
    while i < mm.lines.len()
        invariant
            i <= mm.lines.len(),
            lines == mm@.lines,
            lines.len() == mm.lines.len(),
            ids.len() == i,
            forall|j: int| 0 <= j < i ==> ids@[j] == line_id(#[trigger] lines[j]),
            texts(out@) == syntax_warnings(lines, i as int),
        decreases mm.lines.len() - i,
    {
        let cs = chars_of(mm.lines[i].as_str());
        assert(cs@.subrange(0, cs.len() as int) =~= cs@);
        let skip = skip_spaces(&cs, 0, cs.len());
        let t = slice_chars(&cs, skip, cs.len());
        assert(t@ == trim_start(lines[i as int]));
        if t.len() > 0 && t[0] == '[' && parse_node_chars(&t, 0).is_err() {
            let ghost before = texts(out@);
            let mut warning = String::from_str("Syntax: line ");
            push_decimal(&mut warning, (i + 1) as u64);
            warning.append(" starts with '[' but does not match node format");
            out.push(warning);
            assert(texts(out@) =~= before.push(syntax_warning(i as int)));
        }
        ids.push(line_id_of(mm.lines[i].as_str()));
        i = i + 1;
    }
    let ghost syntax = texts(out@);
    let mut i: usize = 0;
    assert(syntax + duplicate_warnings(lines, 0) =~= syntax);
    while i < ids.len()
        invariant
            i <= ids.len(),
            lines == mm@.lines,
            lines.len() == ids.len(),
            forall|j: int| 0 <= j < ids.len() ==> ids@[j] == line_id(#[trigger] lines[j]),
            texts(out@) == syntax + duplicate_warnings(lines, i as int),
        decreases ids.len() - i,
    {
        match ids[i] {
            Some(id) => {
                let earlier = occurrences_of(&ids, id, i);
                if earlier.len() == 0 {
                    let on = occurrences_of(&ids, id, ids.len());
                    if on.len() > 1 {
                        let ghost before = texts(out@);
                        let mut warning = String::from_str("Duplicate ID: node ");
                        push_decimal(&mut warning, id as u64);
                        warning.append(" appears on lines ");
                        push_number_list(&mut warning, &on);
                        out.push(warning);
                        assert(texts(out@) =~= before.push(duplicate_warning(id, on@)));
                    }
                }
            },
            None => {},
        }
        assert(texts(out@) =~= syntax + duplicate_warnings(lines, i + 1));
        i = i + 1;
    }
    let ghost checked = texts(out@);
    let ghost nodes = mm@.nodes;
    let ghost mut items: Seq<(u32, ReferenceView)> = Seq::empty();
    let ghost mut found: Seq<bool> = Seq::empty();
    let mut i: usize = 0;
    assert(checked + reference_warnings(mm@.by_id, items, found) =~= checked);
    while i < mm.nodes.len()
        invariant
            i <= mm.nodes.len(),
            nodes == mm@.nodes,
            nodes.len() == mm.nodes.len(),
            forall|p: &str| call_requires(file_exists, (p,)),
            items == all_references(nodes, i as int),
            found.len() == items.len(),
            forall|k: int|
                0 <= k < found.len() ==> match (#[trigger] items[k]).1 {
                    ReferenceView::External(_, file) => exists_answer(file_exists, file, found[k]),
                    ReferenceView::Internal(_) => true,
                },
            texts(out@) == checked + reference_warnings(mm@.by_id, items, found),
        decreases mm.nodes.len() - i,
    {
        let node = &mm.nodes[i];
        assert(node@ == nodes[i as int]);
        let ghost start = items;
        let mut k: usize = 0;
        assert(start + node_items(node@).subrange(0, 0) =~= start);
        while k < node.references.len()
            invariant
                k <= node.references.len(),
                forall|p: &str| call_requires(file_exists, (p,)),
                items == start + node_items(node@).subrange(0, k as int),
                found.len() == items.len(),
                forall|j: int|
                    0 <= j < found.len() ==> match (#[trigger] items[j]).1 {
                        ReferenceView::External(_, file) => exists_answer(
                            file_exists,
                            file,
                            found[j],
                        ),
                        ReferenceView::Internal(_) => true,
                    },
                texts(out@) == checked + reference_warnings(mm@.by_id, items, found),
            decreases node.references.len() - k,
        {
            let ghost before = texts(out@);
            let ghost items_before = items;
            let ghost found_before = found;
            let ghost item = (node.id, node.references@[k as int]@);
            assert(node_items(node@)[k as int] == item);
            let mut answer = true;
            match &node.references[k] {
                Reference::Internal(target) => {
                    if !mm.by_id.contains_key(target) {
                        let mut warning = String::from_str("Missing ref: node ");
                        push_decimal(&mut warning, node.id as u64);
                        warning.append(" references missing node ");
                        push_decimal(&mut warning, *target as u64);
                        out.push(warning);
                        assert(texts(out@) =~= before.push(
                            reference_warning(mm@.by_id, item.0, item.1, answer)->Some_0,
                        ));
                    }
                },
                Reference::External(target, file) => {
                    let asked = file.as_str();
                    answer = file_exists(asked);
                    assert(exists_answer(file_exists, file@, answer));
                    if !answer {
                        let mut warning = String::from_str("Missing file: node ");
                        push_decimal(&mut warning, node.id as u64);
                        warning.append(" references ");
                        push_decimal(&mut warning, *target as u64);
                        warning.append(" in missing file ");
                        warning.append(asked);
                        out.push(warning);
                        assert(texts(out@) =~= before.push(
                            reference_warning(mm@.by_id, item.0, item.1, answer)->Some_0,
                        ));
                    }
                },
            }
            proof {
                items = items_before.push(item);
                found = found_before.push(answer);
                assert(items.drop_last() =~= items_before);
                assert(found.drop_last() =~= found_before);
                assert(items =~= start + node_items(node@).subrange(0, k + 1));
                assert forall|j: int| 0 <= j < found.len() implies match (#[trigger] items[j]).1 {
                    ReferenceView::External(_, file) => exists_answer(file_exists, file, found[j]),
                    ReferenceView::Internal(_) => true,
                } by {
                    if j < found_before.len() {
                        assert(items[j] == items_before[j]);
                        assert(found[j] == found_before[j]);
                    }
                }
            }
            k = k + 1;
        }
        proof {
            assert(node_items(node@).subrange(0, k as int) =~= node_items(node@));
        }
        i = i + 1;
    }
    if out.len() == 0 {
        let mut ok: Vec<String> = Vec::new();
        ok.push(String::from_str("Lint OK"));
        assert(texts(ok@) =~= seq!["Lint OK"@]);
        assert(texts(ok@) == lint_text(mm@, found));
        return Ok(ok);
    }
    assert(texts(out@) == lint_text(mm@, found));
    Ok(out)
}

} // verus!
