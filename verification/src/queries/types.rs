//! The types of the nodes in use, with their counts.

use vstd::prelude::*;
use vstd::string::*;
use crate::error::CommandError;
use crate::mindmap::{Mindmap, MindmapView};
use crate::node::{Node, NodeView};
use crate::text::{
    chars_of, decimal, decimal_string, find_char, first_match, push_decimal, string_from,
    text_or_none, texts,
};

verus! {

/// The type of a node: what stands in its raw title before the first colon.
pub open spec fn node_type(raw_title: Seq<char>) -> Option<Seq<char>> {
    match first_match(raw_title, seq![':'], 0) {
        Some(colon) => Some(raw_title.subrange(0, colon)),
        None => None,
    }
}

/// The ids of those among the first `n` nodes that have the type `typ`.
pub open spec fn typed_ids(nodes: Seq<NodeView>, typ: Seq<char>, n: int) -> Seq<u32>
    decreases n,
{
    if n <= 0 {
        Seq::empty()
    } else if node_type(nodes[n - 1].raw_title) == Some(typ) {
        typed_ids(nodes, typ, n - 1).push(nodes[n - 1].id)
    } else {
        typed_ids(nodes, typ, n - 1)
    }
}

/// The number of nodes that have the type `typ`.
pub open spec fn type_count(nodes: Seq<NodeView>, typ: Seq<char>) -> nat {
    typed_ids(nodes, typ, nodes.len() as int).len()
}

/// The types of the first `n` nodes, each once, where it comes first.
pub open spec fn types_upto(nodes: Seq<NodeView>, n: int) -> Seq<Seq<char>>
    decreases n,
{
    if n <= 0 {
        Seq::empty()
    } else {
        match node_type(nodes[n - 1].raw_title) {
            Some(typ) => if types_upto(nodes, n - 1).contains(typ) {
                types_upto(nodes, n - 1)
            } else {
                types_upto(nodes, n - 1).push(typ)
            },
            None => types_upto(nodes, n - 1),
        }
    }
}

/// `ranked`, which is in falling order of count, with the type `typ` put
/// in behind every type that has at least its count.
pub open spec fn placed(nodes: Seq<NodeView>, ranked: Seq<Seq<char>>, typ: Seq<char>) -> Seq<
    Seq<char>,
>
    decreases ranked.len(),
{
    if ranked.len() == 0 {
        seq![typ]
    } else if type_count(nodes, ranked.last()) >= type_count(nodes, typ) {
        ranked.push(typ)
    } else {
        placed(nodes, ranked.drop_last(), typ).push(ranked.last())
    }
}

/// The first `n` of `types` in falling order of their counts; types with
/// the same count stay in the order they have in `types`.
pub open spec fn ranked_upto(nodes: Seq<NodeView>, types: Seq<Seq<char>>, n: int) -> Seq<
    Seq<char>,
>
    decreases n,
{
    if n <= 0 {
        Seq::empty()
    } else {
        placed(nodes, ranked_upto(nodes, types, n - 1), types[n - 1])
    }
}

/// `n` spaces.
pub open spec fn spaces(n: int) -> Seq<char>
    decreases n,
{
    if n <= 0 {
        Seq::empty()
    } else {
        spaces(n - 1).push(' ')
    }
}

/// `s` with spaces behind it up to the width `width`.
pub open spec fn padded_right(s: Seq<char>, width: int) -> Seq<char> {
    s + spaces(width - s.len())
}

/// `s` with spaces before it up to the width `width`.
pub open spec fn padded_left(s: Seq<char>, width: int) -> Seq<char> {
    spaces(width - s.len()) + s
}

/// The line of the summary for one type.
pub open spec fn type_line(nodes: Seq<NodeView>, typ: Seq<char>) -> Seq<char> {
    "  "@ + padded_right(typ, 10) + " ("@ + padded_left(decimal(type_count(nodes, typ)), 3)
        + " nodes)"@
}

/// The first `n` of `ids`, each in brackets, with `, ` between them.
pub open spec fn bracketed_ids(ids: Seq<u32>, n: int) -> Seq<char>
    decreases n,
{
    if n <= 0 {
        Seq::empty()
    } else if n == 1 {
        "["@ + decimal(ids[0] as nat) + "]"@
    } else {
        bracketed_ids(ids, n - 1) + ", "@ + "["@ + decimal(ids[n - 1] as nat) + "]"@
    }
}

/// What `types` says of one type: its count and up to five of its nodes,
/// or that it is not in use.
pub open spec fn type_details(nodes: Seq<NodeView>, typ: Seq<char>) -> Seq<Seq<char>> {
    let ids = typed_ids(nodes, typ, nodes.len() as int);
    if ids.len() == 0 {
        seq!["Type '"@ + typ + "' not found in use"@]
    } else {
        seq![
            "Type '"@ + typ + "': "@ + decimal(ids.len()) + " nodes"@,
            "  Examples: "@ + bracketed_ids(ids, if ids.len() < 5 { ids.len() as int } else { 5 }),
        ]
    }
}

/// The lines of the summary for the first `n` of `ranked`.
pub open spec fn type_lines(nodes: Seq<NodeView>, ranked: Seq<Seq<char>>, n: int) -> Seq<
    Seq<char>,
>
    decreases n,
{
    if n <= 0 {
        Seq::empty()
    } else {
        type_lines(nodes, ranked, n - 1).push(type_line(nodes, ranked[n - 1]))
    }
}

/// The summary of all types in use: a head line with their number, then
/// one line for each type, in falling order of count.
pub open spec fn type_summary(nodes: Seq<NodeView>) -> Seq<Seq<char>> {
    let types = types_upto(nodes, nodes.len() as int);
    let ranked = ranked_upto(nodes, types, types.len() as int);
    seq!["Node types in use ("@ + decimal(types.len()) + " types):"@] + type_lines(
        nodes,
        ranked,
        ranked.len() as int,
    )
}

/// What `types` reports: the details of one type, or the summary of all.
pub open spec fn types_text(mm: MindmapView, type_of: Option<Seq<char>>) -> Seq<Seq<char>> {
    match type_of {
        Some(typ) => type_details(mm.nodes, typ),
        None => type_summary(mm.nodes),
    }
}

fn type_of_title(raw_title: &str) -> (r: Option<String>)
    ensures
        crate::text::option_text(r) == node_type(raw_title@),
{
    let cs = chars_of(raw_title);
    match find_char(&cs, ':', 0) {
        Some(colon) => Some(string_from(&cs, 0, colon)),
        None => None,
    }
}

fn ids_of_type(mm: &Mindmap, typ: &String) -> (ids: Vec<u32>)
    ensures
        ids@ == typed_ids(mm@.nodes, typ@, mm@.nodes.len() as int),
{
    let mut ids: Vec<u32> = Vec::new();
    let mut i: usize = 0;
    while i < mm.nodes.len()
        invariant
            i <= mm.nodes.len(),
            ids@ == typed_ids(mm@.nodes, typ@, i as int),
        decreases mm.nodes.len() - i,
    {
        let same = match type_of_title(mm.nodes[i].raw_title.as_str()) {
            Some(t) => t == *typ,
            None => false,
        };
        assert(same == (node_type(mm@.nodes[i as int].raw_title) == Some(typ@)));
        if same {
            ids.push(mm.nodes[i].id);
        }
        i = i + 1;
    }
    ids
}

fn has_text(list: &Vec<String>, s: &String) -> (b: bool)
    ensures
        b == texts(list@).contains(s@),
{
    let mut i: usize = 0;
    while i < list.len()
        invariant
            i <= list.len(),
            forall|j: int| 0 <= j < i ==> texts(list@)[j] != s@,
        decreases list.len() - i,
    {
        if list[i] == *s {
            assert(texts(list@)[i as int] == s@);
            return true;
        }
        i = i + 1;
    }
    false
}

fn push_spaces(out: &mut String, width: usize, used: usize)
    ensures
        final(out)@ == old(out)@ + spaces(width - used),
{
    let mut n: usize = 0;
    if used >= width {
        assert(old(out)@ + spaces(width - used) =~= old(out)@);
        return ;
    }
    let missing = width - used;
    assert(out@ + spaces(0) =~= out@);
    while n < missing
        invariant
            n <= missing,
            out@ == old(out)@ + spaces(n as int),
        decreases missing - n,
    {
        out.push(' ');
        assert(out@ =~= old(out)@ + spaces(n + 1));
        n = n + 1;
    }
}

fn types_in_use(mm: &Mindmap) -> (types: Vec<String>)
    ensures
        texts(types@) == types_upto(mm@.nodes, mm@.nodes.len() as int),
{
    let mut types: Vec<String> = Vec::new();
    let mut i: usize = 0;
    assert(texts(types@) =~= types_upto(mm@.nodes, 0));
    while i < mm.nodes.len()
        invariant
            i <= mm.nodes.len(),
            texts(types@) == types_upto(mm@.nodes, i as int),
        decreases mm.nodes.len() - i,
    {
        match type_of_title(mm.nodes[i].raw_title.as_str()) {
            Some(t) => {
                if !has_text(&types, &t) {
                    let ghost before = texts(types@);
                    let ghost text = t@;
                    types.push(t);
                    assert(texts(types@) =~= before.push(text));
                }
            },
            None => {},
        }
        i = i + 1;
    }
    types
}

fn rank_types(mm: &Mindmap, types: &Vec<String>, counts: &Vec<usize>) -> (order: Vec<usize>)
    requires
        counts.len() == types.len(),
        forall|i: int|
            0 <= i < types.len() ==> counts@[i] == type_count(mm@.nodes, #[trigger] texts(types@)[i]),
    ensures
        order.len() == types.len(),
        forall|k: int| 0 <= k < order.len() ==> (#[trigger] order@[k]) < types.len(),
        Seq::new(order.len() as nat, |k: int| texts(types@)[order@[k] as int]) == ranked_upto(
            mm@.nodes,
            texts(types@),
            types.len() as int,
        ),
{
    let ghost names = texts(types@);
    let ghost nodes = mm@.nodes;
    let mut order: Vec<usize> = Vec::new();
    let mut n: usize = 0;
    assert(Seq::new(order.len() as nat, |k: int| names[order@[k] as int]) =~= ranked_upto(
        nodes,
        names,
        0,
    ));
    while n < types.len()
        invariant
            n <= types.len(),
            names == texts(types@),
            nodes == mm@.nodes,
            counts.len() == types.len(),
            forall|i: int|
                0 <= i < types.len() ==> counts@[i] == type_count(nodes, #[trigger] names[i]),
            order.len() == n,
            forall|k: int| 0 <= k < order.len() ==> (#[trigger] order@[k]) < types.len(),
            Seq::new(order.len() as nat, |k: int| names[order@[k] as int]) == ranked_upto(
                nodes,
                names,
                n as int,
            ),
        decreases types.len() - n,
    {
        let ghost ranked = Seq::new(order.len() as nat, |k: int| names[order@[k] as int]);
        let ghost order_before = order@;
        let mut at: usize = order.len();
        proof {
            assert(ranked.subrange(0, at as int) =~= ranked);
            assert(placed(nodes, ranked, names[n as int]) + ranked.subrange(
                at as int,
                ranked.len() as int,
            ) =~= placed(nodes, ranked, names[n as int]));
        }
        while at > 0 && counts[order[at - 1]] < counts[n]
            invariant
                at <= order.len(),
                n < types.len(),
                order@ == order_before,
                names == texts(types@),
                counts.len() == types.len(),
                ranked == Seq::new(order.len() as nat, |k: int| names[order@[k] as int]),
                forall|i: int|
                    0 <= i < types.len() ==> counts@[i] == type_count(nodes, #[trigger] names[i]),
                forall|k: int| 0 <= k < order.len() ==> (#[trigger] order@[k]) < types.len(),
                placed(nodes, ranked, names[n as int]) == placed(
                    nodes,
                    ranked.subrange(0, at as int),
                    names[n as int],
                ) + ranked.subrange(at as int, ranked.len() as int),
            decreases at,
        {
            proof {
                let head = ranked.subrange(0, at as int);
                assert(head.last() == names[order@[at - 1] as int]);
                assert(head.drop_last() =~= ranked.subrange(0, at - 1));
                assert(placed(nodes, head, names[n as int]) == placed(
                    nodes,
                    head.drop_last(),
                    names[n as int],
                ).push(head.last()));
                assert(placed(nodes, ranked.subrange(0, at - 1), names[n as int]).push(
                    head.last(),
                ) + ranked.subrange(at as int, ranked.len() as int) =~= placed(
                    nodes,
                    ranked.subrange(0, at - 1),
                    names[n as int],
                ) + ranked.subrange(at - 1, ranked.len() as int));
            }
            at = at - 1;
        }
        proof {
            let head = ranked.subrange(0, at as int);
            if at > 0 {
                assert(head.last() == names[order@[at - 1] as int]);
            }
            assert(placed(nodes, head, names[n as int]) == head.push(names[n as int])) by {
                if at == 0 {
                    assert(head.len() == 0);
                    assert(head.push(names[n as int]) =~= seq![names[n as int]]);
                }
            }
            assert(ranked.subrange(0, ranked.len() as int) =~= ranked);
        }
        order.insert(at, n);
        proof {
            let after = Seq::new(order.len() as nat, |k: int| names[order@[k] as int]);
            assert(after =~= ranked.subrange(0, at as int).push(names[n as int]) + ranked.subrange(
                at as int,
                ranked.len() as int,
            ));
        }
        n = n + 1;
    }
    order
}

/// The types in use: for one type its count and examples, or in summary
/// every type with its count; see [`types_text`].
pub fn cmd_types(mm: &Mindmap, type_of: Option<&str>) -> (r: Result<Vec<String>, CommandError>)
    ensures
        r matches Ok(out) && texts(out@) == types_text(mm@, crate::text::text_or_none(type_of)),
{
    let mut out: Vec<String> = Vec::new();
    match type_of {
        Some(typ) => {
            let wanted = typ.to_owned();
            let ids = ids_of_type(mm, &wanted);
            if ids.len() == 0 {
                let mut line = String::from_str("Type '");
                line.append(typ);
                line.append("' not found in use");
                out.push(line);
                assert(texts(out@) =~= type_details(mm@.nodes, typ@));
            } else {
                let mut line = String::from_str("Type '");
                line.append(typ);
                line.append("': ");
                push_decimal(&mut line, ids.len() as u64);
                line.append(" nodes");
                let mut examples = String::from_str("  Examples: ");
                let ghost head = examples@;
                let shown: usize = if ids.len() < 5 { ids.len() } else { 5 };
                let mut k: usize = 0;
                assert(head + bracketed_ids(ids@, 0) =~= head);
                while k < shown
                    invariant
                        k <= shown <= ids.len(),
                        examples@ == head + bracketed_ids(ids@, k as int),
                    decreases shown - k,
                {
                    if k > 0 {
                        examples.append(", ");
                    }
                    examples.append("[");
                    push_decimal(&mut examples, ids[k] as u64);
                    examples.append("]");
                    assert(examples@ =~= head + bracketed_ids(ids@, k + 1));
                    k = k + 1;
                }
                let ghost first = line@;
                let ghost second = examples@;
                out.push(line);
                out.push(examples);
                assert(texts(out@) =~= seq![first, second]);
                assert(texts(out@) =~= type_details(mm@.nodes, typ@));
            }
        },
        None => {
            let types = types_in_use(mm);
            let mut counts: Vec<usize> = Vec::new();
            let mut i: usize = 0;
            while i < types.len()
                invariant
                    i <= types.len(),
                    counts.len() == i,
                    forall|j: int|
                        0 <= j < i ==> counts@[j] == type_count(
                            mm@.nodes,
                            #[trigger] texts(types@)[j],
                        ),
                decreases types.len() - i,
            {
                let ids = ids_of_type(mm, &types[i]);
                counts.push(ids.len());
                i = i + 1;
            }
            let order = rank_types(mm, &types, &counts);
            let ghost ranked = ranked_upto(mm@.nodes, texts(types@), types.len() as int);
            let mut head = String::from_str("Node types in use (");
            push_decimal(&mut head, types.len() as u64);
            head.append(" types):");
            let ghost head_text = head@;
            out.push(head);
            assert(texts(out@) =~= seq![head_text] + type_lines(mm@.nodes, ranked, 0));
            let mut k: usize = 0;
            while k < order.len()
                invariant
                    k <= order.len(),
                    order.len() == types.len(),
                    counts.len() == types.len(),
                    ranked.len() == order.len(),
                    forall|j: int| 0 <= j < order.len() ==> (#[trigger] order@[j]) < types.len(),
                    forall|j: int|
                        0 <= j < types.len() ==> counts@[j] == type_count(
                            mm@.nodes,
                            #[trigger] texts(types@)[j],
                        ),
                    forall|j: int|
                        0 <= j < order.len() ==> (#[trigger] ranked[j]) == texts(
                            types@,
                        )[order@[j] as int],
                    texts(out@) == seq![head_text] + type_lines(mm@.nodes, ranked, k as int),
                decreases order.len() - k,
            {
                let ghost before = texts(out@);
                let at = order[k];
                let name = &types[at];
                assert(ranked[k as int] == name@);
                let mut line = String::from_str("  ");
                line.append(name.as_str());
                push_spaces(&mut line, 10, name.as_str().unicode_len());
                line.append(" (");
                let count = crate::text::decimal_string(counts[at] as u64);
                push_spaces(&mut line, 3, count.as_str().unicode_len());
                line.append(count.as_str());
                line.append(" nodes)");
                assert(line@ =~= type_line(mm@.nodes, name@));
                out.push(line);
                assert(texts(out@) =~= before.push(type_line(mm@.nodes, ranked[k as int])));
                k = k + 1;
            }
        },
    }
    Ok(out)
}

} // verus!
