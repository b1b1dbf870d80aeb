//! A mindmap file in memory: its lines, the nodes among them, and an index
//! from node id to node.

use std::collections::HashMap;
use vstd::prelude::*;
use vstd::string::*;
use crate::error::{TraversalError, TraversalErrorView};
use crate::node::{node_of_line, node_views, parse_node_line, Node, NodeView};
use crate::text::{lines_of, split_lines, texts};

verus! {

/// One mindmap file: the text of its lines, and the nodes read from them.
pub struct Mindmap {
    /// Where the file was read from; `-` for standard input.
    pub path: String,
    /// The lines of the file, without their line ends.
    pub lines: Vec<String>,
    /// The nodes, in the order of their lines.
    pub nodes: Vec<Node>,
    /// For each node id, the index in `nodes` of the last node that has it.
    pub by_id: HashMap<u32, usize>,
}

/// The mathematical content of a [`Mindmap`].
pub struct MindmapView {
    pub path: Seq<char>,
    pub lines: Seq<Seq<char>>,
    pub nodes: Seq<NodeView>,
    pub by_id: Map<u32, usize>,
}

impl View for Mindmap {
    type V = MindmapView;

    open spec fn view(&self) -> MindmapView {
        MindmapView {
            path: self.path@,
            lines: texts(self.lines@),
            nodes: node_views(self.nodes@),
            by_id: self.by_id@,
        }
    }
}

/// The nodes among the first `n` of `lines`, each with the index of its line.
pub open spec fn nodes_upto(lines: Seq<Seq<char>>, n: int) -> Seq<NodeView>
    decreases n,
{
    if n <= 0 {
        Seq::empty()
    } else {
        match node_of_line(lines[n - 1], (n - 1) as usize) {
            Ok(node) => nodes_upto(lines, n - 1).push(node),
            Err(_) => nodes_upto(lines, n - 1),
        }
    }
}

/// The nodes among `lines`: every line in the node format, in order.
pub open spec fn nodes_of(lines: Seq<Seq<char>>) -> Seq<NodeView> {
    nodes_upto(lines, lines.len() as int)
}

/// The index from id to position: where several nodes share an id, the last one has it.
pub open spec fn id_index(nodes: Seq<NodeView>) -> Map<u32, usize>
    decreases nodes.len(),
{
    if nodes.len() == 0 {
        Map::empty()
    } else {
        id_index(nodes.drop_last()).insert(nodes.last().id, (nodes.len() - 1) as usize)
    }
}

/// The greatest id among `nodes`, or 0 where there is none.
pub open spec fn max_id(nodes: Seq<NodeView>) -> nat
    decreases nodes.len(),
{
    if nodes.len() == 0 {
        0
    } else {
        let rest = max_id(nodes.drop_last());
        if nodes.last().id > rest {
            nodes.last().id as nat
        } else {
            rest
        }
    }
}

/// Whether some node of `nodes` has the id `id`.
pub open spec fn has_id(nodes: Seq<NodeView>, id: u32) -> bool {
    exists|i: int| 0 <= i < nodes.len() && #[trigger] nodes[i].id == id
}

/// Whether the nodes stand in the order of their lines, each on a line of
/// its own among `n_lines` lines.
pub open spec fn in_line_order(nodes: Seq<NodeView>, n_lines: nat) -> bool {
    &&& forall|i: int| 0 <= i < nodes.len() ==> (#[trigger] nodes[i]).line_index < n_lines
    &&& forall|i: int, j: int|
        0 <= i < j < nodes.len() ==> (#[trigger] nodes[i]).line_index < (
        #[trigger] nodes[j]).line_index
}

impl MindmapView {
    /// The invariant of a mindmap: the index is the one of its nodes, and the
    /// nodes stand in the order of their lines.
    pub open spec fn wf(self) -> bool {
        &&& self.by_id == id_index(self.nodes)
        &&& in_line_order(self.nodes, self.lines.len())
    }

    /// The node that the id leads to, if there is one.
    pub open spec fn node(self, id: u32) -> Option<NodeView> {
        if self.by_id.contains_key(id) && self.by_id[id] < self.nodes.len() {
            Some(self.nodes[self.by_id[id] as int])
        } else {
            None
        }
    }

    /// The content of the file with the given path and text.
    pub open spec fn parsed(path: Seq<char>, content: Seq<char>) -> MindmapView {
        let lines = lines_of(content);
        MindmapView { path, lines, nodes: nodes_of(lines), by_id: id_index(nodes_of(lines)) }
    }
}

/// What the index says of an id: it is there exactly if a node has the id,
/// and it leads to the last such node.
pub proof fn lemma_id_index(nodes: Seq<NodeView>, id: u32)
    requires
        nodes.len() <= usize::MAX,
    ensures
        id_index(nodes).contains_key(id) <==> has_id(nodes, id),
        id_index(nodes).contains_key(id) ==> {
            &&& id_index(nodes)[id] < nodes.len()
            &&& nodes[id_index(nodes)[id] as int].id == id
            &&& forall|j: int| id_index(nodes)[id] < j < nodes.len() ==> nodes[j].id != id
        },
    decreases nodes.len(),
{
    if nodes.len() == 0 {
    } else {
        let rest = nodes.drop_last();
        lemma_id_index(rest, id);
        if nodes.last().id == id {
            assert(nodes[nodes.len() - 1].id == id);
        } else {
            if has_id(rest, id) {
                let i = choose|i: int| 0 <= i < rest.len() && #[trigger] rest[i].id == id;
                assert(nodes[i].id == id);
                assert forall|j: int| id_index(nodes)[id] < j < nodes.len() implies nodes[j].id
                    != id by {
                    if j < rest.len() {
                        assert(rest[j] == nodes[j]);
                    }
                }
                assert(nodes[id_index(nodes)[id] as int] == rest[id_index(rest)[id] as int]);
            }
            if has_id(nodes, id) {
                let i = choose|i: int| 0 <= i < nodes.len() && #[trigger] nodes[i].id == id;
                assert(rest[i].id == id);
            }
        }
    }
}

/// No id is greater than the greatest, and the greatest is an id unless it is 0.
pub proof fn lemma_max_id(nodes: Seq<NodeView>)
    ensures
        forall|i: int| 0 <= i < nodes.len() ==> (#[trigger] nodes[i]).id <= max_id(nodes),
        max_id(nodes) <= u32::MAX,
        max_id(nodes) > 0 ==> has_id(nodes, max_id(nodes) as u32),
    decreases nodes.len(),
{
    if nodes.len() > 0 {
        let rest = nodes.drop_last();
        lemma_max_id(rest);
        assert forall|i: int| 0 <= i < nodes.len() implies (#[trigger] nodes[i]).id <= max_id(
            nodes,
        ) by {
            if i < rest.len() {
                assert(rest[i] == nodes[i]);
            }
        }
        if max_id(nodes) > 0 {
            if nodes.last().id > max_id(rest) {
                assert(nodes[nodes.len() - 1].id == max_id(nodes));
            } else {
                let i = choose|i: int|
                    0 <= i < rest.len() && #[trigger] rest[i].id == max_id(rest) as u32;
                assert(nodes[i].id == max_id(nodes) as u32);
            }
        }
    }
}

/// The nodes read from lines stand in the order of their lines.
pub proof fn lemma_nodes_upto_in_order(lines: Seq<Seq<char>>, n: int)
    requires
        0 <= n <= lines.len() <= usize::MAX,
    ensures
        in_line_order(nodes_upto(lines, n), n as nat),
    decreases n,
{
    if n > 0 {
        lemma_nodes_upto_in_order(lines, n - 1);
    }
}

/// What is read from a text is well formed.
pub proof fn lemma_parsed_wf(path: Seq<char>, content: Seq<char>)
    requires
        content.len() <= usize::MAX,
    ensures
        MindmapView::parsed(path, content).wf(),
{
    let lines = lines_of(content);
    crate::text::lemma_lines_count(content, 0);
    lemma_nodes_upto_in_order(lines, lines.len() as int);
}

impl Mindmap {
    /// The invariant that every function of this library keeps; see [`MindmapView::wf`].
    pub open spec fn wf(&self) -> bool {
        self@.wf()
    }

    /// Reads the text of a file into a mindmap. Lines that are not in the
    /// node format are kept as lines and give no node.
    pub fn from_string(content: &str, path: String) -> (mm: Mindmap)
        ensures
            mm@ == MindmapView::parsed(path@, content@),
            mm.wf(),
    {
        let lines = split_lines(content);
        let mut nodes: Vec<Node> = Vec::new();
        let mut by_id: HashMap<u32, usize> = HashMap::new();
        let mut i: usize = 0;
        assert(node_views(nodes@) =~= nodes_upto(texts(lines@), 0));
        while i < lines.len()
            invariant
                i <= lines.len(),
                node_views(nodes@) == nodes_upto(texts(lines@), i as int),
                by_id@ == id_index(node_views(nodes@)),
            decreases lines.len() - i,
        {
            let ghost before = node_views(nodes@);
            match parse_node_line(lines[i].as_str(), i) {
                Ok(node) => {
                    by_id.insert(node.id, nodes.len());
                    nodes.push(node);
                    assert(node_views(nodes@) =~= before.push(node@));
                    assert(node_views(nodes@).drop_last() =~= before);
                },
                Err(_) => {},
            }
            i = i + 1;
        }
        proof {
            lemma_nodes_upto_in_order(texts(lines@), lines.len() as int);
        }
        Mindmap { path, lines, nodes, by_id }
    }

    /// Reads the mindmap file at `path` through `read`, which hands over the
    /// text of the file at a path, or nothing.
    pub fn load<R: FnOnce(&str) -> Option<String>>(path: String, read: R) -> (r: Result<
        Mindmap,
        TraversalError,
    >)
        requires
            forall|p: &str| call_requires(read, (p,)),
        ensures
            match r {
                Ok(mm) => exists|asked: &str, content: String|
                    {
                        &&& asked@ == path@
                        &&& #[trigger] call_ensures(read, (asked,), Some(content))
                        &&& mm@ == MindmapView::parsed(path@, content@)
                        &&& mm.wf()
                    },
                Err(e) => e@ == (TraversalErrorView::ReadFailed { path: path@ }) && exists|
                    asked: &str,
                |
                    asked@ == path@ && #[trigger] call_ensures(read, (asked,), None::<String>),
            },
    {
        let asked = path.as_str();
        let given = read(asked);
        match given {
            Some(content) => {
                let mm = Mindmap::from_string(content.as_str(), path);
                proof {
                    assert(asked@ == path@ && call_ensures(read, (asked,), Some(content)) && mm@
                        == MindmapView::parsed(path@, content@) && mm.wf());
                }
                Ok(mm)
            },
            None => {
                proof {
                    assert(asked@ == path@ && call_ensures(read, (asked,), None::<String>));
                }
                Err(TraversalError::ReadFailed { path })
            },
        }
    }

    /// Reads a mindmap through `reader`, which hands over the whole text or
    /// nothing. `path` says where the text comes from.
    pub fn load_from_reader<R: FnOnce() -> Option<String>>(reader: R, path: String) -> (r: Result<
        Mindmap,
        TraversalError,
    >)
        requires
            call_requires(reader, ()),
        ensures
            match r {
                Ok(mm) => exists|content: String|
                    {
                        &&& call_ensures(reader, (), Some(content))
                        &&& mm@ == MindmapView::parsed(path@, content@)
                        &&& mm.wf()
                    },
                Err(e) => call_ensures(reader, (), None::<String>) && e@ == (
                TraversalErrorView::ReadFailed { path: path@ }),
            },
    {
        match reader() {
            Some(content) => Ok(Mindmap::from_string(content.as_str(), path)),
            None => Err(TraversalError::ReadFailed { path }),
        }
    }

    /// The id for a node to add: one more than the greatest id in use.
    pub fn next_id(&self) -> (id: u32)
        requires
            max_id(self@.nodes) < u32::MAX,
        ensures
            id == max_id(self@.nodes) + 1,
    {
        let mut max: u32 = 0;
        let mut i: usize = 0;
        assert(node_views(self.nodes@).subrange(0, 0) =~= Seq::<NodeView>::empty());
        while i < self.nodes.len()
            invariant
                i <= self.nodes.len(),
                max == max_id(node_views(self.nodes@).subrange(0, i as int)),
            decreases self.nodes.len() - i,
        {
            let ghost all = node_views(self.nodes@);
            assert(all.subrange(0, i + 1).drop_last() =~= all.subrange(0, i as int));
            if self.nodes[i].id > max {
                max = self.nodes[i].id;
            }
            i = i + 1;
        }
        assert(node_views(self.nodes@).subrange(0, i as int) =~= node_views(self.nodes@));
        max + 1
    }

    /// The node with the given id: the last one, where several have it.
    pub fn get_node(&self, id: u32) -> (r: Option<&Node>)
        requires
            self.wf(),
        ensures
            match r {
                Some(node) => self@.node(id) == Some(node@) && node.id == id,
                None => self@.node(id) is None && !has_id(self@.nodes, id),
            },
    {
        proof {
            assert(self@.nodes.len() == self.nodes.len());
            lemma_id_index(self@.nodes, id);
        }
        match self.by_id.get(&id) {
            Some(idx) => Some(&self.nodes[*idx]),
            None => None,
        }
    }
}

} // verus!
