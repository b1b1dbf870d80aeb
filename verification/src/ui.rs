//! What is shown on the terminal, as a list of pieces to print: the text of
//! each piece, how it is painted, and whether a line ends behind it.
//!
//! Printing itself is left to the caller; here it is decided what is
//! printed, in the plain form and in the form with colours.

use vstd::prelude::*;
use vstd::string::*;
use crate::commands::{id_list, push_id_list};
use crate::node::{ref_views, Node, NodeView, Reference, ReferenceView};
use crate::text::{decimal, push_decimal, texts};

verus! {

/// How a piece is painted.
#[derive(Debug, Clone, Copy, PartialEq, Eq, Structural)]
pub enum Paint {
    Plain,
    Green,
    Bold,
    Blue,
    Magenta,
}

/// One piece to print.
#[derive(Debug, Clone)]
pub struct Piece {
    /// How the piece is painted.
    pub paint: Paint,
    /// The text of the piece.
    pub text: String,
    /// Texts to show behind `text` as a list, each in quotes; mostly none.
    pub quoted: Vec<String>,
    /// Whether a line ends behind the piece.
    pub end_line: bool,
}

/// The mathematical content of a [`Piece`].
pub struct PieceView {
    pub paint: Paint,
    pub text: Seq<char>,
    pub quoted: Seq<Seq<char>>,
    pub end_line: bool,
}

impl View for Piece {
    type V = PieceView;

    open spec fn view(&self) -> PieceView {
        PieceView {
            paint: self.paint,
            text: self.text@,
            quoted: texts(self.quoted@),
            end_line: self.end_line,
        }
    }
}

/// The contents of a vector of pieces.
pub open spec fn piece_views(v: Seq<Piece>) -> Seq<PieceView> {
    Seq::new(v.len(), |i: int| v[i]@)
}

/// A whole line without paint.
pub open spec fn plain_line(text: Seq<char>) -> PieceView {
    PieceView { paint: Paint::Plain, text, quoted: Seq::empty(), end_line: true }
}

/// A piece of text in a colour.
pub open spec fn painted(paint: Paint, text: Seq<char>, end_line: bool) -> PieceView {
    PieceView { paint, text, quoted: Seq::empty(), end_line }
}

fn piece(paint: Paint, text: String, end_line: bool) -> (p: Piece)
    ensures
        p@ == painted(paint, text@, end_line),
{
    let p = Piece { paint, text, quoted: Vec::new(), end_line };
    assert(texts(p.quoted@) =~= Seq::<Seq<char>>::empty());
    p
}

/// The targets of the first `n` references that stay in the file.
pub open spec fn internal_targets(refs: Seq<ReferenceView>, n: int) -> Seq<u32>
    decreases n,
{
    if n <= 0 {
        Seq::empty()
    } else {
        match refs[n - 1] {
            ReferenceView::Internal(id) => internal_targets(refs, n - 1).push(id),
            ReferenceView::External(_, _) => internal_targets(refs, n - 1),
        }
    }
}

/// The first `n` references that lead into other files, each as `[id] in path`.
pub open spec fn external_entries(refs: Seq<ReferenceView>, n: int) -> Seq<Seq<char>>
    decreases n,
{
    if n <= 0 {
        Seq::empty()
    } else {
        match refs[n - 1] {
            ReferenceView::Internal(_) => external_entries(refs, n - 1),
            ReferenceView::External(id, path) => external_entries(refs, n - 1).push(
                "["@ + decimal(id as nat) + "] in "@ + path,
            ),
        }
    }
}

/// Computes [`internal_targets`].
pub fn internal_ids(refs: &[Reference]) -> (ids: Vec<u32>)
    ensures
        ids@ == internal_targets(ref_views(refs@), refs@.len() as int),
{
    let mut ids: Vec<u32> = Vec::new();
    let mut i: usize = 0;
    while i < refs.len()
        invariant
            i <= refs.len(),
            ids@ == internal_targets(ref_views(refs@), i as int),
        decreases refs.len() - i,
    {
        assert(ref_views(refs@)[i as int] == refs@[i as int]@);
        match &refs[i] {
            Reference::Internal(id) => {
                ids.push(*id);
            },
            Reference::External(_, _) => {},
        }
        i = i + 1;
    }
    ids
}

/// Computes [`external_entries`].
pub fn external_refs(refs: &[Reference]) -> (entries: Vec<String>)
    ensures
        texts(entries@) == external_entries(ref_views(refs@), refs@.len() as int),
{
    let mut entries: Vec<String> = Vec::new();
    let mut i: usize = 0;
    assert(texts(entries@) =~= external_entries(ref_views(refs@), 0));
    while i < refs.len()
        invariant
            i <= refs.len(),
            texts(entries@) == external_entries(ref_views(refs@), i as int),
        decreases refs.len() - i,
    {
        assert(ref_views(refs@)[i as int] == refs@[i as int]@);
        match &refs[i] {
            Reference::Internal(_) => {},
            Reference::External(id, path) => {
                let ghost before = texts(entries@);
                let mut entry = String::from_str("[");
                push_decimal(&mut entry, *id as u64);
                entry.append("] in ");
                entry.append(path.as_str());
                let ghost text = entry@;
                entries.push(entry);
                assert(texts(entries@) =~= before.push(text));
            },
        }
        i = i + 1;
    }
    entries
}

/// The lines `lines[..n]`, each as a plain piece.
pub open spec fn plain_lines(lines: Seq<Seq<char>>, n: int) -> Seq<PieceView>
    decreases n,
{
    if n <= 0 {
        Seq::empty()
    } else {
        plain_lines(lines, n - 1).push(plain_line(lines[n - 1]))
    }
}

fn lines_as_pieces(lines: &[String]) -> (out: Vec<Piece>)
    ensures
        piece_views(out@) == plain_lines(texts(lines@), lines@.len() as int),
{
    let mut out: Vec<Piece> = Vec::new();
    let mut i: usize = 0;
    assert(piece_views(out@) =~= plain_lines(texts(lines@), 0));
    while i < lines.len()
        invariant
            i <= lines.len(),
            piece_views(out@) == plain_lines(texts(lines@), i as int),
        decreases lines.len() - i,
    {
        let ghost before = piece_views(out@);
        assert(texts(lines@)[i as int] == lines@[i as int]@);
        out.push(piece(Paint::Plain, lines[i].clone(), true));
        assert(piece_views(out@) =~= before.push(plain_line(lines@[i as int]@)));
        i = i + 1;
    }
    out
}

/// What is printed for the references of the node `id`: the targets within
/// the file on one line, the references into other files on another, each
/// line only where there is something to show.
pub open spec fn links_pieces(id: u32, refs: Seq<ReferenceView>) -> Seq<PieceView> {
    let internal = internal_targets(refs, refs.len() as int);
    let external = external_entries(refs, refs.len() as int);
    (if internal.len() > 0 {
        seq![plain_line("→ ["@ + decimal(id as nat) + "] refers to: "@ + id_list(internal))]
    } else {
        Seq::empty()
    }) + (if external.len() > 0 {
        seq![
            PieceView {
                paint: Paint::Plain,
                text: "["@ + decimal(id as nat) + "] external refs: "@,
                quoted: external,
                end_line: true,
            },
        ]
    } else {
        Seq::empty()
    })
}

fn links_as_pieces(id: u32, links: &[Reference]) -> (out: Vec<Piece>)
    ensures
        piece_views(out@) == links_pieces(id, ref_views(links@)),
{
    let internal = internal_ids(links);
    let external = external_refs(links);
    let mut out: Vec<Piece> = Vec::new();
    if internal.len() > 0 {
        let mut text = String::from_str("→ [");
        push_decimal(&mut text, id as u64);
        text.append("] refers to: ");
        push_id_list(&mut text, &internal);
        out.push(piece(Paint::Plain, text, true));
    }
    if external.len() > 0 {
        let mut text = String::from_str("[");
        push_decimal(&mut text, id as u64);
        text.append("] external refs: ");
        out.push(Piece { paint: Paint::Plain, text, quoted: external, end_line: true });
    }
    assert(piece_views(out@) =~= links_pieces(id, ref_views(links@)));
    out
}

/// What the plain printer prints for a node.
pub open spec fn plain_show(node: NodeView, inbound: Seq<u32>, outbound: Seq<ReferenceView>) -> Seq<
    PieceView,
> {
    let targets = internal_targets(outbound, outbound.len() as int);
    seq![
        plain_line("["@ + decimal(node.id as nat) + "] "@ + node.raw_title),
        plain_line(node.description),
    ] + (if inbound.len() > 0 {
        seq![plain_line("← Referring nodes: "@ + id_list(inbound))]
    } else {
        Seq::empty()
    }) + (if targets.len() > 0 {
        seq![plain_line("→ References: "@ + id_list(targets))]
    } else {
        Seq::empty()
    })
}

/// What the printer with colours prints for a node.
pub open spec fn pretty_show(node: NodeView, inbound: Seq<u32>, outbound: Seq<ReferenceView>) -> Seq<
    PieceView,
> {
    let targets = internal_targets(outbound, outbound.len() as int);
    seq![
        painted(Paint::Green, "["@ + decimal(node.id as nat) + "] "@, false),
        painted(Paint::Bold, node.raw_title, true),
        plain_line(node.description),
    ] + (if inbound.len() > 0 {
        seq![
            painted(Paint::Blue, "← Referring nodes:"@, false),
            painted(Paint::Blue, " "@ + id_list(inbound), true),
        ]
    } else {
        Seq::empty()
    }) + (if targets.len() > 0 {
        seq![
            painted(Paint::Magenta, "→ References:"@, false),
            painted(Paint::Magenta, " "@ + id_list(targets), true),
        ]
    } else {
        Seq::empty()
    })
}

/// The first `n` entries of an orphan listing, without the line that says
/// that there are none; `bracketed` puts each entry in brackets.
pub open spec fn orphan_pieces(orphans: Seq<Seq<char>>, bracketed: bool, n: int) -> Seq<PieceView>
    decreases n,
{
    if n <= 0 {
        Seq::empty()
    } else if orphans[n - 1] == "No orphans"@ {
        orphan_pieces(orphans, bracketed, n - 1)
    } else if bracketed {
        orphan_pieces(orphans, bracketed, n - 1).push(plain_line("["@ + orphans[n - 1] + "]"@))
    } else {
        orphan_pieces(orphans, bracketed, n - 1).push(plain_line(orphans[n - 1]))
    }
}

fn orphans_as_pieces(orphans: &[String], bracketed: bool) -> (out: Vec<Piece>)
    ensures
        piece_views(out@) == orphan_pieces(texts(orphans@), bracketed, orphans@.len() as int),
{
    let none = String::from_str("No orphans");
    let mut out: Vec<Piece> = Vec::new();
    let mut i: usize = 0;
    assert(piece_views(out@) =~= orphan_pieces(texts(orphans@), bracketed, 0));
    while i < orphans.len()
        invariant
            i <= orphans.len(),
            none@ == "No orphans"@,
            piece_views(out@) == orphan_pieces(texts(orphans@), bracketed, i as int),
        decreases orphans.len() - i,
    {
        assert(texts(orphans@)[i as int] == orphans@[i as int]@);
        if orphans[i] != none {
            let ghost before = piece_views(out@);
            let text = if bracketed {
                let mut text = String::from_str("[");
                text.append(orphans[i].as_str());
                text.append("]");
                text
            } else {
                orphans[i].clone()
            };
            let ghost shown = text@;
            out.push(piece(Paint::Plain, text, true));
            assert(piece_views(out@) =~= before.push(plain_line(shown)));
        }
        i = i + 1;
    }
    out
}

/// What a printer shows for each kind of result.
pub trait Printer {
    /// What [`Printer::show`] gives.
    spec fn show_spec(
        &self,
        node: NodeView,
        inbound: Seq<u32>,
        outbound: Seq<ReferenceView>,
    ) -> Seq<PieceView>;

    /// Whether [`Printer::orphans`] puts each entry in brackets.
    spec fn brackets_orphans(&self) -> bool;

    /// A node with the nodes that refer to it and those it refers to.
    fn show(&self, node: &Node, inbound: &[u32], outbound: &[Reference]) -> (out: Vec<Piece>)
        ensures
            piece_views(out@) == self.show_spec(node@, inbound@, ref_views(outbound@)),
    ;

    /// A listing of nodes, one line each.
    fn list(&self, lines: &[String]) -> (out: Vec<Piece>)
        ensures
            piece_views(out@) == plain_lines(texts(lines@), lines@.len() as int),
    ;

    /// The nodes that refer to a node, one line each.
    fn refs(&self, lines: &[String]) -> (out: Vec<Piece>)
        ensures
            piece_views(out@) == plain_lines(texts(lines@), lines@.len() as int),
    ;

    /// The references of the node `id`.
    fn links(&self, id: u32, links: &[Reference]) -> (out: Vec<Piece>)
        ensures
            piece_views(out@) == links_pieces(id, ref_views(links@)),
    ;

    /// The orphans; the line that says that there are none is not shown.
    fn orphans(&self, orphans: &[String]) -> (out: Vec<Piece>)
        ensures
            piece_views(out@) == orphan_pieces(
                texts(orphans@),
                self.brackets_orphans(),
                orphans@.len() as int,
            ),
    ;
}

/// Prints with colours, for a person at a terminal.
pub struct PrettyPrinter {}

/// Prints plain text, for a pipe or a file.
pub struct PlainPrinter {}

impl PrettyPrinter {
    /// A printer with colours.
    pub fn new() -> (r: Result<PrettyPrinter, crate::error::CommandError>)
        ensures
            r is Ok,
    {
        Ok(PrettyPrinter {  })
    }
}

impl PlainPrinter {
    /// A plain printer.
    pub fn new() -> (r: Result<PlainPrinter, crate::error::CommandError>)
        ensures
            r is Ok,
    {
        Ok(PlainPrinter {  })
    }
}

impl Printer for PrettyPrinter {
    open spec fn show_spec(
        &self,
        node: NodeView,
        inbound: Seq<u32>,
        outbound: Seq<ReferenceView>,
    ) -> Seq<PieceView> {
        pretty_show(node, inbound, outbound)
    }

    open spec fn brackets_orphans(&self) -> bool {
        true
    }

    fn show(&self, node: &Node, inbound: &[u32], outbound: &[Reference]) -> (out: Vec<Piece>) {
        let mut out: Vec<Piece> = Vec::new();
        let mut id = String::from_str("[");
        push_decimal(&mut id, node.id as u64);
        id.append("] ");
        out.push(piece(Paint::Green, id, false));
        out.push(piece(Paint::Bold, node.raw_title.clone(), true));
        out.push(piece(Paint::Plain, node.description.clone(), true));
        if inbound.len() > 0 {
            out.push(piece(Paint::Blue, String::from_str("← Referring nodes:"), false));
            let mut list = String::from_str(" ");
            let ids = crate::ui::copy_ids(inbound);
            push_id_list(&mut list, &ids);
            out.push(piece(Paint::Blue, list, true));
        }
        let targets = internal_ids(outbound);
        if targets.len() > 0 {
            out.push(piece(Paint::Magenta, String::from_str("→ References:"), false));
            let mut list = String::from_str(" ");
            push_id_list(&mut list, &targets);
            out.push(piece(Paint::Magenta, list, true));
        }
        assert(piece_views(out@) =~= pretty_show(node@, inbound@, ref_views(outbound@)));
        out
    }

    fn list(&self, lines: &[String]) -> (out: Vec<Piece>) {
        lines_as_pieces(lines)
    }

    fn refs(&self, lines: &[String]) -> (out: Vec<Piece>) {
        lines_as_pieces(lines)
    }

    fn links(&self, id: u32, links: &[Reference]) -> (out: Vec<Piece>) {
        links_as_pieces(id, links)
    }

    fn orphans(&self, orphans: &[String]) -> (out: Vec<Piece>) {
        orphans_as_pieces(orphans, true)
    }
}

impl Printer for PlainPrinter {
    open spec fn show_spec(
        &self,
        node: NodeView,
        inbound: Seq<u32>,
        outbound: Seq<ReferenceView>,
    ) -> Seq<PieceView> {
        plain_show(node, inbound, outbound)
    }

    open spec fn brackets_orphans(&self) -> bool {
        false
    }

    fn show(&self, node: &Node, inbound: &[u32], outbound: &[Reference]) -> (out: Vec<Piece>) {
        let mut out: Vec<Piece> = Vec::new();
        let mut head = String::from_str("[");
        push_decimal(&mut head, node.id as u64);
        head.append("] ");
        head.append(node.raw_title.as_str());
        out.push(piece(Paint::Plain, head, true));
        out.push(piece(Paint::Plain, node.description.clone(), true));
        if inbound.len() > 0 {
            let mut list = String::from_str("← Referring nodes: ");
            let ids = crate::ui::copy_ids(inbound);
            push_id_list(&mut list, &ids);
            out.push(piece(Paint::Plain, list, true));
        }
        let targets = internal_ids(outbound);
        if targets.len() > 0 {
            let mut list = String::from_str("→ References: ");
            push_id_list(&mut list, &targets);
            out.push(piece(Paint::Plain, list, true));
        }
        assert(piece_views(out@) =~= plain_show(node@, inbound@, ref_views(outbound@)));
        out
    }

    fn list(&self, lines: &[String]) -> (out: Vec<Piece>) {
        lines_as_pieces(lines)
    }

    fn refs(&self, lines: &[String]) -> (out: Vec<Piece>) {
        lines_as_pieces(lines)
    }

    fn links(&self, id: u32, links: &[Reference]) -> (out: Vec<Piece>) {
        links_as_pieces(id, links)
    }

    fn orphans(&self, orphans: &[String]) -> (out: Vec<Piece>) {
        orphans_as_pieces(orphans, false)
    }
}

/// A copy of a list of ids.
pub fn copy_ids(ids: &[u32]) -> (copy: Vec<u32>)
    ensures
        copy@ == ids@,
{
    let mut copy: Vec<u32> = Vec::new();
    let mut i: usize = 0;
    while i < ids.len()
        invariant
            i <= ids.len(),
            copy@ == ids@.subrange(0, i as int),
        decreases ids.len() - i,
    {
        copy.push(ids[i]);
        assert(copy@ =~= ids@.subrange(0, i + 1));
        i = i + 1;
    }
    assert(ids@.subrange(0, i as int) =~= ids@);
    copy
}

} // verus!
