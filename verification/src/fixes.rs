//! Repairs to the text of a mindmap: blank lines between nodes, and titles
//! that name their type twice.

use vstd::prelude::*;
use vstd::string::*;
use crate::commands::{node_line, render_node_line};
use crate::error::CommandError;
use crate::mindmap::{Mindmap, MindmapView};
use crate::node::{is_node_line, parse_node_chars, NodeView};
use crate::text::{
    chars_of, find_char, first_match, has_at, slice_chars, starts_with, string_of, texts, trim,
    trim_chars, trim_start, trim_start_chars,
};

verus! {

/// The text of a file with the given lines: each line, and a line feed behind it.
pub open spec fn text_of_lines(lines: Seq<Seq<char>>) -> Seq<char>
    decreases lines.len(),
{
    if lines.len() == 0 {
        Seq::empty()
    } else {
        text_of_lines(lines.drop_last()) + lines.last() + seq!['\n']
    }
}

/// The text that is written for the given lines: the lines with a line feed
/// between them and one at the end, which for no lines is a single line feed.
pub open spec fn saved_text(lines: Seq<Seq<char>>) -> Seq<char> {
    if lines.len() == 0 {
        seq!['\n']
    } else {
        text_of_lines(lines)
    }
}

/// Builds [`saved_text`].
pub fn render_lines(lines: &Vec<String>) -> (text: String)
    ensures
        text@ == saved_text(texts(lines@)),
{
    let mut text = String::new();
    if lines.len() == 0 {
        text.push('\n');
        assert(text@ =~= seq!['\n']);
        return text;
    }
    let mut i: usize = 0;
    assert(texts(lines@).subrange(0, 0) =~= Seq::<Seq<char>>::empty());
    while i < lines.len()
        invariant
            i <= lines.len(),
            text@ == text_of_lines(texts(lines@).subrange(0, i as int)),
        decreases lines.len() - i,
    {
        let ghost upto = texts(lines@).subrange(0, i + 1);
        assert(upto.drop_last() =~= texts(lines@).subrange(0, i as int));
        assert(upto.last() == lines@[i as int]@);
        text.append(lines[i].as_str());
        text.push('\n');
        assert(text@ =~= text_of_lines(upto));
        i = i + 1;
    }
    assert(texts(lines@).subrange(0, i as int) =~= texts(lines@));
    text
}

/// Decides [`is_node_line`].
pub fn line_is_node(line: &str) -> (b: bool)
    ensures
        b == is_node_line(line@),
{
    let cs = chars_of(line);
    parse_node_chars(&cs, 0).is_ok()
}

/// Whether a line holds nothing but white space.
pub open spec fn is_blank(line: Seq<char>) -> bool {
    trim(line).len() == 0
}

/// Decides [`is_blank`].
pub fn line_is_blank(line: &str) -> (b: bool)
    ensures
        b == is_blank(line@),
{
    let cs = chars_of(line);
    assert(cs@.subrange(0, cs.len() as int) =~= cs@);
    let kept = trim_chars(&cs, 0, cs.len());
    kept.len() == 0
}

/// Whether the lines `i` and `i + 1` are both nodes.
pub open spec fn adjacent_nodes_at(lines: Seq<Seq<char>>, i: int) -> bool {
    0 <= i && i + 1 < lines.len() && is_node_line(lines[i]) && is_node_line(lines[i + 1])
}

/// The first `n` lines, with an empty line behind each node that the next
/// line, a node too, follows at once.
pub open spec fn spaced_upto(lines: Seq<Seq<char>>, n: int) -> Seq<Seq<char>>
    decreases n,
{
    if n <= 0 {
        Seq::empty()
    } else if adjacent_nodes_at(lines, n - 1) {
        spaced_upto(lines, n - 1).push(lines[n - 1]).push(Seq::empty())
    } else {
        spaced_upto(lines, n - 1).push(lines[n - 1])
    }
}

/// Whether two nodes stand on adjacent lines somewhere among the first `n + 1` lines.
pub open spec fn has_adjacent_nodes(lines: Seq<Seq<char>>, n: int) -> bool {
    exists|i: int| 0 <= i < n && adjacent_nodes_at(lines, i)
}

/// The mindmap after its spacing was normalised: where two nodes stand on
/// adjacent lines, the text with an empty line between every such pair is
/// read anew; otherwise nothing changes.
pub open spec fn normalized(mm: MindmapView) -> MindmapView {
    if has_adjacent_nodes(mm.lines, mm.lines.len() as int) {
        MindmapView::parsed(
            mm.path,
            text_of_lines(spaced_upto(mm.lines, mm.lines.len() as int)),
        )
    } else {
        mm
    }
}

/// What was found and repaired by [`Mindmap::apply_fixes`].
#[derive(Debug, Clone, Default)]
pub struct FixReport {
    /// For each place where the blank lines between two nodes were set
    /// right, the index of the line behind the first of the two.
    pub spacing: Vec<usize>,
    /// The titles that named their type twice.
    pub title_fixes: Vec<TitleFix>,
}

/// One title that named its type twice, before and after the repair.
#[derive(Debug, Clone)]
pub struct TitleFix {
    pub id: u32,
    pub old: String,
    pub new: String,
}

/// The mathematical content of a [`TitleFix`].
pub struct TitleFixView {
    pub id: u32,
    pub old: Seq<char>,
    pub new: Seq<char>,
}

impl View for TitleFix {
    type V = TitleFixView;

    open spec fn view(&self) -> TitleFixView {
        TitleFixView { id: self.id, old: self.old@, new: self.new@ }
    }
}

/// The mathematical content of a [`FixReport`].
pub struct FixReportView {
    pub spacing: Seq<usize>,
    pub title_fixes: Seq<TitleFixView>,
}

impl View for FixReport {
    type V = FixReportView;

    open spec fn view(&self) -> FixReportView {
        FixReportView {
            spacing: self.spacing@,
            title_fixes: Seq::new(self.title_fixes@.len(), |i: int| self.title_fixes@[i]@),
        }
    }
}

impl FixReportView {
    /// Whether anything was repaired.
    pub open spec fn any_changes(self) -> bool {
        self.spacing.len() > 0 || self.title_fixes.len() > 0
    }
}

impl FixReport {
    /// Whether anything was repaired.
    pub fn any_changes(&self) -> (b: bool)
        ensures
            b == self@.any_changes(),
    {
        self.spacing.len() > 0 || self.title_fixes.len() > 0
    }
}

/// The index of the first line from `from` on that is not blank, or the
/// number of lines where only blank ones follow.
pub open spec fn next_content(lines: Seq<Seq<char>>, from: int) -> int
    decreases lines.len() - from,
{
    if 0 <= from < lines.len() && is_blank(lines[from]) {
        next_content(lines, from + 1)
    } else {
        from
    }
}

/// The next line with content stands at or behind the place the search starts from.
pub proof fn lemma_next_content_bounds(lines: Seq<Seq<char>>, from: int)
    requires
        0 <= from <= lines.len(),
    ensures
        from <= next_content(lines, from) <= lines.len(),
    decreases lines.len() - from,
{
    if from < lines.len() && is_blank(lines[from]) {
        lemma_next_content_bounds(lines, from + 1);
    }
}

/// Whether the line `i` is a node and the next line with content, at `next`, is one too.
pub open spec fn node_pair_at(lines: Seq<Seq<char>>, i: int, next: int) -> bool {
    0 <= i < lines.len() && is_node_line(lines[i]) && next < lines.len() && is_node_line(
        lines[next],
    )
}

/// Whether the blank lines between the node at `i` and the node at `next`
/// are set right: they are, unless there is exactly one.
pub open spec fn needs_blank(i: int, next: int) -> bool {
    next == i + 1 || next > i + 2
}

/// The lines from `i` on after the spacing repair. From a node whose next
/// line with content is a node too, the repair goes on at that node: the
/// blank lines between the two are left out, and one empty line is put in
/// unless there was exactly one blank line. Every other line is kept.
pub open spec fn respaced_from(lines: Seq<Seq<char>>, i: int) -> Seq<Seq<char>>
    decreases lines.len() - i,
{
    if i < 0 || i >= lines.len() {
        Seq::empty()
    } else {
        let next = next_content(lines, i + 1);
        proof {
            lemma_next_content_bounds(lines, i + 1);
        }
        if node_pair_at(lines, i, next) {
            if needs_blank(i, next) {
                seq![lines[i], Seq::empty()] + respaced_from(lines, next)
            } else {
                seq![lines[i]] + respaced_from(lines, next)
            }
        } else {
            seq![lines[i]] + respaced_from(lines, i + 1)
        }
    }
}

/// The places from `i` on where the spacing repair puts an empty line in.
pub open spec fn respaced_marks_from(lines: Seq<Seq<char>>, i: int) -> Seq<usize>
    decreases lines.len() - i,
{
    if i < 0 || i >= lines.len() {
        Seq::empty()
    } else {
        let next = next_content(lines, i + 1);
        proof {
            lemma_next_content_bounds(lines, i + 1);
        }
        if node_pair_at(lines, i, next) {
            if needs_blank(i, next) {
                seq![(i + 1) as usize] + respaced_marks_from(lines, next)
            } else {
                respaced_marks_from(lines, next)
            }
        } else {
            respaced_marks_from(lines, i + 1)
        }
    }
}

/// The mindmap after the spacing repair: read anew from the repaired lines
/// where an empty line was put in, otherwise as it was.
pub open spec fn respaced(mm: MindmapView) -> MindmapView {
    if respaced_marks_from(mm.lines, 0).len() > 0 {
        MindmapView::parsed(mm.path, text_of_lines(respaced_from(mm.lines, 0)))
    } else {
        mm
    }
}

/// The repaired form of a raw title that names its type twice, as in
/// `AE: AE: Auth`, which becomes `AE: Auth`; `None` for any other title.
pub open spec fn title_fix(raw_title: Seq<char>) -> Option<Seq<char>> {
    match first_match(raw_title, seq![':'], 0) {
        None => None,
        Some(colon) => {
            let typ = trim(raw_title.subrange(0, colon));
            let rest = trim_start(raw_title.subrange(colon + 1, raw_title.len() as int));
            if starts_with(rest, typ + seq![':']) {
                let title = trim_start(rest.subrange(typ.len() as int + 1, rest.len() as int));
                if title.len() == 0 {
                    Some(typ)
                } else {
                    Some(typ + ": "@ + title)
                }
            } else {
                None
            }
        },
    }
}

/// Computes [`title_fix`].
pub fn fix_title(raw_title: &str) -> (r: Option<String>)
    ensures
        match r {
            Some(fixed) => title_fix(raw_title@) == Some(fixed@),
            None => title_fix(raw_title@) is None,
        },
{
    let raw = chars_of(raw_title);
    let colon = match find_char(&raw, ':', 0) {
        Some(colon) => colon,
        None => {
            return None;
        },
    };
    let typ = trim_chars(&raw, 0, colon);
    let rest = trim_start_chars(&raw, colon + 1, raw.len());
    let mut prefix = slice_chars(&typ, 0, typ.len());
    prefix.push(':');
    assert(typ@.subrange(0, typ.len() as int) =~= typ@);
    assert(prefix@ =~= typ@ + seq![':']);
    if !has_at(&rest, &prefix, 0) {
        return None;
    }
    let title = trim_start_chars(&rest, prefix.len(), rest.len());
    let mut fixed = string_of(&typ);
    if title.len() > 0 {
        fixed.append(": ");
        fixed.append(string_of(&title).as_str());
    }
    assert(title.len() > 0 ==> fixed@ =~= typ@ + ": "@ + title@);
    Some(fixed)
}

/// The title repairs for the first `n` nodes, in their order.
pub open spec fn title_fixes_upto(nodes: Seq<NodeView>, n: int) -> Seq<TitleFixView>
    decreases n,
{
    if n <= 0 {
        Seq::empty()
    } else {
        match title_fix(nodes[n - 1].raw_title) {
            Some(new) => title_fixes_upto(nodes, n - 1).push(
                TitleFixView { id: nodes[n - 1].id, old: nodes[n - 1].raw_title, new },
            ),
            None => title_fixes_upto(nodes, n - 1),
        }
    }
}

/// The lines after the titles of the first `n` nodes were repaired.
pub open spec fn retitled_upto(lines: Seq<Seq<char>>, nodes: Seq<NodeView>, n: int) -> Seq<
    Seq<char>,
>
    decreases n,
{
    if n <= 0 {
        lines
    } else {
        match title_fix(nodes[n - 1].raw_title) {
            Some(new) => retitled_upto(lines, nodes, n - 1).update(
                nodes[n - 1].line_index as int,
                node_line(nodes[n - 1].id, new, nodes[n - 1].description),
            ),
            None => retitled_upto(lines, nodes, n - 1),
        }
    }
}

/// The mindmap after the title repair: read anew from the repaired lines
/// where a title was repaired, otherwise as it was.
pub open spec fn retitled(mm: MindmapView) -> MindmapView {
    if title_fixes_upto(mm.nodes, mm.nodes.len() as int).len() > 0 {
        MindmapView::parsed(
            mm.path,
            text_of_lines(retitled_upto(mm.lines, mm.nodes, mm.nodes.len() as int)),
        )
    } else {
        mm
    }
}

/// What [`Mindmap::apply_fixes`] reports for a mindmap.
pub open spec fn fix_report(mm: MindmapView) -> FixReportView {
    FixReportView {
        spacing: respaced_marks_from(mm.lines, 0),
        title_fixes: title_fixes_upto(respaced(mm).nodes, respaced(mm).nodes.len() as int),
    }
}

impl Mindmap {
    fn reparse(&mut self, lines: &Vec<String>)
        requires
            lines.len() > 0,
        ensures
            final(self)@ == MindmapView::parsed(old(self)@.path, text_of_lines(texts(lines@))),
            final(self).wf(),
    {
        let text = render_lines(lines);
        let fresh = Mindmap::from_string(text.as_str(), self.path.clone());
        self.lines = fresh.lines;
        self.nodes = fresh.nodes;
        self.by_id = fresh.by_id;
    }

    /// Puts an empty line between every two nodes that stand on adjacent
    /// lines, and reads the text anew if it put one in.
    pub fn normalize_spacing(&mut self) -> (r: Result<(), CommandError>)
        requires
            old(self).wf(),
        ensures
            r is Ok,
            final(self)@ == normalized(old(self)@),
            final(self).wf(),
    {
        let mut new_lines: Vec<String> = Vec::new();
        let mut changed = false;
        let mut i: usize = 0;
        let ghost lines = self@.lines;
        assert(texts(new_lines@) =~= spaced_upto(lines, 0));
        while i < self.lines.len()
            invariant
                i <= self.lines.len(),
                lines == self@.lines,
                lines.len() == self.lines.len(),
                texts(new_lines@) == spaced_upto(lines, i as int),
                changed == has_adjacent_nodes(lines, i as int),
                new_lines.len() >= i,
            decreases self.lines.len() - i,
        {
            let ghost before = texts(new_lines@);
            new_lines.push(self.lines[i].clone());
            assert(texts(new_lines@) =~= before.push(lines[i as int]));
            let adjacent = line_is_node(self.lines[i].as_str()) && i + 1 < self.lines.len()
                && line_is_node(self.lines[i + 1].as_str());
            assert(adjacent == adjacent_nodes_at(lines, i as int));
            if adjacent {
                let ghost with_line = texts(new_lines@);
                new_lines.push(String::new());
                assert(texts(new_lines@) =~= with_line.push(Seq::empty()));
                changed = true;
            }
            proof {
                if has_adjacent_nodes(lines, i + 1) && !adjacent {
                    let k = choose|k: int| 0 <= k < i + 1 && adjacent_nodes_at(lines, k);
                    assert(k < i);
                }
            }
            i = i + 1;
        }
        if changed {
            self.reparse(&new_lines);
        }
        Ok(())
    }
}

/// A copy of a list of lines.
pub fn clone_lines(lines: &Vec<String>) -> (copy: Vec<String>)
    ensures
        texts(copy@) == texts(lines@),
        copy.len() == lines.len(),
{
    let mut copy: Vec<String> = Vec::new();
    let mut i: usize = 0;
    while i < lines.len()
        invariant
            i <= lines.len(),
            copy.len() == i,
            texts(copy@) == texts(lines@).subrange(0, i as int),
        decreases lines.len() - i,
    {
        let ghost before = texts(copy@);
        copy.push(lines[i].clone());
        assert(texts(copy@) =~= before.push(lines@[i as int]@));
        assert(texts(copy@) =~= texts(lines@).subrange(0, i + 1));
        i = i + 1;
    }
    assert(texts(lines@).subrange(0, i as int) =~= texts(lines@));
    copy
}

impl Mindmap {
    fn fix_spacing(&mut self) -> (spacing: Vec<usize>)
        requires
            old(self).wf(),
        ensures
            spacing@ == respaced_marks_from(old(self)@.lines, 0),
            final(self)@ == respaced(old(self)@),
            final(self).wf(),
    {
        let mut new_lines: Vec<String> = Vec::new();
        let mut spacing: Vec<usize> = Vec::new();
        let mut i: usize = 0;
        let ghost lines = self@.lines;
        assert(texts(new_lines@) =~= Seq::<Seq<char>>::empty());
        while i < self.lines.len()
            invariant
                i <= self.lines.len(),
                lines == self@.lines,
                lines.len() == self.lines.len(),
                self@ == old(self)@,
                texts(new_lines@) + respaced_from(lines, i as int) == respaced_from(lines, 0),
                spacing@ + respaced_marks_from(lines, i as int) == respaced_marks_from(lines, 0),
                spacing.len() > 0 ==> new_lines.len() > 0,
            decreases self.lines.len() - i,
        {
            let ghost done = texts(new_lines@);
            let ghost marked = spacing@;
            new_lines.push(self.lines[i].clone());
            assert(texts(new_lines@) =~= done.push(lines[i as int]));
            let mut next: usize = i + 1;
            let mut pair = false;
            if line_is_node(self.lines[i].as_str()) {
                while next < self.lines.len() && line_is_blank(self.lines[next].as_str())
                    invariant
                        i + 1 <= next <= self.lines.len(),
                        lines == self@.lines,
                        lines.len() == self.lines.len(),
                        next_content(lines, next as int) == next_content(lines, i + 1),
                    decreases self.lines.len() - next,
                {
                    next = next + 1;
                }
                pair = next < self.lines.len() && line_is_node(self.lines[next].as_str());
            }
            assert(pair == node_pair_at(lines, i as int, next_content(lines, i + 1)));
            if pair {
                if next == i + 1 || next > i + 2 {
                    let ghost with_line = texts(new_lines@);
                    new_lines.push(String::new());
                    spacing.push(i + 1);
                    assert(texts(new_lines@) =~= with_line.push(Seq::empty()));
                    assert(texts(new_lines@) + respaced_from(lines, next as int) =~= done
                        + respaced_from(lines, i as int));
                    assert(spacing@ + respaced_marks_from(lines, next as int) =~= marked
                        + respaced_marks_from(lines, i as int));
                } else {
                    assert(texts(new_lines@) + respaced_from(lines, next as int) =~= done
                        + respaced_from(lines, i as int));
                }
                i = next;
            } else {
                assert(texts(new_lines@) + respaced_from(lines, i + 1) =~= done + respaced_from(
                    lines,
                    i as int,
                ));
                i = i + 1;
            }
        }
        proof {
            assert(texts(new_lines@) + Seq::<Seq<char>>::empty() =~= texts(new_lines@));
            assert(spacing@ + Seq::<usize>::empty() =~= spacing@);
        }
        if spacing.len() > 0 {
            self.reparse(&new_lines);
        }
        spacing
    }

    fn fix_titles(&mut self) -> (fixes: Vec<TitleFix>)
        requires
            old(self).wf(),
        ensures
            Seq::new(fixes@.len(), |i: int| fixes@[i]@) == title_fixes_upto(
                old(self)@.nodes,
                old(self)@.nodes.len() as int,
            ),
            final(self)@ == retitled(old(self)@),
            final(self).wf(),
    {
        let mut new_lines = clone_lines(&self.lines);
        let mut fixes: Vec<TitleFix> = Vec::new();
        let mut k: usize = 0;
        let ghost lines = self@.lines;
        let ghost nodes = self@.nodes;
        assert(Seq::new(fixes@.len(), |i: int| fixes@[i]@) =~= title_fixes_upto(nodes, 0));
        while k < self.nodes.len()
            invariant
                k <= self.nodes.len(),
                self@ == old(self)@,
                self.wf(),
                lines == self@.lines,
                nodes == self@.nodes,
                nodes.len() == self.nodes.len(),
                new_lines.len() == self.lines.len(),
                lines.len() == self.lines.len(),
                texts(new_lines@) == retitled_upto(lines, nodes, k as int),
                Seq::new(fixes@.len(), |i: int| fixes@[i]@) == title_fixes_upto(nodes, k as int),
            decreases self.nodes.len() - k,
        {
            let node = &self.nodes[k];
            assert(nodes[k as int] == node@);
            assert(nodes[k as int].line_index < lines.len());
            match fix_title(node.raw_title.as_str()) {
                Some(new) => {
                    let ghost before = Seq::new(fixes@.len(), |i: int| fixes@[i]@);
                    let ghost lines_before = texts(new_lines@);
                    let line = render_node_line(node.id, new.as_str(), node.description.as_str());
                    let ghost line_text = line@;
                    let fix = TitleFix { id: node.id, old: node.raw_title.clone(), new };
                    let ghost fix_view = fix@;
                    fixes.push(fix);
                    let at = node.line_index;
                    new_lines[at] = line;
                    assert(Seq::new(fixes@.len(), |i: int| fixes@[i]@) =~= before.push(fix_view));
                    assert(texts(new_lines@) =~= lines_before.update(at as int, line_text));
                },
                None => {},
            }
            k = k + 1;
        }
        if fixes.len() > 0 {
            if new_lines.len() > 0 {
                self.reparse(&new_lines);
            }
        }
        fixes
    }

    /// Repairs the blank lines between nodes, then the titles that name
    /// their type twice, and reports what it repaired; see [`respaced`] and
    /// [`retitled`].
    pub fn apply_fixes(&mut self) -> (r: Result<FixReport, CommandError>)
        requires
            old(self).wf(),
        ensures
            r matches Ok(report) && report@ == fix_report(old(self)@),
            final(self)@ == retitled(respaced(old(self)@)),
            final(self).wf(),
    {
        let spacing = self.fix_spacing();
        let title_fixes = self.fix_titles();
        let report = FixReport { spacing, title_fixes };
        assert(report@.title_fixes =~= fix_report(old(self)@).title_fixes);
        Ok(report)
    }
}

} // verus!
