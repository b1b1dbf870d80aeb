//! The commands of the program as values, and the decisions that the
//! program takes before and after it runs one.

use vstd::prelude::*;
use vstd::string::*;
use crate::fixes::{FixReport, FixReportView, TitleFixView};
use crate::mindmap::{Mindmap, MindmapView};
use crate::node::NodeView;
use crate::text::{decimal, push_decimal, texts};

verus! {

/// How results are written.
#[derive(Debug, Clone, Copy, PartialEq, Eq, Structural)]
pub enum OutputFormat {
    /// For a person to read.
    Default,
    /// As JSON.
    Json,
}

/// One command with its arguments.
#[derive(Debug, Clone)]
#[allow(inconsistent_fields)]
pub enum Commands {
    Show { id: u32 },
    List {
        typ: Option<String>,
        grep: Option<String>,
        case_sensitive: bool,
        exact_match: bool,
        regex_mode: bool,
    },
    Refs { id: u32 },
    Links { id: u32 },
    Search { query: String, case_sensitive: bool, exact_match: bool, regex_mode: bool },
    Add { typ: Option<String>, title: Option<String>, desc: Option<String>, strict: bool },
    Deprecate { id: u32, to: u32 },
    Edit { id: u32 },
    Patch {
        id: u32,
        typ: Option<String>,
        title: Option<String>,
        desc: Option<String>,
        strict: bool,
    },
    Put { id: u32, line: String, strict: bool },
    Verify { id: u32 },
    Delete { id: u32, force: bool },
    Lint { fix: bool },
    Orphans { with_descriptions: bool },
    Type { of: Option<String> },
    Relationships { id: u32 },
    Graph { id: u32 },
    Prime,
    Batch { input: Option<String>, format: String, dry_run: bool, fix: bool },
}

/// What the program was asked to do.
#[derive(Debug, Clone)]
pub struct Cli {
    /// The path of the mindmap file; `./MINDMAP.md` where none is given.
    pub file: Option<String>,
    /// How results are written.
    pub output: OutputFormat,
    /// The command to run.
    pub command: Commands,
}

impl Commands {
    /// The name under which a command that writes the file refuses a
    /// mindmap from standard input; `None` for a command that only reads.
    pub open spec fn writes_as(&self) -> Option<Seq<char>> {
        match self {
            Commands::Add { .. } => Some("add"@),
            Commands::Deprecate { .. } => Some("deprecate"@),
            Commands::Edit { .. } => Some("edit"@),
            Commands::Patch { .. } => Some("patch"@),
            Commands::Put { .. } => Some("put"@),
            Commands::Verify { .. } => Some("verify"@),
            Commands::Delete { .. } => Some("delete"@),
            Commands::Lint { fix } => if *fix {
                Some("lint --fix"@)
            } else {
                None
            },
            Commands::Batch { .. } => Some("batch"@),
            _ => None,
        }
    }

    /// Computes [`Commands::writes_as`].
    pub fn write_name(&self) -> (r: Option<&'static str>)
        ensures
            crate::text::text_or_none(r) == self.writes_as(),
    {
        match self {
            Commands::Add { .. } => Some("add"),
            Commands::Deprecate { .. } => Some("deprecate"),
            Commands::Edit { .. } => Some("edit"),
            Commands::Patch { .. } => Some("patch"),
            Commands::Put { .. } => Some("put"),
            Commands::Verify { .. } => Some("verify"),
            Commands::Delete { .. } => Some("delete"),
            Commands::Lint { fix } => if *fix {
                Some("lint --fix")
            } else {
                None
            },
            Commands::Batch { .. } => Some("batch"),
            _ => None,
        }
    }
}

/// Why a command may not run on a mindmap with the path `path`: it writes
/// the file, and the mindmap came from standard input, which has the path `-`.
pub open spec fn write_refusal(command: Commands, path: Seq<char>) -> Option<Seq<char>> {
    match command.writes_as() {
        Some(name) => if path == "-"@ {
            Some(
                "Cannot "@ + name
                    + ": mindmap was loaded from stdin ('-'); use --file <path> to save changes"@,
            )
        } else {
            None
        },
        None => None,
    }
}

/// Decides whether `command` may run on a mindmap with the path `path`;
/// gives the message of the refusal where it may not.
pub fn refuse_write(command: &Commands, path: &str) -> (r: Option<String>)
    ensures
        crate::text::option_text(r) == write_refusal(*command, path@),
{
    match command.write_name() {
        Some(name) => {
            if path.to_owned() == String::from_str("-") {
                let mut message = String::from_str("Cannot ");
                message.append(name);
                message.append(
                    ": mindmap was loaded from stdin ('-'); use --file <path> to save changes",
                );
                Some(message)
            } else {
                None
            }
        },
        None => None,
    }
}

/// Whether results are written with colours: only in the default format,
/// and then as the override says, `0` for no and `1` for yes; without an
/// override, exactly on an interactive terminal.
pub open spec fn pretty_output(
    output: OutputFormat,
    env_override: Option<Seq<char>>,
    interactive: bool,
) -> bool {
    output == OutputFormat::Default && (if env_override == Some("0"@) {
        false
    } else if env_override == Some("1"@) {
        true
    } else {
        interactive
    })
}

/// Decides [`pretty_output`].
pub fn use_pretty_output(output: OutputFormat, env_override: Option<&str>, interactive: bool) -> (b:
    bool)
    ensures
        b == pretty_output(output, crate::text::text_or_none(env_override), interactive),
{
    let wanted = match env_override {
        Some(value) => {
            let value = value.to_owned();
            if value == String::from_str("0") {
                false
            } else if value == String::from_str("1") {
                true
            } else {
                interactive
            }
        },
        None => interactive,
    };
    match output {
        OutputFormat::Default => wanted,
        OutputFormat::Json => false,
    }
}

/// The least id among the first `n` nodes; `u32::MAX` where there is none.
pub open spec fn least_id(nodes: Seq<NodeView>, n: int) -> u32
    decreases n,
{
    if n <= 0 {
        u32::MAX
    } else if nodes[n - 1].id < least_id(nodes, n - 1) {
        nodes[n - 1].id
    } else {
        least_id(nodes, n - 1)
    }
}

/// The greatest id among the first `n` nodes; 0 where there is none.
pub open spec fn greatest_id(nodes: Seq<NodeView>, n: int) -> u32
    decreases n,
{
    if n <= 0 {
        0
    } else if nodes[n - 1].id > greatest_id(nodes, n - 1) {
        nodes[n - 1].id
    } else {
        greatest_id(nodes, n - 1)
    }
}

/// The range of ids in use, if there is a node.
pub fn id_range(mm: &Mindmap) -> (r: Option<(u32, u32)>)
    ensures
        match r {
            Some((least, greatest)) => mm@.nodes.len() > 0 && least == least_id(
                mm@.nodes,
                mm@.nodes.len() as int,
            ) && greatest == greatest_id(mm@.nodes, mm@.nodes.len() as int),
            None => mm@.nodes.len() == 0,
        },
{
    if mm.nodes.len() == 0 {
        return None;
    }
    let mut least: u32 = u32::MAX;
    let mut greatest: u32 = 0;
    let mut i: usize = 0;
    while i < mm.nodes.len()
        invariant
            i <= mm.nodes.len(),
            least == least_id(mm@.nodes, i as int),
            greatest == greatest_id(mm@.nodes, i as int),
        decreases mm.nodes.len() - i,
    {
        let id = mm.nodes[i].id;
        if id < least {
            least = id;
        }
        if id > greatest {
            greatest = id;
        }
        i = i + 1;
    }
    Some((least, greatest))
}

/// What is said when the node `id` is asked for and does not exist: that
/// it was not found, and which ids are in use. `advice` adds where to look
/// or how to begin.
pub open spec fn not_found_text(mm: MindmapView, id: u32, advice: bool) -> Seq<char> {
    let head = "Node ["@ + decimal(id as nat) + "] not found"@;
    if mm.nodes.len() > 0 {
        head + " (Valid node IDs: "@ + decimal(least_id(mm.nodes, mm.nodes.len() as int) as nat)
            + " to "@ + decimal(greatest_id(mm.nodes, mm.nodes.len() as int) as nat) + ")"@ + (
        if advice {
            ". Use `mindmap-cli list` to see all nodes."@
        } else {
            Seq::empty()
        })
    } else if advice {
        head + " No nodes exist yet. Use `mindmap-cli add` to create one."@
    } else {
        head + " No nodes exist."@
    }
}

/// Builds [`not_found_text`].
pub fn not_found_message(mm: &Mindmap, id: u32, advice: bool) -> (r: String)
    ensures
        r@ == not_found_text(mm@, id, advice),
{
    let mut r = String::from_str("Node [");
    push_decimal(&mut r, id as u64);
    r.append("] not found");
    match id_range(mm) {
        Some((least, greatest)) => {
            r.append(" (Valid node IDs: ");
            push_decimal(&mut r, least as u64);
            r.append(" to ");
            push_decimal(&mut r, greatest as u64);
            r.append(")");
            if advice {
                r.append(". Use `mindmap-cli list` to see all nodes.");
            }
            assert(r@ =~= not_found_text(mm@, id, advice));
        },
        None => {
            if advice {
                r.append(" No nodes exist yet. Use `mindmap-cli add` to create one.");
            } else {
                r.append(" No nodes exist.");
            }
        },
    }
    r
}

/// The warning for one repaired title.
pub open spec fn title_fix_warning(fix: TitleFixView) -> Seq<char> {
    "Auto-fixed title for node "@ + decimal(fix.id as nat) + ": '"@ + fix.old + "' -> '"@ + fix.new
        + "'"@
}

/// The warnings for the first `n` repaired titles.
pub open spec fn title_fix_warnings(fixes: Seq<TitleFixView>, n: int) -> Seq<Seq<char>>
    decreases n,
{
    if n <= 0 {
        Seq::empty()
    } else {
        title_fix_warnings(fixes, n - 1).push(title_fix_warning(fixes[n - 1]))
    }
}

/// What a batch says of the repairs it made: how many empty lines it put
/// in, if any, and each repaired title.
pub open spec fn fix_warnings_text(report: FixReportView) -> Seq<Seq<char>> {
    (if report.spacing.len() > 0 {
        seq!["Auto-fixed: inserted "@ + decimal(report.spacing.len()) + " spacing lines"@]
    } else {
        Seq::empty()
    }) + title_fix_warnings(report.title_fixes, report.title_fixes.len() as int)
}

/// Builds [`fix_warnings_text`].
pub fn fix_warnings(report: &FixReport) -> (out: Vec<String>)
    ensures
        texts(out@) == fix_warnings_text(report@),
{
    let mut out: Vec<String> = Vec::new();
    if report.spacing.len() > 0 {
        let mut line = String::from_str("Auto-fixed: inserted ");
        push_decimal(&mut line, report.spacing.len() as u64);
        line.append(" spacing lines");
        out.push(line);
    }
    let ghost head = texts(out@);
    let ghost fixes = report@.title_fixes;
    let mut i: usize = 0;
    assert(texts(out@) =~= head + title_fix_warnings(fixes, 0));
    while i < report.title_fixes.len()
        invariant
            i <= report.title_fixes.len(),
            fixes == report@.title_fixes,
            texts(out@) == head + title_fix_warnings(fixes, i as int),
        decreases report.title_fixes.len() - i,
    {
        let fix = &report.title_fixes[i];
        assert(fixes[i as int] == fix@);
        let ghost before = texts(out@);
        let mut line = String::from_str("Auto-fixed title for node ");
        push_decimal(&mut line, fix.id as u64);
        line.append(": '");
        line.append(fix.old.as_str());
        line.append("' -> '");
        line.append(fix.new.as_str());
        line.append("'");
        out.push(line);
        assert(texts(out@) =~= before.push(title_fix_warning(fix@)));
        assert(texts(out@) =~= head + title_fix_warnings(fixes, i + 1));
        i = i + 1;
    }
    assert(texts(out@) =~= fix_warnings_text(report@));
    out
}

} // verus!
