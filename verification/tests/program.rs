use mindmap_cli::cli::{
    fix_warnings, id_range, not_found_message, refuse_write, use_pretty_output, Commands,
    OutputFormat,
};
use mindmap_cli::editing::{add_edited_line, cmd_add_editor, cmd_edit, replace_with_edited};
use mindmap_cli::error::CommandError;
use mindmap_cli::mindmap::Mindmap;
use mindmap_cli::node::{Node, Reference};
use mindmap_cli::ui::{
    external_refs, internal_ids, Paint, Piece, PlainPrinter, PrettyPrinter, Printer,
};
use std::cell::RefCell;

fn load(content: &str) -> Mindmap {
    Mindmap::from_string(content, String::from("MINDMAP.md"))
}

fn lines_of(pieces: &[Piece]) -> Vec<(Paint, String, bool)> {
    pieces.iter().map(|p| (p.paint, p.text.clone(), p.end_line)).collect()
}

fn sample_node() -> Node {
    Node {
        id: 1,
        raw_title: "AE: Test".to_string(),
        description: "desc".to_string(),
        references: vec![Reference::Internal(2), Reference::External(5, "./o.md".to_string())],
        line_index: 0,
    }
}

#[test]
fn pretty_printer_smoke() {
    let p = PrettyPrinter::new().unwrap();
    let node = sample_node();
    let shown = p.show(&node, &vec![3], &node.references);
    assert_eq!(
        lines_of(&shown),
        vec![
            (Paint::Green, "[1] ".to_string(), false),
            (Paint::Bold, "AE: Test".to_string(), true),
            (Paint::Plain, "desc".to_string(), true),
            (Paint::Blue, "← Referring nodes:".to_string(), false),
            (Paint::Blue, " [3]".to_string(), true),
            (Paint::Magenta, "→ References:".to_string(), false),
            (Paint::Magenta, " [2]".to_string(), true),
        ]
    );
    assert_eq!(p.list(&vec!["one".to_string(), "two".to_string()]).len(), 2);
    assert_eq!(p.refs(&vec!["ref".to_string()])[0].text, "ref");
    let links = p.links(1, &vec![Reference::Internal(2)]);
    assert_eq!(links.len(), 1);
    assert_eq!(links[0].text, "→ [1] refers to: [2]");
    assert!(p.orphans(&Vec::<String>::new()).is_empty());
    assert_eq!(p.orphans(&vec!["4".to_string()])[0].text, "[4]");
    assert!(p.orphans(&vec!["No orphans".to_string()]).is_empty());
}

#[test]
fn plain_printer_smoke() {
    let p = PlainPrinter::new().unwrap();
    let node = sample_node();
    let shown = p.show(&node, &vec![3, 4], &node.references);
    assert_eq!(
        lines_of(&shown),
        vec![
            (Paint::Plain, "[1] AE: Test".to_string(), true),
            (Paint::Plain, "desc".to_string(), true),
            (Paint::Plain, "← Referring nodes: [3, 4]".to_string(), true),
            (Paint::Plain, "→ References: [2]".to_string(), true),
        ]
    );
    assert_eq!(lines_of(&p.show(&node, &[], &[])).len(), 2);
    assert_eq!(p.list(&vec!["one".to_string(), "two".to_string()])[1].text, "two");
    assert_eq!(p.refs(&vec!["ref".to_string()]).len(), 1);
    let links = p.links(1, &node.references);
    assert_eq!(links.len(), 2);
    assert_eq!(links[0].text, "→ [1] refers to: [2]");
    assert_eq!(links[1].text, "[1] external refs: ");
    assert_eq!(links[1].quoted, vec!["[5] in ./o.md".to_string()]);
    assert!(p.links(1, &[]).is_empty());
    assert!(p.orphans(&Vec::<String>::new()).is_empty());
    assert_eq!(p.orphans(&vec!["4".to_string(), "No orphans".to_string()])[0].text, "4");
    assert_eq!(internal_ids(&node.references), vec![2]);
    assert_eq!(external_refs(&node.references), vec!["[5] in ./o.md".to_string()]);
}

#[test]
fn commands_that_write_refuse_standard_input() {
    let writing = [
        (Commands::Add { typ: None, title: None, desc: None, strict: false }, "add"),
        (Commands::Deprecate { id: 1, to: 2 }, "deprecate"),
        (Commands::Edit { id: 1 }, "edit"),
        (Commands::Patch { id: 1, typ: None, title: None, desc: None, strict: false }, "patch"),
        (Commands::Put { id: 1, line: String::new(), strict: false }, "put"),
        (Commands::Verify { id: 1 }, "verify"),
        (Commands::Delete { id: 1, force: false }, "delete"),
        (Commands::Lint { fix: true }, "lint --fix"),
        (Commands::Batch { input: None, format: "lines".to_string(), dry_run: true, fix: false }, "batch"),
    ];
    for (command, name) in writing {
        assert_eq!(command.write_name(), Some(name));
        assert_eq!(
            refuse_write(&command, "-"),
            Some(format!(
                "Cannot {}: mindmap was loaded from stdin ('-'); use --file <path> to save changes",
                name
            ))
        );
        assert_eq!(refuse_write(&command, "MINDMAP.md"), None);
    }
    let reading = [
        Commands::Show { id: 1 },
        Commands::Refs { id: 1 },
        Commands::Links { id: 1 },
        Commands::Lint { fix: false },
        Commands::Orphans { with_descriptions: false },
        Commands::Type { of: None },
        Commands::Relationships { id: 1 },
        Commands::Graph { id: 1 },
        Commands::Prime,
    ];
    for command in reading {
        assert_eq!(refuse_write(&command, "-"), None);
    }
}

#[test]
fn colours_only_for_people() {
    assert!(use_pretty_output(OutputFormat::Default, None, true));
    assert!(!use_pretty_output(OutputFormat::Default, None, false));
    assert!(use_pretty_output(OutputFormat::Default, Some("1"), false));
    assert!(!use_pretty_output(OutputFormat::Default, Some("0"), true));
    assert!(use_pretty_output(OutputFormat::Default, Some("yes"), true));
    assert!(!use_pretty_output(OutputFormat::Default, Some("yes"), false));
    assert!(!use_pretty_output(OutputFormat::Json, Some("1"), true));
}

#[test]
fn a_missing_node_is_reported_with_the_ids_in_use() {
    let mm = load("[7] **A: a** - x\n[3] **A: b** - x\n[12] **A: c** - x\n");
    assert_eq!(id_range(&mm), Some((3, 12)));
    assert_eq!(
        not_found_message(&mm, 99, true),
        "Node [99] not found (Valid node IDs: 3 to 12). Use `mindmap-cli list` to see all nodes."
    );
    assert_eq!(not_found_message(&mm, 99, false), "Node [99] not found (Valid node IDs: 3 to 12)");
    let empty = load("no nodes\n");
    assert_eq!(id_range(&empty), None);
    assert_eq!(
        not_found_message(&empty, 1, true),
        "Node [1] not found No nodes exist yet. Use `mindmap-cli add` to create one."
    );
    assert_eq!(not_found_message(&empty, 1, false), "Node [1] not found No nodes exist.");
}

#[test]
fn repairs_are_reported_as_warnings() {
    let mut mm = load("[1] **WF: WF: Flow** - a\n[2] **AE: AE: B** - b\n[3] **X: c** - c\n");
    let report = mm.apply_fixes().unwrap();
    assert_eq!(
        fix_warnings(&report),
        vec![
            "Auto-fixed: inserted 2 spacing lines".to_string(),
            "Auto-fixed title for node 1: 'WF: WF: Flow' -> 'WF: Flow'".to_string(),
            "Auto-fixed title for node 2: 'AE: AE: B' -> 'AE: B'".to_string(),
        ]
    );
    let report = mm.apply_fixes().unwrap();
    assert!(fix_warnings(&report).is_empty());
}

#[test]
fn a_node_is_added_through_the_editor() {
    let mut mm = load("[1] **AE: One** - first\n");
    let offered: RefCell<String> = RefCell::new(String::new());
    let id = cmd_add_editor(
        &mut mm,
        |template: &str| {
            *offered.borrow_mut() = template.to_string();
            Some(String::from("\n  [2] **AE: Two** - see [1]  \n\n"))
        },
        true,
    )
    .unwrap();
    assert_eq!(id, 2);
    assert_eq!(offered.into_inner(), "[2] **TYPE: Title** - description");
    assert_eq!(mm.lines, vec!["[1] **AE: One** - first", "[2] **AE: Two** - see [1]"]);
    let node = mm.get_node(2).unwrap();
    assert_eq!(node.line_index, 1);
    assert_eq!(node.references, vec![Reference::Internal(1)]);
}

#[test]
fn what_the_editor_leaves_is_checked() {
    let mut mm = load("[1] **AE: One** - first\n");
    let cases = [
        ("", "No content written in editor"),
        (" \n\t\n", "No content written in editor"),
        ("[2] **A: a** - b\n[3] **A: a** - b\n", "Expected exactly one node line in editor; found multiple lines"),
        ("not a node\n", "Line does not match node format"),
        ("[3] **A: a** - b\n", "Added line id changed; expected [2]"),
        ("[2] **A: a** - see [9]\n", "ADD strict: reference to missing node 9"),
    ];
    for (edited, message) in cases {
        assert_eq!(add_edited_line(&mut mm, edited, true).unwrap_err().message(), message);
        assert_eq!(mm.lines.len(), 1);
    }
    assert_eq!(add_edited_line(&mut mm, "[2] **A: a** - see [9]\n", false).unwrap(), 2);
    match cmd_add_editor(&mut mm, |_t: &str| None, false) {
        Err(CommandError::EditorFailed) => {}
        _ => panic!("expected EditorFailed"),
    }
}

#[test]
fn a_node_is_edited_in_the_editor() {
    let mut mm = load("head\n[1] **AE: One** - first\n[2] **AE: Two** - second\n");
    let offered: RefCell<String> = RefCell::new(String::new());
    cmd_edit(&mut mm, 2, |line: &str| {
        *offered.borrow_mut() = line.to_string();
        Some(String::from("  [2] **AE: Deux** - see [1]\nignored\n"))
    })
    .unwrap();
    assert_eq!(offered.into_inner(), "[2] **AE: Two** - second");
    assert_eq!(mm.lines[2], "[2] **AE: Deux** - see [1]");
    assert_eq!(mm.get_node(2).unwrap().raw_title, "AE: Deux");
    assert_eq!(mm.get_node(2).unwrap().references, vec![Reference::Internal(1)]);
    assert_eq!(mm.get_node(2).unwrap().line_index, 2);

    assert_eq!(
        replace_with_edited(&mut mm, 2, "[1] **AE: x** - y\n").unwrap_err().message(),
        "Cannot change node ID"
    );
    assert_eq!(
        replace_with_edited(&mut mm, 2, "").unwrap_err().message(),
        "Line does not match node format"
    );
    assert_eq!(
        cmd_edit(&mut mm, 9, |_l: &str| Some(String::new())).unwrap_err().message(),
        "Node [9] not found"
    );
    assert_eq!(
        cmd_edit(&mut mm, 1, |_l: &str| None).unwrap_err().message(),
        "Editor exited with non-zero status"
    );
    assert_eq!(mm.lines[1], "[1] **AE: One** - first");
}
