use mindmap_cli::commands::{
    cmd_add, cmd_delete, cmd_deprecate, cmd_links, cmd_patch, cmd_put, cmd_refs,
    cmd_relationships, cmd_show, cmd_verify, cmd_verify_on,
};
use mindmap_cli::error::{CommandError, StrictCommand};
use mindmap_cli::fixes::{render_lines, FixReport};
use mindmap_cli::mindmap::Mindmap;
use mindmap_cli::node::{extract_refs_from_str, parse_node_line, LineError, Node, Reference};
use mindmap_cli::queries::{cmd_graph, cmd_lint, cmd_list, cmd_orphans, cmd_types};
use mindmap_cli::text::NumberError;
use std::cell::RefCell;
use std::io::Read;

fn load(content: &str) -> Mindmap {
    Mindmap::from_string(content, String::from("MINDMAP.md"))
}

/// Saves into memory and returns what was written.
fn save(mm: &mut Mindmap) -> String {
    let written: RefCell<Option<String>> = RefCell::new(None);
    mm.save(|_path: &str, text: &str| {
        *written.borrow_mut() = Some(text.to_string());
        true
    })
    .unwrap();
    written.into_inner().unwrap()
}

#[test]
fn test_parse_nodes() {
    let mm = load("Header line\n[1] **AE: A** - refers to [2]\nSome note\n[2] **AE: B** - base\n");
    assert_eq!(mm.nodes.len(), 2);
    assert!(mm.by_id.contains_key(&1));
    assert!(mm.by_id.contains_key(&2));
    let n1 = mm.get_node(1).unwrap();
    assert_eq!(n1.references, vec![Reference::Internal(2)]);
    assert_eq!(n1.line_index, 1);
    assert_eq!(mm.lines.len(), 4);
}

#[test]
fn test_save_atomic() {
    let mut mm = load("[1] **AE: A** - base\n");
    // append a node line
    let id = mm.next_id();
    mm.lines.push(format!("[{}] **AE: C** - new\n", id));
    // reflect node
    let node = Node {
        id,
        raw_title: "AE: C".to_string(),
        description: "new".to_string(),
        references: vec![],
        line_index: mm.lines.len() - 1,
    };
    mm.by_id.insert(id, mm.nodes.len());
    mm.nodes.push(node);

    let content = save(&mut mm);
    assert!(content.contains("AE: C"));
}

#[test]
fn test_lint_syntax_and_duplicates_and_orphan() {
    let mm = load(
        "[bad] not a node\n[1] **AE: A** - base\n[1] **AE: Adup** - dup\n[2] **AE: Orphan** - lonely\n",
    );
    let warnings = cmd_lint(&mm, |_p: &str| true).unwrap();
    // Expect at least syntax and duplicate warnings from lint
    let joined = warnings.join("\n");
    assert!(joined.contains("Syntax"));
    assert!(joined.contains("Duplicate ID"));
    assert_eq!(
        warnings,
        vec![
            "Syntax: line 1 starts with '[' but does not match node format".to_string(),
            "Duplicate ID: node 1 appears on lines [2, 3]".to_string(),
        ]
    );

    let orphans = cmd_orphans(&mm, false).unwrap();
    let joined_o = orphans.join("\n");
    // expect node id 2 to be reported as orphan
    assert!(joined_o.contains("2"));
}

#[test]
fn test_put_and_patch_basic() {
    let mut mm = load("[1] **AE: One** - first\n[2] **AE: Two** - second\n");
    // patch title only for node 1
    cmd_patch(&mut mm, 1, Some("AE"), Some("OneNew"), None, false).unwrap();
    assert_eq!(mm.get_node(1).unwrap().raw_title, "AE: OneNew");
    assert_eq!(mm.lines[0], "[1] **AE: OneNew** - first");

    // put full line for node 2
    let new_line = "[2] **DR: Replaced** - replaced desc [1]";
    cmd_put(&mut mm, 2, new_line, false).unwrap();
    assert_eq!(mm.get_node(2).unwrap().raw_title, "DR: Replaced");
    assert_eq!(mm.get_node(2).unwrap().references, vec![Reference::Internal(1)]);
    assert_eq!(mm.lines[1], new_line);
}

#[test]
fn test_cmd_show() {
    let mm = load("[1] **AE: One** - first\n[2] **AE: Two** - refers [1]\n");
    let out = cmd_show(&mm, 1);
    assert!(out.contains("[1] **AE: One**"));
    assert!(out.contains("Referred to by: [2]"));
    assert_eq!(out, "[1] **AE: One** - first\nReferred to by: [2]");
    assert_eq!(cmd_show(&mm, 2), "[2] **AE: Two** - refers [1]");
}

#[test]
fn test_cmd_refs() {
    let mm = load("[1] **AE: One** - first\n[2] **AE: Two** - refers [1]\n");
    let refs = cmd_refs(&mm, 1);
    assert_eq!(refs.len(), 1);
    assert!(refs[0].contains("[2] **AE: Two**"));
}

#[test]
fn test_cmd_links() {
    let mm = load("[1] **AE: One** - first\n[2] **AE: Two** - refers [1]\n");
    let links = cmd_links(&mm, 2);
    assert_eq!(links, Some(vec![Reference::Internal(1)]));
}

#[test]
fn test_cmd_search() {
    let mm = load("[1] **AE: One** - first\n[2] **AE: Two** - second\n");
    // Search is a listing with a text filter
    let results = cmd_list(&mm, None, Some("first"), false, false, false);
    assert_eq!(results.len(), 1);
    assert!(results[0].contains("[1] **AE: One**"));
}

#[test]
fn test_search_list_grep_equivalence() {
    let mm = load(
        "[1] **AE: One** - first node\n[2] **WF: Two** - second node\n[3] **DR: Three** - third\n",
    );
    // Both should produce the same output
    let search_results = cmd_list(&mm, None, Some("node"), false, false, false);
    let list_grep_results = cmd_list(&mm, None, Some("node"), false, false, false);
    assert_eq!(search_results, list_grep_results);
    assert_eq!(search_results.len(), 2);
}

#[test]
fn test_cmd_add() {
    let mut mm = load("[1] **AE: One** - first\n");
    let id = cmd_add(&mut mm, "AE", "Two", "second").unwrap();
    assert_eq!(id, 2);
    assert_eq!(mm.nodes.len(), 2);
    let node = mm.get_node(2).unwrap();
    assert_eq!(node.raw_title, "AE: Two");
    assert_eq!(mm.lines[1], "[2] **AE: Two** - second");
}

#[test]
fn test_cmd_deprecate() {
    let mut mm = load("[1] **AE: One** - first\n[2] **AE: Two** - second\n");
    cmd_deprecate(&mut mm, 1, 2).unwrap();
    let node = mm.get_node(1).unwrap();
    assert!(node.raw_title.starts_with("[DEPRECATED → 2]"));
    assert_eq!(mm.lines[0], "[1] **[DEPRECATED → 2] AE: One** - first");
    // A second deprecation changes nothing.
    cmd_deprecate(&mut mm, 1, 3).unwrap();
    assert_eq!(mm.lines[0], "[1] **[DEPRECATED → 2] AE: One** - first");
}

#[test]
fn test_cmd_verify() {
    let mut mm = load("[1] **AE: One** - first\n");
    cmd_verify(&mut mm, 1).unwrap();
    let node = mm.get_node(1).unwrap();
    assert!(node.description.contains("(verify"));
    // The date has the form of a calendar date, and differs from the description before.
    let tag = &node.description["first (verify ".len()..];
    assert_eq!(tag.len(), "2024-01-01)".len());
    assert!(tag.ends_with(')'));
}

#[test]
fn verify_on_a_given_date() {
    let mut mm = load("[1] **AE: One** - first\n[2] **AE: Two** - \n");
    cmd_verify_on(&mut mm, 1, "2024-05-06").unwrap();
    assert_eq!(mm.lines[0], "[1] **AE: One** - first (verify 2024-05-06)");
    cmd_verify_on(&mut mm, 1, "2025-01-01").unwrap();
    assert_eq!(mm.get_node(1).unwrap().description, "first (verify 2024-05-06)");
    cmd_verify_on(&mut mm, 2, "2024-05-06").unwrap();
    assert_eq!(mm.get_node(2).unwrap().description, "(verify 2024-05-06)");
    match cmd_verify_on(&mut mm, 9, "2024-05-06") {
        Err(CommandError::NodeNotFound { id }) => assert_eq!(id, 9),
        _ => panic!("expected NodeNotFound"),
    }
}

#[test]
fn test_cmd_show_non_existing() {
    let mm = load("[1] **AE: One** - first\n");
    let out = cmd_show(&mm, 99);
    assert_eq!(out, "Node [99] not found");
}

#[test]
fn test_cmd_refs_non_existing() {
    let mm = load("[1] **AE: One** - first\n");
    let refs = cmd_refs(&mm, 99);
    assert_eq!(refs.len(), 0);
}

#[test]
fn test_cmd_links_non_existing() {
    let mm = load("[1] **AE: One** - first\n");
    let links = cmd_links(&mm, 99);
    assert_eq!(links, None);
}

#[test]
fn test_cmd_put_non_existing() {
    let mut mm = load("[1] **AE: One** - first\n");
    let err = cmd_put(&mut mm, 99, "[99] **AE: New** - new", false).unwrap_err();
    assert!(format!("{}", err.message()).contains("Node [99] not found"));
}

#[test]
fn test_cmd_patch_non_existing() {
    let mut mm = load("[1] **AE: One** - first\n");
    let err = cmd_patch(&mut mm, 99, None, Some("New"), None, false).unwrap_err();
    assert!(format!("{}", err.message()).contains("Node [99] not found"));
}

#[test]
fn test_load_from_reader() {
    let content = "[1] **AE: One** - first\n";
    let mut reader = std::io::Cursor::new(content);
    let path = String::from("-");
    let mm = Mindmap::load_from_reader(
        move || {
            let mut text = String::new();
            reader.read_to_string(&mut text).ok().map(|_| text)
        },
        path,
    )
    .unwrap();
    assert_eq!(mm.nodes.len(), 1);
    assert_eq!(mm.nodes[0].id, 1);
    assert_eq!(mm.path, "-");
}

#[test]
fn load_reads_the_file_at_the_path() {
    let mm = Mindmap::load(String::from("notes.md"), |path: &str| {
        assert_eq!(path, "notes.md");
        Some(String::from("[4] **AE: Four** - x\n"))
    })
    .unwrap();
    assert_eq!(mm.path, "notes.md");
    assert_eq!(mm.get_node(4).unwrap().raw_title, "AE: Four");
    let err = Mindmap::load(String::from("gone.md"), |_p: &str| None).err().unwrap();
    assert_eq!(err.message(), "Failed to load mindmap: gone.md");
}

#[test]
fn load_from_reader_reports_a_failed_read() {
    let err = Mindmap::load_from_reader(|| None, String::from("notes.md")).err().unwrap();
    assert_eq!(err.message(), "Failed to load mindmap: notes.md");
}

#[test]
fn test_next_id() {
    let mm = load("[1] **AE: One** - first\n[3] **AE: Three** - third\n");
    assert_eq!(mm.next_id(), 4);
    assert_eq!(load("").next_id(), 1);
}

#[test]
fn test_get_node() {
    let mm = load("[1] **AE: One** - first\n");
    let node = mm.get_node(1).unwrap();
    assert_eq!(node.id, 1);
    assert!(mm.get_node(99).is_none());
}

#[test]
fn get_node_gives_the_last_of_duplicates() {
    let mm = load("[1] **AE: First** - a\n[1] **AE: Second** - b\n");
    assert_eq!(mm.get_node(1).unwrap().raw_title, "AE: Second");
}

#[test]
fn test_cmd_orphans() {
    let mm = load("[1] **AE: One** - first\n[2] **AE: Orphan** - lonely\n");
    let orphans = cmd_orphans(&mm, false).unwrap();
    assert_eq!(orphans, vec!["1".to_string(), "2".to_string()]);
}

#[test]
fn orphans_leave_out_meta_and_connected_nodes() {
    let mm = load(
        "[1] **meta: About** - this file\n[2] **AE: A** - uses [3]\n[3] **AE: B** - used\n[4] **AE: C** - see [9](./x.md)\n[5] **AE: D** - alone\n",
    );
    assert_eq!(
        cmd_orphans(&mm, true).unwrap(),
        vec!["[5] **AE: D** - alone".to_string()]
    );
    let none = load("[1] **META: About** - this file\n");
    assert_eq!(cmd_orphans(&none, false).unwrap(), vec!["No orphans".to_string()]);
}

#[test]
fn test_cmd_graph() {
    let mm = load(
        "[1] **AE: One** - first\n[2] **AE: Two** - refers [1]\n[3] **AE: Three** - also [1]\n",
    );
    let dot = cmd_graph(&mm, 1).unwrap();
    assert!(dot.contains("digraph {"));
    assert!(dot.contains("1 [label=\"1: AE: One\"]"));
    assert!(dot.contains("2 [label=\"2: AE: Two\"]"));
    assert!(dot.contains("3 [label=\"3: AE: Three\"]"));
    assert!(dot.contains("2 -> 1;"));
    assert!(dot.contains("3 -> 1;"));
    assert_eq!(
        dot,
        "digraph {\n  rankdir=LR;\n  1 [label=\"1: AE: One\"];\n  2 [label=\"2: AE: Two\"];\n  3 [label=\"3: AE: Three\"];\n  2 -> 1;\n  3 -> 1;\n}\n"
    );
}

#[test]
fn graph_escapes_quotes_and_rejects_unknown_nodes() {
    let mm = load("[1] **AE: \"One\"** - see [2] and [7]\n[2] **AE: Two** - b\n");
    let dot = cmd_graph(&mm, 1).unwrap();
    assert_eq!(
        dot,
        "digraph {\n  rankdir=LR;\n  1 [label=\"1: AE: \\\"One\\\"\"];\n  2 [label=\"2: AE: Two\"];\n  1 -> 2;\n  1 -> 7;\n}\n"
    );
    let err = cmd_graph(&mm, 5).unwrap_err();
    assert_eq!(err.message(), "Node 5 not found");
}

#[test]
fn test_save_stdin_path() {
    let mut mm = Mindmap::load_from_reader(
        || Some(String::from("[1] **AE: One** - first\n")),
        String::from("-"),
    )
    .unwrap();
    let err = mm.save(|_p: &str, _t: &str| true).unwrap_err();
    assert!(format!("{}", err.message()).contains("Cannot save"));
}

#[test]
fn save_reports_a_failed_write() {
    let mut mm = load("[1] **AE: One** - first\n");
    let err = mm.save(|_p: &str, _t: &str| false).unwrap_err();
    assert_eq!(err.message(), "Failed to persist temp file to MINDMAP.md");
}

#[test]
fn test_extract_refs_from_str() {
    assert_eq!(extract_refs_from_str("no refs", None), vec![] as Vec<Reference>);
    assert_eq!(
        extract_refs_from_str("[1] and [2]", None),
        vec![Reference::Internal(1), Reference::Internal(2)]
    );
    assert_eq!(extract_refs_from_str("[1] and [1]", Some(1)), vec![] as Vec<Reference>); // skip self
    assert_eq!(
        extract_refs_from_str("[abc] invalid [123]", None),
        vec![Reference::Internal(123)]
    );
    assert_eq!(
        extract_refs_from_str("[234](./file.md)", None),
        vec![Reference::External(234, "./file.md".to_string())]
    );
}

#[test]
fn extract_refs_edge_cases() {
    // an unmatched bracket ends the scan
    assert_eq!(extract_refs_from_str("[1] then [2", None), vec![Reference::Internal(1)]);
    // an id that does not fit, a sign, an empty pair
    assert_eq!(extract_refs_from_str("[4294967296] [+5] [] [4294967295]", None), vec![
        Reference::Internal(4294967295)
    ]);
    // a path that is never closed leaves an internal reference
    assert_eq!(extract_refs_from_str("[7](./a.md", None), vec![Reference::Internal(7)]);
    // scanning goes on behind the path
    assert_eq!(
        extract_refs_from_str("[7](a [8] b) [9] é[10]", None),
        vec![
            Reference::External(7, "a [8] b".to_string()),
            Reference::Internal(9),
            Reference::Internal(10)
        ]
    );
    // nested open brackets: the id text runs from the first of them
    assert_eq!(extract_refs_from_str("[[3]]", None), vec![] as Vec<Reference>);
}

#[test]
fn parse_node_line_reads_every_part() {
    let node = parse_node_line("  \t[12] **AE: Title** - see [3] and [12] and [4](../o.md)", 7).unwrap();
    assert_eq!(node.id, 12);
    assert_eq!(node.raw_title, "AE: Title");
    assert_eq!(node.description, "see [3] and [12] and [4](../o.md)");
    assert_eq!(
        node.references,
        vec![Reference::Internal(3), Reference::External(4, "../o.md".to_string())]
    );
    assert_eq!(node.line_index, 7);
    let bare = parse_node_line("[+5] **** - ", 0).unwrap();
    assert_eq!(bare.id, 5);
    assert_eq!(bare.raw_title, "");
    assert_eq!(bare.description, "");
    let starred = parse_node_line("[1] **a*b** - c ** d", 0).unwrap();
    assert_eq!(starred.raw_title, "a*b");
    assert_eq!(starred.description, "c ** d");
}

#[test]
fn parse_node_line_rejects_what_is_no_node() {
    assert_eq!(parse_node_line("Header", 0).unwrap_err(), LineError::Format);
    assert_eq!(parse_node_line("", 0).unwrap_err(), LineError::Format);
    assert_eq!(parse_node_line("[1 **T** - d", 0).unwrap_err(), LineError::Format);
    assert_eq!(parse_node_line("[1]**T** - d", 0).unwrap_err(), LineError::Format);
    assert_eq!(parse_node_line("[1] *T** - d", 0).unwrap_err(), LineError::Format);
    assert_eq!(parse_node_line("[1] **T* - d", 0).unwrap_err(), LineError::Format);
    assert_eq!(parse_node_line("[1] **T** -d", 0).unwrap_err(), LineError::Format);
    assert_eq!(parse_node_line("[1] **T**", 0).unwrap_err(), LineError::Format);
    assert_eq!(parse_node_line("[] **T** - d", 0).unwrap_err(), LineError::Id(NumberError::Empty));
    assert_eq!(
        parse_node_line("[x1] **T** - d", 0).unwrap_err(),
        LineError::Id(NumberError::InvalidDigit)
    );
    assert_eq!(
        parse_node_line("[+] **T** - d", 0).unwrap_err(),
        LineError::Id(NumberError::InvalidDigit)
    );
    assert_eq!(
        parse_node_line("[4294967296] **T** - d", 0).unwrap_err(),
        LineError::Id(NumberError::TooLarge)
    );
    assert_eq!(parse_node_line("[4294967295] **T** - d", 0).unwrap().id, 4294967295);
}

#[test]
fn test_normalize_adjacent_nodes() {
    let mut mm = load("[1] **AE: A** - a\n[2] **AE: B** - b\n");
    let content = save(&mut mm);
    assert_eq!(content, "[1] **AE: A** - a\n\n[2] **AE: B** - b\n");
    // line indices: node 1 at 0, blank at 1, node 2 at 2
    assert_eq!(mm.get_node(2).unwrap().line_index, 2);
}

#[test]
fn test_normalize_idempotent() {
    let mut mm = load("[1] **AE: A** - a\n[2] **AE: B** - b\n");
    mm.normalize_spacing().unwrap();
    let snapshot = mm.lines.clone();
    mm.normalize_spacing().unwrap();
    assert_eq!(mm.lines, snapshot);
}

#[test]
fn test_preserve_non_node_lines() {
    let mut mm = load("[1] **AE: A** - a\nHeader line\n[2] **AE: B** - b\n");
    let content = save(&mut mm);
    // Should remain unchanged apart from ensuring trailing newline
    assert_eq!(content, "[1] **AE: A** - a\nHeader line\n[2] **AE: B** - b\n");
}

#[test]
fn test_lint_fix_spacing() {
    let mut mm = load("[1] **AE: A** - a\n[2] **AE: B** - b\n");
    let report = mm.apply_fixes().unwrap();
    assert!(!report.spacing.is_empty());
    assert_eq!(report.spacing, vec![1]);
    assert_eq!(report.title_fixes.len(), 0);
    let content = save(&mut mm);
    assert_eq!(content, "[1] **AE: A** - a\n\n[2] **AE: B** - b\n");
}

#[test]
fn test_lint_fix_duplicated_type() {
    let mut mm = load("[1] **AE: AE: Auth** - desc\n");
    let report = mm.apply_fixes().unwrap();
    assert_eq!(report.title_fixes.len(), 1);
    assert_eq!(report.title_fixes[0].new, "AE: Auth");
    assert_eq!(report.title_fixes[0].old, "AE: AE: Auth");
    let content = save(&mut mm);
    assert!(content.contains("[1] **AE: Auth** - desc"));
}

#[test]
fn test_lint_fix_combined() {
    let mut mm = load("[1] **WF: WF: Workflow** - first\n[2] **AE: Auth** - second\n");
    let report = mm.apply_fixes().unwrap();
    assert!(!report.spacing.is_empty());
    assert_eq!(report.title_fixes.len(), 1);
    assert_eq!(report.title_fixes[0].id, 1);
    assert_eq!(report.title_fixes[0].new, "WF: Workflow");
    let content = save(&mut mm);
    assert!(content.contains("[1] **WF: Workflow** - first"));
    assert!(content.contains("\n\n[2] **AE: Auth** - second"));
}

#[test]
fn test_lint_fix_idempotent() {
    let mut mm = load("[1] **AE: AE: A** - a\n[2] **AE: B** - b\n");
    let report1 = mm.apply_fixes().unwrap();
    assert!(report1.any_changes());

    // Apply again; should have no changes
    let report2 = mm.apply_fixes().unwrap();
    assert!(!report2.any_changes());
}

#[test]
fn test_lint_fix_collapse_multiple_blanks() {
    let mut mm = load("[1] **AE: A** - a\n\n\n[2] **AE: B** - b\n");
    let report = mm.apply_fixes().unwrap();
    assert!(!report.spacing.is_empty());
    let content = save(&mut mm);
    // Should have exactly one blank line between nodes
    assert_eq!(content, "[1] **AE: A** - a\n\n[2] **AE: B** - b\n");
}

#[test]
fn fix_report_without_changes() {
    let report = FixReport::default();
    assert!(!report.any_changes());
    let mut mm = load("[1] **AE: A** - a\n\n[2] **AE: B: C** - b\n");
    let report = mm.apply_fixes().unwrap();
    assert!(!report.any_changes());
    assert_eq!(render_lines(&mm.lines), "[1] **AE: A** - a\n\n[2] **AE: B: C** - b\n");
    let mut only_type = load("[1] **AE:AE:** - a\n");
    let report = only_type.apply_fixes().unwrap();
    assert_eq!(report.title_fixes[0].new, "AE");
    assert_eq!(only_type.lines[0], "[1] **AE** - a");
}

#[test]
fn lines_follow_the_rules_of_line_ends() {
    let mm = load("a\r\nb\n\nc\r");
    assert_eq!(mm.lines, vec!["a", "b", "", "c\r"]);
    assert_eq!(load("\n").lines, vec![""]);
    assert_eq!(load("").lines.len(), 0);
    assert_eq!(render_lines(&load("").lines), "\n");
}

#[test]
fn strict_put_and_patch_check_references() {
    let mut mm = load("[1] **AE: One** - first\n[2] **AE: Two** - second\n");
    match cmd_put(&mut mm, 1, "[1] **AE: One** - see [2] and [5] and [6]", true) {
        Err(CommandError::MissingReference { command, target }) => {
            assert_eq!(command, StrictCommand::Put);
            assert_eq!(target, 5);
        }
        _ => panic!("expected MissingReference"),
    }
    assert_eq!(mm.lines[0], "[1] **AE: One** - first");
    let err = cmd_patch(&mut mm, 1, None, None, Some("see [8]"), true).unwrap_err();
    assert_eq!(err.message(), "PATCH strict: reference to missing node 8");
    cmd_patch(&mut mm, 1, None, None, Some("see [8]"), false).unwrap();
    assert_eq!(mm.lines[0], "[1] **AE: One** - see [8]");
    let err = cmd_put(&mut mm, 1, "[2] **AE: One** - x", false).unwrap_err();
    assert_eq!(err.message(), "PUT line id does not match target id");
    let err = cmd_put(&mut mm, 1, "no node", false).unwrap_err();
    assert_eq!(err.message(), "Line does not match node format");
}

#[test]
fn patch_keeps_what_is_not_given() {
    let mut mm = load("[1] **AE : One thing ** - first\n[2] **Plain** - second\n");
    cmd_patch(&mut mm, 1, None, None, Some("changed"), false).unwrap();
    assert_eq!(mm.lines[0], "[1] **AE: One thing** - changed");
    cmd_patch(&mut mm, 2, None, None, None, false).unwrap();
    assert_eq!(mm.lines[1], "[2] **Plain** - second");
    cmd_patch(&mut mm, 2, Some("DR"), None, None, false).unwrap();
    assert_eq!(mm.get_node(2).unwrap().raw_title, "DR: Plain");
    cmd_patch(&mut mm, 2, Some(""), Some("Bare"), None, false).unwrap();
    assert_eq!(mm.get_node(2).unwrap().raw_title, "Bare");
    // a title that breaks the line format is refused, and nothing changes
    let err = cmd_patch(&mut mm, 2, None, Some("a**b"), Some("x"), false).unwrap_err();
    assert_eq!(err.message(), "Line does not match node format");
    assert_eq!(mm.lines[1], "[2] **Bare** - second");
}

#[test]
fn delete_removes_line_and_node() {
    let mut mm = load("head\n[1] **AE: One** - first\n[2] **AE: Two** - see [1]\n[3] **AE: Three** - x\n");
    let err = cmd_delete(&mut mm, 1, false).unwrap_err();
    assert_eq!(err.message(), "Node 1 is referenced by [2]; use --force to delete");
    assert_eq!(mm.nodes.len(), 3);
    cmd_delete(&mut mm, 2, false).unwrap();
    assert_eq!(mm.lines, vec!["head", "[1] **AE: One** - first", "[3] **AE: Three** - x"]);
    assert_eq!(mm.get_node(3).unwrap().line_index, 2);
    assert_eq!(mm.get_node(1).unwrap().line_index, 1);
    assert!(mm.get_node(2).is_none());
    assert_eq!(mm.by_id.len(), 2);
    cmd_add(&mut mm, "AE", "Four", "see [1]").unwrap();
    cmd_delete(&mut mm, 1, true).unwrap();
    assert_eq!(mm.lines, vec!["head", "[3] **AE: Three** - x", "[4] **AE: Four** - see [1]"]);
    assert_eq!(cmd_delete(&mut mm, 1, true).unwrap_err().message(), "Node [1] not found");
}

#[test]
fn relationships_give_both_directions() {
    let mm = load("[1] **AE: One** - see [3]\n[2] **AE: Two** - see [1]\n[3] **AE: Three** - see [1]\n");
    let (incoming, outgoing) = cmd_relationships(&mm, 1).unwrap();
    assert_eq!(incoming, vec![2, 3]);
    assert_eq!(outgoing, vec![Reference::Internal(3)]);
    assert_eq!(cmd_relationships(&mm, 8).unwrap_err().message(), "Node [8] not found");
}

#[test]
fn lint_reports_missing_references_and_files() {
    let mm = load("[1] **AE: One** - see [5] and [2](./there.md) and [3](./gone.md)\n");
    let warnings = cmd_lint(&mm, |p: &str| p == "./there.md").unwrap();
    assert_eq!(
        warnings,
        vec![
            "Missing ref: node 1 references missing node 5".to_string(),
            "Missing file: node 1 references 3 in missing file ./gone.md".to_string(),
        ]
    );
    let fine = load("[1] **AE: One** - see [2]\n\n[2] **AE: Two** - b\n");
    assert_eq!(cmd_lint(&fine, |_p: &str| false).unwrap(), vec!["Lint OK".to_string()]);
}

#[test]
fn list_filters_by_type_case_phrase_and_pattern() {
    let mm = load(
        "[1] **AE: Auth Service** - Handles login\n[2] **WF: Deploy** - the auth flow here\n[3] **AE: Other** - nothing\n",
    );
    let all = cmd_list(&mm, None, None, false, false, false);
    assert_eq!(all.len(), 3);
    assert_eq!(all[0], "[1] **AE: Auth Service** - Handles login");
    assert_eq!(cmd_list(&mm, Some("AE"), None, false, false, false).len(), 2);
    assert_eq!(cmd_list(&mm, Some("A"), None, false, false, false).len(), 0);
    assert_eq!(cmd_list(&mm, None, Some("AUTH"), false, false, false).len(), 2);
    assert_eq!(cmd_list(&mm, None, Some("AUTH"), true, false, false).len(), 0);
    assert_eq!(cmd_list(&mm, None, Some("Auth"), true, false, false).len(), 1);
    // exact: the whole text, or the phrase between spaces
    assert_eq!(cmd_list(&mm, None, Some("auth"), false, true, false), vec![
        "[1] **AE: Auth Service** - Handles login".to_string(),
        "[2] **WF: Deploy** - the auth flow here".to_string()
    ]);
    assert_eq!(cmd_list(&mm, None, Some("auth"), true, true, false), vec![
        "[2] **WF: Deploy** - the auth flow here".to_string()
    ]);
    assert_eq!(cmd_list(&mm, None, Some("nothing"), false, true, false).len(), 1);
    assert_eq!(cmd_list(&mm, None, Some("noth"), false, true, false).len(), 0);
    // patterns
    assert_eq!(cmd_list(&mm, None, Some("^Hand.*in$"), false, false, true).len(), 1);
    assert_eq!(cmd_list(&mm, Some("WF"), Some("^AE"), false, false, true).len(), 0);
    assert_eq!(
        cmd_list(&mm, None, Some("(unclosed"), false, false, true),
        vec!["Invalid regex pattern".to_string()]
    );
    // without regex mode the same text is just text
    assert_eq!(cmd_list(&mm, None, Some("(unclosed"), false, false, false).len(), 0);
}

#[test]
fn types_are_counted_and_ranked() {
    let mm = load(
        "[1] **AE: a** - x\n[2] **WF: b** - x\n[3] **WF: c** - x\n[4] **Plain** - x\n[5] **DR: d** - x\n[6] **WF: e** - x\n[7] **LongTypeName1: f** - x\n",
    );
    assert_eq!(
        cmd_types(&mm, None).unwrap(),
        vec![
            "Node types in use (4 types):".to_string(),
            "  WF         (  3 nodes)".to_string(),
            "  AE         (  1 nodes)".to_string(),
            "  DR         (  1 nodes)".to_string(),
            "  LongTypeName1 (  1 nodes)".to_string(),
        ]
    );
    assert_eq!(
        cmd_types(&mm, Some("WF")).unwrap(),
        vec!["Type 'WF': 3 nodes".to_string(), "  Examples: [2], [3], [6]".to_string()]
    );
    assert_eq!(cmd_types(&mm, Some("XX")).unwrap(), vec!["Type 'XX' not found in use".to_string()]);
    let many = load(
        "[1] **T: a** - x\n[2] **T: a** - x\n[3] **T: a** - x\n[4] **T: a** - x\n[5] **T: a** - x\n[6] **T: a** - x\n",
    );
    assert_eq!(
        cmd_types(&many, Some("T")).unwrap()[1],
        "  Examples: [1], [2], [3], [4], [5]"
    );
}

#[test]
fn spacing_repair_goes_from_node_to_node() {
    // Between the first two nodes an empty line is put in. From the second
    // node the repair goes on at the third, and the one blank line between
    // them, which needed no repair, is not carried over.
    let mut mm = load("[1] **A: a** - a\n[2] **A: b** - b\n\n[3] **A: c** - c\n");
    let report = mm.apply_fixes().unwrap();
    assert_eq!(report.spacing, vec![1]);
    assert_eq!(mm.lines, vec!["[1] **A: a** - a", "", "[2] **A: b** - b", "[3] **A: c** - c"]);
    // Blank lines before a line that is no node stay as they are.
    let mut mm = load("[1] **A: a** - a\n\n\ntext\n \n[2] **A: b** - b\n");
    let report = mm.apply_fixes().unwrap();
    assert!(!report.any_changes());
    assert_eq!(mm.lines.len(), 6);
    // White space counts as blank; three blank lines become one empty line.
    let mut mm = load("[1] **A: a** - a\n \n\t\n\n[2] **A: b** - b\n");
    let report = mm.apply_fixes().unwrap();
    assert_eq!(report.spacing, vec![1]);
    assert_eq!(mm.lines, vec!["[1] **A: a** - a", "", "[2] **A: b** - b"]);
}
