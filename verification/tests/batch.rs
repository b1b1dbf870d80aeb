use mindmap_cli::batch::{
    batch_op_of_members, batch_op_of_words, check_unchanged, content_hash, parse_batch_json,
    parse_batch_lines, parse_batch_op_json, parse_batch_op_line, replay, BatchError, BatchOp,
    BatchParseError, JsonMembers,
};
use mindmap_cli::commands::cmd_add;
use mindmap_cli::mindmap::Mindmap;

fn load(content: &str) -> Mindmap {
    Mindmap::from_string(content, String::from("MINDMAP.md"))
}

#[test]
fn test_batch_op_parse_line_add() {
    let line = "add --type WF --title Test --desc desc";
    let op = parse_batch_op_line(line).unwrap();
    match op {
        BatchOp::Add { type_prefix, title, desc } => {
            assert_eq!(type_prefix, "WF");
            assert_eq!(title, "Test");
            assert_eq!(desc, "desc");
        }
        _ => panic!("Expected Add op"),
    }
}

#[test]
fn test_batch_op_parse_line_patch() {
    let line = "patch 1 --title NewTitle";
    let op = parse_batch_op_line(line).unwrap();
    match op {
        BatchOp::Patch { id, title, type_prefix, desc } => {
            assert_eq!(id, 1);
            assert_eq!(title, Some("NewTitle".to_string()));
            assert_eq!(type_prefix, None);
            assert_eq!(desc, None);
        }
        _ => panic!("Expected Patch op"),
    }
}

#[test]
fn test_batch_op_parse_line_delete() {
    let line = "delete 5 --force";
    let op = parse_batch_op_line(line).unwrap();
    match op {
        BatchOp::Delete { id, force } => {
            assert_eq!(id, 5);
            assert!(force);
        }
        _ => panic!("Expected Delete op"),
    }
}

#[test]
fn test_batch_hash_concurrency_check() {
    let content1 = "hello world";
    let content2 = "hello world";
    let content3 = "hello world!";

    let hash1 = content_hash(content1);
    let hash2 = content_hash(content2);
    let hash3 = content_hash(content3);

    assert_eq!(hash1, hash2); // identical content = same hash
    assert_ne!(hash1, hash3); // different content = different hash
    // the digest of a known text
    assert_eq!(hash1, "d74981efa70a0c880b8d8c1985d075dbcbf679b99a5f9914e5aaf96b831a9e24");
    assert_ne!(hash1, content1);
    assert!(check_unchanged(&hash1, &hash2).is_ok());
    match check_unchanged(&hash1, &hash3) {
        Err(BatchError::Changed { base_hash, current_hash }) => {
            assert_eq!(base_hash, hash1);
            assert_eq!(current_hash, hash3);
        }
        _ => panic!("expected Changed"),
    }
}

#[test]
fn test_batch_simple_add() {
    // Simulate batch with one add operation (use quotes for multi-word args)
    let batch_input = r#"add --type WF --title Work --desc "do work""#;
    let ops = vec![parse_batch_op_line(batch_input).unwrap()];

    let mut mm = load("[1] **AE: A** - a\n");
    for op in ops {
        match op {
            BatchOp::Add { type_prefix, title, desc } => {
                cmd_add(&mut mm, &type_prefix, &title, &desc).unwrap();
            }
            _ => {}
        }
    }
    let content = mm.lines.join("\n");
    assert!(content.contains("WF: Work") && content.contains("do work"));
}

fn words(list: &[&str]) -> Vec<String> {
    list.iter().map(|w| w.to_string()).collect()
}

#[test]
fn line_commands_report_what_is_missing() {
    let cases = [
        ("", "Empty operation line"),
        ("   ", "Empty operation line"),
        ("add --type WF --title T", "add: requires --type, --title, --desc"),
        ("add --type WF --title T --desc", "add: --desc requires value"),
        ("add --type", "add: --type requires value"),
        ("add --type '' --title T --desc D", "add: requires --type, --title, --desc"),
        ("patch", "patch: missing id"),
        ("patch x", "invalid digit found in string"),
        ("patch 1 --title", "patch: --title requires value"),
        ("put 1", "put: requires --line"),
        ("put 1 --line", "put: --line requires value"),
        ("put 1 --line ''", "put: requires --line"),
        ("delete", "delete: missing id"),
        ("delete 99999999999", "number too large to fit in target type"),
        ("deprecate 1", "deprecate: requires --to"),
        ("deprecate 1 --to", "deprecate: --to requires value"),
        ("deprecate 1 --to x", "invalid digit found in string"),
        ("verify", "verify: missing id"),
        ("rename 1", "Unknown batch command: rename"),
        ("add --desc 'never closed", "missing closing quote"),
    ];
    for (line, message) in cases {
        match parse_batch_op_line(line) {
            Err(e) => assert_eq!(e.message(), message, "for {:?}", line),
            Ok(_) => panic!("expected an error for {:?}", line),
        }
    }
}

#[test]
fn line_commands_are_read_from_words() {
    match parse_batch_op_line("put 3 junk --line '[3] **A: b** - c d' --line other").unwrap() {
        BatchOp::Put { id, line } => {
            assert_eq!(id, 3);
            assert_eq!(line, "[3] **A: b** - c d");
        }
        _ => panic!("expected Put"),
    }
    match parse_batch_op_line("deprecate 3 --to 4").unwrap() {
        BatchOp::Deprecate { id, to } => assert_eq!((id, to), (3, 4)),
        _ => panic!("expected Deprecate"),
    }
    match parse_batch_op_line("verify 9 # later").unwrap() {
        BatchOp::Verify { id } => assert_eq!(id, 9),
        _ => panic!("expected Verify"),
    }
    match parse_batch_op_line("delete 5").unwrap() {
        BatchOp::Delete { id, force } => assert_eq!((id, force), (5, false)),
        _ => panic!("expected Delete"),
    }
    // a flag takes the next word for its value, whatever it is; the last value counts
    match batch_op_of_words(&words(&["add", "--type", "--title", "x", "--title", "T", "--desc", "D", "--title", "U"])).unwrap() {
        BatchOp::Add { type_prefix, title, desc } => {
            assert_eq!(type_prefix, "--title");
            assert_eq!(title, "U");
            assert_eq!(desc, "D");
        }
        _ => panic!("expected Add"),
    }
    assert!(matches!(batch_op_of_words(&Vec::new()), Err(BatchParseError::EmptyLine)));
}

fn value(text: &str) -> serde_json::Value {
    serde_json::from_str(text).unwrap()
}

#[test]
fn json_commands_are_read_from_members() {
    match parse_batch_op_json(&value(r#"{"op":"add","type":"WF","title":"T","desc":"D [1]"}"#)).unwrap() {
        BatchOp::Add { type_prefix, title, desc } => {
            assert_eq!(type_prefix, "WF");
            assert_eq!(title, "T");
            assert_eq!(desc, "D [1]");
        }
        _ => panic!("expected Add"),
    }
    match parse_batch_op_json(&value(r#"{"op":"patch","id":7,"title":"T","desc":5}"#)).unwrap() {
        BatchOp::Patch { id, type_prefix, title, desc } => {
            assert_eq!(id, 7);
            assert_eq!(type_prefix, None);
            assert_eq!(title, Some("T".to_string()));
            assert_eq!(desc, None);
        }
        _ => panic!("expected Patch"),
    }
    match parse_batch_op_json(&value(r#"{"op":"put","id":4294967298,"line":"[2] **a** - b"}"#)).unwrap() {
        BatchOp::Put { id, line } => {
            assert_eq!(id, 2);
            assert_eq!(line, "[2] **a** - b");
        }
        _ => panic!("expected Put"),
    }
    match parse_batch_op_json(&value(r#"{"op":"delete","id":5,"force":true}"#)).unwrap() {
        BatchOp::Delete { id, force } => assert_eq!((id, force), (5, true)),
        _ => panic!("expected Delete"),
    }
    match parse_batch_op_json(&value(r#"{"op":"delete","id":5,"force":"yes"}"#)).unwrap() {
        BatchOp::Delete { id, force } => assert_eq!((id, force), (5, false)),
        _ => panic!("expected Delete"),
    }
    match parse_batch_op_json(&value(r#"{"op":"deprecate","id":5,"to":6}"#)).unwrap() {
        BatchOp::Deprecate { id, to } => assert_eq!((id, to), (5, 6)),
        _ => panic!("expected Deprecate"),
    }
    match parse_batch_op_json(&value(r#"{"op":"verify","id":5}"#)).unwrap() {
        BatchOp::Verify { id } => assert_eq!(id, 5),
        _ => panic!("expected Verify"),
    }
}

#[test]
fn json_commands_report_what_is_missing() {
    let cases = [
        (r#"[1, 2]"#, "Op must be a JSON object"),
        (r#""add""#, "Op must be a JSON object"),
        (r#"{"id": 1}"#, "Missing 'op' field"),
        (r#"{"op": 1}"#, "Missing 'op' field"),
        (r#"{"op":"add","title":"T","desc":"D"}"#, "add: missing 'type' field"),
        (r#"{"op":"add","type":"T","desc":"D"}"#, "add: missing 'title' field"),
        (r#"{"op":"add","type":"T","title":"D"}"#, "add: missing 'desc' field"),
        (r#"{"op":"patch"}"#, "patch: missing 'id' field"),
        (r#"{"op":"patch","id":-1}"#, "patch: missing 'id' field"),
        (r#"{"op":"put","id":1}"#, "put: missing 'line' field"),
        (r#"{"op":"put","line":"x"}"#, "put: missing 'id' field"),
        (r#"{"op":"delete"}"#, "delete: missing 'id' field"),
        (r#"{"op":"deprecate","id":1}"#, "deprecate: missing 'to' field"),
        (r#"{"op":"deprecate","to":1}"#, "deprecate: missing 'id' field"),
        (r#"{"op":"verify","id":"1"}"#, "verify: missing 'id' field"),
        (r#"{"op":"rename","id":1}"#, "Unknown op type: rename"),
    ];
    for (text, message) in cases {
        match parse_batch_op_json(&value(text)) {
            Err(e) => assert_eq!(e.message(), message, "for {}", text),
            Ok(_) => panic!("expected an error for {}", text),
        }
    }
    let members = JsonMembers {
        is_object: true,
        op: Some("delete".to_string()),
        typ: None,
        title: None,
        desc: None,
        line: None,
        id: Some(8),
        to: None,
        force: None,
    };
    match batch_op_of_members(&members).unwrap() {
        BatchOp::Delete { id, force } => assert_eq!((id, force), (8, false)),
        _ => panic!("expected Delete"),
    }
}

#[test]
fn batches_are_read_line_by_line() {
    let ops = parse_batch_lines("# a comment\n\n  add --type A --title T --desc D  \r\ndelete 2 --force\n").unwrap();
    assert_eq!(ops.len(), 2);
    assert!(matches!(ops[1], BatchOp::Delete { id: 2, force: true }));
    let err = parse_batch_lines("delete 1\n\nfrobnicate\ndelete 2\n").unwrap_err();
    assert_eq!(err.message(), "Failed to parse batch line 3: Unknown batch command: frobnicate");
    let ops = parse_batch_json(r#"[{"op":"verify","id":1},{"op":"delete","id":2}]"#).unwrap();
    assert_eq!(ops.len(), 2);
    let err = parse_batch_json(r#"[{"op":"verify","id":1},{"op":"delete"}]"#).unwrap_err();
    assert_eq!(err.message(), "Failed to parse batch op 1: delete: missing 'id' field");
    assert!(matches!(parse_batch_json("{not json").unwrap_err(), BatchError::InvalidJson));
    assert!(matches!(parse_batch_json(r#"{"op":"verify"}"#).unwrap_err(), BatchError::InvalidJson));
}

#[test]
fn replay_applies_in_order_and_stops_at_a_refusal() {
    let mut mm = load("[1] **AE: One** - first\n[2] **AE: Two** - see [1]\n");
    let ops = parse_batch_lines(
        "add --type WF --title New --desc 'uses [2]'\npatch 1 --title Uno\nput 2 --line '[2] **AE: Two** - alone'\ndeprecate 1 --to 3\nverify 3\ndelete 2 --force\n",
    )
    .unwrap();
    let result = replay(&mut mm, &ops, "2024-02-03").unwrap();
    assert_eq!(result.total_ops, 6);
    assert_eq!(result.applied, 6);
    assert_eq!(result.added_ids, vec![3]);
    assert_eq!(result.patched_ids, vec![1, 2, 1, 3]);
    assert_eq!(result.deleted_ids, vec![2]);
    assert!(result.warnings.is_empty());
    assert_eq!(
        mm.lines,
        vec![
            "[1] **[DEPRECATED → 3] AE: Uno** - first",
            "[3] **WF: New** - uses [2] (verify 2024-02-03)",
        ]
    );

    let mut mm = load("[1] **AE: One** - first\n[2] **AE: Two** - see [1]\n");
    let ops = parse_batch_lines("patch 2 --desc changed\ndelete 7\npatch 1 --desc never\n").unwrap();
    let err = replay(&mut mm, &ops, "2024-02-03").unwrap_err();
    assert_eq!(err.message(), "Op 1: delete failed: Node [7] not found");
    // what came before the refusal was applied, what comes after was not
    assert_eq!(mm.lines, vec!["[1] **AE: One** - first", "[2] **AE: Two** - changed"]);
}

#[test]
fn add_is_refused_when_no_id_is_left() {
    let mut mm = load("[4294967295] **AE: Last** - x\n");
    let ops = parse_batch_lines("add --type A --title T --desc D\n").unwrap();
    let err = replay(&mut mm, &ops, "2024-02-03").unwrap_err();
    assert_eq!(err.message(), "Op 0: add failed: No free node id is left");
    assert_eq!(mm.lines.len(), 1);
}
