//! Batches of commands: reading them from lines or from JSON, and replaying
//! them on a mindmap.

pub mod hash;
pub mod json;
pub mod op;
pub mod replay;
pub mod words;

pub use hash::{check_unchanged, content_hash};
pub use json::{
    batch_op_of_members, batch_ops_of_values, json_members, parse_batch_json, parse_batch_op_json,
    JsonMembers, JsonMembersView,
};
pub use op::{
    BatchError, BatchErrorView, BatchOp, BatchOpView, BatchParseError, BatchParseErrorView, Field,
    OpKind,
};
pub use replay::{apply_op, has_free_id, replay, BatchResult, BatchState};
pub use words::{batch_op_of_words, parse_batch_lines, parse_batch_op_line};
