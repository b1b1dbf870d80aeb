//! Mindmaps kept as text files with one node on a line, and the safe
//! following of references from one such file into another.
//!
//! A node reads `[id] **title** - description`; a description refers to
//! other nodes as `[id]`, or as `[id](relative/path)` where the node stands
//! in another file. Following such a reference is the delicate part: the
//! path is resolved against the file that holds the reference, made
//! canonical, and refused unless it stays within the workspace root
//! ([`cache`]); the depth of the traversal is bounded and cycles are
//! noticed ([`context`]); a file is read at most once and never above a
//! size limit ([`cache`]).
//!
//! The library reads no file and asks no clock or terminal on its own
//! account, with the one exception of today's date: whoever calls it hands
//! in the functions that do so, and every contract says what is asked of
//! them and what follows from each answer.

pub mod batch;
pub mod cache;
pub mod cli;
mod clock;
pub mod commands;
pub mod context;
pub mod editing;
pub mod error;
pub mod fixes;
pub mod mindmap;
pub mod node;
pub mod path;
pub mod pattern;
pub mod queries;
pub mod text;
pub mod ui;

pub use batch::{
    parse_batch_op_json, parse_batch_op_line, replay, BatchError, BatchOp, BatchParseError,
    BatchResult,
};
pub use cache::{CacheStats, MindmapCache};
pub use cli::{Cli, Commands, OutputFormat};
pub use commands::{
    cmd_add, cmd_delete, cmd_deprecate, cmd_links, cmd_patch, cmd_put, cmd_refs,
    cmd_relationships, cmd_show, cmd_verify,
};
pub use context::{DepthGuard, NavigationContext, VisitedSet};
pub use editing::{cmd_add_editor, cmd_edit};
pub use error::{CommandError, TraversalError};
pub use fixes::{FixReport, TitleFix};
pub use mindmap::Mindmap;
pub use node::{extract_refs_from_str, parse_node_line, LineError, Node, Reference};
pub use queries::{cmd_graph, cmd_lint, cmd_list, cmd_orphans, cmd_types};
