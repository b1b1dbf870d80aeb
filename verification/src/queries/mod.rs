//! Reports on a mindmap: orphans, the neighbourhood graph of a node, lint
//! warnings, the types in use, and filtered listings.

pub mod graph;
pub mod lint;
pub mod list;
pub mod orphans;
pub mod types;

pub use graph::cmd_graph;
pub use lint::cmd_lint;
pub use list::cmd_list;
pub use orphans::cmd_orphans;
pub use types::cmd_types;
