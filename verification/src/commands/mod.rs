//! The commands on a mindmap: what each shows, and how each changes it.

pub mod add;
pub mod delete;
pub mod mark;
pub mod replace;
pub mod show;

pub use add::{added, cmd_add};
pub use delete::{cmd_delete, delete_outcome, lemma_without_node_wf, moved_up};
pub use mark::{
    cmd_deprecate, cmd_verify, cmd_verify_on, deprecate_outcome, deprecated_title,
    verify_description, verify_outcome,
};
pub use replace::{
    cmd_patch, cmd_put, find_missing_reference, first_missing, lemma_id_index_of_same_ids,
    lemma_replace_keeps_wf, patch_outcome, patched_line, patched_title, put_outcome, title_proper,
    title_type, typed_title,
};
pub use show::{
    clone_reference, clone_references, cmd_links, cmd_refs, cmd_relationships, cmd_show, id_items,
    id_list, node_line, node_refers_to, push_id_list, referrer_lines_upto, referrers, referrers_of,
    referrers_upto, refers_to, render_node_line, show_text,
};
