//! Applying the commands of a batch to a mindmap, one after the other.

use vstd::prelude::*;
use vstd::string::*;
use super::op::{kind_of, op_views, BatchError, BatchErrorView, BatchOp, BatchOpView, OpKind};
use crate::commands::{
    added, cmd_add, cmd_delete, cmd_deprecate, cmd_patch, cmd_put, cmd_verify_on, delete_outcome,
    deprecate_outcome, patch_outcome, put_outcome, verify_outcome,
};
use crate::error::{CommandError, CommandErrorView};
use crate::mindmap::{lemma_max_id, max_id, Mindmap, MindmapView};
use crate::text::option_text;

verus! {

/// What a batch has done.
#[derive(Debug, Clone)]
pub struct BatchResult {
    /// The number of commands in the batch.
    pub total_ops: usize,
    /// The number of commands that were applied.
    pub applied: usize,
    /// The ids of the nodes that were added.
    pub added_ids: Vec<u32>,
    /// The ids of the nodes that were changed.
    pub patched_ids: Vec<u32>,
    /// The ids of the nodes that were removed.
    pub deleted_ids: Vec<u32>,
    /// What the repairs and the checks after the batch had to say.
    pub warnings: Vec<String>,
}

/// A mindmap in the course of a batch, with the tally of what was done.
pub struct BatchState {
    pub mm: MindmapView,
    pub applied: nat,
    pub added: Seq<u32>,
    pub patched: Seq<u32>,
    pub deleted: Seq<u32>,
}

/// What one command does to a mindmap in a batch. References are not
/// checked strictly; `today` is the date that `verify` writes.
pub open spec fn op_outcome(mm: MindmapView, op: BatchOpView, today: Seq<char>) -> Result<
    MindmapView,
    CommandErrorView,
> {
    match op {
        BatchOpView::Add { type_prefix, title, desc } => if max_id(mm.nodes) >= u32::MAX {
            Err(CommandErrorView::NoFreeId)
        } else {
            Ok(added(mm, type_prefix, title, desc))
        },
        BatchOpView::Patch { id, type_prefix, title, desc } => patch_outcome(
            mm,
            id,
            type_prefix,
            title,
            desc,
            false,
        ),
        BatchOpView::Put { id, line } => put_outcome(mm, id, line, false),
        BatchOpView::Delete { id, force } => delete_outcome(mm, id, force),
        BatchOpView::Deprecate { id, to } => deprecate_outcome(mm, id, to),
        BatchOpView::Verify { id } => verify_outcome(mm, id, today),
    }
}

/// The tally after a command was applied: an added node counts with the id
/// it was given, a removed one as deleted, every other as patched.
pub open spec fn tallied(st: BatchState, op: BatchOpView, after: MindmapView) -> BatchState {
    match op {
        BatchOpView::Add { .. } => BatchState {
            mm: after,
            applied: st.applied + 1,
            added: st.added.push((max_id(st.mm.nodes) + 1) as u32),
            ..st
        },
        BatchOpView::Patch { id, .. } => BatchState {
            mm: after,
            applied: st.applied + 1,
            patched: st.patched.push(id),
            ..st
        },
        BatchOpView::Put { id, .. } => BatchState {
            mm: after,
            applied: st.applied + 1,
            patched: st.patched.push(id),
            ..st
        },
        BatchOpView::Delete { id, .. } => BatchState {
            mm: after,
            applied: st.applied + 1,
            deleted: st.deleted.push(id),
            ..st
        },
        BatchOpView::Deprecate { id, .. } => BatchState {
            mm: after,
            applied: st.applied + 1,
            patched: st.patched.push(id),
            ..st
        },
        BatchOpView::Verify { id } => BatchState {
            mm: after,
            applied: st.applied + 1,
            patched: st.patched.push(id),
            ..st
        },
    }
}

/// The state after the first `n` commands were applied one after the other,
/// or the first refusal; a refused command ends the batch.
pub open spec fn replayed(start: BatchState, ops: Seq<BatchOpView>, n: int, today: Seq<char>) -> Result<
    BatchState,
    BatchErrorView,
>
    decreases n,
{
    if n <= 0 {
        Ok(start)
    } else {
        match replayed(start, ops, n - 1, today) {
            Err(e) => Err(e),
            Ok(st) => match op_outcome(st.mm, ops[n - 1], today) {
                Ok(after) => Ok(tallied(st, ops[n - 1], after)),
                Err(error) => Err(
                    BatchErrorView::Op {
                        index: (n - 1) as usize,
                        op: kind_of(ops[n - 1]),
                        error,
                    },
                ),
            },
        }
    }
}

/// The state in which a batch begins.
pub open spec fn batch_start(mm: MindmapView) -> BatchState {
    BatchState { mm, applied: 0, added: Seq::empty(), patched: Seq::empty(), deleted: Seq::empty() }
}

fn text_ref(s: &Option<String>) -> (r: Option<&str>)
    ensures
        crate::text::text_or_none(r) == option_text(*s),
{
    match s {
        Some(s) => Some(s.as_str()),
        None => None,
    }
}

/// Applies one command of a batch; see [`op_outcome`].
pub fn apply_op(mm: &mut Mindmap, op: &BatchOp, today: &str) -> (r: Result<Option<u32>, CommandError>)
    requires
        old(mm).wf(),
    ensures
        final(mm).wf(),
        match r {
            Ok(new_id) => op_outcome(old(mm)@, op@, today@) == Ok::<MindmapView, CommandErrorView>(
                final(mm)@,
            ) && (op@ is Add ==> new_id == Some((max_id(old(mm)@.nodes) + 1) as u32)),
            Err(e) => op_outcome(old(mm)@, op@, today@) == Err::<MindmapView, CommandErrorView>(
                e@,
            ) && final(mm)@ == old(mm)@,
        },
{
    match op {
        BatchOp::Add { type_prefix, title, desc } => {
            if !has_free_id(mm) {
                return Err(CommandError::NoFreeId);
            }
            match cmd_add(mm, type_prefix.as_str(), title.as_str(), desc.as_str()) {
                Ok(id) => Ok(Some(id)),
                Err(e) => Err(e),
            }
        },
        BatchOp::Patch { id, type_prefix, title, desc } => {
            match cmd_patch(mm, *id, text_ref(type_prefix), text_ref(title), text_ref(desc), false) {
                Ok(_) => Ok(None),
                Err(e) => Err(e),
            }
        },
        BatchOp::Put { id, line } => {
            match cmd_put(mm, *id, line.as_str(), false) {
                Ok(_) => Ok(None),
                Err(e) => Err(e),
            }
        },
        BatchOp::Delete { id, force } => {
            match cmd_delete(mm, *id, *force) {
                Ok(_) => Ok(None),
                Err(e) => Err(e),
            }
        },
        BatchOp::Deprecate { id, to } => {
            match cmd_deprecate(mm, *id, *to) {
                Ok(_) => Ok(None),
                Err(e) => Err(e),
            }
        },
        BatchOp::Verify { id } => {
            match cmd_verify_on(mm, *id, today) {
                Ok(_) => Ok(None),
                Err(e) => Err(e),
            }
        },
    }
}

/// Whether a node can still be added: the greatest id in use is below `u32::MAX`.
pub fn has_free_id(mm: &Mindmap) -> (b: bool)
    ensures
        b == (max_id(mm@.nodes) < u32::MAX),
{
    let mut i: usize = 0;
    let ghost nodes = mm@.nodes;
    proof {
        lemma_max_id(nodes);
    }
    while i < mm.nodes.len()
        invariant
            i <= mm.nodes.len(),
            nodes == mm@.nodes,
            nodes.len() == mm.nodes.len(),
            forall|j: int| 0 <= j < i ==> (#[trigger] nodes[j]).id < u32::MAX,
        decreases mm.nodes.len() - i,
    {
        if mm.nodes[i].id == u32::MAX {
            proof {
                lemma_max_id(nodes);
                assert(nodes[i as int].id <= max_id(nodes));
            }
            return false;
        }
        i = i + 1;
    }
    proof {
        lemma_max_id(nodes);
        if max_id(nodes) > 0 {
            let w = choose|w: int| 0 <= w < nodes.len() && #[trigger] nodes[w].id == max_id(nodes) as u32;
            assert(nodes[w].id < u32::MAX);
        }
    }
    true
}

impl BatchResult {
    /// The tally of this result.
    pub open spec fn tally(&self, mm: MindmapView) -> BatchState {
        BatchState {
            mm,
            applied: self.applied as nat,
            added: self.added_ids@,
            patched: self.patched_ids@,
            deleted: self.deleted_ids@,
        }
    }
}

/// Applies the commands of a batch one after the other, and stops at the
/// first that is refused; see [`replayed`]. The mindmap is then as the
/// commands before the refused one left it.
pub fn replay(mm: &mut Mindmap, ops: &Vec<BatchOp>, today: &str) -> (r: Result<
    BatchResult,
    BatchError,
>)
    requires
        old(mm).wf(),
    ensures
        final(mm).wf(),
        match r {
            Ok(result) => {
                &&& replayed(batch_start(old(mm)@), op_views(ops@), ops@.len() as int, today@)
                    == Ok::<BatchState, BatchErrorView>(result.tally(final(mm)@))
                &&& result.total_ops == ops@.len()
                &&& result.warnings@.len() == 0
            },
            Err(e) => replayed(batch_start(old(mm)@), op_views(ops@), ops@.len() as int, today@)
                == Err::<BatchState, BatchErrorView>(e@),
        },
{
    let mut result = BatchResult {
        total_ops: ops.len(),
        applied: 0,
        added_ids: Vec::new(),
        patched_ids: Vec::new(),
        deleted_ids: Vec::new(),
        warnings: Vec::new(),
    };
    let ghost start = batch_start(mm@);
    let ghost all = op_views(ops@);
    let mut i: usize = 0;
    while i < ops.len()
        invariant
            i <= ops.len(),
            mm.wf(),
            all == op_views(ops@),
            start == batch_start(old(mm)@),
            result.total_ops == ops.len(),
            result.applied == i,
            result.warnings@.len() == 0,
            replayed(start, all, i as int, today@) == Ok::<BatchState, BatchErrorView>(
                result.tally(mm@),
            ),
        decreases ops.len() - i,
    {
        let op = &ops[i];
        assert(all[i as int] == op@);
        let ghost before = result.tally(mm@);
        match apply_op(mm, op, today) {
            Ok(new_id) => {
                match op {
                    BatchOp::Add { .. } => {
                        match new_id {
                            Some(id) => {
                                result.added_ids.push(id);
                            },
                            None => {},
                        }
                    },
                    BatchOp::Patch { id, .. } => {
                        result.patched_ids.push(*id);
                    },
                    BatchOp::Put { id, .. } => {
                        result.patched_ids.push(*id);
                    },
                    BatchOp::Delete { id, .. } => {
                        result.deleted_ids.push(*id);
                    },
                    BatchOp::Deprecate { id, .. } => {
                        result.patched_ids.push(*id);
                    },
                    BatchOp::Verify { id } => {
                        result.patched_ids.push(*id);
                    },
                }
                result.applied = result.applied + 1;
                assert(result.tally(mm@) == tallied(before, op@, mm@));
            },
            Err(error) => {
                let kind = match op {
                    BatchOp::Add { .. } => OpKind::Add,
                    BatchOp::Patch { .. } => OpKind::Patch,
                    BatchOp::Put { .. } => OpKind::Put,
                    BatchOp::Delete { .. } => OpKind::Delete,
                    BatchOp::Deprecate { .. } => OpKind::Deprecate,
                    BatchOp::Verify { .. } => OpKind::Verify,
                };
                proof {
                    assert(replayed(start, all, i + 1, today@) is Err);
                    lemma_replayed_error_stays(start, all, i + 1, ops@.len() as int, today@);
                }
                return Err(BatchError::Op { index: i, op: kind, error });
            },
        }
        i = i + 1;
    }
    Ok(result)
}

/// Once a command is refused, the batch has failed with that refusal,
/// however many commands follow.
pub proof fn lemma_replayed_error_stays(
    start: BatchState,
    ops: Seq<BatchOpView>,
    n: int,
    m: int,
    today: Seq<char>,
)
    requires
        n <= m,
        replayed(start, ops, n, today) is Err,
    ensures
        replayed(start, ops, m, today) == replayed(start, ops, n, today),
    decreases m - n,
{
    if n < m {
        lemma_replayed_error_stays(start, ops, n, m - 1, today);
    }
}

} // verus!
