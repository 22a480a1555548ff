//! Pruning of snapshots by the operator itself.
//!
//! A `Snapshot` is marked as pruned before it is deleted, so that its deletion is
//! never taken for one from outside.
use vstd::prelude::*;

use crate::consts::PRUNED_BY_ANNOTATION;
use crate::error::Error;
use crate::io::apply::{Json, annotation_patch, annotation_tree, tree};

verus! {

/// A step of pruning a `Snapshot`.
#[derive(Debug, Clone, Copy, PartialEq, Eq, Structural)]
pub enum PruneStep {
    /// Mark it.
    Stamp,
    /// Delete it.
    Delete,
    /// Nothing more.
    Done,
}

/// Whether the API server said that the object is not there.
pub open spec fn is_absence(e: Error) -> bool {
    e matches Error::Kube { code: Some(404), .. }
}

/// What the outcome of a request on one object means where the object need not
/// be there: that it is gone is as good as done.
pub fn tolerate_absent(outcome: Result<(), Error>) -> (r: Result<(), Error>)
    ensures
        match outcome {
            Ok(_) => r is Ok,
            Err(e) => if is_absence(e) {
                r is Ok
            } else {
                r == Err::<(), Error>(e)
            },
        },
{
    match outcome {
        Ok(_) => Ok(()),
        Err(Error::Kube { code: Some(404), .. }) => Ok(()),
        Err(e) => Err(e),
    }
}

/// The patch that marks a `Snapshot` as pruned.
pub fn pruned_by_patch(pruned_by: &str) -> (r: Json)
    ensures
        tree(r) == annotation_tree(PRUNED_BY_ANNOTATION@, pruned_by@),
{
    annotation_patch(PRUNED_BY_ANNOTATION, pruned_by)
}

/// The step after this one, from what came of it.
pub fn next_prune_step(step: PruneStep, outcome: Result<(), Error>) -> (r: Result<PruneStep, Error>)
    ensures
        match outcome {
            Err(e) => if is_absence(e) {
                r == Ok::<PruneStep, Error>(following(step))
            } else {
                r == Err::<PruneStep, Error>(e)
            },
            Ok(_) => r == Ok::<PruneStep, Error>(following(step)),
        },
{
    match tolerate_absent(outcome) {
        Err(e) => Err(e),
        Ok(_) => Ok(
            match step {
                PruneStep::Stamp => PruneStep::Delete,
                PruneStep::Delete => PruneStep::Done,
                PruneStep::Done => PruneStep::Done,
            },
        ),
    }
}

/// The step that follows where this one is done.
pub open spec fn following(step: PruneStep) -> PruneStep {
    match step {
        PruneStep::Stamp => PruneStep::Delete,
        PruneStep::Delete => PruneStep::Done,
        PruneStep::Done => PruneStep::Done,
    }
}

/// Nothing is deleted that was not marked: deletion follows only on marking.
pub proof fn lemma_marked_before_deleted(step: PruneStep)
    ensures
        following(step) == PruneStep::Delete <==> step == PruneStep::Stamp,
{
}

/// Marking comes first, deletion next, and then nothing more.
pub proof fn lemma_the_order_of_pruning()
    ensures
        following(PruneStep::Stamp) == PruneStep::Delete,
        following(PruneStep::Delete) == PruneStep::Done,
        following(PruneStep::Done) == PruneStep::Done,
{
}

/// Only a 404 tells that an object is not there: a conflict, a refusal and a failure
/// without an answer do not.
pub proof fn lemma_what_tells_absence(e: Error)
    ensures
        is_absence(e) ==> e is Kube,
        e matches Error::Kube { code, .. } ==> (is_absence(e) <==> code == Some(404u16)),
{
}

} // verus!
