//! Membership of a repository's pool of mover Jobs.
//!
//! One place decides which flavors of mover Job count toward a repository's
//! concurrency limit, and gives those that do the label by which the pool is
//! selected.
use vstd::prelude::*;

use crate::consts::REPO_POOL_LABEL;
use crate::naming::{RepositoryRef, RepositoryRefView, label_of, pinned_key, repo_label, short};
use crate::text::head;

verus! {

/// Every flavor of mover Job.
#[derive(Debug, Clone, Copy, PartialEq, Eq, Hash, Structural)]
pub enum MoverJobKind {
    /// Backup of a `Snapshot`.
    Backup,
    /// `Restore`, direct or through a volume populator.
    Restore,
    /// Mirror of a `RepositoryReplication`.
    RepositoryReplication,
    /// Copy of a `SnapshotReplication`.
    SnapshotReplication,
    /// Quick or full run of a `Maintenance`.
    Maintenance,
    /// Verification for a `SnapshotPolicy`.
    Verification,
    /// Pin or unpin of a `Snapshot`.
    Pin,
    /// Batched deletion of snapshots.
    SnapshotDeleteBatch,
    /// Bootstrap or catalog scan of a repository.
    Discovery,
    /// Read-only browsing session.
    BrowseSession,
}

/// Whether a flavor is bulk data work, which is what a user throttles.
pub open spec fn pooled(kind: MoverJobKind) -> bool {
    ||| kind == MoverJobKind::Backup
    ||| kind == MoverJobKind::Restore
    ||| kind == MoverJobKind::RepositoryReplication
    ||| kind == MoverJobKind::SnapshotReplication
}

/// The label that a Job of this flavor against this repository carries.
pub open spec fn pool_entry(kind: MoverJobKind, repo: RepositoryRefView) -> Option<
    (Seq<char>, Seq<char>),
> {
    if pooled(kind) {
        Some((REPO_POOL_LABEL@, label_of(repo)))
    } else {
        None
    }
}

/// Whether a flavor of mover Job counts toward its repository's limit.
///
/// Backups, restores and the source side of replications do. Maintenance does
/// not: it is the cure for an overloaded repository. Verification and pinning
/// are cheap, deletion has its own single flight, discovery is what makes a
/// repository ready at all, and somebody waits for a browsing session.
pub fn counts_toward_repo_pool(kind: MoverJobKind) -> (r: bool)
    ensures
        r == pooled(kind),
{
    match kind {
        MoverJobKind::Backup
        | MoverJobKind::Restore
        | MoverJobKind::RepositoryReplication
        | MoverJobKind::SnapshotReplication => true,
        MoverJobKind::Maintenance
        | MoverJobKind::Verification
        | MoverJobKind::Pin
        | MoverJobKind::SnapshotDeleteBatch
        | MoverJobKind::Discovery
        | MoverJobKind::BrowseSession => false,
    }
}

/// The pool label of a run of `kind` against `repo_ref`, or nothing where the
/// flavor is not in the pool. `repo_ref` has its namespace filled in: without
/// one the run would land in a pool of its own.
pub fn repo_pool_label(kind: MoverJobKind, repo_ref: &RepositoryRef) -> (r: Option<
    (String, String),
>)
    ensures
        match (r, pool_entry(kind, repo_ref@)) {
            (Some(got), Some(want)) => got.0@ == want.0 && got.1@ == want.1,
            (None, None) => true,
            _ => false,
        },
{
    if counts_toward_repo_pool(kind) {
        Some((REPO_POOL_LABEL.to_owned(), repo_label(repo_ref)))
    } else {
        None
    }
}

/// One selector counts the pool: every pooled flavor carries the same label
/// against one repository, and the others carry none.
pub proof fn lemma_one_label_per_repository(
    a: MoverJobKind,
    b: MoverJobKind,
    repo: RepositoryRefView,
)
    ensures
        pooled(a) && pooled(b) ==> pool_entry(a, repo) == pool_entry(b, repo),
        pool_entry(a, repo) is Some <==> pooled(a),
{
}

/// Which flavors count toward a repository's limit: backups, restores and the two
/// replications, and no other.
pub proof fn lemma_what_is_pooled()
    ensures
        pooled(MoverJobKind::Backup),
        pooled(MoverJobKind::Restore),
        pooled(MoverJobKind::RepositoryReplication),
        pooled(MoverJobKind::SnapshotReplication),
        !pooled(MoverJobKind::Maintenance),
        !pooled(MoverJobKind::Verification),
        !pooled(MoverJobKind::Pin),
        !pooled(MoverJobKind::SnapshotDeleteBatch),
        !pooled(MoverJobKind::Discovery),
        !pooled(MoverJobKind::BrowseSession),
{
}

/// The pool label's value tells the repository: it is that of the Jobs that are counted by
/// it, made of the repository's name and of the hash of its kind, namespace and name.
pub proof fn lemma_what_the_pool_label_says(kind: MoverJobKind, repo: RepositoryRefView)
    ensures
        pool_entry(kind, repo) matches Some(l) ==> l.0 == REPO_POOL_LABEL@ && l.1 == head(
            repo.name,
            40,
        ) + "-"@ + short(pinned_key(repo)),
{
}

} // verus!
