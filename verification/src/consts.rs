//! Labels, annotations and component names that the operator writes and selects by.
use vstd::prelude::*;

verus! {

/// Label that tells which part of the operator an object belongs to.
pub const COMPONENT_LABEL: &'static str = "app.kubernetes.io/component";

/// Component of a `RepositoryReplication` mover Job.
pub const REPLICATION_COMPONENT: &'static str = "repository-replication";

/// Component of a `SnapshotReplication` mover Job.
pub const SNAPSHOT_REPLICATION_COMPONENT: &'static str = "snapshot-replication";

/// Label that ties a mover Job to its `RepositoryReplication`.
pub const REPLICATION_INSTANCE_LABEL: &'static str = "kopiur.home-operations.com/repository-replication";

/// Label that ties a mover Job to its `SnapshotReplication`.
pub const SNAPSHOT_REPLICATION_INSTANCE_LABEL: &'static str = "kopiur.home-operations.com/snapshot-replication";

/// Annotation that asks for a run now; its value is an RFC3339 timestamp.
pub const RUN_REQUESTED_ANNOTATION: &'static str = "kopiur.home-operations.com/run-requested";

/// Job annotation that names what asked for the run.
pub const RUN_TRIGGER_ANNOTATION: &'static str = "kopiur.home-operations.com/run-trigger";

/// Job annotation that marks a terminal run as counted.
pub const RUN_COUNTED_ANNOTATION: &'static str = "kopiur.home-operations.com/run-counted";

/// Job label that makes one repository's pool of movers selectable.
pub const REPO_POOL_LABEL: &'static str = "kopiur.home-operations.com/repo-pool";

/// Condition that tells whether something maintains a repository.
pub const MAINTENANCE_CONFIGURED_CONDITION: &'static str = "MaintenanceConfigured";

/// Reason: a `Maintenance` covers the repository.
pub const MAINTENANCE_CONFIGURED_REASON: &'static str = "MaintenanceConfigured";

/// Reason: maintenance is switched off.
pub const MAINTENANCE_DISABLED_REASON: &'static str = "MaintenanceDisabled";

/// Reason: there is no namespace to put the managed `Maintenance` in.
pub const MAINTENANCE_NAMESPACE_UNRESOLVED_REASON: &'static str = "MaintenanceNamespaceUnresolved";

/// Reason: the managed `Maintenance` could not be applied.
pub const MAINTENANCE_APPLY_FAILED_REASON: &'static str = "MaintenanceApplyFailed";

/// Label that tells what manages an object.
pub const MANAGED_BY_LABEL: &'static str = "app.kubernetes.io/managed-by";

/// What [`MANAGED_BY_LABEL`] says of the operator's objects.
pub const MANAGED_BY_VALUE: &'static str = "kopiur";

/// Component of a copied credential Secret.
pub const CREDS_COMPONENT: &'static str = "credentials";

/// Label that tells what a copied credential Secret belongs to.
pub const CREDS_SCOPE_LABEL: &'static str = "kopiur.home-operations.com/creds-scope";

/// What [`CREDS_SCOPE_LABEL`] says of a copy that one object keeps.
pub const CREDS_SCOPE_CR: &'static str = "cr";

/// Annotation that tells where a copied credential Secret comes from.
pub const PROJECTED_FROM_ANNOTATION: &'static str = "kopiur.home-operations.com/projected-from";

/// Annotation that tells when a credential Secret was copied.
pub const PROJECTED_AT_ANNOTATION: &'static str = "kopiur.home-operations.com/projected-at";

/// The chart's switch for copying credentials.
pub const CREDENTIAL_PROJECTION_FLAG: &'static str = "features.credentialProjection.enabled";

/// Condition that tells whether a repository's backend answers.
pub const BACKEND_REACHABLE_CONDITION: &'static str = "BackendReachable";

/// Annotation that asks a repository to be probed again; its value is when it was asked.
pub const REVERIFY_REQUESTED_ANNOTATION: &'static str = "kopiur.home-operations.com/reverify-requested";

/// Annotation that tells which part of the operator pruned a `Snapshot`.
pub const PRUNED_BY_ANNOTATION: &'static str = "kopiur.home-operations.com/pruned-by";

/// Reason: a snapshot of the source is not usable yet.
pub const STAGING_WAITING_REASON: &'static str = "WaitingForVolumeSnapshot";

/// Reason: the staged volume is not bound yet.
pub const STAGED_PVC_BINDING_REASON: &'static str = "StagedPvcBinding";

/// Reason: the shared snapshot of a group is not usable yet.
pub const GROUP_STAGING_WAITING_REASON: &'static str = "WaitingForVolumeGroupSnapshot";

/// Reason: the shared snapshot of a group still reported an error at its deadline.
pub const REASON_VGS_FAILED: &'static str = "VolumeGroupSnapshotFailed";

/// Reason: the shared snapshot of a group missed its deadline without an error.
pub const REASON_GROUP_STAGING_TIMEOUT: &'static str = "GroupStagingTimedOut";

/// Reason: the shared snapshot of a group does not hold this volume.
pub const REASON_GROUP_MEMBER_MISSING: &'static str = "GroupMemberMissing";

/// Reason: no class for snapshots of groups can be used.
pub const REASON_NO_GROUP_CLASS: &'static str = "NoVolumeGroupSnapshotClass";

/// Label that joins the members of a group to its shared snapshot.
pub const GROUP_LABEL: &'static str = "kopiur.home-operations.com/group";

/// Label that tells what a staged object is for.
pub const STAGED_COMPONENT_LABEL: &'static str = "kopiur.home-operations.com/component";

/// Finalizer that keeps a `Snapshot` until its snapshot is dealt with.
pub const SNAPSHOT_CLEANUP_FINALIZER: &'static str = "kopiur.home-operations.com/snapshot-cleanup";

/// Condition that tells that a deletion is held back.
pub const DELETION_HELD_CONDITION: &'static str = "DeletionHeld";

/// Condition that tells whether an object is ready.
pub const READY_CONDITION: &'static str = "Ready";

/// Reason: the repository is not ready.
pub const REPOSITORY_NOT_READY_REASON: &'static str = "RepositoryNotReady";

} // verus!
