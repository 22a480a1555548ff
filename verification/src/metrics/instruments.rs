//! What is counted and set when something happens.
use vstd::prelude::*;
use vstd::string::*;

use crate::metrics::series::{Label, LabelView, label_views, policy_label, repo_labels};
use crate::text::opt_str;

verus! {

/// How the deletion of a `Snapshot` was resolved.
#[derive(Debug, Clone, Copy, PartialEq, Eq, Structural)]
pub enum SnapshotDeletionOutcome {
    /// The snapshot was deleted.
    Deleted,
    /// The snapshot was kept.
    Retained,
    /// The snapshot was not touched.
    Orphaned,
    /// The snapshot was kept because its schedule is gone.
    CascadeRetained,
    /// The snapshot was kept because its policy is gone.
    PolicyCascadeRetained,
}

/// What happens to the Snapshots of a policy that goes.
#[derive(Debug, Clone, Copy, PartialEq, Eq, Structural)]
pub enum PolicyCascadeMode {
    /// They are marked, then deleted; their snapshots are kept.
    Retain,
    /// They are deleted.
    Delete,
}

/// How a Job that deletes many snapshots ended.
#[derive(Debug, Clone, Copy, PartialEq, Eq, Structural)]
pub enum BatchJobOutcome {
    /// Every snapshot was deleted.
    Succeeded,
    /// One was not.
    Failed,
}

/// How one snapshot of such a Job fared.
#[derive(Debug, Clone, Copy, PartialEq, Eq, Structural)]
pub enum BatchMemberOutcome {
    /// It was deleted.
    Deleted,
    /// It was not.
    Failed,
}

/// How an instrument takes values.
#[derive(Debug, Clone, Copy, PartialEq, Eq, Structural)]
pub enum InstrumentKind {
    /// By adding.
    Counter,
    /// By setting.
    Gauge,
    /// By counting durations in ranges.
    Histogram,
    /// By being asked at each collection.
    Observed,
}

/// Everything that is measured.
#[derive(Debug, Clone, Copy, PartialEq, Eq, Structural)]
pub enum Instrument {
    /// Reconciles.
    Reconciliations,
    /// Reconciles that failed.
    ReconcileErrors,
    /// Events on failures that were not published.
    FailureEventsDropped,
    /// How long reconciles take.
    ReconcileDuration,
    /// The memory that the process holds.
    ResidentMemory,
    /// Whether this replica leads.
    IsLeader,
    /// How often this replica was elected.
    LeaderTransitions,
    /// Tries to renew the Lease that failed.
    LeaderRenewFailures,
    /// How long tries to renew the Lease take.
    LeaderRenewDuration,
    /// When a policy was last verified.
    SnapshotVerified,
    /// Snapshots whose run is over.
    SnapshotsCompleted,
    /// Snapshots that could not be deleted.
    SnapshotDeletionFailures,
    /// Snapshots that were left behind.
    OrphanedSnapshots,
    /// Snapshots whose deletion was resolved.
    SnapshotDeletions,
    /// Snapshots kept when their schedule went.
    SnapshotsCascadeRetained,
    /// Snapshots kept when their policy went.
    SnapshotsPolicyCascadeRetained,
    /// Snapshots that went with their policy.
    PolicyCascadeChildrenDeleted,
    /// Jobs that delete many snapshots.
    SnapshotDeleteBatchJobs,
    /// Snapshots of such Jobs.
    SnapshotDeleteBatchMembers,
    /// Orphaned ConfigMaps that were swept.
    WorkSpecCmsSwept,
    /// Copied Secrets that were swept.
    ProjectedSecretsSwept,
    /// Copied Secrets that were reaped.
    CredsSecretsReaped,
    /// Copied Secrets that there are.
    ProjectedSecretsLive,
    /// Snapshots that a policy took on.
    SnapshotsAdopted,
    /// Snapshots that a schedule created.
    ScheduleSnapshotsCreated,
    /// Secrets that were copied.
    SecretsProjected,
    /// Backups that were refused.
    SnapshotRefusals,
    /// Alerts on a backend.
    HealthProbeFailures,
    /// Breakers that opened.
    BreakerTrips,
    /// The size of a repository.
    RepoSize,
    /// The snapshots of a repository.
    RepoSnapshotCount,
    /// The snapshots that were found in it.
    RepoDiscoveredSnapshots,
    /// Those of another cluster.
    RepoForeignSnapshots,
    /// Whether a repository is maintained.
    MaintenanceConfigured,
    /// How long the last restore took.
    RestoreDuration,
    /// What the last maintenance freed.
    MaintenanceReclaimed,
    /// The active phase of an object.
    ResourcePhase,
    /// The size of a Snapshot.
    SnapshotSize,
    /// The files of a Snapshot.
    SnapshotFiles,
    /// How long a Snapshot took.
    SnapshotDuration,
    /// When a Snapshot succeeded.
    SnapshotLastSuccess,
    /// When a policy's latest success ended.
    PolicyLastSuccess,
    /// How long it took.
    PolicyLastDuration,
    /// Its size.
    PolicyLastSize,
    /// Its files.
    PolicyLastFiles,
    /// Whether a policy's last backup succeeded.
    PolicyHealthy,
    /// Snapshots that are being deleted.
    DeletionsPending,
    /// Those whose deletion is held back.
    DeletionsHeld,
    /// How many of a policy's backups failed in a row.
    ConsecutiveFailures,
    /// How many Snapshots a policy has.
    SnapshotsLive,
    /// How many Snapshots wait for their repository.
    SnapshotsGated,
    /// How often a backend was out of reach in a row.
    BackendFailures,
    /// Since when a breaker has been open.
    BreakerOpenSince,
}

/// What happens to an instrument.
#[derive(Debug, Clone, Copy, PartialEq, Eq, Structural)]
pub enum Measure {
    /// So much is added.
    Add(u64),
    /// It is set.
    Put(i64),
    /// The duration that was measured is counted.
    Timed,
}

/// A change of one series.
#[derive(Debug, Clone, PartialEq, Eq)]
pub struct Change {
    /// The instrument.
    pub instrument: Instrument,
    /// What happens to it.
    pub measure: Measure,
    /// The labels of the series.
    pub labels: Vec<Label>,
}

/// What was measured and not handed on yet.
#[derive(Debug, Clone, PartialEq, Eq)]
pub struct Metrics {
    /// The changes, in order.
    pub changes: Vec<Change>,
}

/// A change of one series.
pub type ChangeView = (Instrument, Measure, Seq<LabelView>);

impl View for Change {
    type V = ChangeView;

    open spec fn view(&self) -> ChangeView {
        (self.instrument, self.measure, label_views(self.labels@))
    }
}

impl View for Metrics {
    type V = Seq<ChangeView>;

    open spec fn view(&self) -> Seq<ChangeView> {
        self.changes@.map_values(|c: Change| c@)
    }
}

/// The word for how a deletion was resolved.
pub open spec fn deletion_word(o: SnapshotDeletionOutcome) -> Seq<char> {
    match o {
        SnapshotDeletionOutcome::Deleted => "deleted"@,
        SnapshotDeletionOutcome::Retained => "retained"@,
        SnapshotDeletionOutcome::Orphaned => "orphaned"@,
        SnapshotDeletionOutcome::CascadeRetained => "cascade_retained"@,
        SnapshotDeletionOutcome::PolicyCascadeRetained => "policy_cascade_retained"@,
    }
}

/// The word for what happens to a policy's Snapshots.
pub open spec fn mode_word(m: PolicyCascadeMode) -> Seq<char> {
    match m {
        PolicyCascadeMode::Retain => "retain"@,
        PolicyCascadeMode::Delete => "delete"@,
    }
}

/// The word for how a Job ended.
pub open spec fn batch_word(o: BatchJobOutcome) -> Seq<char> {
    match o {
        BatchJobOutcome::Succeeded => "succeeded"@,
        BatchJobOutcome::Failed => "failed"@,
    }
}

/// The word for how one snapshot fared.
pub open spec fn member_word(o: BatchMemberOutcome) -> Seq<char> {
    match o {
        BatchMemberOutcome::Deleted => "deleted"@,
        BatchMemberOutcome::Failed => "failed"@,
    }
}

impl SnapshotDeletionOutcome {
    /// The label's value.
    pub fn as_str(self) -> (r: &'static str)
        ensures
            r@ == deletion_word(self),
    {
        match self {
            SnapshotDeletionOutcome::Deleted => "deleted",
            SnapshotDeletionOutcome::Retained => "retained",
            SnapshotDeletionOutcome::Orphaned => "orphaned",
            SnapshotDeletionOutcome::CascadeRetained => "cascade_retained",
            SnapshotDeletionOutcome::PolicyCascadeRetained => "policy_cascade_retained",
        }
    }
}

impl PolicyCascadeMode {
    /// The label's value.
    pub fn as_str(self) -> (r: &'static str)
        ensures
            r@ == mode_word(self),
    {
        match self {
            PolicyCascadeMode::Retain => "retain",
            PolicyCascadeMode::Delete => "delete",
        }
    }
}

impl BatchJobOutcome {
    /// The label's value.
    pub fn as_str(self) -> (r: &'static str)
        ensures
            r@ == batch_word(self),
    {
        match self {
            BatchJobOutcome::Succeeded => "succeeded",
            BatchJobOutcome::Failed => "failed",
        }
    }
}

impl BatchMemberOutcome {
    /// The label's value.
    pub fn as_str(self) -> (r: &'static str)
        ensures
            r@ == member_word(self),
    {
        match self {
            BatchMemberOutcome::Deleted => "deleted",
            BatchMemberOutcome::Failed => "failed",
        }
    }
}

/// The name of an instrument.
pub open spec fn instrument_name(i: Instrument) -> Seq<char> {
    match i {
        Instrument::Reconciliations => "kopiur_controller_reconciliations"@,
        Instrument::ReconcileErrors => "kopiur_controller_reconcile_errors"@,
        Instrument::FailureEventsDropped => "kopiur_controller_failure_events_dropped"@,
        Instrument::ReconcileDuration => "kopiur_controller_reconcile_duration_seconds"@,
        Instrument::ResidentMemory => "kopiur_process_resident_memory_bytes"@,
        Instrument::IsLeader => "kopiur_leader_is_leader"@,
        Instrument::LeaderTransitions => "kopiur_leader_transitions"@,
        Instrument::LeaderRenewFailures => "kopiur_leader_renew_failures"@,
        Instrument::LeaderRenewDuration => "kopiur_leader_renew_duration_seconds"@,
        Instrument::SnapshotVerified => "kopiur_snapshot_verified_timestamp_seconds"@,
        Instrument::SnapshotsCompleted => "kopiur_snapshots_completed"@,
        Instrument::SnapshotDeletionFailures => "kopiur_snapshot_deletion_failures"@,
        Instrument::OrphanedSnapshots => "kopiur_orphaned_snapshots"@,
        Instrument::SnapshotDeletions => "kopiur_snapshot_deletions"@,
        Instrument::SnapshotsCascadeRetained => "kopiur_snapshots_cascade_retained"@,
        Instrument::SnapshotsPolicyCascadeRetained => "kopiur_snapshots_policy_cascade_retained"@,
        Instrument::PolicyCascadeChildrenDeleted => "kopiur_policy_cascade_children_deleted"@,
        Instrument::SnapshotDeleteBatchJobs => "kopiur_snapshot_delete_batch_jobs"@,
        Instrument::SnapshotDeleteBatchMembers => "kopiur_snapshot_delete_batch_members"@,
        Instrument::WorkSpecCmsSwept => "kopiur_work_spec_cms_swept"@,
        Instrument::ProjectedSecretsSwept => "kopiur_projected_secrets_swept"@,
        Instrument::CredsSecretsReaped => "kopiur_creds_secrets_reaped"@,
        Instrument::ProjectedSecretsLive => "kopiur_projected_secrets_live"@,
        Instrument::SnapshotsAdopted => "kopiur_snapshots_adopted"@,
        Instrument::ScheduleSnapshotsCreated => "kopiur_schedule_snapshots_created"@,
        Instrument::SecretsProjected => "kopiur_secrets_projected"@,
        Instrument::SnapshotRefusals => "kopiur_snapshot_refusals"@,
        Instrument::HealthProbeFailures => "kopiur_repository_health_probe_failures"@,
        Instrument::BreakerTrips => "kopiur_repository_breaker_trips"@,
        Instrument::RepoSize => "kopiur_repo_size_bytes"@,
        Instrument::RepoSnapshotCount => "kopiur_repo_snapshot_count"@,
        Instrument::RepoDiscoveredSnapshots => "kopiur_repo_discovered_snapshots"@,
        Instrument::RepoForeignSnapshots => "kopiur_repo_foreign_snapshots"@,
        Instrument::MaintenanceConfigured => "kopiur_repository_maintenance_configured"@,
        Instrument::RestoreDuration => "kopiur_restore_duration_seconds"@,
        Instrument::MaintenanceReclaimed => "kopiur_maintenance_last_reclaimed_bytes"@,
        Instrument::ResourcePhase => "kopiur_resource_phase"@,
        Instrument::SnapshotSize => "kopiur_snapshot_size_bytes"@,
        Instrument::SnapshotFiles => "kopiur_snapshot_files"@,
        Instrument::SnapshotDuration => "kopiur_snapshot_duration_seconds"@,
        Instrument::SnapshotLastSuccess => "kopiur_snapshot_last_success_timestamp_seconds"@,
        Instrument::PolicyLastSuccess => "kopiur_policy_last_backup_success_timestamp_seconds"@,
        Instrument::PolicyLastDuration => "kopiur_policy_last_backup_duration_seconds"@,
        Instrument::PolicyLastSize => "kopiur_policy_last_backup_size_bytes"@,
        Instrument::PolicyLastFiles => "kopiur_policy_last_backup_files"@,
        Instrument::PolicyHealthy => "kopiur_snapshotpolicy_last_backup_success"@,
        Instrument::DeletionsPending => "kopiur_snapshot_deletions_pending_external"@,
        Instrument::DeletionsHeld => "kopiur_snapshot_deletions_held"@,
        Instrument::ConsecutiveFailures => "kopiur_snapshot_consecutive_failures"@,
        Instrument::SnapshotsLive => "kopiur_snapshots_live"@,
        Instrument::SnapshotsGated => "kopiur_snapshot_gated"@,
        Instrument::BackendFailures => "kopiur_repository_consecutive_backend_failures"@,
        Instrument::BreakerOpenSince => "kopiur_repository_breaker_open_since_timestamp_seconds"@,
    }
}

/// How an instrument takes values.
pub open spec fn instrument_kind(i: Instrument) -> InstrumentKind {
    match i {
        Instrument::Reconciliations
        | Instrument::ReconcileErrors
        | Instrument::FailureEventsDropped
        | Instrument::LeaderTransitions
        | Instrument::LeaderRenewFailures
        | Instrument::SnapshotsCompleted
        | Instrument::SnapshotDeletionFailures
        | Instrument::OrphanedSnapshots
        | Instrument::SnapshotDeletions
        | Instrument::SnapshotsCascadeRetained
        | Instrument::SnapshotsPolicyCascadeRetained
        | Instrument::PolicyCascadeChildrenDeleted
        | Instrument::SnapshotDeleteBatchJobs
        | Instrument::SnapshotDeleteBatchMembers
        | Instrument::WorkSpecCmsSwept
        | Instrument::ProjectedSecretsSwept
        | Instrument::CredsSecretsReaped
        | Instrument::SnapshotsAdopted
        | Instrument::ScheduleSnapshotsCreated
        | Instrument::SecretsProjected
        | Instrument::SnapshotRefusals
        | Instrument::HealthProbeFailures
        | Instrument::BreakerTrips => InstrumentKind::Counter,
        Instrument::IsLeader
        | Instrument::SnapshotVerified
        | Instrument::ProjectedSecretsLive
        | Instrument::RepoSize
        | Instrument::RepoSnapshotCount
        | Instrument::RepoDiscoveredSnapshots
        | Instrument::RepoForeignSnapshots
        | Instrument::MaintenanceConfigured
        | Instrument::RestoreDuration
        | Instrument::MaintenanceReclaimed => InstrumentKind::Gauge,
        Instrument::ReconcileDuration
        | Instrument::LeaderRenewDuration => InstrumentKind::Histogram,
        _ => InstrumentKind::Observed,
    }
}

impl Instrument {
    /// The name of the instrument.
    pub fn name(self) -> (r: &'static str)
        ensures
            r@ == instrument_name(self),
    {
        match self {
            Instrument::Reconciliations => "kopiur_controller_reconciliations",
            Instrument::ReconcileErrors => "kopiur_controller_reconcile_errors",
            Instrument::FailureEventsDropped => "kopiur_controller_failure_events_dropped",
            Instrument::ReconcileDuration => "kopiur_controller_reconcile_duration_seconds",
            Instrument::ResidentMemory => "kopiur_process_resident_memory_bytes",
            Instrument::IsLeader => "kopiur_leader_is_leader",
            Instrument::LeaderTransitions => "kopiur_leader_transitions",
            Instrument::LeaderRenewFailures => "kopiur_leader_renew_failures",
            Instrument::LeaderRenewDuration => "kopiur_leader_renew_duration_seconds",
            Instrument::SnapshotVerified => "kopiur_snapshot_verified_timestamp_seconds",
            Instrument::SnapshotsCompleted => "kopiur_snapshots_completed",
            Instrument::SnapshotDeletionFailures => "kopiur_snapshot_deletion_failures",
            Instrument::OrphanedSnapshots => "kopiur_orphaned_snapshots",
            Instrument::SnapshotDeletions => "kopiur_snapshot_deletions",
            Instrument::SnapshotsCascadeRetained => "kopiur_snapshots_cascade_retained",
            Instrument::SnapshotsPolicyCascadeRetained => "kopiur_snapshots_policy_cascade_retained",
            Instrument::PolicyCascadeChildrenDeleted => "kopiur_policy_cascade_children_deleted",
            Instrument::SnapshotDeleteBatchJobs => "kopiur_snapshot_delete_batch_jobs",
            Instrument::SnapshotDeleteBatchMembers => "kopiur_snapshot_delete_batch_members",
            Instrument::WorkSpecCmsSwept => "kopiur_work_spec_cms_swept",
            Instrument::ProjectedSecretsSwept => "kopiur_projected_secrets_swept",
            Instrument::CredsSecretsReaped => "kopiur_creds_secrets_reaped",
            Instrument::ProjectedSecretsLive => "kopiur_projected_secrets_live",
            Instrument::SnapshotsAdopted => "kopiur_snapshots_adopted",
            Instrument::ScheduleSnapshotsCreated => "kopiur_schedule_snapshots_created",
            Instrument::SecretsProjected => "kopiur_secrets_projected",
            Instrument::SnapshotRefusals => "kopiur_snapshot_refusals",
            Instrument::HealthProbeFailures => "kopiur_repository_health_probe_failures",
            Instrument::BreakerTrips => "kopiur_repository_breaker_trips",
            Instrument::RepoSize => "kopiur_repo_size_bytes",
            Instrument::RepoSnapshotCount => "kopiur_repo_snapshot_count",
            Instrument::RepoDiscoveredSnapshots => "kopiur_repo_discovered_snapshots",
            Instrument::RepoForeignSnapshots => "kopiur_repo_foreign_snapshots",
            Instrument::MaintenanceConfigured => "kopiur_repository_maintenance_configured",
            Instrument::RestoreDuration => "kopiur_restore_duration_seconds",
            Instrument::MaintenanceReclaimed => "kopiur_maintenance_last_reclaimed_bytes",
            Instrument::ResourcePhase => "kopiur_resource_phase",
            Instrument::SnapshotSize => "kopiur_snapshot_size_bytes",
            Instrument::SnapshotFiles => "kopiur_snapshot_files",
            Instrument::SnapshotDuration => "kopiur_snapshot_duration_seconds",
            Instrument::SnapshotLastSuccess => "kopiur_snapshot_last_success_timestamp_seconds",
            Instrument::PolicyLastSuccess => "kopiur_policy_last_backup_success_timestamp_seconds",
            Instrument::PolicyLastDuration => "kopiur_policy_last_backup_duration_seconds",
            Instrument::PolicyLastSize => "kopiur_policy_last_backup_size_bytes",
            Instrument::PolicyLastFiles => "kopiur_policy_last_backup_files",
            Instrument::PolicyHealthy => "kopiur_snapshotpolicy_last_backup_success",
            Instrument::DeletionsPending => "kopiur_snapshot_deletions_pending_external",
            Instrument::DeletionsHeld => "kopiur_snapshot_deletions_held",
            Instrument::ConsecutiveFailures => "kopiur_snapshot_consecutive_failures",
            Instrument::SnapshotsLive => "kopiur_snapshots_live",
            Instrument::SnapshotsGated => "kopiur_snapshot_gated",
            Instrument::BackendFailures => "kopiur_repository_consecutive_backend_failures",
            Instrument::BreakerOpenSince => "kopiur_repository_breaker_open_since_timestamp_seconds",
        }
    }

    /// How the instrument takes values.
    pub fn kind(self) -> (r: InstrumentKind)
        ensures
            r == instrument_kind(self),
    {
        match self {
            Instrument::Reconciliations
            | Instrument::ReconcileErrors
            | Instrument::FailureEventsDropped
            | Instrument::LeaderTransitions
            | Instrument::LeaderRenewFailures
            | Instrument::SnapshotsCompleted
            | Instrument::SnapshotDeletionFailures
            | Instrument::OrphanedSnapshots
            | Instrument::SnapshotDeletions
            | Instrument::SnapshotsCascadeRetained
            | Instrument::SnapshotsPolicyCascadeRetained
            | Instrument::PolicyCascadeChildrenDeleted
            | Instrument::SnapshotDeleteBatchJobs
            | Instrument::SnapshotDeleteBatchMembers
            | Instrument::WorkSpecCmsSwept
            | Instrument::ProjectedSecretsSwept
            | Instrument::CredsSecretsReaped
            | Instrument::SnapshotsAdopted
            | Instrument::ScheduleSnapshotsCreated
            | Instrument::SecretsProjected
            | Instrument::SnapshotRefusals
            | Instrument::HealthProbeFailures
            | Instrument::BreakerTrips => InstrumentKind::Counter,
            Instrument::IsLeader
            | Instrument::SnapshotVerified
            | Instrument::ProjectedSecretsLive
            | Instrument::RepoSize
            | Instrument::RepoSnapshotCount
            | Instrument::RepoDiscoveredSnapshots
            | Instrument::RepoForeignSnapshots
            | Instrument::MaintenanceConfigured
            | Instrument::RestoreDuration
            | Instrument::MaintenanceReclaimed => InstrumentKind::Gauge,
            Instrument::ReconcileDuration
            | Instrument::LeaderRenewDuration => InstrumentKind::Histogram,
            _ => InstrumentKind::Observed,
        }
    }
}

/// A label.
pub fn label(key: &'static str, value: &str) -> (r: Label)
    ensures
        r@ == (key@, value@),
{
    Label { key, value: value.to_owned() }
}

fn none() -> (r: Vec<Label>)
    ensures
        label_views(r@) == Seq::<LabelView>::empty(),
{
    let v: Vec<Label> = Vec::new();
    assert(label_views(v@) =~= Seq::<LabelView>::empty());
    v
}

pub(crate) fn one(a: Label) -> (r: Vec<Label>)
    ensures
        label_views(r@) == seq![a@],
{
    let mut v: Vec<Label> = Vec::new();
    v.push(a);
    v
}

pub(crate) fn two(a: Label, b: Label) -> (r: Vec<Label>)
    ensures
        label_views(r@) == seq![a@, b@],
{
    let mut v: Vec<Label> = Vec::new();
    v.push(a);
    v.push(b);
    v
}

pub(crate) fn three(a: Label, b: Label, c: Label) -> (r: Vec<Label>)
    ensures
        label_views(r@) == seq![a@, b@, c@],
{
    let mut v: Vec<Label> = Vec::new();
    v.push(a);
    v.push(b);
    v.push(c);
    v
}

pub(crate) fn four(a: Label, b: Label, c: Label, d: Label) -> (r: Vec<Label>)
    ensures
        label_views(r@) == seq![a@, b@, c@, d@],
{
    let mut v: Vec<Label> = Vec::new();
    v.push(a);
    v.push(b);
    v.push(c);
    v.push(d);
    v
}

/// The labels of a series of one object.
pub open spec fn object_labels(ns: Seq<char>, name: Seq<char>) -> Seq<LabelView> {
    seq![("namespace"@, ns), ("name"@, name)]
}

/// The labels of a series of one object.
pub fn ns_name(ns: &str, name: &str) -> (r: Vec<Label>)
    ensures
        label_views(r@) == object_labels(ns@, name@),
{
    two(label("namespace", ns), label("name", name))
}

/// A count of one.
pub open spec fn counted(i: Instrument, labels: Seq<LabelView>) -> ChangeView {
    (i, Measure::Add(1), labels)
}

/// A value that is set, where there is one.
pub open spec fn set_if(i: Instrument, value: Option<i64>, labels: Seq<LabelView>) -> Seq<ChangeView> {
    match value {
        Some(v) => seq![(i, Measure::Put(v), labels)],
        None => seq![],
    }
}

/// A flag as a number.
pub open spec fn flag(b: bool) -> i64 {
    if b {
        1
    } else {
        0
    }
}

pub(crate) fn flag_value(b: bool) -> (r: i64)
    ensures
        r == flag(b),
{
    if b {
        1
    } else {
        0
    }
}

impl Metrics {
    /// Nothing is measured yet.
    pub fn new() -> (r: Self)
        ensures
            r@ == Seq::<ChangeView>::empty(),
    {
        Metrics { changes: Vec::new() }
    }

    fn note(&mut self, instrument: Instrument, measure: Measure, labels: Vec<Label>)
        ensures
            final(self)@ == old(self)@.push((instrument, measure, label_views(labels@))),
    {
        self.changes.push(Change { instrument, measure, labels });
    }

    /// Counts a reconcile of `kind`, with how long it took.
    pub fn record_reconcile(&mut self, kind: &str)
        ensures
            final(self)@ == old(self)@.push(counted(Instrument::Reconciliations, seq![("kind"@, kind@)])).push(
                (Instrument::ReconcileDuration, Measure::Timed, seq![("kind"@, kind@)]),
            ),
    {
        self.note(Instrument::Reconciliations, Measure::Add(1), one(label("kind", kind)));
        self.note(Instrument::ReconcileDuration, Measure::Timed, one(label("kind", kind)));
    }

    /// Counts a reconcile of `kind` that failed with an error of this class.
    pub fn record_error(&mut self, kind: &str, class: &str)
        ensures
            final(self)@ == old(self)@.push(
                counted(Instrument::ReconcileErrors, seq![("kind"@, kind@), ("class"@, class@)]),
            ),
    {
        self.note(
            Instrument::ReconcileErrors,
            Measure::Add(1),
            two(label("kind", kind), label("class", class)),
        );
    }

    /// Counts an event on a failure that was not published, for this cause.
    pub fn record_failure_event_dropped(&mut self, cause: &'static str)
        ensures
            final(self)@ == old(self)@.push(
                (Instrument::FailureEventsDropped, Measure::Add(1), seq![("cause"@, cause@)]),
            ),
    {
        self.note(Instrument::FailureEventsDropped, Measure::Add(1), one(label("cause", cause)));
    }

    /// Counts a Snapshot whose run is over, once for each.
    pub fn inc_snapshot_completed(&mut self, result: &'static str, ns: &str, policy: Option<&str>)
        ensures
            final(self)@ == old(self)@.push(
                counted(
                    Instrument::SnapshotsCompleted,
                    seq![("result"@, result@), ("namespace"@, ns@)] + policy_label(opt_str(policy)),
                ),
            ),
    {
        let mut labels = two(label("result", result), label("namespace", ns));
        if let Some(p) = policy {
            labels.push(label("policy", p));
        }
        proof {
            assert(label_views(labels@) =~= seq![("result"@, result@), ("namespace"@, ns@)] + policy_label(
                opt_str(policy),
            ));
        }
        self.note(Instrument::SnapshotsCompleted, Measure::Add(1), labels);
    }

    /// Sets when a policy was last verified.
    pub fn set_snapshot_verified(&mut self, ns: &str, name: &str, ts: i64)
        ensures
            final(self)@ == old(self)@.push(
                (Instrument::SnapshotVerified, Measure::Put(ts), object_labels(ns@, name@)),
            ),
    {
        self.note(Instrument::SnapshotVerified, Measure::Put(ts), ns_name(ns, name));
    }

    /// Counts Secrets that were copied into a namespace.
    pub fn inc_secrets_projected(&mut self, ns: &str, n: u64)
        ensures
            final(self)@ == old(self)@.push(
                (Instrument::SecretsProjected, Measure::Add(n), seq![("namespace"@, ns@)]),
            ),
    {
        self.note(Instrument::SecretsProjected, Measure::Add(n), one(label("namespace", ns)));
    }

    /// Counts a snapshot that could not be deleted.
    pub fn inc_snapshot_deletion_failure(&mut self, ns: &str)
        ensures
            final(self)@ == old(self)@.push(
                (Instrument::SnapshotDeletionFailures, Measure::Add(1), seq![("namespace"@, ns@)]),
            ),
    {
        self.note(Instrument::SnapshotDeletionFailures, Measure::Add(1), one(label("namespace", ns)));
    }

    /// Counts a snapshot that was left behind.
    pub fn inc_orphaned_snapshot(&mut self, ns: &str)
        ensures
            final(self)@ == old(self)@.push(
                (Instrument::OrphanedSnapshots, Measure::Add(1), seq![("namespace"@, ns@)]),
            ),
    {
        self.note(Instrument::OrphanedSnapshots, Measure::Add(1), one(label("namespace", ns)));
    }

    /// Counts a deletion that was resolved.
    pub fn inc_snapshot_deletion(&mut self, ns: &str, outcome: SnapshotDeletionOutcome)
        ensures
            final(self)@ == old(self)@.push(deletion_counted(ns@, outcome)),
    {
        self.note(
            Instrument::SnapshotDeletions,
            Measure::Add(1),
            two(label("namespace", ns), label("outcome", outcome.as_str())),
        );
    }

    /// Counts a snapshot that was kept because its schedule is gone, in both counters
    /// that tell of it.
    pub fn inc_snapshot_cascade_retained(&mut self, ns: &str)
        ensures
            final(self)@ == old(self)@.push(
                deletion_counted(ns@, SnapshotDeletionOutcome::CascadeRetained),
            ).push(counted(Instrument::SnapshotsCascadeRetained, seq![("namespace"@, ns@)])),
    {
        self.inc_snapshot_deletion(ns, SnapshotDeletionOutcome::CascadeRetained);
        self.note(
            Instrument::SnapshotsCascadeRetained,
            Measure::Add(1),
            one(label("namespace", ns)),
        );
    }

    /// Counts a snapshot that was kept because its policy is gone, in both counters
    /// that tell of it.
    pub fn inc_snapshot_policy_cascade_retained(&mut self, ns: &str)
        ensures
            final(self)@ == old(self)@.push(
                deletion_counted(ns@, SnapshotDeletionOutcome::PolicyCascadeRetained),
            ).push(counted(Instrument::SnapshotsPolicyCascadeRetained, seq![("namespace"@, ns@)])),
    {
        self.inc_snapshot_deletion(ns, SnapshotDeletionOutcome::PolicyCascadeRetained);
        self.note(
            Instrument::SnapshotsPolicyCascadeRetained,
            Measure::Add(1),
            one(label("namespace", ns)),
        );
    }

    /// Counts a Snapshot that went with its policy.
    pub fn inc_policy_cascade_children_deleted(&mut self, ns: &str, mode: PolicyCascadeMode)
        ensures
            final(self)@ == old(self)@.push(
                counted(
                    Instrument::PolicyCascadeChildrenDeleted,
                    seq![("namespace"@, ns@), ("mode"@, mode_word(mode))],
                ),
            ),
    {
        self.note(
            Instrument::PolicyCascadeChildrenDeleted,
            Measure::Add(1),
            two(label("namespace", ns), label("mode", mode.as_str())),
        );
    }

    /// Counts a Job that deletes many snapshots.
    pub fn inc_snapshot_delete_batch_job(&mut self, outcome: BatchJobOutcome)
        ensures
            final(self)@ == old(self)@.push(
                (Instrument::SnapshotDeleteBatchJobs, Measure::Add(1), seq![("outcome"@, batch_word(outcome))]),
            ),
    {
        self.note(Instrument::SnapshotDeleteBatchJobs, Measure::Add(1), one(label("outcome", outcome.as_str())));
    }

    /// Counts snapshots of such a Job.
    pub fn inc_snapshot_delete_batch_members(&mut self, outcome: BatchMemberOutcome, n: u64)
        ensures
            final(self)@ == old(self)@.push(
                (Instrument::SnapshotDeleteBatchMembers, Measure::Add(n), seq![("outcome"@, member_word(outcome))]),
            ),
    {
        self.note(Instrument::SnapshotDeleteBatchMembers, Measure::Add(n), one(label("outcome", outcome.as_str())));
    }

    /// Counts orphaned ConfigMaps that were swept.
    pub fn inc_work_spec_cms_swept(&mut self, n: u64)
        ensures
            final(self)@ == old(self)@.push(
                (Instrument::WorkSpecCmsSwept, Measure::Add(n), Seq::<LabelView>::empty()),
            ),
    {
        self.note(Instrument::WorkSpecCmsSwept, Measure::Add(n), none());
    }

    /// Counts copied Secrets that were swept.
    pub fn inc_projected_secrets_swept(&mut self, n: u64)
        ensures
            final(self)@ == old(self)@.push(
                (Instrument::ProjectedSecretsSwept, Measure::Add(n), Seq::<LabelView>::empty()),
            ),
    {
        self.note(Instrument::ProjectedSecretsSwept, Measure::Add(n), none());
    }

    /// Counts copied Secrets that were reaped, by what reaped them.
    pub fn inc_creds_secrets_reaped(&mut self, by: &'static str, n: u64)
        ensures
            final(self)@ == old(self)@.push(
                (Instrument::CredsSecretsReaped, Measure::Add(n), seq![("by"@, by@)]),
            ),
    {
        self.note(Instrument::CredsSecretsReaped, Measure::Add(n), one(label("by", by)));
    }

    /// Sets how many copied Secrets there are.
    pub fn set_projected_secrets_live(&mut self, n: i64)
        ensures
            final(self)@ == old(self)@.push(
                (Instrument::ProjectedSecretsLive, Measure::Put(n), Seq::<LabelView>::empty()),
            ),
    {
        self.note(Instrument::ProjectedSecretsLive, Measure::Put(n), none());
    }

    /// Counts a Snapshot that a schedule created.
    pub fn inc_schedule_backup_created(&mut self, ns: &str, name: &str)
        ensures
            final(self)@ == old(self)@.push(
                (Instrument::ScheduleSnapshotsCreated, Measure::Add(1), object_labels(ns@, name@)),
            ),
    {
        self.note(Instrument::ScheduleSnapshotsCreated, Measure::Add(1), ns_name(ns, name));
    }

    /// Counts Snapshots that a policy took on.
    pub fn inc_snapshots_adopted(&mut self, ns: &str, policy: &str, n: u64)
        ensures
            final(self)@ == old(self)@.push(
                (
                    Instrument::SnapshotsAdopted,
                    Measure::Add(n),
                    seq![("namespace"@, ns@), ("policy"@, policy@)],
                ),
            ),
    {
        self.note(
            Instrument::SnapshotsAdopted,
            Measure::Add(n),
            two(label("namespace", ns), label("policy", policy)),
        );
    }

    /// Counts a backup that was refused.
    pub fn inc_backup_refused(&mut self, ns: &str, name: &str, reason: &'static str)
        ensures
            final(self)@ == old(self)@.push(
                counted(
                    Instrument::SnapshotRefusals,
                    seq![("namespace"@, ns@), ("name"@, name@), ("reason"@, reason@)],
                ),
            ),
    {
        self.note(
            Instrument::SnapshotRefusals,
            Measure::Add(1),
            three(label("namespace", ns), label("name", name), label("reason", reason)),
        );
    }

    /// Counts an alert on a repository's backend.
    pub fn inc_health_probe_failure(&mut self, ns: &str, name: &str, kind: &str, outcome: &str)
        ensures
            final(self)@ == old(self)@.push(
                counted(
                    Instrument::HealthProbeFailures,
                    seq![
                        ("namespace"@, ns@),
                        ("name"@, name@),
                        ("kind"@, kind@),
                        ("outcome"@, outcome@),
                    ],
                ),
            ),
    {
        self.note(
            Instrument::HealthProbeFailures,
            Measure::Add(1),
            four(
                label("namespace", ns),
                label("name", name),
                label("kind", kind),
                label("outcome", outcome),
            ),
        );
    }

    /// Counts a breaker that opened.
    pub fn inc_breaker_trip(&mut self, kind: &str, ns: &str, name: &str, probe_kind: &str)
        ensures
            final(self)@ == old(self)@.push(
                counted(
                    Instrument::BreakerTrips,
                    seq![
                        ("kind"@, kind@),
                        ("namespace"@, ns@),
                        ("name"@, name@),
                        ("probe_kind"@, probe_kind@),
                    ],
                ),
            ),
    {
        self.note(
            Instrument::BreakerTrips,
            Measure::Add(1),
            four(
                label("kind", kind),
                label("namespace", ns),
                label("name", name),
                label("probe_kind", probe_kind),
            ),
        );
    }

    /// Sets the size of a repository.
    pub fn set_repo_size_bytes(&mut self, ns: &str, name: &str, bytes: i64)
        ensures
            final(self)@ == old(self)@.push(
                (Instrument::RepoSize, Measure::Put(bytes), object_labels(ns@, name@)),
            ),
    {
        self.note(Instrument::RepoSize, Measure::Put(bytes), ns_name(ns, name));
    }

    /// Sets what is known of a repository's catalog; what is not known is left alone.
    pub fn set_repo_catalog(
        &mut self,
        ns: &str,
        name: &str,
        snapshot_count: Option<i64>,
        discovered: Option<i64>,
        foreign: Option<i64>,
    )
        ensures
            final(self)@ == old(self)@ + set_if(
                Instrument::RepoSnapshotCount,
                snapshot_count,
                object_labels(ns@, name@),
            ) + set_if(Instrument::RepoDiscoveredSnapshots, discovered, object_labels(ns@, name@))
                + set_if(Instrument::RepoForeignSnapshots, foreign, object_labels(ns@, name@)),
    {
        if let Some(v) = snapshot_count {
            self.note(Instrument::RepoSnapshotCount, Measure::Put(v), ns_name(ns, name));
        }
        if let Some(v) = discovered {
            self.note(Instrument::RepoDiscoveredSnapshots, Measure::Put(v), ns_name(ns, name));
        }
        if let Some(v) = foreign {
            self.note(Instrument::RepoForeignSnapshots, Measure::Put(v), ns_name(ns, name));
        }
    }

    /// Sets whether a repository is maintained.
    pub fn set_repository_maintenance_configured(
        &mut self,
        kind: &str,
        ns: &str,
        name: &str,
        configured: bool,
    )
        ensures
            final(self)@ == old(self)@.push(
                (
                    Instrument::MaintenanceConfigured,
                    Measure::Put(flag(configured)),
                    repo_labels(kind@, ns@, name@),
                ),
            ),
    {
        self.note(
            Instrument::MaintenanceConfigured,
            Measure::Put(flag_value(configured)),
            three(label("kind", kind), label("namespace", ns), label("name", name)),
        );
    }

    /// Sets how long the last restore took.
    pub fn set_restore_duration(&mut self, ns: &str, name: &str, seconds: i64)
        ensures
            final(self)@ == old(self)@.push(
                (Instrument::RestoreDuration, Measure::Put(seconds), object_labels(ns@, name@)),
            ),
    {
        self.note(Instrument::RestoreDuration, Measure::Put(seconds), ns_name(ns, name));
    }

    /// Sets whether this replica leads, and counts that it was elected.
    pub fn set_leader(&mut self, leading: bool)
        ensures
            final(self)@ == old(self)@.push(
                (Instrument::IsLeader, Measure::Put(flag(leading)), Seq::<LabelView>::empty()),
            ) + if leading {
                seq![counted(Instrument::LeaderTransitions, Seq::<LabelView>::empty())]
            } else {
                seq![]
            },
    {
        self.note(Instrument::IsLeader, Measure::Put(flag_value(leading)), none());
        if leading {
            self.note(Instrument::LeaderTransitions, Measure::Add(1), none());
        }
    }

    /// Counts how long a try to renew the Lease took, and why it failed if it did.
    pub fn record_leader_renew(&mut self, reason: Option<&'static str>)
        ensures
            final(self)@ == old(self)@.push(
                (Instrument::LeaderRenewDuration, Measure::Timed, Seq::<LabelView>::empty()),
            ) + match reason {
                Some(r) => seq![counted(Instrument::LeaderRenewFailures, seq![("reason"@, r@)])],
                None => seq![],
            },
    {
        self.note(Instrument::LeaderRenewDuration, Measure::Timed, none());
        if let Some(r) = reason {
            self.note(Instrument::LeaderRenewFailures, Measure::Add(1), one(label("reason", r)));
        }
    }

    /// Sets what the last maintenance freed.
    pub fn set_maintenance_reclaimed_bytes(&mut self, ns: &str, name: &str, bytes: i64)
        ensures
            final(self)@ == old(self)@.push(
                (Instrument::MaintenanceReclaimed, Measure::Put(bytes), object_labels(ns@, name@)),
            ),
    {
        self.note(Instrument::MaintenanceReclaimed, Measure::Put(bytes), ns_name(ns, name));
    }

}

impl Default for Metrics {
    fn default() -> (r: Self)
        ensures
            r@ == Seq::<ChangeView>::empty(),
    {
        Metrics::new()
    }
}

/// A deletion that was resolved.
pub open spec fn deletion_counted(ns: Seq<char>, outcome: SnapshotDeletionOutcome) -> ChangeView {
    counted(
        Instrument::SnapshotDeletions,
        seq![("namespace"@, ns), ("outcome"@, deletion_word(outcome))],
    )
}

/// Every instrument's name starts the same way.
pub proof fn lemma_names_share_a_namespace(i: Instrument)
    ensures
        "kopiur_"@.is_prefix_of(instrument_name(i)),
{
    reveal_strlit("kopiur_");
    match i {
        Instrument::Reconciliations => {
            reveal_strlit("kopiur_controller_reconciliations");
        },
        Instrument::ReconcileErrors => {
            reveal_strlit("kopiur_controller_reconcile_errors");
        },
        Instrument::FailureEventsDropped => {
            reveal_strlit("kopiur_controller_failure_events_dropped");
        },
        Instrument::ReconcileDuration => {
            reveal_strlit("kopiur_controller_reconcile_duration_seconds");
        },
        Instrument::ResidentMemory => {
            reveal_strlit("kopiur_process_resident_memory_bytes");
        },
        Instrument::IsLeader => {
            reveal_strlit("kopiur_leader_is_leader");
        },
        Instrument::LeaderTransitions => {
            reveal_strlit("kopiur_leader_transitions");
        },
        Instrument::LeaderRenewFailures => {
            reveal_strlit("kopiur_leader_renew_failures");
        },
        Instrument::LeaderRenewDuration => {
            reveal_strlit("kopiur_leader_renew_duration_seconds");
        },
        Instrument::SnapshotVerified => {
            reveal_strlit("kopiur_snapshot_verified_timestamp_seconds");
        },
        Instrument::SnapshotsCompleted => {
            reveal_strlit("kopiur_snapshots_completed");
        },
        Instrument::SnapshotDeletionFailures => {
            reveal_strlit("kopiur_snapshot_deletion_failures");
        },
        Instrument::OrphanedSnapshots => {
            reveal_strlit("kopiur_orphaned_snapshots");
        },
        Instrument::SnapshotDeletions => {
            reveal_strlit("kopiur_snapshot_deletions");
        },
        Instrument::SnapshotsCascadeRetained => {
            reveal_strlit("kopiur_snapshots_cascade_retained");
        },
        Instrument::SnapshotsPolicyCascadeRetained => {
            reveal_strlit("kopiur_snapshots_policy_cascade_retained");
        },
        Instrument::PolicyCascadeChildrenDeleted => {
            reveal_strlit("kopiur_policy_cascade_children_deleted");
        },
        Instrument::SnapshotDeleteBatchJobs => {
            reveal_strlit("kopiur_snapshot_delete_batch_jobs");
        },
        Instrument::SnapshotDeleteBatchMembers => {
            reveal_strlit("kopiur_snapshot_delete_batch_members");
        },
        Instrument::WorkSpecCmsSwept => {
            reveal_strlit("kopiur_work_spec_cms_swept");
        },
        Instrument::ProjectedSecretsSwept => {
            reveal_strlit("kopiur_projected_secrets_swept");
        },
        Instrument::CredsSecretsReaped => {
            reveal_strlit("kopiur_creds_secrets_reaped");
        },
        Instrument::ProjectedSecretsLive => {
            reveal_strlit("kopiur_projected_secrets_live");
        },
        Instrument::SnapshotsAdopted => {
            reveal_strlit("kopiur_snapshots_adopted");
        },
        Instrument::ScheduleSnapshotsCreated => {
            reveal_strlit("kopiur_schedule_snapshots_created");
        },
        Instrument::SecretsProjected => {
            reveal_strlit("kopiur_secrets_projected");
        },
        Instrument::SnapshotRefusals => {
            reveal_strlit("kopiur_snapshot_refusals");
        },
        Instrument::HealthProbeFailures => {
            reveal_strlit("kopiur_repository_health_probe_failures");
        },
        Instrument::BreakerTrips => {
            reveal_strlit("kopiur_repository_breaker_trips");
        },
        Instrument::RepoSize => {
            reveal_strlit("kopiur_repo_size_bytes");
        },
        Instrument::RepoSnapshotCount => {
            reveal_strlit("kopiur_repo_snapshot_count");
        },
        Instrument::RepoDiscoveredSnapshots => {
            reveal_strlit("kopiur_repo_discovered_snapshots");
        },
        Instrument::RepoForeignSnapshots => {
            reveal_strlit("kopiur_repo_foreign_snapshots");
        },
        Instrument::MaintenanceConfigured => {
            reveal_strlit("kopiur_repository_maintenance_configured");
        },
        Instrument::RestoreDuration => {
            reveal_strlit("kopiur_restore_duration_seconds");
        },
        Instrument::MaintenanceReclaimed => {
            reveal_strlit("kopiur_maintenance_last_reclaimed_bytes");
        },
        Instrument::ResourcePhase => {
            reveal_strlit("kopiur_resource_phase");
        },
        Instrument::SnapshotSize => {
            reveal_strlit("kopiur_snapshot_size_bytes");
        },
        Instrument::SnapshotFiles => {
            reveal_strlit("kopiur_snapshot_files");
        },
        Instrument::SnapshotDuration => {
            reveal_strlit("kopiur_snapshot_duration_seconds");
        },
        Instrument::SnapshotLastSuccess => {
            reveal_strlit("kopiur_snapshot_last_success_timestamp_seconds");
        },
        Instrument::PolicyLastSuccess => {
            reveal_strlit("kopiur_policy_last_backup_success_timestamp_seconds");
        },
        Instrument::PolicyLastDuration => {
            reveal_strlit("kopiur_policy_last_backup_duration_seconds");
        },
        Instrument::PolicyLastSize => {
            reveal_strlit("kopiur_policy_last_backup_size_bytes");
        },
        Instrument::PolicyLastFiles => {
            reveal_strlit("kopiur_policy_last_backup_files");
        },
        Instrument::PolicyHealthy => {
            reveal_strlit("kopiur_snapshotpolicy_last_backup_success");
        },
        Instrument::DeletionsPending => {
            reveal_strlit("kopiur_snapshot_deletions_pending_external");
        },
        Instrument::DeletionsHeld => {
            reveal_strlit("kopiur_snapshot_deletions_held");
        },
        Instrument::ConsecutiveFailures => {
            reveal_strlit("kopiur_snapshot_consecutive_failures");
        },
        Instrument::SnapshotsLive => {
            reveal_strlit("kopiur_snapshots_live");
        },
        Instrument::SnapshotsGated => {
            reveal_strlit("kopiur_snapshot_gated");
        },
        Instrument::BackendFailures => {
            reveal_strlit("kopiur_repository_consecutive_backend_failures");
        },
        Instrument::BreakerOpenSince => {
            reveal_strlit("kopiur_repository_breaker_open_since_timestamp_seconds");
        },
    }
    assert(instrument_name(i).subrange(0, 7) =~= "kopiur_"@);
}

/// The names under which the instruments are known outside.
pub proof fn lemma_names()
    ensures
        instrument_name(Instrument::Reconciliations) == "kopiur_controller_reconciliations"@,
        instrument_name(Instrument::ReconcileErrors) == "kopiur_controller_reconcile_errors"@,
        instrument_name(Instrument::FailureEventsDropped) == "kopiur_controller_failure_events_dropped"@,
        instrument_name(Instrument::ReconcileDuration) == "kopiur_controller_reconcile_duration_seconds"@,
        instrument_name(Instrument::ResidentMemory) == "kopiur_process_resident_memory_bytes"@,
        instrument_name(Instrument::IsLeader) == "kopiur_leader_is_leader"@,
        instrument_name(Instrument::LeaderTransitions) == "kopiur_leader_transitions"@,
        instrument_name(Instrument::LeaderRenewFailures) == "kopiur_leader_renew_failures"@,
        instrument_name(Instrument::LeaderRenewDuration) == "kopiur_leader_renew_duration_seconds"@,
        instrument_name(Instrument::SnapshotVerified) == "kopiur_snapshot_verified_timestamp_seconds"@,
        instrument_name(Instrument::SnapshotsCompleted) == "kopiur_snapshots_completed"@,
        instrument_name(Instrument::SnapshotDeletionFailures) == "kopiur_snapshot_deletion_failures"@,
        instrument_name(Instrument::OrphanedSnapshots) == "kopiur_orphaned_snapshots"@,
        instrument_name(Instrument::SnapshotDeletions) == "kopiur_snapshot_deletions"@,
        instrument_name(Instrument::SnapshotsCascadeRetained) == "kopiur_snapshots_cascade_retained"@,
        instrument_name(Instrument::SnapshotsPolicyCascadeRetained) == "kopiur_snapshots_policy_cascade_retained"@,
        instrument_name(Instrument::PolicyCascadeChildrenDeleted) == "kopiur_policy_cascade_children_deleted"@,
        instrument_name(Instrument::SnapshotDeleteBatchJobs) == "kopiur_snapshot_delete_batch_jobs"@,
        instrument_name(Instrument::SnapshotDeleteBatchMembers) == "kopiur_snapshot_delete_batch_members"@,
        instrument_name(Instrument::WorkSpecCmsSwept) == "kopiur_work_spec_cms_swept"@,
        instrument_name(Instrument::ProjectedSecretsSwept) == "kopiur_projected_secrets_swept"@,
        instrument_name(Instrument::CredsSecretsReaped) == "kopiur_creds_secrets_reaped"@,
        instrument_name(Instrument::ProjectedSecretsLive) == "kopiur_projected_secrets_live"@,
        instrument_name(Instrument::SnapshotsAdopted) == "kopiur_snapshots_adopted"@,
        instrument_name(Instrument::ScheduleSnapshotsCreated) == "kopiur_schedule_snapshots_created"@,
        instrument_name(Instrument::SecretsProjected) == "kopiur_secrets_projected"@,
        instrument_name(Instrument::SnapshotRefusals) == "kopiur_snapshot_refusals"@,
        instrument_name(Instrument::HealthProbeFailures) == "kopiur_repository_health_probe_failures"@,
        instrument_name(Instrument::BreakerTrips) == "kopiur_repository_breaker_trips"@,
        instrument_name(Instrument::RepoSize) == "kopiur_repo_size_bytes"@,
        instrument_name(Instrument::RepoSnapshotCount) == "kopiur_repo_snapshot_count"@,
        instrument_name(Instrument::RepoDiscoveredSnapshots) == "kopiur_repo_discovered_snapshots"@,
        instrument_name(Instrument::RepoForeignSnapshots) == "kopiur_repo_foreign_snapshots"@,
        instrument_name(Instrument::MaintenanceConfigured) == "kopiur_repository_maintenance_configured"@,
        instrument_name(Instrument::RestoreDuration) == "kopiur_restore_duration_seconds"@,
        instrument_name(Instrument::MaintenanceReclaimed) == "kopiur_maintenance_last_reclaimed_bytes"@,
        instrument_name(Instrument::ResourcePhase) == "kopiur_resource_phase"@,
        instrument_name(Instrument::SnapshotSize) == "kopiur_snapshot_size_bytes"@,
        instrument_name(Instrument::SnapshotFiles) == "kopiur_snapshot_files"@,
        instrument_name(Instrument::SnapshotDuration) == "kopiur_snapshot_duration_seconds"@,
        instrument_name(Instrument::SnapshotLastSuccess) == "kopiur_snapshot_last_success_timestamp_seconds"@,
        instrument_name(Instrument::PolicyLastSuccess) == "kopiur_policy_last_backup_success_timestamp_seconds"@,
        instrument_name(Instrument::PolicyLastDuration) == "kopiur_policy_last_backup_duration_seconds"@,
        instrument_name(Instrument::PolicyLastSize) == "kopiur_policy_last_backup_size_bytes"@,
        instrument_name(Instrument::PolicyLastFiles) == "kopiur_policy_last_backup_files"@,
        instrument_name(Instrument::PolicyHealthy) == "kopiur_snapshotpolicy_last_backup_success"@,
        instrument_name(Instrument::DeletionsPending) == "kopiur_snapshot_deletions_pending_external"@,
        instrument_name(Instrument::DeletionsHeld) == "kopiur_snapshot_deletions_held"@,
        instrument_name(Instrument::ConsecutiveFailures) == "kopiur_snapshot_consecutive_failures"@,
        instrument_name(Instrument::SnapshotsLive) == "kopiur_snapshots_live"@,
        instrument_name(Instrument::SnapshotsGated) == "kopiur_snapshot_gated"@,
        instrument_name(Instrument::BackendFailures) == "kopiur_repository_consecutive_backend_failures"@,
        instrument_name(Instrument::BreakerOpenSince) == "kopiur_repository_breaker_open_since_timestamp_seconds"@,
{
}

/// What is counted is a counter, what is set is a gauge, what is timed is a histogram, and
/// the rest is read off the objects, or off the process, at each collection.
pub proof fn lemma_kinds(i: Instrument)
    ensures
        instrument_kind(i) == InstrumentKind::Counter <==> match i {
            Instrument::Reconciliations
            | Instrument::ReconcileErrors
            | Instrument::FailureEventsDropped
            | Instrument::LeaderTransitions
            | Instrument::LeaderRenewFailures
            | Instrument::SnapshotsCompleted
            | Instrument::SnapshotDeletionFailures
            | Instrument::OrphanedSnapshots
            | Instrument::SnapshotDeletions
            | Instrument::SnapshotsCascadeRetained
            | Instrument::SnapshotsPolicyCascadeRetained
            | Instrument::PolicyCascadeChildrenDeleted
            | Instrument::SnapshotDeleteBatchJobs
            | Instrument::SnapshotDeleteBatchMembers
            | Instrument::WorkSpecCmsSwept
            | Instrument::ProjectedSecretsSwept
            | Instrument::CredsSecretsReaped
            | Instrument::SnapshotsAdopted
            | Instrument::ScheduleSnapshotsCreated
            | Instrument::SecretsProjected
            | Instrument::SnapshotRefusals
            | Instrument::HealthProbeFailures
            | Instrument::BreakerTrips => true,
            _ => false,
        },
        instrument_kind(i) == InstrumentKind::Gauge <==> match i {
            Instrument::IsLeader
            | Instrument::SnapshotVerified
            | Instrument::ProjectedSecretsLive
            | Instrument::RepoSize
            | Instrument::RepoSnapshotCount
            | Instrument::RepoDiscoveredSnapshots
            | Instrument::RepoForeignSnapshots
            | Instrument::MaintenanceConfigured
            | Instrument::RestoreDuration
            | Instrument::MaintenanceReclaimed => true,
            _ => false,
        },
        instrument_kind(i) == InstrumentKind::Histogram <==> match i {
            Instrument::ReconcileDuration
            | Instrument::LeaderRenewDuration => true,
            _ => false,
        },
        instrument_kind(i) == InstrumentKind::Observed <==> match i {
            Instrument::ResidentMemory
            | Instrument::ResourcePhase
            | Instrument::SnapshotSize
            | Instrument::SnapshotFiles
            | Instrument::SnapshotDuration
            | Instrument::SnapshotLastSuccess
            | Instrument::PolicyLastSuccess
            | Instrument::PolicyLastDuration
            | Instrument::PolicyLastSize
            | Instrument::PolicyLastFiles
            | Instrument::PolicyHealthy
            | Instrument::DeletionsPending
            | Instrument::DeletionsHeld
            | Instrument::ConsecutiveFailures
            | Instrument::SnapshotsLive
            | Instrument::SnapshotsGated
            | Instrument::BackendFailures
            | Instrument::BreakerOpenSince => true,
            _ => false,
        },
{
}

/// The words of the labels for how something was resolved.
pub proof fn lemma_words()
    ensures
        deletion_word(SnapshotDeletionOutcome::Deleted) == "deleted"@,
        deletion_word(SnapshotDeletionOutcome::Retained) == "retained"@,
        deletion_word(SnapshotDeletionOutcome::Orphaned) == "orphaned"@,
        deletion_word(SnapshotDeletionOutcome::CascadeRetained) == "cascade_retained"@,
        deletion_word(SnapshotDeletionOutcome::PolicyCascadeRetained) == "policy_cascade_retained"@,
        mode_word(PolicyCascadeMode::Retain) == "retain"@,
        mode_word(PolicyCascadeMode::Delete) == "delete"@,
        batch_word(BatchJobOutcome::Succeeded) == "succeeded"@,
        batch_word(BatchJobOutcome::Failed) == "failed"@,
        member_word(BatchMemberOutcome::Deleted) == "deleted"@,
        member_word(BatchMemberOutcome::Failed) == "failed"@,
{
}

/// What is counted counts one, what is set is the value itself, and what is not known sets
/// nothing; a flag is one where it holds.
pub proof fn lemma_changes(i: Instrument, v: i64, labels: Seq<LabelView>)
    ensures
        counted(i, labels) == (i, Measure::Add(1u64), labels),
        set_if(i, Some(v), labels) == seq![(i, Measure::Put(v), labels)],
        set_if(i, None, labels).len() == 0,
        flag(true) == 1,
        flag(false) == 0,
        forall|ns: Seq<char>, name: Seq<char>| #[trigger]
            object_labels(ns, name) == seq![("namespace"@, ns), ("name"@, name)],
        forall|ns: Seq<char>, o: SnapshotDeletionOutcome| #[trigger]
            deletion_counted(ns, o) == (
                Instrument::SnapshotDeletions,
                Measure::Add(1u64),
                seq![("namespace"@, ns), ("outcome"@, deletion_word(o))],
            ),
{
}

/// What was measured is each change with its instrument, its measure and its labels, in
/// order.
pub proof fn lemma_measured(m: Metrics, i: int)
    ensures
        m@.len() == m.changes@.len(),
        0 <= i < m.changes@.len() ==> m@[i] == (
            m.changes@[i].instrument,
            m.changes@[i].measure,
            label_views(m.changes@[i].labels@),
        ),
{
}

} // verus!
