//! The series that are read off the objects of the cluster at each collection: an
//! object that is gone has none.
use vstd::prelude::*;
use vstd::string::*;

use crate::clock::{Moment, later, parsed_moment};
use crate::consts::{
    BACKEND_REACHABLE_CONDITION, DELETION_HELD_CONDITION, READY_CONDITION,
    REPOSITORY_NOT_READY_REASON, SNAPSHOT_CLEANUP_FINALIZER,
};
use crate::io::apply::{RepositoryPhase, members};
use crate::io::conditions::{Condition, ConditionView, condition_views};
use crate::io::creds::kind_text;
use crate::io::group_staging::SnapshotPhase;
use crate::io::repo::{RepositoryHealthStatus, RepositoryStatus, phase_text};
use crate::metrics::table::{
    Key, Row, has_key, in_order, key_before, key_of, lemma_key_order, place, put, tabulates,
};
use crate::naming::{RepositoryKind, RepositoryRef, RepositoryRefView};
use crate::text::{opt_str, opt_text, or_empty, same, str_or_empty, texts};

verus! {

/// What a Snapshot's run measured.
#[derive(Debug, Clone, Copy, PartialEq, Eq, Structural)]
pub struct SnapshotStats {
    /// Its logical size.
    pub size_bytes: Option<i64>,
    /// Files that are new.
    pub files_new: Option<i64>,
    /// Files that have changed.
    pub files_modified: Option<i64>,
    /// Files that are as they were.
    pub files_unchanged: Option<i64>,
}

/// When a Snapshot's run took place.
#[derive(Debug, Clone, PartialEq, Eq)]
pub struct SnapshotTiming {
    /// When it ended, as RFC3339 text.
    pub end_time: Option<String>,
    /// How long it took.
    pub duration_seconds: Option<i64>,
}

/// The status of a Snapshot.
#[derive(Debug, Clone, PartialEq, Eq)]
pub struct SnapshotStatus {
    /// Its phase.
    pub phase: Option<SnapshotPhase>,
    /// What its run measured.
    pub stats: Option<SnapshotStats>,
    /// When its run took place.
    pub timing: Option<SnapshotTiming>,
    /// Its conditions.
    pub conditions: Vec<Condition>,
    /// The repository that it is pinned to.
    pub repository: Option<RepositoryRef>,
}

/// A `Snapshot`.
#[derive(Debug, Clone, PartialEq, Eq)]
pub struct Snapshot {
    /// Its namespace.
    pub namespace: Option<String>,
    /// Its name.
    pub name: String,
    /// When it was created, in seconds since the Unix epoch.
    pub created_at: Option<i64>,
    /// Whether it is being deleted.
    pub deleting: bool,
    /// What it is kept for.
    pub finalizers: Vec<String>,
    /// The policy that it belongs to.
    pub policy: Option<String>,
    /// Its status.
    pub status: Option<SnapshotStatus>,
}

/// A repository of either kind.
#[derive(Debug, Clone, PartialEq, Eq)]
pub struct RepositoryObject {
    /// Its namespace.
    pub namespace: Option<String>,
    /// Its name.
    pub name: String,
    /// Its status.
    pub status: Option<RepositoryStatus>,
}

/// A `Restore`.
#[derive(Debug, Clone, PartialEq, Eq)]
pub struct RestoreObject {
    /// Its namespace.
    pub namespace: Option<String>,
    /// Its name.
    pub name: String,
    /// The text of the phase in its status.
    pub phase: Option<String>,
}

/// The objects that the series are read off.
#[derive(Debug, Clone, PartialEq, Eq)]
pub struct ResourceStores {
    /// Every `Snapshot`.
    pub snapshots: Vec<Snapshot>,
    /// Every `Repository`.
    pub repositories: Vec<RepositoryObject>,
    /// Every `ClusterRepository`.
    pub cluster_repositories: Vec<RepositoryObject>,
    /// Every `Restore`.
    pub restores: Vec<RestoreObject>,
}

/// A label of a series.
#[derive(Debug, Clone, PartialEq, Eq)]
pub struct Label {
    /// Its name.
    pub key: &'static str,
    /// Its value.
    pub value: String,
}

/// One series with its value.
#[derive(Debug, Clone, PartialEq, Eq)]
pub struct Sample {
    /// The value.
    pub value: i64,
    /// The labels.
    pub labels: Vec<Label>,
}

/// The latest successful backup of a policy.
#[derive(Debug, Clone, PartialEq, Eq)]
pub struct PolicyLatest {
    /// The namespace.
    pub namespace: String,
    /// The policy.
    pub policy: String,
    /// When it ended, in seconds since the Unix epoch.
    pub end_unix: i64,
    /// How long it took.
    pub duration_seconds: Option<i64>,
    /// Its logical size.
    pub size_bytes: Option<i64>,
    /// How many files it holds.
    pub files: Option<i64>,
}

/// What is kept of the latest successful backup.
#[derive(Debug, Clone, Copy, PartialEq, Eq, Structural)]
pub struct Latest {
    /// When it ended, in seconds since the Unix epoch.
    pub end_unix: i64,
    /// How long it took.
    pub duration_seconds: Option<i64>,
    /// Its logical size.
    pub size_bytes: Option<i64>,
    /// How many files it holds.
    pub files: Option<i64>,
}

/// Whether the last backup of a policy succeeded.
#[derive(Debug, Clone, PartialEq, Eq)]
pub struct PolicyHealth {
    /// The namespace.
    pub namespace: String,
    /// The policy.
    pub policy: String,
    /// Whether it succeeded.
    pub healthy: bool,
}

/// What is kept of the last backup.
#[derive(Debug, Clone, Copy, PartialEq, Eq, Structural)]
pub struct LastRun {
    /// When it was created, in seconds since the Unix epoch.
    pub created: i64,
    /// Whether it succeeded.
    pub healthy: bool,
}

/// The Snapshots of a policy.
#[derive(Debug, Clone, PartialEq, Eq)]
pub struct PolicyGroup {
    /// The namespace.
    pub namespace: String,
    /// The policy.
    pub policy: String,
    /// Their places among all Snapshots, in order.
    pub members: Vec<usize>,
}

/// How many Snapshots a policy has, and how many failed in a row.
#[derive(Debug, Clone, PartialEq, Eq)]
pub struct PolicySnapshots {
    /// The namespace.
    pub namespace: String,
    /// The policy.
    pub policy: String,
    /// How many Snapshots there are.
    pub live: i64,
    /// How many backups failed since one succeeded.
    pub consecutive_failures: i64,
}

/// How many Snapshots of a policy wait for their repository.
#[derive(Debug, Clone, PartialEq, Eq)]
pub struct GatedSnapshots {
    /// The namespace.
    pub namespace: String,
    /// The policy; none for Snapshots without one.
    pub policy: Option<String>,
    /// How many wait.
    pub count: i64,
}

/// A label as two texts.
pub type LabelView = (Seq<char>, Seq<char>);

impl View for Label {
    type V = LabelView;

    open spec fn view(&self) -> LabelView {
        (self.key@, self.value@)
    }
}

/// Labels as texts.
pub open spec fn label_views(v: Seq<Label>) -> Seq<LabelView> {
    v.map_values(|l: Label| l@)
}

/// A series with its value.
pub type SampleView = (i64, Seq<LabelView>);

impl View for Sample {
    type V = SampleView;

    open spec fn view(&self) -> SampleView {
        (self.value, label_views(self.labels@))
    }
}

/// Series with their values.
pub open spec fn sample_views(v: Seq<Sample>) -> Seq<SampleView> {
    v.map_values(|s: Sample| s@)
}

impl View for Latest {
    type V = Latest;

    open spec fn view(&self) -> Latest {
        *self
    }
}

impl View for LastRun {
    type V = LastRun;

    open spec fn view(&self) -> LastRun {
        *self
    }
}

/// The policy label, where there is a policy.
pub open spec fn policy_label(policy: Option<Seq<char>>) -> Seq<LabelView> {
    match policy {
        Some(p) => seq![("policy"@, p)],
        None => seq![],
    }
}

/// The word for a Snapshot's phase.
pub open spec fn snapshot_phase_text(p: SnapshotPhase) -> Seq<char> {
    match p {
        SnapshotPhase::Pending => "Pending"@,
        SnapshotPhase::Running => "Running"@,
        SnapshotPhase::Succeeded => "Succeeded"@,
        SnapshotPhase::Failed => "Failed"@,
        SnapshotPhase::Unchanged => "Unchanged"@,
        SnapshotPhase::Discovered => "Discovered"@,
        SnapshotPhase::Deleting => "Deleting"@,
    }
}

/// The phase that a Snapshot's status names.
pub open spec fn phase_of(s: Snapshot) -> Option<SnapshotPhase> {
    match s.status {
        Some(st) => st.phase,
        None => None,
    }
}

/// The phase that a Snapshot is in; one without a status is still to start.
pub open spec fn active_phase(s: Snapshot) -> SnapshotPhase {
    match phase_of(s) {
        Some(p) => p,
        None => SnapshotPhase::Pending,
    }
}

/// The text of the phase that a repository is in: that of its status, or the first one.
pub open spec fn repository_phase_text(r: RepositoryObject) -> Seq<char> {
    match r.status {
        Some(st) => match st.phase {
            Some(p) => phase_text(p),
            None => phase_text(RepositoryPhase::Pending),
        },
        None => phase_text(RepositoryPhase::Pending),
    }
}

/// The text of the phase that a `Restore` is in: that of its status, or the first one.
pub open spec fn restore_phase_text(r: RestoreObject) -> Seq<char> {
    match r.phase {
        Some(p) => p@,
        None => "Pending"@,
    }
}

/// The labels of a Snapshot's own series.
pub open spec fn stat_labels(s: Snapshot) -> Seq<LabelView> {
    seq![("namespace"@, or_empty(s.namespace)), ("name"@, s.name@)] + policy_label(
        opt_text(s.policy),
    )
}

/// The labels of a phase series.
pub open spec fn phase_labels(kind: Seq<char>, ns: Seq<char>, name: Seq<char>, phase: Seq<char>) -> Seq<
    LabelView,
> {
    seq![("kind"@, kind), ("namespace"@, ns), ("name"@, name), ("phase"@, phase)]
}

/// The labels of a repository's series.
pub open spec fn repo_labels(kind: Seq<char>, ns: Seq<char>, name: Seq<char>) -> Seq<LabelView> {
    seq![("kind"@, kind), ("namespace"@, ns), ("name"@, name)]
}

/// The labels for the repository that a Snapshot is pinned to; one bucket for all
/// that are pinned to none.
pub open spec fn pinned_labels(pinned: Option<RepositoryRefView>) -> Seq<LabelView> {
    match pinned {
        Some(r) => seq![("repo_kind"@, kind_text(r.kind)), ("repo_name"@, r.name)],
        None => seq![("repo_kind"@, "unknown"@), ("repo_name"@, "unknown"@)],
    }
}

/// The repository that a Snapshot is pinned to.
pub open spec fn pin_of(s: Snapshot) -> Option<RepositoryRefView> {
    match s.status {
        Some(st) => match st.repository {
            Some(r) => Some(r@),
            None => None,
        },
        None => None,
    }
}

/// A count, or nothing for one that is absent.
pub open spec fn or_zero(n: Option<i64>) -> int {
    match n {
        Some(v) => v as int,
        None => 0,
    }
}

/// Whether the files can be counted.
pub open spec fn countable(stats: SnapshotStats) -> bool {
    let (a, b, c) = (
        or_zero(stats.files_new),
        or_zero(stats.files_modified),
        or_zero(stats.files_unchanged),
    );
    &&& i64::MIN <= a + b <= i64::MAX
    &&& i64::MIN <= a + b + c <= i64::MAX
}

/// How many files there are, where any are known.
pub open spec fn file_count(stats: SnapshotStats) -> Option<i64> {
    if stats.files_new is None && stats.files_modified is None && stats.files_unchanged is None {
        None
    } else {
        Some(
            (or_zero(stats.files_new) + or_zero(stats.files_modified) + or_zero(
                stats.files_unchanged,
            )) as i64,
        )
    }
}

/// What a Snapshot's run measured.
pub open spec fn stats_of(s: Snapshot) -> Option<SnapshotStats> {
    match s.status {
        Some(st) => st.stats,
        None => None,
    }
}

/// Whether the files of a Snapshot can be counted.
pub open spec fn snapshot_countable(s: Snapshot) -> bool {
    match stats_of(s) {
        Some(stats) => countable(stats),
        None => true,
    }
}

/// Whether the files of every Snapshot can be counted.
pub open spec fn all_countable(v: Seq<Snapshot>) -> bool {
    forall|i: int| 0 <= i < v.len() ==> snapshot_countable(#[trigger] v[i])
}

/// Whether a Snapshot is a success of a policy that says when it ended.
pub open spec fn success_of_policy(s: Snapshot) -> bool {
    s.policy is Some && success_unix(s) is Some
}

/// Whether the files of every Snapshot can be counted that may be the latest success
/// of its policy.
pub open spec fn successes_countable(v: Seq<Snapshot>) -> bool {
    forall|i: int| 0 <= i < v.len() && success_of_policy(v[i]) ==> snapshot_countable(#[trigger] v[i])
}

/// The seconds since the Unix epoch that an RFC3339 text stands for.
pub open spec fn unix_seconds(text: Seq<char>) -> Option<i64> {
    match parsed_moment(text) {
        Some(m) => Some(m.secs),
        None => None,
    }
}

/// The seconds that an optional text stands for.
pub open spec fn opt_unix_seconds(text: Option<String>) -> Option<i64> {
    match text {
        Some(t) => unix_seconds(t@),
        None => None,
    }
}

/// The seconds at which a run ended.
pub open spec fn ended_at(timing: Option<SnapshotTiming>) -> Option<i64> {
    match timing {
        Some(t) => opt_unix_seconds(t.end_time),
        None => None,
    }
}

/// When a Snapshot succeeded.
pub open spec fn success_unix(s: Snapshot) -> Option<i64> {
    match s.status {
        Some(st) => if st.phase == Some(SnapshotPhase::Succeeded) {
            ended_at(st.timing)
        } else {
            None
        },
        None => None,
    }
}

/// How long a Snapshot's run took.
pub open spec fn duration_of(s: Snapshot) -> Option<i64> {
    match s.status {
        Some(st) => match st.timing {
            Some(t) => t.duration_seconds,
            None => None,
        },
        None => None,
    }
}

/// The size of a Snapshot.
pub open spec fn size_of_snapshot(s: Snapshot) -> Option<i64> {
    match stats_of(s) {
        Some(stats) => stats.size_bytes,
        None => None,
    }
}

/// How many files a Snapshot holds.
pub open spec fn files_of(s: Snapshot) -> Option<i64> {
    match stats_of(s) {
        Some(stats) => file_count(stats),
        None => None,
    }
}

/// What a Snapshot with a policy is kept by.
pub open spec fn policy_key(s: Snapshot) -> Option<Key> {
    match s.policy {
        Some(p) => Some((or_empty(s.namespace), Some(p@))),
        None => None,
    }
}

/// What a successful Snapshot says of itself.
pub open spec fn latest_view(s: Snapshot, end_unix: i64) -> Latest {
    Latest {
        end_unix,
        duration_seconds: duration_of(s),
        size_bytes: size_of_snapshot(s),
        files: files_of(s),
    }
}

/// The latest success for a key: of those that ended last the first.
pub open spec fn latest_for(v: Seq<Snapshot>, k: Key) -> Option<Latest>
    decreases v.len(),
{
    if v.len() == 0 {
        None
    } else {
        let before = latest_for(v.drop_last(), k);
        let s = v.last();
        match success_unix(s) {
            Some(end) => if policy_key(s) != Some(k) {
                before
            } else {
                match before {
                    Some(b) => if end > b.end_unix {
                        Some(latest_view(s, end))
                    } else {
                        before
                    },
                    None => Some(latest_view(s, end)),
                }
            },
            None => before,
        }
    }
}

/// Whether a Snapshot's run is over, and how: `true` for success.
pub open spec fn run_ended(s: Snapshot) -> Option<bool> {
    match phase_of(s) {
        Some(SnapshotPhase::Succeeded) => Some(true),
        Some(SnapshotPhase::Failed) => Some(false),
        _ => None,
    }
}

/// When a Snapshot was created.
pub open spec fn created_of(s: Snapshot) -> i64 {
    match s.created_at {
        Some(t) => t,
        None => 0,
    }
}

/// The last run for a key: of those that were created last the last.
pub open spec fn last_run_for(v: Seq<Snapshot>, k: Key) -> Option<LastRun>
    decreases v.len(),
{
    if v.len() == 0 {
        None
    } else {
        let before = last_run_for(v.drop_last(), k);
        let s = v.last();
        match run_ended(s) {
            Some(healthy) => if policy_key(s) != Some(k) {
                before
            } else {
                let run = LastRun { created: created_of(s), healthy };
                match before {
                    Some(b) => if run.created >= b.created {
                        Some(run)
                    } else {
                        before
                    },
                    None => Some(run),
                }
            },
            None => before,
        }
    }
}

/// The places of the Snapshots with a key, in order.
pub open spec fn members_for(v: Seq<Snapshot>, k: Key) -> Seq<usize>
    decreases v.len(),
{
    if v.len() == 0 {
        seq![]
    } else {
        let before = members_for(v.drop_last(), k);
        if policy_key(v.last()) == Some(k) {
            before.push((v.len() - 1) as usize)
        } else {
            before
        }
    }
}

/// The same, where there are any.
pub open spec fn group_for(v: Seq<Snapshot>, k: Key) -> Option<Seq<usize>> {
    if members_for(v, k).len() > 0 {
        Some(members_for(v, k))
    } else {
        None
    }
}

/// Whether a condition of a type has this status.
pub open spec fn says(v: Seq<ConditionView>, type_: Seq<char>, status: Seq<char>) -> bool {
    exists|i: int| 0 <= i < v.len() && (#[trigger] v[i]).type_ == type_ && v[i].status == status
}

/// Whether a condition of a type has this reason.
pub open spec fn gives_reason(v: Seq<ConditionView>, type_: Seq<char>, reason: Seq<char>) -> bool {
    exists|i: int| 0 <= i < v.len() && (#[trigger] v[i]).type_ == type_ && v[i].reason == reason
}

/// What the conditions of a Snapshot say.
pub open spec fn conditions_of(s: Snapshot) -> Seq<ConditionView> {
    match s.status {
        Some(st) => condition_views(st.conditions@),
        None => seq![],
    }
}

/// Whether a Snapshot waits for its repository.
pub open spec fn gated(s: Snapshot) -> bool {
    &&& active_phase(s) == SnapshotPhase::Pending
    &&& gives_reason(conditions_of(s), READY_CONDITION@, REPOSITORY_NOT_READY_REASON@)
}

/// Whether a Snapshot is being deleted and still kept for its clean-up.
pub open spec fn deletion_pending(s: Snapshot) -> bool {
    s.deleting && texts(s.finalizers@).contains(SNAPSHOT_CLEANUP_FINALIZER@)
}

/// Whether a Snapshot's deletion is held back.
pub open spec fn held(s: Snapshot) -> bool {
    says(conditions_of(s), DELETION_HELD_CONDITION@, "True"@)
}

/// How many Snapshots with a key wait.
pub open spec fn gated_for(v: Seq<Snapshot>, k: Key) -> nat
    decreases v.len(),
{
    if v.len() == 0 {
        0
    } else {
        let before = gated_for(v.drop_last(), k);
        let s = v.last();
        if gated(s) && k == (or_empty(s.namespace), opt_text(s.policy)) {
            before + 1
        } else {
            before
        }
    }
}

/// The same, where there are any.
pub open spec fn some_gated_for(v: Seq<Snapshot>, k: Key) -> Option<i64> {
    if gated_for(v, k) > 0 {
        Some(gated_for(v, k) as i64)
    } else {
        None
    }
}

/// Since when a repository's breaker has been open.
pub open spec fn open_since(
    phase: Option<RepositoryPhase>,
    health: Option<RepositoryHealthStatus>,
    conditions: Seq<ConditionView>,
) -> Option<i64> {
    if phase == Some(RepositoryPhase::Degraded) && says(
        conditions,
        BACKEND_REACHABLE_CONDITION@,
        "False"@,
    ) {
        match health {
            Some(h) => opt_unix_seconds(h.first_failure_at),
            None => None,
        }
    } else {
        None
    }
}

/// Texts of one condition type and status are looked for in order.
fn condition_says(v: &Vec<Condition>, type_: &str, status: &str) -> (r: bool)
    ensures
        r == says(condition_views(v@), type_@, status@),
{
    let ghost views = condition_views(v@);
    let mut i: usize = 0;
    while i < v.len()
        invariant
            i <= v@.len(),
            views == condition_views(v@),
            forall|n: int| 0 <= n < i ==> !((#[trigger] views[n]).type_ == type_@ && views[n].status == status@),
        decreases v@.len() - i,
    {
        assert(views[i as int] == v@[i as int]@);
        if same(v[i].type_.as_str(), type_) && same(v[i].status.as_str(), status) {
            return true;
        }
        i = i + 1;
    }
    false
}

fn condition_gives_reason(v: &Vec<Condition>, type_: &str, reason: &str) -> (r: bool)
    ensures
        r == gives_reason(condition_views(v@), type_@, reason@),
{
    let ghost views = condition_views(v@);
    let mut i: usize = 0;
    while i < v.len()
        invariant
            i <= v@.len(),
            views == condition_views(v@),
            forall|n: int| 0 <= n < i ==> !((#[trigger] views[n]).type_ == type_@ && views[n].reason == reason@),
        decreases v@.len() - i,
    {
        assert(views[i as int] == v@[i as int]@);
        if same(v[i].type_.as_str(), type_) && same(v[i].reason.as_str(), reason) {
            return true;
        }
        i = i + 1;
    }
    false
}

fn policy_str(s: &Snapshot) -> (r: Option<&str>)
    ensures
        opt_str(r) == opt_text(s.policy),
{
    match &s.policy {
        Some(p) => Some(p.as_str()),
        None => None,
    }
}

/// The seconds since the Unix epoch that an RFC3339 text stands for.
pub fn parse_unix_seconds(ts: &str) -> (r: Option<i64>)
    ensures
        r == unix_seconds(ts@),
{
    match Moment::parse_rfc3339(ts) {
        Some(m) => Some(m.secs),
        None => None,
    }
}

fn parse_opt_unix_seconds(ts: &Option<String>) -> (r: Option<i64>)
    ensures
        r == opt_unix_seconds(*ts),
{
    match ts {
        Some(t) => parse_unix_seconds(t.as_str()),
        None => None,
    }
}

/// The word for a Snapshot's phase.
pub fn snapshot_phase_label(p: SnapshotPhase) -> (r: &'static str)
    ensures
        r@ == snapshot_phase_text(p),
{
    match p {
        SnapshotPhase::Pending => "Pending",
        SnapshotPhase::Running => "Running",
        SnapshotPhase::Succeeded => "Succeeded",
        SnapshotPhase::Failed => "Failed",
        SnapshotPhase::Unchanged => "Unchanged",
        SnapshotPhase::Discovered => "Discovered",
        SnapshotPhase::Deleting => "Deleting",
    }
}

fn value_or_zero(n: Option<i64>) -> (r: i64)
    ensures
        r == or_zero(n),
{
    match n {
        Some(v) => v,
        None => 0,
    }
}

/// Whether the files can be counted: their number fits.
pub fn can_count_files(stats: &SnapshotStats) -> (r: bool)
    ensures
        r == countable(*stats),
{
    let a: i64 = value_or_zero(stats.files_new);
    let b: i64 = value_or_zero(stats.files_modified);
    let c: i64 = value_or_zero(stats.files_unchanged);
    match a.checked_add(b) {
        Some(ab) => ab.checked_add(c).is_some(),
        None => false,
    }
}

/// How many files there are; nothing where none of the counts is known, so that an
/// unknown number never reads as none.
pub fn snapshot_file_count(stats: &SnapshotStats) -> (r: Option<i64>)
    requires
        countable(*stats),
    ensures
        r == file_count(*stats),
{
    match (stats.files_new, stats.files_modified, stats.files_unchanged) {
        (None, None, None) => None,
        (a, b, c) => Some(value_or_zero(a) + value_or_zero(b) + value_or_zero(c)),
    }
}

/// Whether a Snapshot is being deleted and still kept for its clean-up.
pub fn counts_toward_deletion_gauge(backup: &Snapshot) -> (r: bool)
    ensures
        r == deletion_pending(*backup),
{
    if !backup.deleting {
        return false;
    }
    let ghost names = texts(backup.finalizers@);
    let mut i: usize = 0;
    while i < backup.finalizers.len()
        invariant
            i <= backup.finalizers@.len(),
            backup.deleting,
            names == texts(backup.finalizers@),
            forall|n: int| 0 <= n < i ==> #[trigger] names[n] != SNAPSHOT_CLEANUP_FINALIZER@,
        decreases backup.finalizers@.len() - i,
    {
        assert(names[i as int] == backup.finalizers@[i as int]@);
        if same(backup.finalizers[i].as_str(), SNAPSHOT_CLEANUP_FINALIZER) {
            return true;
        }
        i = i + 1;
    }
    false
}

/// Whether a Snapshot's deletion is held back.
pub fn deletion_held(backup: &Snapshot) -> (r: bool)
    ensures
        r == held(*backup),
{
    match &backup.status {
        Some(st) => condition_says(&st.conditions, DELETION_HELD_CONDITION, "True"),
        None => false,
    }
}

/// Whether the files of a Snapshot can be counted.
pub fn is_countable(s: &Snapshot) -> (r: bool)
    ensures
        r == snapshot_countable(*s),
{
    match snapshot_stats(s) {
        Some(stats) => can_count_files(stats),
        None => true,
    }
}

/// Whether a Snapshot is a success of a policy that says when it ended.
pub fn is_success_of_policy(s: &Snapshot) -> (r: bool)
    ensures
        r == success_of_policy(*s),
{
    s.policy.is_some() && snapshot_success_unix(s).is_some()
}

/// When a Snapshot succeeded: the end of its run, for one that did.
pub fn snapshot_success_unix(s: &Snapshot) -> (r: Option<i64>)
    ensures
        r == success_unix(*s),
{
    match &s.status {
        Some(st) => match st.phase {
            Some(SnapshotPhase::Succeeded) => match &st.timing {
                Some(t) => parse_opt_unix_seconds(&t.end_time),
                None => None,
            },
            _ => None,
        },
        None => None,
    }
}

pub(crate) fn snapshot_duration(s: &Snapshot) -> (r: Option<i64>)
    ensures
        r == duration_of(*s),
{
    match &s.status {
        Some(st) => match &st.timing {
            Some(t) => t.duration_seconds,
            None => None,
        },
        None => None,
    }
}

fn snapshot_stats(s: &Snapshot) -> (r: Option<&SnapshotStats>)
    ensures
        match r {
            Some(x) => stats_of(*s) == Some(*x),
            None => stats_of(*s) is None,
        },
{
    match &s.status {
        Some(st) => match &st.stats {
            Some(stats) => Some(stats),
            None => None,
        },
        None => None,
    }
}

pub(crate) fn snapshot_size(s: &Snapshot) -> (r: Option<i64>)
    ensures
        r == size_of_snapshot(*s),
{
    match snapshot_stats(s) {
        Some(stats) => stats.size_bytes,
        None => None,
    }
}

pub(crate) fn snapshot_files(s: &Snapshot) -> (r: Option<i64>)
    requires
        snapshot_countable(*s),
    ensures
        r == files_of(*s),
{
    match snapshot_stats(s) {
        Some(stats) => snapshot_file_count(stats),
        None => None,
    }
}

/// Whether a Snapshot waits for its repository: it has not started, and its
/// `Ready` condition says that the repository is not ready.
pub fn snapshot_gated(s: &Snapshot) -> (r: bool)
    ensures
        r == gated(*s),
{
    match &s.status {
        Some(st) => {
            let pending = match st.phase {
                None => true,
                Some(SnapshotPhase::Pending) => true,
                _ => false,
            };
            pending && condition_gives_reason(
                &st.conditions,
                READY_CONDITION,
                REPOSITORY_NOT_READY_REASON,
            )
        },
        None => false,
    }
}

/// How many backend connects have failed in a row; nothing where no probe has run.
pub fn repo_consecutive_backend_failures(health: Option<&RepositoryHealthStatus>) -> (r: Option<i64>)
    ensures
        r == match health {
            Some(h) => Some(or_zero(h.consecutive_probe_failures) as i64),
            None => None,
        },
{
    match health {
        Some(h) => Some(value_or_zero(h.consecutive_probe_failures)),
        None => None,
    }
}

/// Since when a repository's breaker has been open: the first failure, only while
/// the repository is degraded and its backend is known to be out of reach.
pub fn breaker_open_since(
    phase: Option<&RepositoryPhase>,
    health: Option<&RepositoryHealthStatus>,
    conditions: &Vec<Condition>,
) -> (r: Option<i64>)
    ensures
        r == open_since(
            match phase {
                Some(p) => Some(*p),
                None => None,
            },
            match health {
                Some(h) => Some(*h),
                None => None,
            },
            condition_views(conditions@),
        ),
{
    let degraded = match phase {
        Some(RepositoryPhase::Degraded) => true,
        _ => false,
    };
    if !degraded || !condition_says(conditions, BACKEND_REACHABLE_CONDITION, "False") {
        return None;
    }
    match health {
        Some(h) => parse_opt_unix_seconds(&h.first_failure_at),
        None => None,
    }
}

/// Whether rows are, for each namespace and policy, the latest success.
pub open spec fn latest_rows(rows: Seq<PolicyLatest>, v: Seq<Snapshot>) -> bool {
    tabulates(latest_table(rows), |k: Key| latest_for(v, k))
}

/// Such a row as part of a table.
pub open spec fn latest_row(p: PolicyLatest) -> Row<Latest> {
    Row {
        first: p.namespace,
        second: Some(p.policy),
        value: Latest {
            end_unix: p.end_unix,
            duration_seconds: p.duration_seconds,
            size_bytes: p.size_bytes,
            files: p.files,
        },
    }
}

/// Such rows as a table.
pub open spec fn latest_table(rows: Seq<PolicyLatest>) -> Seq<Row<Latest>> {
    rows.map_values(|p: PolicyLatest| latest_row(p))
}

proof fn lemma_latest_has_policy(v: Seq<Snapshot>, k: Key)
    ensures
        latest_for(v, k) is Some ==> k.1 is Some,
    decreases v.len(),
{
    if v.len() > 0 {
        lemma_latest_has_policy(v.drop_last(), k);
    }
}

/// For each namespace and policy the latest successful backup: the one that ended
/// last, and the first of those that ended together. Snapshots without a policy,
/// that have not succeeded, or whose end cannot be read have no part in it. The rows
/// are in the order of namespace and policy.
pub fn latest_per_policy(snapshots: &Vec<Snapshot>) -> (r: Vec<PolicyLatest>)
    requires
        successes_countable(snapshots@),
    ensures
        latest_rows(r@, snapshots@),
{
    let ghost v = snapshots@;
    let mut rows: Vec<Row<Latest>> = Vec::new();
    let mut i: usize = 0;
    assert(v.take(0) =~= seq![]);
    while i < snapshots.len()
        invariant
            i <= v.len(),
            v == snapshots@,
            successes_countable(v),
            tabulates(rows@, |k: Key| latest_for(v.take(i as int), k)),
        decreases v.len() - i,
    {
        let s = &snapshots[i];
        let ghost f = |k: Key| latest_for(v.take(i as int), k);
        let ghost g = |k: Key| latest_for(v.take(i + 1), k);
        proof {
            assert(v.take(i + 1).drop_last() =~= v.take(i as int));
            assert(v.take(i + 1).last() == *s);
        }
        match (policy_str(s), snapshot_success_unix(s)) {
            (Some(policy), Some(end)) => {
                let namespace = str_or_empty(&s.namespace);
                let ghost k0 = (namespace@, Some(policy@));
                let (at, there) = place(&rows, namespace, Some(policy));
                proof {
                    assert(policy_key(*s) == Some(k0));
                    assert(snapshot_countable(v[i as int]));
                    if there {
                        assert(f(key_of(rows@[at as int])) == Some(rows@[at as int].value@));
                    } else if f(k0) is Some {
                        assert(has_key(rows@, k0));
                    }
                }
                let newer = if there {
                    end > rows[at].value.end_unix
                } else {
                    true
                };
                if newer {
                    let row = Latest {
                        end_unix: end,
                        duration_seconds: snapshot_duration(s),
                        size_bytes: snapshot_size(s),
                        files: snapshot_files(s),
                    };
                    put(&mut rows, namespace, Some(policy), row, Ghost(f), Ghost(g));
                } else {
                    assert(forall|k: Key| #[trigger] g(k) == f(k));
                }
            },
            _ => {
                assert(forall|k: Key| #[trigger] g(k) == f(k));
            },
        }
        i = i + 1;
    }
    assert(v.take(v.len() as int) =~= v);
    let mut out: Vec<PolicyLatest> = Vec::new();
    let mut n: usize = 0;
    while n < rows.len()
        invariant
            n <= rows@.len(),
            out@.len() == n,
            tabulates(rows@, |k: Key| latest_for(v, k)),
            forall|j: int|
                0 <= j < n ==> key_of(latest_row(#[trigger] out@[j])) == key_of(rows@[j]) && latest_row(
                    out@[j],
                ).value == rows@[j].value,
        decreases rows@.len() - n,
    {
        let row = &rows[n];
        let policy = match &row.second {
            Some(p) => p.clone(),
            None => {
                proof {
                    lemma_latest_has_policy(v, key_of(rows@[n as int]));
                    assert(latest_for(v, key_of(rows@[n as int])) is Some);
                }
                "".to_owned()
            },
        };
        out.push(
            PolicyLatest {
                namespace: row.first.clone(),
                policy,
                end_unix: row.value.end_unix,
                duration_seconds: row.value.duration_seconds,
                size_bytes: row.value.size_bytes,
                files: row.value.files,
            },
        );
        n = n + 1;
    }
    proof {
        lemma_same_table(rows@, latest_table(out@), |k: Key| latest_for(v, k));
    }
    out
}

/// A table with the same keys and values says the same.
pub(crate) proof fn lemma_same_table<V: View>(a: Seq<Row<V>>, b: Seq<Row<V>>, f: spec_fn(Key) -> Option<V::V>)
    requires
        tabulates(a, f),
        a.len() == b.len(),
        forall|i: int| 0 <= i < a.len() ==> key_of(a[i]) == key_of(#[trigger] b[i]) && a[i].value@ == b[i].value@,
    ensures
        tabulates(b, f),
{
    assert forall|i: int, j: int| 0 <= i < j < b.len() implies key_before(
        #[trigger] key_of(b[i]),
        #[trigger] key_of(b[j]),
    ) by {
        assert(key_before(key_of(a[i]), key_of(a[j])));
    }
    assert forall|i: int| 0 <= i < b.len() implies f(#[trigger] key_of(b[i])) == Some(b[i].value@) by {
        assert(f(key_of(a[i])) == Some(a[i].value@));
    }
    assert forall|k: Key| (#[trigger] f(k)) is Some implies has_key(b, k) by {
        assert(has_key(a, k));
        let i = choose|i: int| 0 <= i < a.len() && #[trigger] key_of(a[i]) == k;
        assert(key_of(b[i]) == k);
    }
}

/// How a run ended, where there is one.
pub open spec fn ended_well(run: Option<LastRun>) -> Option<bool> {
    match run {
        Some(r) => Some(r.healthy),
        None => None,
    }
}

/// Whether rows are, for each namespace and policy, how the last run ended.
pub open spec fn health_rows(rows: Seq<PolicyHealth>, v: Seq<Snapshot>) -> bool {
    &&& in_order(health_table(rows))
    &&& forall|i: int|
        0 <= i < rows.len() ==> ended_well(last_run_for(v, key_of(health_row(#[trigger] rows[i])))) == Some(
            rows[i].healthy,
        )
    &&& forall|k: Key| (#[trigger] last_run_for(v, k)) is Some ==> has_key(health_table(rows), k)
}

/// Such a row as part of a table.
pub open spec fn health_row(p: PolicyHealth) -> Row<bool> {
    Row { first: p.namespace, second: Some(p.policy), value: p.healthy }
}

/// Such rows as a table.
pub open spec fn health_table(rows: Seq<PolicyHealth>) -> Seq<Row<bool>> {
    rows.map_values(|p: PolicyHealth| health_row(p))
}

proof fn lemma_last_run_has_policy(v: Seq<Snapshot>, k: Key)
    ensures
        last_run_for(v, k) is Some ==> k.1 is Some,
    decreases v.len(),
{
    if v.len() > 0 {
        lemma_last_run_has_policy(v.drop_last(), k);
    }
}

/// For each namespace and policy whether its last backup succeeded. The last one is
/// the one that was created last, of those that are over; a newer one that still runs
/// changes nothing. The rows are in the order of namespace and policy.
pub fn policy_backup_health(snapshots: &Vec<Snapshot>) -> (r: Vec<PolicyHealth>)
    ensures
        health_rows(r@, snapshots@),
{
    let ghost v = snapshots@;
    let mut rows: Vec<Row<LastRun>> = Vec::new();
    let mut i: usize = 0;
    assert(v.take(0) =~= seq![]);
    while i < snapshots.len()
        invariant
            i <= v.len(),
            v == snapshots@,
            tabulates(rows@, |k: Key| last_run_for(v.take(i as int), k)),
        decreases v.len() - i,
    {
        let s = &snapshots[i];
        let ghost f = |k: Key| last_run_for(v.take(i as int), k);
        let ghost g = |k: Key| last_run_for(v.take(i + 1), k);
        proof {
            assert(v.take(i + 1).drop_last() =~= v.take(i as int));
            assert(v.take(i + 1).last() == *s);
        }
        let ended: Option<bool> = match &s.status {
            Some(st) => match st.phase {
                Some(SnapshotPhase::Succeeded) => Some(true),
                Some(SnapshotPhase::Failed) => Some(false),
                _ => None,
            },
            None => None,
        };
        match (policy_str(s), ended) {
            (Some(policy), Some(healthy)) => {
                let namespace = str_or_empty(&s.namespace);
                let ghost k0 = (namespace@, Some(policy@));
                let created: i64 = value_or_zero(s.created_at);
                let (at, there) = place(&rows, namespace, Some(policy));
                proof {
                    assert(policy_key(*s) == Some(k0));
                    if there {
                        assert(f(key_of(rows@[at as int])) == Some(rows@[at as int].value@));
                    } else if f(k0) is Some {
                        assert(has_key(rows@, k0));
                    }
                }
                let later = if there {
                    created >= rows[at].value.created
                } else {
                    true
                };
                if later {
                    let run = LastRun { created, healthy };
                    put(&mut rows, namespace, Some(policy), run, Ghost(f), Ghost(g));
                } else {
                    assert(forall|k: Key| #[trigger] g(k) == f(k));
                }
            },
            _ => {
                assert(forall|k: Key| #[trigger] g(k) == f(k));
            },
        }
        i = i + 1;
    }
    assert(v.take(v.len() as int) =~= v);
    let mut out: Vec<PolicyHealth> = Vec::new();
    let mut n: usize = 0;
    while n < rows.len()
        invariant
            n <= rows@.len(),
            out@.len() == n,
            tabulates(rows@, |k: Key| last_run_for(v, k)),
            forall|j: int|
                0 <= j < n ==> key_of(health_row(#[trigger] out@[j])) == key_of(rows@[j])
                    && out@[j].healthy == rows@[j].value.healthy,
        decreases rows@.len() - n,
    {
        let row = &rows[n];
        let policy = match &row.second {
            Some(p) => p.clone(),
            None => {
                proof {
                    lemma_last_run_has_policy(v, key_of(rows@[n as int]));
                    assert(last_run_for(v, key_of(rows@[n as int])) is Some);
                }
                "".to_owned()
            },
        };
        out.push(
            PolicyHealth { namespace: row.first.clone(), policy, healthy: row.value.healthy },
        );
        n = n + 1;
    }
    proof {
        let f = |k: Key| last_run_for(v, k);
        let table = health_table(out@);
        assert forall|a: int, b: int| 0 <= a < b < table.len() implies key_before(
            #[trigger] key_of(table[a]),
            #[trigger] key_of(table[b]),
        ) by {
            assert(key_of(health_row(out@[a])) == key_of(rows@[a]));
            assert(key_of(health_row(out@[b])) == key_of(rows@[b]));
            assert(key_before(key_of(rows@[a]), key_of(rows@[b])));
        }
        assert forall|a: int| 0 <= a < out@.len() implies ended_well(
            last_run_for(v, key_of(health_row(#[trigger] out@[a]))),
        ) == Some(out@[a].healthy) by {
            assert(f(key_of(rows@[a])) == Some(rows@[a].value@));
        }
        assert forall|k: Key| (#[trigger] last_run_for(v, k)) is Some implies has_key(table, k) by {
            assert(f(k) is Some);
            assert(has_key(rows@, k));
            let a = choose|a: int| 0 <= a < rows@.len() && #[trigger] key_of(rows@[a]) == k;
            assert(key_of(health_row(out@[a])) == k);
            assert(key_of(table[a]) == k);
        }
    }
    out
}

/// Whether rows are, for each namespace and policy, its Snapshots.
pub open spec fn group_rows(rows: Seq<PolicyGroup>, v: Seq<Snapshot>) -> bool {
    tabulates(group_table(rows), |k: Key| group_for(v, k))
}

/// Such a row as part of a table.
pub open spec fn group_row(p: PolicyGroup) -> Row<Vec<usize>> {
    Row { first: p.namespace, second: Some(p.policy), value: p.members }
}

/// Such rows as a table.
pub open spec fn group_table(rows: Seq<PolicyGroup>) -> Seq<Row<Vec<usize>>> {
    rows.map_values(|p: PolicyGroup| group_row(p))
}

pub(crate) proof fn lemma_members_have_policy(v: Seq<Snapshot>, k: Key)
    ensures
        members_for(v, k).len() > 0 ==> k.1 is Some,
        members_for(v, k).len() <= v.len(),
    decreases v.len(),
{
    if v.len() > 0 {
        lemma_members_have_policy(v.drop_last(), k);
    }
}

/// For each namespace and policy the Snapshots that it has, in order. Those without
/// a policy have no part in it. The rows are in the order of namespace and policy.
pub fn policy_snapshot_groups(snapshots: &Vec<Snapshot>) -> (r: Vec<PolicyGroup>)
    ensures
        group_rows(r@, snapshots@),
{
    let ghost v = snapshots@;
    let mut rows: Vec<Row<Vec<usize>>> = Vec::new();
    let mut i: usize = 0;
    assert(v.take(0) =~= seq![]);
    while i < snapshots.len()
        invariant
            i <= v.len(),
            v == snapshots@,
            tabulates(rows@, |k: Key| group_for(v.take(i as int), k)),
        decreases v.len() - i,
    {
        let s = &snapshots[i];
        let ghost f = |k: Key| group_for(v.take(i as int), k);
        let ghost g = |k: Key| group_for(v.take(i + 1), k);
        proof {
            assert(v.take(i + 1).drop_last() =~= v.take(i as int));
            assert(v.take(i + 1).last() == *s);
        }
        match policy_str(s) {
            Some(policy) => {
                let namespace = str_or_empty(&s.namespace);
                let ghost k0 = (namespace@, Some(policy@));
                let (at, there) = place(&rows, namespace, Some(policy));
                proof {
                    assert(policy_key(*s) == Some(k0));
                    if there {
                        assert(f(key_of(rows@[at as int])) == Some(rows@[at as int].value@));
                    } else if f(k0) is Some {
                        assert(has_key(rows@, k0));
                    }
                }
                let mut members: Vec<usize> = if there {
                    rows[at].value.clone()
                } else {
                    Vec::new()
                };
                proof {
                    assert(members@ =~= members_for(v.take(i as int), k0));
                }
                members.push(i);
                put(&mut rows, namespace, Some(policy), members, Ghost(f), Ghost(g));
            },
            None => {
                assert(forall|k: Key| #[trigger] g(k) == f(k));
            },
        }
        i = i + 1;
    }
    assert(v.take(v.len() as int) =~= v);
    let mut out: Vec<PolicyGroup> = Vec::new();
    let mut n: usize = 0;
    while n < rows.len()
        invariant
            n <= rows@.len(),
            out@.len() == n,
            tabulates(rows@, |k: Key| group_for(v, k)),
            forall|j: int|
                0 <= j < n ==> key_of(group_row(#[trigger] out@[j])) == key_of(rows@[j])
                    && out@[j].members@ == rows@[j].value@,
        decreases rows@.len() - n,
    {
        let row = &rows[n];
        let policy = match &row.second {
            Some(p) => p.clone(),
            None => {
                proof {
                    lemma_members_have_policy(v, key_of(rows@[n as int]));
                    assert(group_for(v, key_of(rows@[n as int])) is Some);
                }
                "".to_owned()
            },
        };
        let members = row.value.clone();
        assert(members@ =~= row.value@);
        out.push(PolicyGroup { namespace: row.first.clone(), policy, members });
        n = n + 1;
    }
    proof {
        lemma_same_table(rows@, group_table(out@), |k: Key| group_for(v, k));
    }
    out
}

/// Whether rows are the figures of each group: its Snapshots and its streak.
pub open spec fn count_rows(
    rows: Seq<PolicySnapshots>,
    groups: Seq<PolicyGroup>,
    streaks: Seq<i64>,
) -> bool {
    &&& rows.len() == groups.len()
    &&& forall|i: int|
        0 <= i < rows.len() ==> {
            &&& (#[trigger] rows[i]).namespace@ == groups[i].namespace@
            &&& rows[i].policy@ == groups[i].policy@
            &&& rows[i].live == groups[i].members@.len()
            &&& rows[i].consecutive_failures == streaks[i]
        }
}

/// The figures of each group: how many Snapshots it has, and how many of its
/// backups failed in a row, which is told for each group in turn.
pub fn policy_snapshot_counts(groups: &Vec<PolicyGroup>, streaks: &Vec<i64>) -> (r: Vec<
    PolicySnapshots,
>)
    requires
        groups@.len() == streaks@.len(),
        forall|i: int| 0 <= i < groups@.len() ==> (#[trigger] groups@[i]).members@.len() <= i64::MAX,
    ensures
        count_rows(r@, groups@, streaks@),
{
    let mut out: Vec<PolicySnapshots> = Vec::new();
    let mut n: usize = 0;
    while n < groups.len()
        invariant
            n <= groups@.len(),
            groups@.len() == streaks@.len(),
            forall|i: int|
                0 <= i < groups@.len() ==> (#[trigger] groups@[i]).members@.len() <= i64::MAX,
            out@.len() == n,
            forall|i: int|
                0 <= i < n ==> {
                    &&& (#[trigger] out@[i]).namespace@ == groups@[i].namespace@
                    &&& out@[i].policy@ == groups@[i].policy@
                    &&& out@[i].live == groups@[i].members@.len()
                    &&& out@[i].consecutive_failures == streaks@[i]
                },
        decreases groups@.len() - n,
    {
        let g = &groups[n];
        assert(groups@[n as int].members@.len() <= i64::MAX);
        out.push(
            PolicySnapshots {
                namespace: g.namespace.clone(),
                policy: g.policy.clone(),
                live: g.members.len() as i64,
                consecutive_failures: streaks[n],
            },
        );
        n = n + 1;
    }
    out
}

/// Whether rows are, for each namespace and policy, how many Snapshots wait.
pub open spec fn gated_rows(rows: Seq<GatedSnapshots>, v: Seq<Snapshot>) -> bool {
    tabulates(gated_table(rows), |k: Key| some_gated_for(v, k))
}

/// Such a row as part of a table.
pub open spec fn gated_row(p: GatedSnapshots) -> Row<i64> {
    Row { first: p.namespace, second: p.policy, value: p.count }
}

/// Such rows as a table.
pub open spec fn gated_table(rows: Seq<GatedSnapshots>) -> Seq<Row<i64>> {
    rows.map_values(|p: GatedSnapshots| gated_row(p))
}

proof fn lemma_gated_at_most_all(v: Seq<Snapshot>, k: Key)
    ensures
        gated_for(v, k) <= v.len(),
    decreases v.len(),
{
    if v.len() > 0 {
        lemma_gated_at_most_all(v.drop_last(), k);
    }
}

/// For each namespace and policy how many Snapshots wait for their repository;
/// those without a policy have a row of their own. The rows are in the order of
/// namespace and policy.
pub fn gated_snapshot_counts(snapshots: &Vec<Snapshot>) -> (r: Vec<GatedSnapshots>)
    requires
        snapshots@.len() <= i64::MAX,
    ensures
        gated_rows(r@, snapshots@),
{
    let ghost v = snapshots@;
    let mut rows: Vec<Row<i64>> = Vec::new();
    let mut i: usize = 0;
    assert(v.take(0) =~= seq![]);
    while i < snapshots.len()
        invariant
            i <= v.len(),
            v == snapshots@,
            v.len() <= i64::MAX,
            tabulates(rows@, |k: Key| some_gated_for(v.take(i as int), k)),
        decreases v.len() - i,
    {
        let s = &snapshots[i];
        let ghost f = |k: Key| some_gated_for(v.take(i as int), k);
        let ghost g = |k: Key| some_gated_for(v.take(i + 1), k);
        proof {
            assert(v.take(i + 1).drop_last() =~= v.take(i as int));
            assert(v.take(i + 1).last() == *s);
        }
        if snapshot_gated(s) {
            let policy = policy_str(s);
            let namespace = str_or_empty(&s.namespace);
            let ghost k0 = (namespace@, opt_str(policy));
            let (at, there) = place(&rows, namespace, policy);
            proof {
                lemma_gated_at_most_all(v.take(i as int), k0);
                if there {
                    assert(f(key_of(rows@[at as int])) == Some(rows@[at as int].value@));
                } else if f(k0) is Some {
                    assert(has_key(rows@, k0));
                }
            }
            let before: i64 = if there {
                rows[at].value
            } else {
                0
            };
            put(&mut rows, namespace, policy, before + 1, Ghost(f), Ghost(g));
        } else {
            assert(forall|k: Key| #[trigger] g(k) == f(k));
        }
        i = i + 1;
    }
    assert(v.take(v.len() as int) =~= v);
    let mut out: Vec<GatedSnapshots> = Vec::new();
    let mut n: usize = 0;
    while n < rows.len()
        invariant
            n <= rows@.len(),
            out@.len() == n,
            forall|j: int|
                0 <= j < n ==> key_of(gated_row(#[trigger] out@[j])) == key_of(rows@[j]) && out@[j].count
                    == rows@[j].value,
        decreases rows@.len() - n,
    {
        let row = &rows[n];
        out.push(
            GatedSnapshots {
                namespace: row.first.clone(),
                policy: match &row.second {
                    Some(p) => Some(p.clone()),
                    None => None,
                },
                count: row.value,
            },
        );
        n = n + 1;
    }
    proof {
        lemma_same_table(rows@, gated_table(out@), |k: Key| some_gated_for(v, k));
    }
    out
}

/// Whether the Snapshot at a place is a success with a key.
pub open spec fn succeeded_with(v: Seq<Snapshot>, i: int, k: Key) -> bool {
    0 <= i < v.len() && success_unix(v[i]) is Some && policy_key(v[i]) == Some(k)
}

/// Whether the Snapshot at a place is a run with a key that is over.
pub open spec fn ended_with(v: Seq<Snapshot>, i: int, k: Key) -> bool {
    0 <= i < v.len() && run_ended(v[i]) is Some && policy_key(v[i]) == Some(k)
}

/// The latest success is the one that ended last: none ended later, and none that
/// ended at the same time comes before it. There is one as soon as any succeeded, so a
/// later failure never takes its place.
pub proof fn lemma_latest_is_the_greatest(v: Seq<Snapshot>, k: Key)
    ensures
        latest_for(v, k) is None <==> forall|i: int| !succeeded_with(v, i, k),
        latest_for(v, k) matches Some(l) ==> exists|i: int|
            {
                &&& #[trigger] succeeded_with(v, i, k)
                &&& l == latest_view(v[i], success_unix(v[i])->0)
                &&& forall|j: int| #[trigger]
                    succeeded_with(v, j, k) ==> if j < i {
                        success_unix(v[j])->0 < l.end_unix
                    } else {
                        success_unix(v[j])->0 <= l.end_unix
                    }
            },
    decreases v.len(),
{
    if v.len() > 0 {
        let rest = v.drop_last();
        let n = v.len() - 1;
        lemma_latest_is_the_greatest(rest, k);
        assert forall|j: int| 0 <= j < n implies #[trigger] succeeded_with(v, j, k) == succeeded_with(
            rest,
            j,
            k,
        ) by {
            assert(rest[j] == v[j]);
        }
        assert(v[n] == v.last());
        let before = latest_for(rest, k);
        let won = choose|i: int|
            {
                &&& #[trigger] succeeded_with(rest, i, k)
                &&& before->0 == latest_view(rest[i], success_unix(rest[i])->0)
                &&& forall|j: int| #[trigger]
                    succeeded_with(rest, j, k) ==> if j < i {
                        success_unix(rest[j])->0 < before->0.end_unix
                    } else {
                        success_unix(rest[j])->0 <= before->0.end_unix
                    }
            };
        if before is Some {
            assert(rest[won] == v[won]);
            assert(succeeded_with(rest, won, k));
            assert(succeeded_with(v, won, k));
        }
        let i = if succeeded_with(v, n, k) && (before is None || success_unix(v[n])->0
            > before->0.end_unix) {
            n
        } else {
            won
        };
        if latest_for(v, k) is Some {
            let l = latest_for(v, k)->0;
            assert(succeeded_with(v, i, k));
            assert forall|j: int| #[trigger] succeeded_with(v, j, k) implies if j < i {
                success_unix(v[j])->0 < l.end_unix
            } else {
                success_unix(v[j])->0 <= l.end_unix
            } by {
                if j < n {
                    assert(succeeded_with(rest, j, k));
                    assert(rest[j] == v[j]);
                }
            }
        } else {
            assert forall|j: int| !succeeded_with(v, j, k) by {
                if 0 <= j < n {
                    assert(!succeeded_with(rest, j, k));
                    assert(succeeded_with(v, j, k) == succeeded_with(rest, j, k));
                }
            }
        }
    }
}

/// The last run is the one that was created last, of those that are over: none was
/// created later, and none that was created at the same time comes after it. So a
/// newer failure shows, although an older run succeeded.
pub proof fn lemma_last_run_is_the_newest(v: Seq<Snapshot>, k: Key)
    ensures
        last_run_for(v, k) is None <==> forall|i: int| !ended_with(v, i, k),
        last_run_for(v, k) matches Some(l) ==> exists|i: int|
            {
                &&& #[trigger] ended_with(v, i, k)
                &&& l == (LastRun { created: created_of(v[i]), healthy: run_ended(v[i])->0 })
                &&& forall|j: int| #[trigger]
                    ended_with(v, j, k) ==> if j > i {
                        created_of(v[j]) < l.created
                    } else {
                        created_of(v[j]) <= l.created
                    }
            },
    decreases v.len(),
{
    if v.len() > 0 {
        let rest = v.drop_last();
        let n = v.len() - 1;
        lemma_last_run_is_the_newest(rest, k);
        assert forall|j: int| 0 <= j < n implies #[trigger] ended_with(v, j, k) == ended_with(
            rest,
            j,
            k,
        ) by {
            assert(rest[j] == v[j]);
        }
        assert(v[n] == v.last());
        let before = last_run_for(rest, k);
        let won = choose|i: int|
            {
                &&& #[trigger] ended_with(rest, i, k)
                &&& before->0 == (LastRun {
                    created: created_of(rest[i]),
                    healthy: run_ended(rest[i])->0,
                })
                &&& forall|j: int| #[trigger]
                    ended_with(rest, j, k) ==> if j > i {
                        created_of(rest[j]) < before->0.created
                    } else {
                        created_of(rest[j]) <= before->0.created
                    }
            };
        if before is Some {
            assert(rest[won] == v[won]);
            assert(ended_with(rest, won, k));
            assert(ended_with(v, won, k));
        }
        let i = if ended_with(v, n, k) && (before is None || created_of(v[n]) >= before->0.created) {
            n
        } else {
            won
        };
        if last_run_for(v, k) is Some {
            let l = last_run_for(v, k)->0;
            assert(ended_with(v, i, k));
            assert forall|j: int| #[trigger] ended_with(v, j, k) implies if j > i {
                created_of(v[j]) < l.created
            } else {
                created_of(v[j]) <= l.created
            } by {
                if j < n {
                    assert(ended_with(rest, j, k));
                    assert(rest[j] == v[j]);
                }
            }
        } else {
            assert forall|j: int| !ended_with(v, j, k) by {
                if 0 <= j < n {
                    assert(!ended_with(rest, j, k));
                    assert(ended_with(v, j, k) == ended_with(rest, j, k));
                }
            }
        }
    }
}

/// A policy's Snapshots are exactly those that name it, each once and in order.
pub proof fn lemma_members_are_the_policys(v: Seq<Snapshot>, k: Key)
    requires
        v.len() <= usize::MAX,
    ensures
        forall|i: int|
            0 <= i < v.len() ==> (members_for(v, k).contains(i as usize) <==> policy_key(
                #[trigger] v[i],
            ) == Some(k)),
        forall|a: int, b: int|
            0 <= a < b < members_for(v, k).len() ==> members_for(v, k)[a] < members_for(v, k)[b],
        forall|a: int|
            0 <= a < members_for(v, k).len() ==> (#[trigger] members_for(v, k)[a]) < v.len(),
    decreases v.len(),
{
    if v.len() > 0 {
        let rest = v.drop_last();
        let n = v.len() - 1;
        lemma_members_are_the_policys(rest, k);
        let before = members_for(rest, k);
        let all = members_for(v, k);
        assert forall|i: int| 0 <= i < v.len() implies (all.contains(i as usize) <==> policy_key(
            #[trigger] v[i],
        ) == Some(k)) by {
            if i < n {
                assert(rest[i] == v[i]);
                if before.contains(i as usize) {
                    let a = before.index_of(i as usize);
                    assert(all[a] == i as usize);
                }
                if all.contains(i as usize) {
                    let a = all.index_of(i as usize);
                    assert(before[a] == i as usize);
                }
            } else {
                if policy_key(v[i]) == Some(k) {
                    assert(all[before.len() as int] == i as usize);
                } else if all.contains(i as usize) {
                    let a = all.index_of(i as usize);
                    assert(before[a] < n);
                }
            }
        }
    }
}

/// The words for the phases of a Snapshot.
pub proof fn lemma_snapshot_phase_words()
    ensures
        snapshot_phase_text(SnapshotPhase::Pending) == "Pending"@,
        snapshot_phase_text(SnapshotPhase::Running) == "Running"@,
        snapshot_phase_text(SnapshotPhase::Succeeded) == "Succeeded"@,
        snapshot_phase_text(SnapshotPhase::Failed) == "Failed"@,
        snapshot_phase_text(SnapshotPhase::Unchanged) == "Unchanged"@,
        snapshot_phase_text(SnapshotPhase::Discovered) == "Discovered"@,
        snapshot_phase_text(SnapshotPhase::Deleting) == "Deleting"@,
{
}

/// The phase that an object is in is the one that its status names; without one it is
/// still to start.
pub proof fn lemma_active_phases(s: Snapshot, r: RepositoryObject, t: RestoreObject)
    ensures
        s.status is None ==> active_phase(s) == SnapshotPhase::Pending && phase_of(s) is None,
        s.status matches Some(st) ==> phase_of(s) == st.phase,
        s.status matches Some(st) ==> (st.phase is None ==> active_phase(s) == SnapshotPhase::Pending),
        s.status matches Some(st) ==> (st.phase matches Some(p) ==> active_phase(s) == p),
        r.status is None ==> repository_phase_text(r) == "Pending"@,
        r.status matches Some(st) ==> (st.phase is None ==> repository_phase_text(r) == "Pending"@),
        r.status matches Some(st) ==> (st.phase matches Some(p) ==> repository_phase_text(r)
            == phase_text(p)),
        t.phase is None ==> restore_phase_text(t) == "Pending"@,
        t.phase matches Some(p) ==> restore_phase_text(t) == p@,
{
}

/// What the labels of a series say, and that one without a policy has no label for it.
pub proof fn lemma_labels(
    s: Snapshot,
    kind: Seq<char>,
    ns: Seq<char>,
    name: Seq<char>,
    phase: Seq<char>,
)
    ensures
        s.policy is None ==> stat_labels(s) =~= seq![
            ("namespace"@, or_empty(s.namespace)),
            ("name"@, s.name@),
        ],
        s.policy matches Some(p) ==> stat_labels(s) =~= seq![
            ("namespace"@, or_empty(s.namespace)),
            ("name"@, s.name@),
            ("policy"@, p@),
        ],
        phase_labels(kind, ns, name, phase) =~= seq![
            ("kind"@, kind),
            ("namespace"@, ns),
            ("name"@, name),
            ("phase"@, phase),
        ],
        repo_labels(kind, ns, name) =~= seq![("kind"@, kind), ("namespace"@, ns), ("name"@, name)],
        policy_label(None).len() == 0,
        policy_label(Some(name)) =~= seq![("policy"@, name)],
        pinned_labels(None) =~= seq![("repo_kind"@, "unknown"@), ("repo_name"@, "unknown"@)],
        forall|r: RepositoryRefView|
            r.kind == RepositoryKind::Repository ==> #[trigger] pinned_labels(Some(r)) =~= seq![
                ("repo_kind"@, "Repository"@),
                ("repo_name"@, r.name),
            ],
        forall|r: RepositoryRefView|
            r.kind == RepositoryKind::ClusterRepository ==> #[trigger] pinned_labels(Some(r)) =~= seq![
                ("repo_kind"@, "ClusterRepository"@),
                ("repo_name"@, r.name),
            ],
{
}

/// What a Snapshot says of itself is read off its status, each figure from its own place.
pub proof fn lemma_what_a_snapshot_says(s: Snapshot, st: SnapshotStatus)
    requires
        s.status == Some(st),
    ensures
        pin_of(s) == (match st.repository {
            Some(r) => Some(r@),
            None => None,
        }),
        stats_of(s) == st.stats,
        duration_of(s) == (match st.timing {
            Some(t) => t.duration_seconds,
            None => None,
        }),
        size_of_snapshot(s) == (match st.stats {
            Some(x) => x.size_bytes,
            None => None,
        }),
        files_of(s) == (match st.stats {
            Some(x) => file_count(x),
            None => None,
        }),
        created_of(s) == (match s.created_at {
            Some(t) => t,
            None => 0,
        }),
        policy_key(s) == (match s.policy {
            Some(p) => Some((or_empty(s.namespace), Some(p@))),
            None => None,
        }),
{
}

/// The files of a run are those of all three sorts together. They are known as soon as one
/// sort is: what was not measured is no zero.
pub proof fn lemma_files_are_added(stats: SnapshotStats)
    requires
        countable(stats),
    ensures
        file_count(stats) is None <==> stats.files_new is None && stats.files_modified is None
            && stats.files_unchanged is None,
        file_count(stats) matches Some(n) ==> n == (match stats.files_new {
            Some(a) => a as int,
            None => 0,
        }) + (match stats.files_modified {
            Some(b) => b as int,
            None => 0,
        }) + (match stats.files_unchanged {
            Some(c) => c as int,
            None => 0,
        }),
{
}

/// A Snapshot's success is the end of its run, in whole seconds, and only where it
/// succeeded and says when in a text that can be read.
pub proof fn lemma_what_a_success_is(s: Snapshot)
    ensures
        success_unix(s) is Some ==> phase_of(s) == Some(SnapshotPhase::Succeeded),
        phase_of(s) != Some(SnapshotPhase::Succeeded) ==> success_unix(s) is None,
        s.status matches Some(st) ==> (st.phase == Some(SnapshotPhase::Succeeded) ==> success_unix(s)
            == (match st.timing {
            Some(t) => match t.end_time {
                Some(text) => match parsed_moment(text@) {
                    Some(m) => Some(m.secs),
                    None => None,
                },
                None => None,
            },
            None => None,
        })),
{
}

/// A run is over where it succeeded or failed. One that found nothing to do, waits, runs,
/// was discovered or is being deleted says nothing of its policy's health.
pub proof fn lemma_what_ends_a_run(s: Snapshot)
    ensures
        run_ended(s) == Some(true) <==> phase_of(s) == Some(SnapshotPhase::Succeeded),
        run_ended(s) == Some(false) <==> phase_of(s) == Some(SnapshotPhase::Failed),
        run_ended(s) is None <==> phase_of(s) != Some(SnapshotPhase::Succeeded) && phase_of(s) != Some(
            SnapshotPhase::Failed,
        ),
{
}

/// The latest success tells its own figures, not another's.
pub proof fn lemma_what_the_latest_tells(s: Snapshot, end_unix: i64)
    ensures
        latest_view(s, end_unix).end_unix == end_unix,
        latest_view(s, end_unix).duration_seconds == duration_of(s),
        latest_view(s, end_unix).size_bytes == size_of_snapshot(s),
        latest_view(s, end_unix).files == files_of(s),
{
}

/// A Snapshot waits for its repository where it has not started and its `Ready` condition
/// says so; one that has started does not, whatever its conditions say.
pub proof fn lemma_what_waits(s: Snapshot, i: int)
    ensures
        gated(s) ==> active_phase(s) == SnapshotPhase::Pending,
        s.status is None ==> !gated(s),
        s.status matches Some(st) ==> (0 <= i < st.conditions@.len() && active_phase(s)
            == SnapshotPhase::Pending && st.conditions@[i].type_@ == "Ready"@
            && st.conditions@[i].reason@ == "RepositoryNotReady"@ ==> gated(s)),
        s.status matches Some(st) ==> ((forall|j: int|
            0 <= j < st.conditions@.len() ==> !((#[trigger] st.conditions@[j]).type_@ == "Ready"@
                && st.conditions@[j].reason@ == "RepositoryNotReady"@)) ==> !gated(s)),
{
    if s.status is Some {
        let st = s.status->0;
        let v = condition_views(st.conditions@);
        assert(conditions_of(s) == v);
        assert(v.len() == st.conditions@.len());
        if 0 <= i < v.len() {
            assert(v[i] == st.conditions@[i]@);
        }
        if gated(s) {
            let j = choose|j: int|
                0 <= j < v.len() && (#[trigger] v[j]).type_ == "Ready"@ && v[j].reason
                    == "RepositoryNotReady"@;
            assert(v[j] == st.conditions@[j]@);
            assert(st.conditions@[j].type_@ == "Ready"@);
        }
    }
}

/// A deletion is pending where the object is being deleted and still carries the clean-up
/// finalizer among its others, and held where a condition says so.
pub proof fn lemma_what_is_pending_and_held(s: Snapshot, i: int)
    ensures
        !s.deleting ==> !deletion_pending(s),
        deletion_pending(s) ==> exists|j: int|
            0 <= j < s.finalizers@.len() && (#[trigger] s.finalizers@[j])@
                == SNAPSHOT_CLEANUP_FINALIZER@,
        s.deleting && 0 <= i < s.finalizers@.len() && s.finalizers@[i]@ == SNAPSHOT_CLEANUP_FINALIZER@
            ==> deletion_pending(s),
        s.status is None ==> !held(s),
        s.status matches Some(st) ==> (0 <= i < st.conditions@.len() && st.conditions@[i].type_@
            == "DeletionHeld"@ && st.conditions@[i].status@ == "True"@ ==> held(s)),
        held(s) ==> (s.status matches Some(st) && exists|j: int|
            0 <= j < st.conditions@.len() && (#[trigger] st.conditions@[j]).type_@ == "DeletionHeld"@
                && st.conditions@[j].status@ == "True"@),
{
    let names = texts(s.finalizers@);
    assert(names.len() == s.finalizers@.len());
    if deletion_pending(s) {
        let j = names.index_of(SNAPSHOT_CLEANUP_FINALIZER@);
        assert(names[j] == s.finalizers@[j]@);
    }
    if 0 <= i < names.len() {
        assert(names[i] == s.finalizers@[i]@);
    }
    if s.status is Some {
        let st = s.status->0;
        let v = condition_views(st.conditions@);
        assert(conditions_of(s) == v);
        if 0 <= i < v.len() {
            assert(v[i] == st.conditions@[i]@);
        }
        if held(s) {
            let j = choose|j: int|
                0 <= j < v.len() && (#[trigger] v[j]).type_ == "DeletionHeld"@ && v[j].status
                    == "True"@;
            assert(v[j] == st.conditions@[j]@);
            assert(st.conditions@[j].type_@ == "DeletionHeld"@);
        }
    }
}

/// Each Snapshot that waits is counted once, for its own namespace and policy; those
/// without a policy are counted for themselves.
pub proof fn lemma_each_that_waits_counts(v: Seq<Snapshot>, s: Snapshot, k: Key)
    ensures
        gated_for(Seq::empty(), k) == 0,
        gated(s) ==> gated_for(
            v.push(s),
            (
                or_empty(s.namespace),
                match s.policy {
                    Some(p) => Some(p@),
                    None => None,
                },
            ),
        ) == gated_for(
            v,
            (
                or_empty(s.namespace),
                match s.policy {
                    Some(p) => Some(p@),
                    None => None,
                },
            ),
        ) + 1,
        !gated(s) || k.0 != or_empty(s.namespace) || k.1 != opt_text(s.policy) ==> gated_for(
            v.push(s),
            k,
        ) == gated_for(v, k),
        gated_for(v, k) == 0 ==> some_gated_for(v, k) is None,
        0 < gated_for(v, k) <= i64::MAX ==> some_gated_for(v, k) == Some(gated_for(v, k) as i64),
{
    assert(v.push(s).drop_last() =~= v);
}

/// A breaker is told to be open while the repository is degraded and its backend is said
/// to be out of reach, since the first failure; otherwise there is no such series.
pub proof fn lemma_when_a_breaker_is_open(
    phase: Option<RepositoryPhase>,
    health: RepositoryHealthStatus,
    conditions: Seq<ConditionView>,
)
    ensures
        !(phase matches Some(p) && p is Degraded) ==> open_since(phase, Some(health), conditions) is None,
        (forall|i: int|
            0 <= i < conditions.len() ==> !((#[trigger] conditions[i]).type_ == "BackendReachable"@
                && conditions[i].status == "False"@)) ==> open_since(
            phase,
            Some(health),
            conditions,
        ) is None,
        open_since(phase, None, conditions) is None,
        ((phase matches Some(p) && p is Degraded) && exists|i: int|
            0 <= i < conditions.len() && (#[trigger] conditions[i]).type_ == "BackendReachable"@
                && conditions[i].status == "False"@) ==> open_since(phase, Some(health), conditions)
            == (match health.first_failure_at {
            Some(text) => match parsed_moment(text@) {
                Some(m) => Some(m.secs),
                None => None,
            },
            None => None,
        }),
{
    if phase matches Some(p) && p is Degraded {
        assert(phase == Some(RepositoryPhase::Degraded));
    }
}

/// The rows of the latest successes: each tells the figures of its own namespace and
/// policy, and every policy that succeeded has one.
pub proof fn lemma_rows_of_latest(rows: Seq<PolicyLatest>, v: Seq<Snapshot>, k: Key)
    requires
        latest_rows(rows, v),
    ensures
        forall|i: int|
            0 <= i < rows.len() ==> latest_for(
                v,
                (#[trigger] rows[i].namespace@, Some(rows[i].policy@)),
            ) == Some(
                Latest {
                    end_unix: rows[i].end_unix,
                    duration_seconds: rows[i].duration_seconds,
                    size_bytes: rows[i].size_bytes,
                    files: rows[i].files,
                },
            ),
        latest_for(v, k) is Some ==> exists|i: int|
            0 <= i < rows.len() && #[trigger] rows[i].namespace@ == k.0 && Some(rows[i].policy@) == k.1,
        forall|i: int, j: int|
            0 <= i < j < rows.len() ==> (#[trigger] rows[i].namespace@ != #[trigger] rows[j].namespace@
                || rows[i].policy@ != rows[j].policy@),
{
    let table = latest_table(rows);
    let f = |k: Key| latest_for(v, k);
    assert forall|i: int| 0 <= i < rows.len() implies latest_for(
        v,
        (#[trigger] rows[i].namespace@, Some(rows[i].policy@)),
    ) == Some(
        Latest {
            end_unix: rows[i].end_unix,
            duration_seconds: rows[i].duration_seconds,
            size_bytes: rows[i].size_bytes,
            files: rows[i].files,
        },
    ) by {
        assert(f(key_of(table[i])) == Some(table[i].value@));
    }
    if latest_for(v, k) is Some {
        assert(f(k) is Some);
        assert(has_key(table, k));
        let i = choose|i: int| 0 <= i < table.len() && #[trigger] key_of(table[i]) == k;
        assert(rows[i].namespace@ == k.0);
    }
    assert forall|i: int, j: int| 0 <= i < j < rows.len() implies (#[trigger] rows[i].namespace@
        != #[trigger] rows[j].namespace@ || rows[i].policy@ != rows[j].policy@) by {
        assert(key_before(key_of(table[i]), key_of(table[j])));
        lemma_key_order(key_of(table[i]), key_of(table[j]), key_of(table[i]));
    }
}

/// The rows of the last runs: each tells how the last run of its own namespace and policy
/// ended, and every policy with a run that is over has one.
pub proof fn lemma_rows_of_health(rows: Seq<PolicyHealth>, v: Seq<Snapshot>, k: Key)
    requires
        health_rows(rows, v),
    ensures
        forall|i: int|
            0 <= i < rows.len() ==> (last_run_for(
                v,
                (#[trigger] rows[i].namespace@, Some(rows[i].policy@)),
            ) matches Some(run) && run.healthy == rows[i].healthy),
        last_run_for(v, k) is Some ==> exists|i: int|
            0 <= i < rows.len() && #[trigger] rows[i].namespace@ == k.0 && Some(rows[i].policy@) == k.1,
{
    let table = health_table(rows);
    assert forall|i: int| 0 <= i < rows.len() implies (last_run_for(
        v,
        (#[trigger] rows[i].namespace@, Some(rows[i].policy@)),
    ) matches Some(run) && run.healthy == rows[i].healthy) by {
        assert(ended_well(last_run_for(v, key_of(health_row(rows[i])))) == Some(rows[i].healthy));
    }
    if last_run_for(v, k) is Some {
        assert(has_key(table, k));
        let i = choose|i: int| 0 <= i < table.len() && #[trigger] key_of(table[i]) == k;
        assert(rows[i].namespace@ == k.0);
    }
}

/// The rows of the Snapshots that wait: each tells how many there are for its own namespace
/// and policy, and none is missing.
pub proof fn lemma_rows_of_gated(rows: Seq<GatedSnapshots>, v: Seq<Snapshot>, k: Key)
    requires
        gated_rows(rows, v),
        v.len() <= i64::MAX,
    ensures
        forall|i: int|
            0 <= i < rows.len() ==> gated_for(v, (#[trigger] rows[i].namespace@, opt_text(rows[i].policy)))
                == rows[i].count && rows[i].count > 0,
        gated_for(v, k) > 0 ==> exists|i: int|
            0 <= i < rows.len() && #[trigger] rows[i].namespace@ == k.0 && opt_text(rows[i].policy) == k.1,
{
    let table = gated_table(rows);
    let f = |k: Key| some_gated_for(v, k);
    assert forall|i: int| 0 <= i < rows.len() implies gated_for(
        v,
        (#[trigger] rows[i].namespace@, opt_text(rows[i].policy)),
    ) == rows[i].count && rows[i].count > 0 by {
        assert(f(key_of(table[i])) == Some(table[i].value@));
        lemma_gated_at_most_all(v, key_of(table[i]));
    }
    if gated_for(v, k) > 0 {
        assert(f(k) is Some);
        assert(has_key(table, k));
        let i = choose|i: int| 0 <= i < table.len() && #[trigger] key_of(table[i]) == k;
        assert(rows[i].namespace@ == k.0);
    }
}

/// The groups of a policy's Snapshots: each holds the places of those of its own namespace
/// and policy, and no policy is missing.
pub proof fn lemma_rows_of_groups(rows: Seq<PolicyGroup>, v: Seq<Snapshot>, k: Key)
    requires
        group_rows(rows, v),
    ensures
        forall|i: int|
            0 <= i < rows.len() ==> rows[i].members@ == members_for(
                v,
                (#[trigger] rows[i].namespace@, Some(rows[i].policy@)),
            ) && rows[i].members@.len() > 0,
        members_for(v, k).len() > 0 ==> exists|i: int|
            0 <= i < rows.len() && #[trigger] rows[i].namespace@ == k.0 && Some(rows[i].policy@) == k.1,
{
    let table = group_table(rows);
    let f = |k: Key| group_for(v, k);
    assert forall|i: int| 0 <= i < rows.len() implies rows[i].members@ == members_for(
        v,
        (#[trigger] rows[i].namespace@, Some(rows[i].policy@)),
    ) && rows[i].members@.len() > 0 by {
        assert(f(key_of(table[i])) == Some(table[i].value@));
    }
    if members_for(v, k).len() > 0 {
        assert(f(k) is Some);
        assert(has_key(table, k));
        let i = choose|i: int| 0 <= i < table.len() && #[trigger] key_of(table[i]) == k;
        assert(rows[i].namespace@ == k.0);
    }
}

/// A series says its value and its labels, each with its key, in order.
pub proof fn lemma_samples_say(v: Seq<Sample>, l: Seq<Label>, i: int)
    ensures
        sample_views(v).len() == v.len(),
        0 <= i < v.len() ==> sample_views(v)[i] == (v[i].value, label_views(v[i].labels@)),
        label_views(l).len() == l.len(),
        0 <= i < l.len() ==> label_views(l)[i] == (l[i].key@, l[i].value@),
{
}

/// The files of a run can be counted where 64 bits hold the sums on the way, and where
/// nothing was measured.
pub proof fn lemma_which_files_can_be_counted(s: Snapshot, stats: SnapshotStats)
    ensures
        countable(stats) <==> {
            let a = or_zero(stats.files_new);
            let b = or_zero(stats.files_modified);
            let c = or_zero(stats.files_unchanged);
            &&& -0x8000_0000_0000_0000 <= a + b <= 0x7fff_ffff_ffff_ffff
            &&& -0x8000_0000_0000_0000 <= a + b + c <= 0x7fff_ffff_ffff_ffff
        },
        or_zero(None) == 0,
        forall|n: i64| #[trigger] or_zero(Some(n)) == n,
        s.status is None ==> snapshot_countable(s),
        (s.status matches Some(st) && st.stats is None) ==> snapshot_countable(s),
        (s.status matches Some(st) && st.stats == Some(stats)) ==> (snapshot_countable(s)
            <==> countable(stats)),
        success_of_policy(s) <==> s.policy is Some && success_unix(s) is Some,
        forall|v: Seq<Snapshot>| #[trigger]
            all_countable(v) <==> forall|i: int| 0 <= i < v.len() ==> snapshot_countable(#[trigger] v[i]),
{
}

/// What a row of figures tells of its group: its namespace and policy, how many Snapshots
/// the group holds, and its streak.
pub proof fn lemma_what_figures_tell(
    rows: Seq<PolicySnapshots>,
    groups: Seq<PolicyGroup>,
    streaks: Seq<i64>,
    i: int,
)
    requires
        count_rows(rows, groups, streaks),
    ensures
        rows.len() == groups.len(),
        0 <= i < rows.len() ==> rows[i].namespace@ == groups[i].namespace@ && rows[i].policy@
            == groups[i].policy@ && rows[i].live == groups[i].members@.len()
            && rows[i].consecutive_failures == streaks[i],
{
}

} // verus!
