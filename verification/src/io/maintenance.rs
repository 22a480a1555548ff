//! Who maintains a repository.
//!
//! The operator manages a `Maintenance` of its own for every repository that
//! wants one and has none from its users. What was observed, and not what was
//! intended, decides what the repository's condition says.
use vstd::prelude::*;
use vstd::string::*;

use crate::consts::{
    MAINTENANCE_APPLY_FAILED_REASON, MAINTENANCE_CONFIGURED_CONDITION,
    MAINTENANCE_CONFIGURED_REASON, MAINTENANCE_DISABLED_REASON,
    MAINTENANCE_NAMESPACE_UNRESOLVED_REASON,
};
use crate::io::meta::{OwnerReference, controlling};
use crate::io::conditions::{
    Condition, ConditionView, condition_views, lemma_upsert_settles, same_conditions,
    status_text, upsert_condition, upserted,
};
use crate::io::apply::{Json, Tree, tree};
use crate::naming::{RepositoryKind, RepositoryRef, RepositoryRefView, resolves};
use crate::text::{
    holds_text, lemma_holds_end, lemma_holds_itself, lemma_holds_on, opt_str, opt_text, same,
    texts,
};

verus! {

/// A `Maintenance`, as far as covering a repository goes.
#[derive(Debug, Clone, PartialEq, Eq)]
pub struct Maintenance {
    /// Its namespace.
    pub namespace: Option<String>,
    /// Its owners.
    pub owner_references: Vec<OwnerReference>,
    /// The repository that it is for.
    pub repository: RepositoryRef,
    /// What it has done.
    pub status: Option<MaintenanceStatus>,
}

/// What a `Maintenance` has done.
#[derive(Debug, Clone, PartialEq, Eq)]
pub struct MaintenanceStatus {
    /// Its full runs.
    pub full: Option<RunStatus>,
    /// Its quick runs.
    pub quick: Option<RunStatus>,
}

/// The latest run of one sort.
#[derive(Debug, Clone, PartialEq, Eq)]
pub struct RunStatus {
    /// When the mover last ran with success.
    pub last_run_at: Option<String>,
    /// When a slot was last seen to be done with.
    pub last_handled_at: Option<String>,
}

/// What to do about the managed `Maintenance` of a repository.
#[derive(Debug, Clone, Copy, PartialEq, Eq, Structural)]
pub enum MaintenanceAction {
    /// Create it or bring it up to date.
    Manage,
    /// Remove it.
    Unmanage,
    /// Nothing.
    Leave,
    /// It is wanted, and there is no namespace for it.
    Unresolved,
}

/// What was observed to cover a repository.
#[derive(Debug, Clone, PartialEq, Eq)]
pub enum MaintenanceCoverage {
    /// Wanted, with no namespace to place it in.
    Unresolved,
    /// A `Maintenance` that a user wrote.
    CoveredByForeign,
    /// The one that the operator manages.
    CoveredByManaged,
    /// Nothing, because it is switched off.
    DisabledBySpec,
    /// Nothing, though it is switched on: it could not be applied.
    ApplyFailed {
        /// Where it was to be applied.
        namespace: String,
    },
}

/// Which recorded owners a bootstrap may write over.
#[derive(Debug, Clone, Copy, PartialEq, Eq, Structural)]
pub enum RestampPolicy {
    /// Any owner that is not the wanted one.
    AnyStale,
    /// Only owners in a form that this operator writes.
    OwnFormatsOnly,
}

/// A cron schedule.
#[derive(Debug, Clone, PartialEq, Eq)]
pub struct CronSpec {
    /// The cron expression.
    pub cron: String,
    /// How far a run may be moved.
    pub jitter: Option<String>,
    /// The time zone of the expression.
    pub timezone: Option<String>,
}

/// When maintenance runs.
#[derive(Debug, Clone, PartialEq, Eq)]
pub struct MaintenanceSchedule {
    /// When quick maintenance runs.
    pub quick: CronSpec,
    /// When full maintenance runs.
    pub full: CronSpec,
    /// The time zone of both.
    pub timezone: Option<String>,
}

/// What a repository says about its maintenance.
#[derive(Debug, PartialEq, Eq)]
pub struct RepositoryMaintenanceSpec {
    /// Whether it wants any.
    pub enabled: bool,
    /// When to run.
    pub schedule: Option<MaintenanceSchedule>,
    /// What to do about a lease of somebody else.
    pub takeover_policy: Option<String>,
    /// How to run the mover.
    pub mover: Option<Json>,
    /// What to do about failures.
    pub failure_policy: Option<Json>,
}

/// What holds where a repository leaves its maintenance open.
#[derive(Debug, Clone, PartialEq, Eq)]
pub struct MaintenanceDefaults {
    /// When to run.
    pub schedule: MaintenanceSchedule,
    /// What to do about a lease of somebody else.
    pub takeover_policy: String,
}

/// The `Maintenance` that the operator manages for a repository.
#[derive(Debug, PartialEq, Eq)]
pub struct ManagedMaintenance {
    /// Its name, which is the repository's.
    pub name: String,
    /// Its namespace.
    pub namespace: String,
    /// Its owner, which is the repository.
    pub owner_reference: OwnerReference,
    /// The repository, without a namespace.
    pub repository: RepositoryRef,
    /// When it runs.
    pub schedule: MaintenanceSchedule,
    /// The lease that it claims.
    pub owner: String,
    /// The leases that count as its own.
    pub owner_aliases: Vec<String>,
    /// What to do about a lease of somebody else.
    pub takeover_policy: String,
    /// How to run the mover.
    pub mover: Option<Json>,
    /// What to do about failures.
    pub failure_policy: Option<Json>,
}

/// The next step for a repository's maintenance.
#[derive(Debug, Clone, PartialEq, Eq)]
pub enum MaintenanceStep {
    /// Nothing is known yet: the cache is cold.
    Skip,
    /// Apply the managed one here.
    Apply {
        /// Where to apply it.
        namespace: String,
    },
    /// Delete the managed one here, and report this whatever comes of it.
    Delete {
        /// Where it is.
        namespace: String,
        /// What to report.
        coverage: MaintenanceCoverage,
    },
    /// Report this.
    Report(MaintenanceCoverage),
}

/// What came of applying the managed `Maintenance`.
#[derive(Debug, Clone, Copy, PartialEq, Eq, Structural)]
pub enum ApplyOutcome {
    /// It was applied.
    Applied,
    /// The API server did not take it.
    Rejected,
    /// The reference to its owner could not be made.
    NoOwner,
}

/// What a cron schedule says.
pub open spec fn cron_view(c: CronSpec) -> (Seq<char>, Option<Seq<char>>, Option<Seq<char>>) {
    (c.cron@, opt_text(c.jitter), opt_text(c.timezone))
}

/// What a schedule says.
pub open spec fn schedule_view(s: MaintenanceSchedule) -> (
    (Seq<char>, Option<Seq<char>>, Option<Seq<char>>),
    (Seq<char>, Option<Seq<char>>, Option<Seq<char>>),
    Option<Seq<char>>,
) {
    (cron_view(s.quick), cron_view(s.full), opt_text(s.timezone))
}

/// What an optional piece of JSON is.
pub open spec fn json_view(o: Option<Json>) -> Option<Tree> {
    match o {
        Some(j) => Some(tree(j)),
        None => None,
    }
}

/// Whether a `Maintenance` refers to the repository.
pub open spec fn refers(
    m: Maintenance,
    kind: RepositoryKind,
    name: Seq<char>,
    namespace: Option<Seq<char>>,
) -> bool {
    resolves(
        m.repository@,
        match m.namespace {
            Some(ns) => ns@,
            None => ""@,
        },
        kind,
        name,
        namespace,
    )
}

/// Whether an owner reference is that of a controlling owner with this kind and name.
pub open spec fn controls(o: OwnerReference, owner_kind: Seq<char>, name: Seq<char>) -> bool {
    o.kind@ == owner_kind && o.name@ == name && o.controller == Some(true)
}

/// Whether the repository controls the `Maintenance`.
pub open spec fn managed(m: Maintenance, owner_kind: Seq<char>, name: Seq<char>) -> bool {
    exists|i: int|
        0 <= i < m.owner_references@.len() && controls(
            #[trigger] m.owner_references@[i],
            owner_kind,
            name,
        )
}

/// Whether one of the list is for the repository and is not the operator's.
pub open spec fn foreign_covers(
    items: Seq<Maintenance>,
    kind: RepositoryKind,
    owner_kind: Seq<char>,
    name: Seq<char>,
    namespace: Option<Seq<char>>,
) -> bool {
    exists|i: int|
        0 <= i < items.len() && refers(#[trigger] items[i], kind, name, namespace) && !managed(
            items[i],
            owner_kind,
            name,
        )
}

/// Where the last of the list stands that is for the repository and is the
/// operator's.
pub open spec fn managed_place(
    items: Seq<Maintenance>,
    kind: RepositoryKind,
    owner_kind: Seq<char>,
    name: Seq<char>,
    namespace: Option<Seq<char>>,
) -> Option<int>
    decreases items.len(),
{
    if items.len() == 0 {
        None
    } else if refers(items.last(), kind, name, namespace) && managed(
        items.last(),
        owner_kind,
        name,
    ) {
        Some(items.len() - 1)
    } else {
        managed_place(items.drop_last(), kind, owner_kind, name, namespace)
    }
}

/// What to do about the managed `Maintenance`.
pub open spec fn action_for(
    enabled: bool,
    foreign: bool,
    managed_exists: bool,
    placement_resolved: bool,
) -> MaintenanceAction {
    if enabled && !foreign {
        if placement_resolved {
            MaintenanceAction::Manage
        } else {
            MaintenanceAction::Unresolved
        }
    } else if managed_exists {
        MaintenanceAction::Unmanage
    } else {
        MaintenanceAction::Leave
    }
}

/// Whether anything covers the repository.
pub open spec fn covers(c: MaintenanceCoverage) -> bool {
    c is CoveredByForeign || c is CoveredByManaged
}

/// Whether the coverage deserves a warning.
pub open spec fn warns(c: MaintenanceCoverage) -> bool {
    c is Unresolved || c is ApplyFailed
}

/// The reason that the condition gives.
pub open spec fn coverage_reason(c: MaintenanceCoverage) -> Seq<char> {
    match c {
        MaintenanceCoverage::Unresolved => MAINTENANCE_NAMESPACE_UNRESOLVED_REASON@,
        MaintenanceCoverage::CoveredByForeign => MAINTENANCE_CONFIGURED_REASON@,
        MaintenanceCoverage::CoveredByManaged => MAINTENANCE_CONFIGURED_REASON@,
        MaintenanceCoverage::DisabledBySpec => MAINTENANCE_DISABLED_REASON@,
        MaintenanceCoverage::ApplyFailed { .. } => MAINTENANCE_APPLY_FAILED_REASON@,
    }
}

/// The message that the condition gives.
pub open spec fn coverage_message(c: MaintenanceCoverage, kind: Seq<char>, name: Seq<char>) -> Seq<
    char,
> {
    match c {
        MaintenanceCoverage::Unresolved => "managed Maintenance for "@ + kind + " "@ + name
            + " cannot be placed: set spec.maintenance.namespace, or the operator's KOPIUR_NAMESPACE, so the namespaced Maintenance CR has a home"@,
        MaintenanceCoverage::CoveredByForeign =>
        "an externally-authored Maintenance references "@ + kind + " "@ + name,
        MaintenanceCoverage::CoveredByManaged => "the operator manages a Maintenance for "@ + kind
            + " "@ + name,
        MaintenanceCoverage::DisabledBySpec => "maintenance is disabled for "@ + kind + " "@ + name
            + " (spec.maintenance.enabled: false) and no Maintenance references it; kopia storage will not be reclaimed"@,
        MaintenanceCoverage::ApplyFailed { namespace } => "maintenance is ENABLED for "@ + kind
            + " "@ + name
            + ", but the operator could not apply its managed Maintenance in namespace "@
            + namespace@
            + " and nothing else covers this repository; kopia storage will not be reclaimed until it succeeds. It retries every reconcile. Fix: check the namespace exists and the operator has RBAC to write Maintenance there; the apply error itself is in the operator log"@,
    }
}

/// The namespace in which an object with an optional namespace is looked for.
pub open spec fn namespace_or(namespace: Option<String>, fallback: Seq<char>) -> Seq<char> {
    match namespace {
        Some(ns) => ns@,
        None => fallback,
    }
}

/// Whether any `Maintenance` of the list refers to the repository.
pub fn repository_has_maintenance(
    items: &Vec<Maintenance>,
    kind: RepositoryKind,
    name: &str,
    namespace: Option<&str>,
) -> (r: bool)
    ensures
        r == exists|i: int|
            0 <= i < items@.len() && refers(#[trigger] items@[i], kind, name@, opt_str(namespace)),
{
    let mut i: usize = 0;
    while i < items.len()
        invariant
            i <= items@.len(),
            forall|j: int|
                0 <= j < i ==> !refers(#[trigger] items@[j], kind, name@, opt_str(namespace)),
        decreases items@.len() - i,
    {
        if refers_to(&items[i], kind, name, namespace) {
            assert(refers(items@[i as int], kind, name@, opt_str(namespace)));
            return true;
        }
        i += 1;
    }
    false
}

/// Whether a `Maintenance` refers to the repository.
pub fn refers_to(m: &Maintenance, kind: RepositoryKind, name: &str, namespace: Option<&str>) -> (r:
    bool)
    ensures
        r == refers(*m, kind, name@, opt_str(namespace)),
{
    let owner_ns: &str = match &m.namespace {
        Some(ns) => ns.as_str(),
        None => "",
    };
    m.repository.resolves_to(owner_ns, kind, name, namespace)
}

/// Whether a `Maintenance` is the operator's own for the repository: the
/// repository controls it.
pub fn is_managed_by(m: &Maintenance, owner_kind: &str, repo_name: &str) -> (r: bool)
    ensures
        r == managed(*m, owner_kind@, repo_name@),
{
    let mut i: usize = 0;
    while i < m.owner_references.len()
        invariant
            i <= m.owner_references@.len(),
            forall|j: int|
                0 <= j < i ==> !controls(
                    #[trigger] m.owner_references@[j],
                    owner_kind@,
                    repo_name@,
                ),
        decreases m.owner_references@.len() - i,
    {
        let o = &m.owner_references[i];
        let controlling = match o.controller {
            Some(true) => true,
            _ => false,
        };
        if controlling && same(o.kind.as_str(), owner_kind) && same(o.name.as_str(), repo_name) {
            assert(controls(m.owner_references@[i as int], owner_kind@, repo_name@));
            return true;
        }
        i += 1;
    }
    false
}

/// The `MaintenanceConfigured` condition for what was observed: its status, its
/// reason, its message, and whether it deserves a warning.
pub fn maintenance_condition(coverage: &MaintenanceCoverage, metric_kind: &str, name: &str) -> (r: (
    bool,
    &'static str,
    String,
    bool,
))
    ensures
        r.0 == covers(*coverage),
        r.1@ == coverage_reason(*coverage),
        r.2@ == coverage_message(*coverage, metric_kind@, name@),
        r.3 == warns(*coverage),
{
    match coverage {
        MaintenanceCoverage::Unresolved => {
            let mut m = "managed Maintenance for ".to_owned();
            m.append(metric_kind);
            m.append(" ");
            m.append(name);
            m.append(
                " cannot be placed: set spec.maintenance.namespace, or the operator's KOPIUR_NAMESPACE, so the namespaced Maintenance CR has a home",
            );
            (false, MAINTENANCE_NAMESPACE_UNRESOLVED_REASON, m, true)
        },
        MaintenanceCoverage::CoveredByForeign => {
            let mut m = "an externally-authored Maintenance references ".to_owned();
            m.append(metric_kind);
            m.append(" ");
            m.append(name);
            (true, MAINTENANCE_CONFIGURED_REASON, m, false)
        },
        MaintenanceCoverage::CoveredByManaged => {
            let mut m = "the operator manages a Maintenance for ".to_owned();
            m.append(metric_kind);
            m.append(" ");
            m.append(name);
            (true, MAINTENANCE_CONFIGURED_REASON, m, false)
        },
        MaintenanceCoverage::DisabledBySpec => {
            let mut m = "maintenance is disabled for ".to_owned();
            m.append(metric_kind);
            m.append(" ");
            m.append(name);
            m.append(
                " (spec.maintenance.enabled: false) and no Maintenance references it; kopia storage will not be reclaimed",
            );
            (false, MAINTENANCE_DISABLED_REASON, m, false)
        },
        MaintenanceCoverage::ApplyFailed { namespace } => {
            let mut m = "maintenance is ENABLED for ".to_owned();
            m.append(metric_kind);
            m.append(" ");
            m.append(name);
            m.append(", but the operator could not apply its managed Maintenance in namespace ");
            m.append(namespace.as_str());
            m.append(
                " and nothing else covers this repository; kopia storage will not be reclaimed until it succeeds. It retries every reconcile. Fix: check the namespace exists and the operator has RBAC to write Maintenance there; the apply error itself is in the operator log",
            );
            (false, MAINTENANCE_APPLY_FAILED_REASON, m, true)
        },
    }
}

/// The `MaintenanceConfigured` condition for what was observed.
pub open spec fn coverage_condition(
    coverage: MaintenanceCoverage,
    metric_kind: Seq<char>,
    name: Seq<char>,
    observed_generation: Option<i64>,
    now: Seq<char>,
) -> ConditionView {
    ConditionView {
        type_: MAINTENANCE_CONFIGURED_CONDITION@,
        status: status_text(covers(coverage)),
        reason: coverage_reason(coverage),
        message: coverage_message(coverage, metric_kind, name),
        observed_generation,
        last_transition_time: now,
    }
}

/// The conditions to write for what was observed; none where they are as they were,
/// so that a repository that is looked at again and again is not written to.
pub fn maintenance_conditions(
    coverage: &MaintenanceCoverage,
    metric_kind: &str,
    name: &str,
    existing: &Vec<Condition>,
    observed_generation: Option<i64>,
    now: &str,
) -> (r: Option<Vec<Condition>>)
    ensures
        ({
            let was = condition_views(existing@);
            let new = upserted(
                was,
                coverage_condition(*coverage, metric_kind@, name@, observed_generation, now@),
            );
            match r {
                Some(v) => new != was && condition_views(v@) == new,
                None => new == was,
            }
        }),
{
    let (holds, reason, message, _) = maintenance_condition(coverage, metric_kind, name);
    let conditions = upsert_condition(
        existing,
        MAINTENANCE_CONFIGURED_CONDITION,
        holds,
        reason,
        message.as_str(),
        observed_generation,
        now,
    );
    if same_conditions(&conditions, existing) {
        None
    } else {
        Some(conditions)
    }
}

/// The reason and the message of the warning to publish for what was observed. The
/// condition is what lasts, the warning marks the transition: there is one only where
/// the coverage deserves it and the conditions change.
pub fn maintenance_warning(
    coverage: &MaintenanceCoverage,
    metric_kind: &str,
    name: &str,
    existing: &Vec<Condition>,
    observed_generation: Option<i64>,
    now: &str,
) -> (r: Option<(&'static str, String)>)
    ensures
        ({
            let was = condition_views(existing@);
            let new = upserted(
                was,
                coverage_condition(*coverage, metric_kind@, name@, observed_generation, now@),
            );
            &&& r is Some <==> warns(*coverage) && new != was
            &&& r matches Some(w) ==> w.0@ == coverage_reason(*coverage) && w.1@
                == coverage_message(*coverage, metric_kind@, name@)
        }),
{
    let (_, reason, message, warn) = maintenance_condition(coverage, metric_kind, name);
    let written = maintenance_conditions(
        coverage,
        metric_kind,
        name,
        existing,
        observed_generation,
        now,
    );
    if warn && written.is_some() {
        Some((reason, message))
    } else {
        None
    }
}

/// What to do about the managed `Maintenance`: it is managed where maintenance
/// is on and no user has written one. Otherwise one that is there is removed.
pub fn maintenance_action(
    enabled: bool,
    foreign: bool,
    managed_exists: bool,
    placement_resolved: bool,
) -> (r: MaintenanceAction)
    ensures
        r == action_for(enabled, foreign, managed_exists, placement_resolved),
{
    if enabled && !foreign {
        if placement_resolved {
            MaintenanceAction::Manage
        } else {
            MaintenanceAction::Unresolved
        }
    } else if managed_exists {
        MaintenanceAction::Unmanage
    } else {
        MaintenanceAction::Leave
    }
}

/// Whether a user's `Maintenance` covers the repository, and which is the
/// operator's own.
pub fn classify_maintenance<'a>(
    items: &'a Vec<Maintenance>,
    kind: RepositoryKind,
    owner_kind: &str,
    name: &str,
    match_namespace: Option<&str>,
) -> (r: (bool, Option<&'a Maintenance>))
    ensures
        r.0 == foreign_covers(items@, kind, owner_kind@, name@, opt_str(match_namespace)),
        match managed_place(items@, kind, owner_kind@, name@, opt_str(match_namespace)) {
            Some(i) => 0 <= i < items@.len() && r.1 == Some(&items@[i]),
            None => r.1 is None,
        },
{
    let mut foreign = false;
    let mut own: Option<&'a Maintenance> = None;
    let mut i: usize = 0;
    let ghost ns = opt_str(match_namespace);
    assert(items@.take(0) =~= Seq::empty());
    while i < items.len()
        invariant
            i <= items@.len(),
            ns == opt_str(match_namespace),
            foreign == foreign_covers(items@.take(i as int), kind, owner_kind@, name@, ns),
            match managed_place(items@.take(i as int), kind, owner_kind@, name@, ns) {
                Some(j) => 0 <= j < i && own == Some(&items@[j]),
                None => own is None,
            },
        decreases items@.len() - i,
    {
        let m = &items[i];
        let ghost before = items@.take(i as int);
        let ghost after = items@.take(i + 1);
        proof {
            assert(after.drop_last() =~= before);
            assert(after.last() == items@[i as int]);
            assert(forall|j: int| 0 <= j < i ==> #[trigger] before[j] == after[j]);
            if foreign {
                let j = choose|j: int|
                    0 <= j < before.len() && refers(#[trigger] before[j], kind, name@, ns)
                        && !managed(before[j], owner_kind@, name@);
                assert(after[j] == before[j]);
                assert(foreign_covers(after, kind, owner_kind@, name@, ns));
            }
        }
        if refers_to(m, kind, name, match_namespace) {
            if is_managed_by(m, owner_kind, name) {
                own = Some(m);
            } else {
                foreign = true;
                assert(after[i as int] == *m);
            }
        }
        proof {
            if foreign_covers(after, kind, owner_kind@, name@, ns) && !foreign {
                let j = choose|j: int|
                    0 <= j < after.len() && refers(#[trigger] after[j], kind, name@, ns)
                        && !managed(after[j], owner_kind@, name@);
                assert(j < i);
                assert(before[j] == after[j]);
            }
        }
        i += 1;
    }
    assert(items@.take(i as int) =~= items@);
    (foreign, own)
}

/// Whether a user's `Maintenance` covers the repository. With a cold cache the
/// answer is no: what is not known does not hold up a bootstrap.
pub fn maintenance_covered_by_foreign(
    synced: bool,
    items: &Vec<Maintenance>,
    kind: RepositoryKind,
    owner_kind: &str,
    name: &str,
    match_namespace: Option<&str>,
) -> (r: bool)
    ensures
        r == (synced && foreign_covers(
            items@,
            kind,
            owner_kind@,
            name@,
            opt_str(match_namespace),
        )),
{
    if !synced {
        return false;
    }
    classify_maintenance(items, kind, owner_kind, name, match_namespace).0
}

/// The owner that a bootstrap stamps, which recorded owners it may write over,
/// and the owners that count as its own.
///
/// `owner` and `legacy_owner` are the owners that the repository's lease gives
/// with its cluster identity and without. Where stamping is suppressed there is no
/// owner at all. With a cluster identity only owners in this operator's own forms
/// are written over, and the owner from before the identity is the one alias.
pub fn bootstrap_maintenance_owner_plan(
    owner: &str,
    legacy_owner: &str,
    cluster: Option<&str>,
    suppress: bool,
) -> (r: (Option<String>, RestampPolicy, Vec<String>))
    ensures
        opt_text(r.0) == if suppress {
            None
        } else {
            Some(owner@)
        },
        r.1 == if !suppress && cluster is Some {
            RestampPolicy::OwnFormatsOnly
        } else {
            RestampPolicy::AnyStale
        },
        texts(r.2@) == if !suppress && cluster is Some {
            seq![legacy_owner@]
        } else {
            Seq::empty()
        },
{
    let mut aliases: Vec<String> = Vec::new();
    assert(texts(aliases@) =~= Seq::empty());
    if suppress {
        return (None, RestampPolicy::AnyStale, aliases);
    }
    match cluster {
        None => (Some(owner.to_owned()), RestampPolicy::AnyStale, aliases),
        Some(_) => {
            aliases.push(legacy_owner.to_owned());
            assert(texts(aliases@) =~= seq![legacy_owner@]);
            (Some(owner.to_owned()), RestampPolicy::OwnFormatsOnly, aliases)
        },
    }
}

/// The owner to stamp at once on a repository that this pass created. On one
/// that was there already nothing is stamped here.
pub fn in_process_create_owner_target<'a>(created: bool, desired: Option<&'a str>) -> (r: Option<
    &'a str,
>)
    ensures
        r == if created {
            desired
        } else {
            None
        },
{
    if created {
        desired
    } else {
        None
    }
}

fn copy_opt(o: &Option<String>) -> (r: Option<String>)
    ensures
        opt_text(r) == opt_text(*o),
{
    match o {
        Some(s) => Some(s.clone()),
        None => None,
    }
}

fn copy_json(o: &Option<Json>) -> (r: Option<Json>)
    ensures
        json_view(r) == json_view(*o),
{
    match o {
        Some(j) => Some(j.copy()),
        None => None,
    }
}

impl CronSpec {
    /// A copy of the schedule.
    pub fn copy(&self) -> (r: CronSpec)
        ensures
            cron_view(r) == cron_view(*self),
    {
        CronSpec {
            cron: self.cron.clone(),
            jitter: copy_opt(&self.jitter),
            timezone: copy_opt(&self.timezone),
        }
    }
}

impl MaintenanceSchedule {
    /// A copy of the schedule.
    pub fn copy(&self) -> (r: MaintenanceSchedule)
        ensures
            schedule_view(r) == schedule_view(*self),
    {
        MaintenanceSchedule {
            quick: self.quick.copy(),
            full: self.full.copy(),
            timezone: copy_opt(&self.timezone),
        }
    }
}

/// The managed `Maintenance` of a repository.
///
/// `lease` and `legacy_lease` are the leases that the repository gives with its
/// cluster identity and without. With an identity the one from before is recorded
/// as an alias, so that switching it on does not make the own lease look foreign.
pub fn build_managed_maintenance(
    kind: RepositoryKind,
    name: &str,
    placement_namespace: &str,
    spec: &RepositoryMaintenanceSpec,
    defaults: &MaintenanceDefaults,
    owner: OwnerReference,
    lease: &str,
    legacy_lease: &str,
    cluster: Option<&str>,
) -> (r: ManagedMaintenance)
    ensures
        r.name@ == name@,
        r.namespace@ == placement_namespace@,
        r.owner_reference == owner,
        r.repository@ == (RepositoryRefView { kind, name: name@, namespace: None }),
        schedule_view(r.schedule) == match spec.schedule {
            Some(s) => schedule_view(s),
            None => schedule_view(defaults.schedule),
        },
        r.owner@ == lease@,
        texts(r.owner_aliases@) == if cluster is Some {
            seq![legacy_lease@]
        } else {
            Seq::empty()
        },
        r.takeover_policy@ == match spec.takeover_policy {
            Some(p) => p@,
            None => defaults.takeover_policy@,
        },
        json_view(r.mover) == json_view(spec.mover),
        json_view(r.failure_policy) == json_view(spec.failure_policy),
{
    let mut owner_aliases: Vec<String> = Vec::new();
    assert(texts(owner_aliases@) =~= Seq::empty());
    if cluster.is_some() {
        owner_aliases.push(legacy_lease.to_owned());
        assert(texts(owner_aliases@) =~= seq![legacy_lease@]);
    }
    ManagedMaintenance {
        name: name.to_owned(),
        namespace: placement_namespace.to_owned(),
        owner_reference: owner,
        repository: RepositoryRef { kind, name: name.to_owned(), namespace: None },
        schedule: match &spec.schedule {
            Some(s) => s.copy(),
            None => defaults.schedule.copy(),
        },
        owner: lease.to_owned(),
        owner_aliases,
        takeover_policy: match &spec.takeover_policy {
            Some(p) => p.clone(),
            None => defaults.takeover_policy.clone(),
        },
        mover: copy_json(&spec.mover),
        failure_policy: copy_json(&spec.failure_policy),
    }
}

/// What is observed without a managed `Maintenance`.
pub open spec fn without_managed(foreign: bool) -> MaintenanceCoverage {
    if foreign {
        MaintenanceCoverage::CoveredByForeign
    } else {
        MaintenanceCoverage::DisabledBySpec
    }
}

/// What is observed where the operator does not manage a `Maintenance`.
pub fn coverage_without_managed(foreign: bool) -> (r: MaintenanceCoverage)
    ensures
        r == without_managed(foreign),
{
    if foreign {
        MaintenanceCoverage::CoveredByForeign
    } else {
        MaintenanceCoverage::DisabledBySpec
    }
}

/// Whether a step is the one that the repository's state calls for.
pub open spec fn step_fits(
    step: MaintenanceStep,
    enabled: bool,
    foreign: bool,
    managed_namespace: Option<Option<String>>,
    placement_namespace: Option<Seq<char>>,
    metric_namespace: Seq<char>,
) -> bool {
    match action_for(enabled, foreign, managed_namespace is Some, placement_namespace is Some) {
        MaintenanceAction::Manage => step matches MaintenanceStep::Apply { namespace }
            && Some(namespace@) == placement_namespace,
        MaintenanceAction::Unmanage => step matches MaintenanceStep::Delete { namespace, coverage }
            && namespace@ == namespace_or(managed_namespace->0, metric_namespace) && coverage
            == without_managed(foreign),
        MaintenanceAction::Unresolved => step == MaintenanceStep::Report(
            MaintenanceCoverage::Unresolved,
        ),
        MaintenanceAction::Leave => step == MaintenanceStep::Report(without_managed(foreign)),
    }
}

/// The next step for a repository's maintenance. With a cold cache there is none:
/// nothing is deleted and nothing reported on a guess.
pub fn plan_maintenance(
    synced: bool,
    enabled: bool,
    items: &Vec<Maintenance>,
    kind: RepositoryKind,
    owner_kind: &str,
    name: &str,
    match_namespace: Option<&str>,
    placement_namespace: Option<&str>,
    metric_namespace: &str,
) -> (r: MaintenanceStep)
    ensures
        !synced ==> r is Skip,
        synced ==> step_fits(
            r,
            enabled,
            foreign_covers(items@, kind, owner_kind@, name@, opt_str(match_namespace)),
            match managed_place(items@, kind, owner_kind@, name@, opt_str(match_namespace)) {
                Some(i) => Some(items@[i].namespace),
                None => None,
            },
            opt_str(placement_namespace),
            metric_namespace@,
        ),
{
    if !synced {
        return MaintenanceStep::Skip;
    }
    let (foreign, own) = classify_maintenance(items, kind, owner_kind, name, match_namespace);
    match maintenance_action(enabled, foreign, own.is_some(), placement_namespace.is_some()) {
        MaintenanceAction::Manage => match placement_namespace {
            Some(ns) => MaintenanceStep::Apply { namespace: ns.to_owned() },
            None => MaintenanceStep::Report(MaintenanceCoverage::Unresolved),
        },
        MaintenanceAction::Unmanage => {
            let at: String = match own {
                Some(m) => match &m.namespace {
                    Some(ns) => ns.clone(),
                    None => metric_namespace.to_owned(),
                },
                None => metric_namespace.to_owned(),
            };
            MaintenanceStep::Delete { namespace: at, coverage: coverage_without_managed(foreign) }
        },
        MaintenanceAction::Unresolved => MaintenanceStep::Report(MaintenanceCoverage::Unresolved),
        MaintenanceAction::Leave => MaintenanceStep::Report(coverage_without_managed(foreign)),
    }
}

/// What is observed after applying the managed `Maintenance`. One that was there
/// before still covers the repository where the API server did not take the new
/// state.
pub fn coverage_after_apply(outcome: ApplyOutcome, managed_exists: bool, namespace: &str) -> (r:
    MaintenanceCoverage)
    ensures
        if outcome == ApplyOutcome::Applied || (outcome == ApplyOutcome::Rejected
            && managed_exists) {
            r is CoveredByManaged
        } else {
            r matches MaintenanceCoverage::ApplyFailed { namespace: ns } && ns@ == namespace@
        },
{
    match outcome {
        ApplyOutcome::Applied => MaintenanceCoverage::CoveredByManaged,
        ApplyOutcome::Rejected => if managed_exists {
            MaintenanceCoverage::CoveredByManaged
        } else {
            MaintenanceCoverage::ApplyFailed { namespace: namespace.to_owned() }
        },
        ApplyOutcome::NoOwner => MaintenanceCoverage::ApplyFailed {
            namespace: namespace.to_owned(),
        },
    }
}

/// Whether anything covers the repository, which is what its gauge shows.
pub fn is_covered(coverage: &MaintenanceCoverage) -> (r: bool)
    ensures
        r == covers(*coverage),
{
    match coverage {
        MaintenanceCoverage::CoveredByForeign => true,
        MaintenanceCoverage::CoveredByManaged => true,
        _ => false,
    }
}

/// A user's `Maintenance` is never overruled: with one, nothing is applied, and
/// the repository counts as covered, whether maintenance is on or off.
pub proof fn lemma_foreign_is_honored(
    step: MaintenanceStep,
    enabled: bool,
    managed_namespace: Option<Option<String>>,
    placement_namespace: Option<Seq<char>>,
    metric_namespace: Seq<char>,
)
    requires
        step_fits(
            step,
            enabled,
            true,
            managed_namespace,
            placement_namespace,
            metric_namespace,
        ),
    ensures
        match step {
            MaintenanceStep::Report(c) => c is CoveredByForeign,
            MaintenanceStep::Delete { coverage, .. } => coverage is CoveredByForeign,
            _ => false,
        },
{
}

/// "Switched off" is reported only where it is: never of a repository whose
/// maintenance is on.
pub proof fn lemma_disabled_means_disabled(
    step: MaintenanceStep,
    enabled: bool,
    foreign: bool,
    managed_namespace: Option<Option<String>>,
    placement_namespace: Option<Seq<char>>,
    metric_namespace: Seq<char>,
)
    requires
        step_fits(
            step,
            enabled,
            foreign,
            managed_namespace,
            placement_namespace,
            metric_namespace,
        ),
        match step {
            MaintenanceStep::Report(c) => c is DisabledBySpec,
            MaintenanceStep::Delete { coverage, .. } => coverage is DisabledBySpec,
            _ => false,
        },
    ensures
        !enabled,
        !foreign,
{
}

/// Something is deleted only where a managed `Maintenance` is there and is not
/// wanted.
pub proof fn lemma_deletes_only_own(
    step: MaintenanceStep,
    enabled: bool,
    foreign: bool,
    managed_namespace: Option<Option<String>>,
    placement_namespace: Option<Seq<char>>,
    metric_namespace: Seq<char>,
)
    requires
        step_fits(
            step,
            enabled,
            foreign,
            managed_namespace,
            placement_namespace,
            metric_namespace,
        ),
        step is Delete,
    ensures
        managed_namespace is Some,
        foreign || !enabled,
{
}

/// A repository whose coverage stays is written to once, and warned of once: with the
/// conditions that were written, the same coverage at any later time changes nothing, so
/// that it calls for no other write and for no other warning.
pub proof fn lemma_steady_coverage_writes_nothing(
    existing: Seq<ConditionView>,
    coverage: MaintenanceCoverage,
    metric_kind: Seq<char>,
    name: Seq<char>,
    observed_generation: Option<i64>,
    now: Seq<char>,
    later: Seq<char>,
)
    ensures
        ({
            let first = coverage_condition(coverage, metric_kind, name, observed_generation, now);
            let again = coverage_condition(coverage, metric_kind, name, observed_generation, later);
            upserted(upserted(existing, first), again) == upserted(existing, first)
        }),
{
    let first = coverage_condition(coverage, metric_kind, name, observed_generation, now);
    let again = coverage_condition(coverage, metric_kind, name, observed_generation, later);
    lemma_upsert_settles(existing, first, later);
}

/// What is done about the managed `Maintenance`, case by case: it is managed where
/// maintenance is on, no user has written one, and there is a place for it. Where it is
/// not wanted it is removed if it is there and left alone if it is not.
pub proof fn lemma_every_action(managed_exists: bool, placed: bool)
    ensures
        action_for(true, false, managed_exists, true) == MaintenanceAction::Manage,
        action_for(true, false, managed_exists, false) == MaintenanceAction::Unresolved,
        action_for(true, true, true, placed) == MaintenanceAction::Unmanage,
        action_for(true, true, false, placed) == MaintenanceAction::Leave,
        action_for(false, true, true, placed) == MaintenanceAction::Unmanage,
        action_for(false, true, false, placed) == MaintenanceAction::Leave,
        action_for(false, false, true, placed) == MaintenanceAction::Unmanage,
        action_for(false, false, false, placed) == MaintenanceAction::Leave,
{
}

/// What each coverage comes to: only a `Maintenance` that is there covers the repository,
/// an opt-out is no reason to warn, and each state says why.
pub proof fn lemma_every_coverage(c: MaintenanceCoverage)
    ensures
        covers(c) <==> c is CoveredByForeign || c is CoveredByManaged,
        warns(c) <==> c is Unresolved || c is ApplyFailed,
        !(covers(c) && warns(c)),
        c is DisabledBySpec ==> !covers(c) && !warns(c),
        covers(c) ==> coverage_reason(c) == "MaintenanceConfigured"@,
        c is DisabledBySpec ==> coverage_reason(c) == "MaintenanceDisabled"@,
        c is Unresolved ==> coverage_reason(c) == "MaintenanceNamespaceUnresolved"@,
        c is ApplyFailed ==> coverage_reason(c) == "MaintenanceApplyFailed"@,
        without_managed(true) is CoveredByForeign,
        without_managed(false) is DisabledBySpec,
{
}

/// The condition holds where the repository is covered, and carries the reason and the
/// message of its coverage for the generation that was looked at.
pub proof fn lemma_the_condition_of_a_coverage(
    c: MaintenanceCoverage,
    kind: Seq<char>,
    name: Seq<char>,
    generation: Option<i64>,
    now: Seq<char>,
)
    ensures
        ({
            let v = coverage_condition(c, kind, name, generation, now);
            &&& v.type_ == "MaintenanceConfigured"@
            &&& v.status == if c is CoveredByForeign || c is CoveredByManaged {
                "True"@
            } else {
                "False"@
            }
            &&& v.reason == coverage_reason(c)
            &&& v.message == coverage_message(c, kind, name)
            &&& v.observed_generation == generation
            &&& v.last_transition_time == now
        }),
{
}

/// A `Maintenance` is the operator's own exactly where the repository is among its owners
/// as the one that controls it; a mere owner of that name is not enough.
pub proof fn lemma_what_is_managed(m: Maintenance, owner_kind: Seq<char>, name: Seq<char>)
    ensures
        managed(m, owner_kind, name) <==> exists|i: int|
            0 <= i < m.owner_references@.len() && (#[trigger] m.owner_references@[i]).controller
                == Some(true) && m.owner_references@[i].kind@ == owner_kind
                && m.owner_references@[i].name@ == name,
{
    if managed(m, owner_kind, name) {
        let i = choose|i: int|
            0 <= i < m.owner_references@.len() && controls(
                #[trigger] m.owner_references@[i],
                owner_kind,
                name,
            );
        assert(m.owner_references@[i].controller == Some(true));
    }
    if exists|i: int|
        0 <= i < m.owner_references@.len() && (#[trigger] m.owner_references@[i]).controller == Some(
            true,
        ) && m.owner_references@[i].kind@ == owner_kind && m.owner_references@[i].name@ == name {
        let i = choose|i: int|
            0 <= i < m.owner_references@.len() && (#[trigger] m.owner_references@[i]).controller
                == Some(true) && m.owner_references@[i].kind@ == owner_kind
                && m.owner_references@[i].name@ == name;
        assert(controls(m.owner_references@[i], owner_kind, name));
    }
}

/// Which repository a `Maintenance` is for: that of its own namespace where its reference
/// names none, and a cluster-wide one wherever it lives.
pub proof fn lemma_what_a_maintenance_refers_to(
    m: Maintenance,
    kind: RepositoryKind,
    name: Seq<char>,
    namespace: Option<Seq<char>>,
)
    ensures
        refers(m, kind, name, namespace) <==> m.repository.kind == kind && m.repository.name@ == name
            && (kind == RepositoryKind::Repository ==> namespace == Some(
            match m.repository.namespace {
                Some(ns) => ns@,
                None => match m.namespace {
                    Some(own) => own@,
                    None => ""@,
                },
            },
        )),
{
}

/// Of what is for a repository, each is a user's or the operator's own, never both; the
/// own one that counts is the last.
pub proof fn lemma_users_and_own(
    items: Seq<Maintenance>,
    kind: RepositoryKind,
    owner_kind: Seq<char>,
    name: Seq<char>,
    namespace: Option<Seq<char>>,
    i: int,
)
    requires
        0 <= i < items.len(),
        refers(items[i], kind, name, namespace),
    ensures
        !managed(items[i], owner_kind, name) ==> foreign_covers(items, kind, owner_kind, name, namespace),
        managed(items[i], owner_kind, name) ==> (managed_place(
            items,
            kind,
            owner_kind,
            name,
            namespace,
        ) matches Some(at) && i <= at < items.len()),
    decreases items.len(),
{
    if managed(items[i], owner_kind, name) {
        let front = items.drop_last();
        if i < front.len() {
            assert(front[i] == items[i]);
            lemma_users_and_own(front, kind, owner_kind, name, namespace, i);
        } else {
            assert(items.last() == items[i]);
        }
    }
}

/// What counts as a user's is for the repository and not the operator's, and what counts
/// as the operator's own is for the repository and is.
pub proof fn lemma_users_and_own_are_there(
    items: Seq<Maintenance>,
    kind: RepositoryKind,
    owner_kind: Seq<char>,
    name: Seq<char>,
    namespace: Option<Seq<char>>,
)
    ensures
        foreign_covers(items, kind, owner_kind, name, namespace) ==> exists|i: int|
            0 <= i < items.len() && refers(#[trigger] items[i], kind, name, namespace) && !managed(
                items[i],
                owner_kind,
                name,
            ),
        managed_place(items, kind, owner_kind, name, namespace) matches Some(at) ==> 0 <= at
            < items.len() && refers(items[at], kind, name, namespace) && managed(
            items[at],
            owner_kind,
            name,
        ),
    decreases items.len(),
{
    if items.len() > 0 {
        lemma_users_and_own_are_there(items.drop_last(), kind, owner_kind, name, namespace);
    }
}

/// What is done about a repository's maintenance, in full: where it is applied, what is
/// deleted and from where, and what is reported without doing anything.
pub proof fn lemma_every_step(
    step: MaintenanceStep,
    enabled: bool,
    foreign: bool,
    managed_namespace: Option<Option<String>>,
    placement_namespace: Option<Seq<char>>,
    metric_namespace: Seq<char>,
)
    requires
        step_fits(
            step,
            enabled,
            foreign,
            managed_namespace,
            placement_namespace,
            metric_namespace,
        ),
    ensures
        step !is Skip,
        step is Apply <==> enabled && !foreign && placement_namespace is Some,
        step is Delete <==> (!enabled || foreign) && managed_namespace is Some,
        step matches MaintenanceStep::Apply { namespace } ==> Some(namespace@) == placement_namespace,
        step matches MaintenanceStep::Delete { namespace, coverage } ==> namespace@ == (
        match managed_namespace->0 {
            Some(ns) => ns@,
            None => metric_namespace,
        }) && (foreign ==> coverage is CoveredByForeign) && (!foreign ==> coverage is DisabledBySpec),
        step matches MaintenanceStep::Report(c) ==> {
            &&& c is Unresolved <==> enabled && !foreign
            &&& c is CoveredByForeign <==> foreign
            &&& c is DisabledBySpec <==> !enabled && !foreign
        },
{
}

/// A copy of a schedule says what the schedule says, each part for itself.
pub proof fn lemma_schedules_say_the_same(a: MaintenanceSchedule, b: MaintenanceSchedule)
    requires
        schedule_view(a) == schedule_view(b),
    ensures
        a.quick.cron@ == b.quick.cron@,
        a.full.cron@ == b.full.cron@,
        opt_text(a.quick.jitter) == opt_text(b.quick.jitter),
        opt_text(a.full.jitter) == opt_text(b.full.jitter),
        opt_text(a.quick.timezone) == opt_text(b.quick.timezone),
        opt_text(a.full.timezone) == opt_text(b.full.timezone),
        opt_text(a.timezone) == opt_text(b.timezone),
{
}

/// What the message of a coverage tells: which repository it is about, and where a managed
/// `Maintenance` could not be applied.
pub proof fn lemma_what_coverage_messages_tell(
    kind: Seq<char>,
    name: Seq<char>,
    namespace: String,
)
    ensures
        coverage_message(MaintenanceCoverage::CoveredByForeign, kind, name)
            == "an externally-authored Maintenance references "@ + kind + " "@ + name,
        coverage_message(MaintenanceCoverage::CoveredByManaged, kind, name)
            == "the operator manages a Maintenance for "@ + kind + " "@ + name,
        holds_text(
            coverage_message(MaintenanceCoverage::Unresolved, kind, name),
            "managed Maintenance for "@ + kind + " "@ + name,
        ),
        holds_text(
            coverage_message(MaintenanceCoverage::DisabledBySpec, kind, name),
            "maintenance is disabled for "@ + kind + " "@ + name,
        ),
        holds_text(
            coverage_message(MaintenanceCoverage::ApplyFailed { namespace }, kind, name),
            "maintenance is ENABLED for "@ + kind + " "@ + name,
        ),
        holds_text(
            coverage_message(MaintenanceCoverage::ApplyFailed { namespace }, kind, name),
            namespace@,
        ),
{
    broadcast use lemma_holds_end, lemma_holds_on, lemma_holds_itself;

}

} // verus!
