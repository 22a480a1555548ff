//! What a run has to know about its repository.
use vstd::prelude::*;
use vstd::string::*;
use vstd::utf8::*;

use crate::clock::{Moment, age_at, in_rfc3339, later, later_of, parsed_moment, rfc3339_text};
use crate::consts::{BACKEND_REACHABLE_CONDITION, REVERIFY_REQUESTED_ANNOTATION};
use crate::error::Error;
use crate::io::apply::{Json, RepositoryPhase};
use crate::io::conditions::{Condition, ConditionView, condition_views, lemma_place_of, place_of};
use crate::io::creds::{CredsSecretRef, MAX_CREDS_IDX};
use crate::io::maintenance::{Maintenance, RunStatus, namespace_or, refers, refers_to};
use crate::io::meta::OwnerReference;
use crate::naming::{RepositoryKind, RepositoryRef, RepositoryRefView};
use crate::strmap::{StringMap, lookup, value_of};
use crate::text::{opt_str, opt_text, or_empty, same, same_opt, texts};

verus! {

/// The key of a repository's password where none is given.
pub const DEFAULT_PASSWORD_KEY: &'static str = "KOPIA_PASSWORD";

/// The age of what is not known to have happened.
pub const UNKNOWN_AGE: i64 = 0x7fff_ffff_ffff_ffff;

/// Seconds that have to pass between two requests to probe a repository.
pub const REVERIFY_MIN_INTERVAL: i64 = 60;

/// A reference to a key of a Secret.
#[derive(Debug, Clone, PartialEq, Eq)]
pub struct SecretKeyRef {
    /// The Secret's name.
    pub name: String,
    /// Its namespace, where one is given.
    pub namespace: Option<String>,
    /// The key, where one is given.
    pub key: Option<String>,
}

/// A reference to a Secret.
#[derive(Debug, Clone, PartialEq, Eq)]
pub struct SecretRef {
    /// The Secret's name.
    pub name: String,
    /// Its namespace, where one is given.
    pub namespace: Option<String>,
}

/// How a repository is encrypted.
#[derive(Debug, Clone, PartialEq, Eq)]
pub struct Encryption {
    /// Where its password is.
    pub password_secret_ref: SecretKeyRef,
}

/// Where a repository is stored.
#[derive(Debug, PartialEq, Eq)]
pub struct Backend {
    /// The Secret that it is accessed with, where there is one.
    pub auth_secret_ref: Option<SecretRef>,
    /// Its configuration.
    pub config: Json,
}

/// What becomes of a namespace's snapshots when it is deleted.
#[derive(Debug, Clone, Copy, PartialEq, Eq, Structural)]
pub enum NamespaceDeletePolicy {
    /// They stay.
    Orphan,
    /// They go.
    Delete,
}

/// How a repository may be used.
#[derive(Debug, Clone, Copy, PartialEq, Eq, Structural)]
pub enum RepositoryMode {
    /// To read and write.
    ReadWrite,
    /// To read.
    ReadOnly,
}

/// What a repository of either kind asks for.
#[derive(Debug, PartialEq, Eq)]
pub struct RepositorySpec {
    /// Where it is stored.
    pub backend: Backend,
    /// How it is encrypted.
    pub encryption: Encryption,
    /// What its movers start from.
    pub mover_defaults: Option<Json>,
    /// What the identities of its consumers start from.
    pub identity_defaults: Option<Json>,
    /// What becomes of a deleted namespace's snapshots.
    pub on_namespace_delete: NamespaceDeletePolicy,
    /// Whether its credentials may be copied.
    pub credential_projection_allowed: Option<bool>,
    /// How it may be used.
    pub mode: RepositoryMode,
}

/// What a run has to know about its repository.
#[derive(Debug, PartialEq, Eq)]
pub struct ResolvedRepository {
    /// Where it is stored.
    pub backend: Backend,
    /// How it is encrypted.
    pub encryption: Encryption,
    /// Its namespace; a cluster-wide repository has none.
    pub repo_namespace: Option<String>,
    /// What its movers start from.
    pub mover_defaults: Option<Json>,
    /// What the identities of its consumers start from.
    pub identity_defaults: Option<Json>,
    /// What becomes of a deleted namespace's snapshots.
    pub on_namespace_delete: NamespaceDeletePolicy,
    /// Whether its credentials may be copied.
    pub credential_projection_allowed: bool,
    /// How it may be used.
    pub mode: RepositoryMode,
    /// The reference to the repository as an owner.
    pub owner_ref: OwnerReference,
}

/// Where a repository's password is.
#[derive(Debug, Clone, PartialEq, Eq)]
pub struct RepoCredentials {
    /// The Secret's name.
    pub secret_name: String,
    /// The key of the password.
    pub password_key: String,
    /// The Secret's namespace, where one is given.
    pub namespace: Option<String>,
}

/// Where a repository is looked up.
#[derive(Debug, Clone, PartialEq, Eq)]
pub enum RepoLookup {
    /// In a namespace.
    Namespaced {
        /// The namespace.
        namespace: String,
        /// The repository's name.
        name: String,
    },
    /// In the whole cluster.
    Cluster {
        /// The repository's name.
        name: String,
    },
}

/// What is known of a repository's storage.
#[derive(Debug, Clone, Copy, PartialEq, Eq, Structural)]
pub struct StorageStats {
    /// How many snapshots it holds.
    pub snapshot_count: Option<i64>,
    /// How many index blobs it holds.
    pub index_blob_count: Option<i64>,
    /// How many bytes it takes.
    pub total_size_bytes: Option<i64>,
}

/// What the probes of a repository found.
#[derive(Debug, Clone, PartialEq, Eq)]
pub struct RepositoryHealthStatus {
    /// When it was last healthy.
    pub last_healthy_at: Option<String>,
    /// How many probes have failed in a row.
    pub consecutive_probe_failures: Option<i64>,
    /// When the first of them failed.
    pub first_failure_at: Option<String>,
}

/// The status of a repository of either kind.
#[derive(Debug, Clone, PartialEq, Eq)]
pub struct RepositoryStatus {
    /// Its phase.
    pub phase: Option<RepositoryPhase>,
    /// Its conditions.
    pub conditions: Vec<Condition>,
    /// What is known of its storage.
    pub storage_stats: Option<StorageStats>,
    /// What its probes found.
    pub health: Option<RepositoryHealthStatus>,
    /// When it was last verified.
    pub last_reverify_at: Option<String>,
}

/// What checks before a backup are made on.
#[derive(Debug, Clone, PartialEq, Eq)]
pub struct PreflightInputs {
    /// The repository's phase.
    pub repository_phase: String,
    /// Whether the repository is usable.
    pub repository_ready: bool,
    /// Whether nothing says that the backend is down.
    pub backend_reachable: bool,
    /// Whether the number of snapshots is known.
    pub snapshot_count_known: bool,
    /// The number of snapshots.
    pub snapshot_count: i64,
    /// Whether the number of index blobs is known.
    pub index_blob_count_known: bool,
    /// The number of index blobs.
    pub index_blob_count: i64,
    /// Whether the size is known.
    pub size_bytes_known: bool,
    /// The size.
    pub size_bytes: i64,
    /// Whether the repository is known to have been healthy.
    pub last_healthy_known: bool,
    /// How long ago that was.
    pub last_healthy_age_seconds: i64,
    /// Whether the repository is known to have been verified.
    pub last_reverify_known: bool,
    /// How long ago that was.
    pub last_reverify_age_seconds: i64,
    /// Whether maintenance is known to have run.
    pub maintenance_has_run: bool,
    /// How long ago that was.
    pub maintenance_last_success_age_seconds: i64,
}

/// What a lookup says.
pub enum RepoLookupView {
    /// In a namespace.
    Namespaced(Seq<char>, Seq<char>),
    /// In the whole cluster.
    Cluster(Seq<char>),
}

impl View for RepoLookup {
    type V = RepoLookupView;

    open spec fn view(&self) -> RepoLookupView {
        match self {
            RepoLookup::Namespaced { namespace, name } => RepoLookupView::Namespaced(
                namespace@,
                name@,
            ),
            RepoLookup::Cluster { name } => RepoLookupView::Cluster(name@),
        }
    }
}

/// Where a reference is looked up, from a given namespace.
pub open spec fn lookup_of(r: RepositoryRefView, default_ns: Seq<char>) -> RepoLookupView {
    match r.kind {
        RepositoryKind::Repository => RepoLookupView::Namespaced(
            match r.namespace {
                Some(ns) => ns,
                None => default_ns,
            },
            r.name,
        ),
        RepositoryKind::ClusterRepository => RepoLookupView::Cluster(r.name),
    }
}

/// What is missing where a lookup finds nothing.
pub open spec fn missing_repository(lookup: RepoLookupView) -> Seq<char> {
    match lookup {
        RepoLookupView::Namespaced(namespace, name) => "Repository "@ + namespace + "/"@ + name,
        RepoLookupView::Cluster(name) => "ClusterRepository "@ + name,
    }
}

/// The text of a phase.
pub open spec fn phase_text(p: RepositoryPhase) -> Seq<char> {
    match p {
        RepositoryPhase::Pending => "Pending"@,
        RepositoryPhase::Initializing => "Initializing"@,
        RepositoryPhase::Ready => "Ready"@,
        RepositoryPhase::Degraded => "Degraded"@,
        RepositoryPhase::Failed => "Failed"@,
        RepositoryPhase::Unknown(s) => s@,
    }
}

/// Whether the age of what an optional timestamp stands for is known, and the age.
pub open spec fn known_age(ts: Option<Seq<char>>, now: Moment) -> (bool, i64) {
    match ts {
        Some(text) => match parsed_moment(text) {
            Some(t) => (true, age_at(now, t)),
            None => (false, UNKNOWN_AGE),
        },
        None => (false, UNKNOWN_AGE),
    }
}

/// Whether a count is known, and the count.
pub open spec fn known_count(o: Option<i64>) -> (bool, i64) {
    match o {
        Some(n) => (true, n),
        None => (false, UNKNOWN_AGE),
    }
}

/// Whether nothing says that the backend is down: the first condition about it,
/// where there is one, is true.
pub open spec fn reachable(conditions: Seq<ConditionView>) -> bool {
    let at = place_of(conditions, BACKEND_REACHABLE_CONDITION@);
    at < conditions.len() ==> conditions[at].status == "True"@
}

/// When an optional timestamp says that something happened.
pub open spec fn stamp(ts: Option<String>) -> Option<Moment> {
    match ts {
        Some(s) => parsed_moment(s@),
        None => None,
    }
}

/// The latest success that a run's status tells of.
pub open spec fn latest_run(run: Option<RunStatus>) -> Option<Moment> {
    match run {
        Some(r) => later_of(stamp(r.last_run_at), stamp(r.last_handled_at)),
        None => None,
    }
}

/// The latest success that a `Maintenance` tells of.
pub open spec fn latest_success(m: Maintenance) -> Option<Moment> {
    match m.status {
        Some(st) => later_of(latest_run(st.full), latest_run(st.quick)),
        None => None,
    }
}

/// The latest success that any `Maintenance` of the repository tells of.
pub open spec fn latest_maintenance(
    items: Seq<Maintenance>,
    kind: RepositoryKind,
    name: Seq<char>,
    namespace: Option<Seq<char>>,
) -> Option<Moment>
    decreases items.len(),
{
    if items.len() == 0 {
        None
    } else {
        let before = latest_maintenance(items.drop_last(), kind, name, namespace);
        if refers(items.last(), kind, name, namespace) {
            later_of(before, latest_success(items.last()))
        } else {
            before
        }
    }
}

/// Whether maintenance is known to have run, and how long ago.
pub open spec fn recency(newest: Option<Moment>, now: Moment) -> (bool, i64) {
    match newest {
        Some(t) => (true, age_at(now, t)),
        None => (false, UNKNOWN_AGE),
    }
}

/// A reference to a Secret, with a namespace to fall back on.
pub open spec fn ref_view(r: CredsSecretRef) -> (Seq<char>, Option<Seq<char>>) {
    (r.name@, opt_text(r.namespace))
}

/// References to Secrets.
pub open spec fn ref_views(v: Seq<CredsSecretRef>) -> Seq<(Seq<char>, Option<Seq<char>>)> {
    v.map_values(|r: CredsSecretRef| ref_view(r))
}

/// A namespace, or the one to fall back on.
pub open spec fn or_fallback(namespace: Option<Seq<char>>, fallback: Option<Seq<char>>) -> Option<
    Seq<char>,
> {
    if namespace is Some {
        namespace
    } else {
        fallback
    }
}

/// The Secrets that a mover of the repository loads: that of the password, and
/// that of the backend where it has another name.
pub open spec fn secret_refs(
    auth: Option<SecretRef>,
    password: SecretKeyRef,
    repo_namespace: Option<Seq<char>>,
) -> Seq<(Seq<char>, Option<Seq<char>>)> {
    let first = (password.name@, or_fallback(opt_text(password.namespace), repo_namespace));
    match auth {
        Some(a) => if a.name@ != password.name@ {
            seq![first, (a.name@, or_fallback(opt_text(a.namespace), repo_namespace))]
        } else {
            seq![first]
        },
        None => seq![first],
    }
}

fn copy_opt(o: &Option<String>) -> (r: Option<String>)
    ensures
        opt_text(r) == opt_text(*o),
{
    match o {
        Some(s) => Some(s.clone()),
        None => None,
    }
}

fn as_str_opt(o: &Option<String>) -> (r: Option<&str>)
    ensures
        opt_str(r) == opt_text(*o),
{
    match o {
        Some(s) => Some(s.as_str()),
        None => None,
    }
}

/// Where a reference is looked up. A namespaced one falls back on `default_ns`,
/// a cluster-wide one has no use for a namespace.
pub fn repo_lookup(repo_ref: &RepositoryRef, default_ns: &str) -> (r: RepoLookup)
    ensures
        r@ == lookup_of(repo_ref@, default_ns@),
{
    match repo_ref.kind {
        RepositoryKind::Repository => RepoLookup::Namespaced {
            namespace: match &repo_ref.namespace {
                Some(ns) => ns.clone(),
                None => default_ns.to_owned(),
            },
            name: repo_ref.name.clone(),
        },
        RepositoryKind::ClusterRepository => RepoLookup::Cluster { name: repo_ref.name.clone() },
    }
}

/// The error where a lookup finds nothing.
pub fn missing_repository_error(lookup: &RepoLookup) -> (r: Error)
    ensures
        r is MissingDependency,
        r.text() == missing_repository(lookup@),
{
    match lookup {
        RepoLookup::Namespaced { namespace, name } => {
            let mut m = "Repository ".to_owned();
            m.append(namespace.as_str());
            m.append("/");
            m.append(name.as_str());
            Error::MissingDependency(m)
        },
        RepoLookup::Cluster { name } => {
            let mut m = "ClusterRepository ".to_owned();
            m.append(name.as_str());
            Error::MissingDependency(m)
        },
    }
}

/// What a run has to know about its repository, from what a lookup found and
/// the reference to it as an owner. A namespaced repository has no defaults for
/// identities, and its credentials are never copied.
pub fn resolve_found(lookup: &RepoLookup, found: Option<(RepositorySpec, OwnerReference)>) -> (r:
    Result<ResolvedRepository, Error>)
    ensures
        match (found, r) {
            (None, Err(e)) => e is MissingDependency && e.text() == missing_repository(lookup@),
            (Some((spec, owner)), Ok(res)) => {
                &&& res.backend == spec.backend
                &&& res.encryption == spec.encryption
                &&& res.mover_defaults == spec.mover_defaults
                &&& res.on_namespace_delete == spec.on_namespace_delete
                &&& res.mode == spec.mode
                &&& res.owner_ref == owner
                &&& match lookup@ {
                    RepoLookupView::Namespaced(ns, _) => opt_text(res.repo_namespace) == Some(ns)
                        && res.identity_defaults is None && !res.credential_projection_allowed,
                    RepoLookupView::Cluster(_) => res.repo_namespace is None
                        && res.identity_defaults == spec.identity_defaults
                        && res.credential_projection_allowed == (spec.credential_projection_allowed
                        == Some(true)),
                }
            },
            _ => false,
        },
{
    let (spec, owner_ref) = match found {
        Some(f) => f,
        None => {
            return Err(missing_repository_error(lookup));
        },
    };
    let cluster_wide = match lookup {
        RepoLookup::Namespaced { .. } => false,
        RepoLookup::Cluster { .. } => true,
    };
    let allowed = match spec.credential_projection_allowed {
        Some(true) => true,
        _ => false,
    };
    Ok(
        ResolvedRepository {
            backend: spec.backend,
            encryption: spec.encryption,
            repo_namespace: match lookup {
                RepoLookup::Namespaced { namespace, .. } => Some(namespace.clone()),
                RepoLookup::Cluster { .. } => None,
            },
            mover_defaults: spec.mover_defaults,
            identity_defaults: if cluster_wide {
                spec.identity_defaults
            } else {
                None
            },
            on_namespace_delete: spec.on_namespace_delete,
            credential_projection_allowed: cluster_wide && allowed,
            mode: spec.mode,
            owner_ref,
        },
    )
}

/// Whether a phase is that of a usable repository.
pub fn phase_is_ready(phase: Option<&RepositoryPhase>) -> (r: bool)
    ensures
        r == (phase matches Some(p) && p is Ready),
{
    match phase {
        Some(RepositoryPhase::Ready) => true,
        _ => false,
    }
}

/// Whether the repository is usable, from the phase of what a lookup found.
pub fn repository_ready(lookup: &RepoLookup, found: Option<Option<&RepositoryPhase>>) -> (r: Result<
    bool,
    Error,
>)
    ensures
        match (found, r) {
            (None, Err(e)) => e is MissingDependency && e.text() == missing_repository(lookup@),
            (Some(phase), Ok(ready)) => ready == (phase matches Some(p) && p is Ready),
            _ => false,
        },
{
    match found {
        None => Err(missing_repository_error(lookup)),
        Some(phase) => Ok(phase_is_ready(phase)),
    }
}

/// Whether the age of what a timestamp stands for is known, and the age: none
/// where it lies ahead, and the unknown one where the timestamp cannot be read.
pub fn age_seconds(ts: Option<&str>, now: Moment) -> (r: (bool, i64))
    requires
        now.valid(),
    ensures
        r == known_age(opt_str(ts), now),
{
    match ts {
        None => (false, UNKNOWN_AGE),
        Some(text) => match Moment::parse_rfc3339(text) {
            Some(t) => (true, now.age_of(t)),
            None => (false, UNKNOWN_AGE),
        },
    }
}

fn split_count(o: Option<i64>) -> (r: (bool, i64))
    ensures
        r == known_count(o),
{
    match o {
        Some(n) => (true, n),
        None => (false, UNKNOWN_AGE),
    }
}

/// The text of a phase.
pub fn phase_label(p: &RepositoryPhase) -> (r: String)
    ensures
        r@ == phase_text(*p),
{
    match p {
        RepositoryPhase::Pending => "Pending".to_owned(),
        RepositoryPhase::Initializing => "Initializing".to_owned(),
        RepositoryPhase::Ready => "Ready".to_owned(),
        RepositoryPhase::Degraded => "Degraded".to_owned(),
        RepositoryPhase::Failed => "Failed".to_owned(),
        RepositoryPhase::Unknown(s) => s.clone(),
    }
}

fn backend_is_reachable(conditions: &Vec<Condition>) -> (r: bool)
    ensures
        r == reachable(condition_views(conditions@)),
{
    let ghost views = condition_views(conditions@);
    let mut i: usize = 0;
    assert(views.skip(0) =~= views);
    while i < conditions.len()
        invariant
            i <= conditions@.len(),
            views == condition_views(conditions@),
            place_of(views, BACKEND_REACHABLE_CONDITION@) == i + place_of(
                views.skip(i as int),
                BACKEND_REACHABLE_CONDITION@,
            ),
        decreases conditions@.len() - i,
    {
        assert(views.skip(i as int).first() == conditions@[i as int]@);
        if same(conditions[i].type_.as_str(), BACKEND_REACHABLE_CONDITION) {
            return same(conditions[i].status.as_str(), "True");
        }
        assert(views.skip(i as int).drop_first() =~= views.skip(i + 1));
        i += 1;
    }
    true
}

/// The part of the checks' inputs that a repository's status gives. What it says
/// of maintenance is left as not known.
pub fn repo_status_to_inputs(
    phase: Option<&RepositoryPhase>,
    conditions: &Vec<Condition>,
    storage: Option<StorageStats>,
    health: Option<&RepositoryHealthStatus>,
    last_reverify_at: Option<&str>,
    now: Moment,
) -> (r: PreflightInputs)
    requires
        now.valid(),
    ensures
        r.repository_phase@ == match phase {
            Some(p) => phase_text(*p),
            None => ""@,
        },
        r.repository_ready == (phase matches Some(p) && p is Ready),
        r.backend_reachable == reachable(condition_views(conditions@)),
        (r.snapshot_count_known, r.snapshot_count) == known_count(
            match storage {
                Some(s) => s.snapshot_count,
                None => None,
            },
        ),
        (r.index_blob_count_known, r.index_blob_count) == known_count(
            match storage {
                Some(s) => s.index_blob_count,
                None => None,
            },
        ),
        (r.size_bytes_known, r.size_bytes) == known_count(
            match storage {
                Some(s) => s.total_size_bytes,
                None => None,
            },
        ),
        (r.last_healthy_known, r.last_healthy_age_seconds) == known_age(
            match health {
                Some(h) => opt_text(h.last_healthy_at),
                None => None,
            },
            now,
        ),
        (r.last_reverify_known, r.last_reverify_age_seconds) == known_age(
            opt_str(last_reverify_at),
            now,
        ),
        !r.maintenance_has_run,
        r.maintenance_last_success_age_seconds == UNKNOWN_AGE,
{
    let healthy_at: Option<&str> = match health {
        Some(h) => as_str_opt(&h.last_healthy_at),
        None => None,
    };
    let (last_healthy_known, last_healthy_age_seconds) = age_seconds(healthy_at, now);
    let (last_reverify_known, last_reverify_age_seconds) = age_seconds(last_reverify_at, now);
    let (snapshots, blobs, size): (Option<i64>, Option<i64>, Option<i64>) = match storage {
        Some(s) => (s.snapshot_count, s.index_blob_count, s.total_size_bytes),
        None => (None, None, None),
    };
    let (snapshot_count_known, snapshot_count) = split_count(snapshots);
    let (index_blob_count_known, index_blob_count) = split_count(blobs);
    let (size_bytes_known, size_bytes) = split_count(size);
    PreflightInputs {
        repository_phase: match phase {
            Some(p) => phase_label(p),
            None => "".to_owned(),
        },
        repository_ready: phase_is_ready(phase),
        backend_reachable: backend_is_reachable(conditions),
        snapshot_count_known,
        snapshot_count,
        index_blob_count_known,
        index_blob_count,
        size_bytes_known,
        size_bytes,
        last_healthy_known,
        last_healthy_age_seconds,
        last_reverify_known,
        last_reverify_age_seconds,
        maintenance_has_run: false,
        maintenance_last_success_age_seconds: UNKNOWN_AGE,
    }
}

fn read_stamp(ts: &Option<String>) -> (r: Option<Moment>)
    ensures
        r == stamp(*ts),
        r matches Some(m) ==> m.valid(),
{
    match ts {
        Some(s) => Moment::parse_rfc3339(s.as_str()),
        None => None,
    }
}

fn read_run(run: &Option<RunStatus>) -> (r: Option<Moment>)
    ensures
        r == latest_run(*run),
        r matches Some(m) ==> m.valid(),
{
    match run {
        Some(r) => later(read_stamp(&r.last_run_at), read_stamp(&r.last_handled_at)),
        None => None,
    }
}

/// Whether maintenance of the repository is known to have succeeded, and how
/// long ago: the latest that any `Maintenance` of it tells of, full or quick,
/// scheduled or requested.
pub fn maintenance_recency(
    items: &Vec<Maintenance>,
    kind: RepositoryKind,
    name: &str,
    match_namespace: Option<&str>,
    now: Moment,
) -> (r: (bool, i64))
    requires
        now.valid(),
    ensures
        r == recency(latest_maintenance(items@, kind, name@, opt_str(match_namespace)), now),
{
    let mut newest: Option<Moment> = None;
    let mut i: usize = 0;
    let ghost ns = opt_str(match_namespace);
    assert(items@.take(0) =~= Seq::empty());
    while i < items.len()
        invariant
            i <= items@.len(),
            ns == opt_str(match_namespace),
            newest == latest_maintenance(items@.take(i as int), kind, name@, ns),
            newest matches Some(m) ==> m.valid(),
        decreases items@.len() - i,
    {
        assert(items@.take(i + 1).drop_last() =~= items@.take(i as int));
        let m = &items[i];
        if refers_to(m, kind, name, match_namespace) {
            let success: Option<Moment> = match &m.status {
                Some(st) => later(read_run(&st.full), read_run(&st.quick)),
                None => None,
            };
            newest = later(newest, success);
        }
        i += 1;
    }
    assert(items@.take(i as int) =~= items@);
    match newest {
        Some(t) => (true, now.age_of(t)),
        None => (false, UNKNOWN_AGE),
    }
}

/// The inputs of the checks before a backup and whether the repository is
/// usable, from the status of what a lookup found and the known maintenances.
pub fn gather_preflight_inputs(
    lookup: &RepoLookup,
    found: Option<Option<&RepositoryStatus>>,
    items: &Vec<Maintenance>,
    now: Moment,
) -> (r: Result<(PreflightInputs, bool), Error>)
    requires
        now.valid(),
    ensures
        match (found, r) {
            (None, Err(e)) => e is MissingDependency && e.text() == missing_repository(lookup@),
            (Some(status), Ok((inputs, ready))) => {
                let phase = match status {
                    Some(s) => s.phase,
                    None => None,
                };
                &&& ready == (phase matches Some(p) && p is Ready)
                &&& inputs.repository_ready == ready
                &&& inputs.repository_phase@ == match phase {
                    Some(p) => phase_text(p),
                    None => ""@,
                }
                &&& inputs.backend_reachable == match status {
                    Some(s) => reachable(condition_views(s.conditions@)),
                    None => true,
                }
                &&& (inputs.last_healthy_known, inputs.last_healthy_age_seconds) == known_age(
                    match status {
                        Some(s) => match s.health {
                            Some(h) => opt_text(h.last_healthy_at),
                            None => None,
                        },
                        None => None,
                    },
                    now,
                )
                &&& (inputs.last_reverify_known, inputs.last_reverify_age_seconds) == known_age(
                    match status {
                        Some(s) => opt_text(s.last_reverify_at),
                        None => None,
                    },
                    now,
                )
                &&& (inputs.snapshot_count_known, inputs.snapshot_count) == known_count(
                    match status {
                        Some(s) => match s.storage_stats {
                            Some(st) => st.snapshot_count,
                            None => None,
                        },
                        None => None,
                    },
                )
                &&& (inputs.index_blob_count_known, inputs.index_blob_count) == known_count(
                    match status {
                        Some(s) => match s.storage_stats {
                            Some(st) => st.index_blob_count,
                            None => None,
                        },
                        None => None,
                    },
                )
                &&& (inputs.size_bytes_known, inputs.size_bytes) == known_count(
                    match status {
                        Some(s) => match s.storage_stats {
                            Some(st) => st.total_size_bytes,
                            None => None,
                        },
                        None => None,
                    },
                )
                &&& (inputs.maintenance_has_run, inputs.maintenance_last_success_age_seconds)
                    == recency(
                    match lookup@ {
                        RepoLookupView::Namespaced(ns, name) => latest_maintenance(
                            items@,
                            RepositoryKind::Repository,
                            name,
                            Some(ns),
                        ),
                        RepoLookupView::Cluster(name) => latest_maintenance(
                            items@,
                            RepositoryKind::ClusterRepository,
                            name,
                            None,
                        ),
                    },
                    now,
                )
            },
            _ => false,
        },
{
    let status = match found {
        Some(s) => s,
        None => {
            return Err(missing_repository_error(lookup));
        },
    };
    let none: Vec<Condition> = Vec::new();
    assert(condition_views(none@) =~= Seq::empty());
    let mut inputs = match status {
        Some(s) => repo_status_to_inputs(
            s.phase.as_ref(),
            &s.conditions,
            s.storage_stats,
            s.health.as_ref(),
            as_str_opt(&s.last_reverify_at),
            now,
        ),
        None => repo_status_to_inputs(None, &none, None, None, None, now),
    };
    let (has_run, age) = match lookup {
        RepoLookup::Namespaced { namespace, name } => maintenance_recency(
            items,
            RepositoryKind::Repository,
            name.as_str(),
            Some(namespace.as_str()),
            now,
        ),
        RepoLookup::Cluster { name } => maintenance_recency(
            items,
            RepositoryKind::ClusterRepository,
            name.as_str(),
            None,
            now,
        ),
    };
    inputs.maintenance_has_run = has_run;
    inputs.maintenance_last_success_age_seconds = age;
    let ready = inputs.repository_ready;
    Ok((inputs, ready))
}

/// When the repository was last asked to be probed again, as its annotations say:
/// the text by which to judge whether another request is due.
pub fn last_reverify_request(annotations: Option<&StringMap>) -> (r: Option<&String>)
    ensures
        match r {
            Some(text) => Some(text@),
            None => None,
        } == match annotations {
            Some(m) => value_of(m@, REVERIFY_REQUESTED_ANNOTATION@),
            None => None,
        },
{
    lookup(annotations, REVERIFY_REQUESTED_ANNOTATION)
}

/// The stamp that asks for the repository to be probed again, where it is to be
/// asked: the repository is there and usable, and a request is due.
pub fn request_repository_reverify(
    found: Option<Option<&RepositoryPhase>>,
    due: bool,
    now: Moment,
) -> (r: Option<String>)
    requires
        now.valid(),
    ensures
        opt_text(r) == if (found matches Some(Some(p)) && p is Ready) && due {
            Some(rfc3339_text(now.secs, now.nanos))
        } else {
            None
        },
        r is Some && in_rfc3339(now.secs as int) ==> now.reads_back(),
{
    let ready = match found {
        Some(phase) => phase_is_ready(phase),
        None => false,
    };
    if ready && due {
        Some(now.to_rfc3339())
    } else {
        None
    }
}

/// Whether a namespace is going away, from whether it carries a time of deletion
/// and what its phase is. One that is not there is gone.
pub fn namespace_is_terminating(found: Option<(bool, Option<&str>)>) -> (r: bool)
    ensures
        r == match found {
            None => true,
            Some((deleted, phase)) => deleted || opt_str(phase) == Some("Terminating"@),
        },
{
    match found {
        None => true,
        Some((deleted, phase)) => deleted || same_opt(phase, Some("Terminating")),
    }
}

/// Where a repository's password is.
pub fn repo_credentials(enc: &Encryption) -> (r: RepoCredentials)
    ensures
        r.secret_name@ == enc.password_secret_ref.name@,
        r.password_key@ == match enc.password_secret_ref.key {
            Some(k) => k@,
            None => DEFAULT_PASSWORD_KEY@,
        },
        opt_text(r.namespace) == opt_text(enc.password_secret_ref.namespace),
{
    let p = &enc.password_secret_ref;
    RepoCredentials {
        secret_name: p.name.clone(),
        password_key: match &p.key {
            Some(k) => k.clone(),
            None => DEFAULT_PASSWORD_KEY.to_owned(),
        },
        namespace: copy_opt(&p.namespace),
    }
}

/// The namespace that a password is read from.
pub fn credential_namespace<'a>(creds: &'a RepoCredentials, namespace: &'a str) -> (r: &'a str)
    ensures
        r@ == namespace_or(creds.namespace, namespace@),
{
    match &creds.namespace {
        Some(ns) => ns.as_str(),
        None => namespace,
    }
}

/// What `String::from_utf8` says about bytes that are no UTF-8.
pub uninterp spec fn utf8_error_text(bytes: Seq<u8>) -> Seq<char>;

/// `String::from_utf8`: the text that the bytes encode where they are valid
/// UTF-8, and otherwise what is wrong with them, which depends on the bytes alone.
#[verifier::external_body]
fn std_from_utf8(bytes: Vec<u8>) -> (r: Result<String, String>)
    ensures
        match r {
            Ok(s) => valid_utf8(bytes@) && s@ == decode_utf8(bytes@),
            Err(e) => !valid_utf8(bytes@) && e@ == utf8_error_text(bytes@),
        },
{
    String::from_utf8(bytes).map_err(|e| e.to_string())
}

/// The bytes under a key of a Secret's data; of several entries the last.
pub open spec fn data_entry(data: Seq<(String, Vec<u8>)>, key: Seq<char>) -> Option<Seq<u8>>
    decreases data.len(),
{
    if data.len() == 0 {
        None
    } else if data.last().0@ == key {
        Some(data.last().1@)
    } else {
        data_entry(data.drop_last(), key)
    }
}

/// The password of a repository and the version of its Secret, from what was
/// read. `unread` is what kept it from being read.
pub fn read_repo_credential(
    ns: &str,
    creds: &RepoCredentials,
    read: Result<(Vec<(String, Vec<u8>)>, Option<String>), String>,
) -> (r: Result<(String, String), Error>)
    ensures
        match read {
            Err(unread) => r matches Err(e) && e is MissingDependency && e.text()
                == "credentials secret "@ + ns@ + "/"@ + creds.secret_name@ + " not found: "@
                + unread@,
            Ok((data, version)) => match data_entry(data@, creds.password_key@) {
                None => r matches Err(e) && e is MissingDependency && e.text() == "secret "@ + ns@
                    + "/"@ + creds.secret_name@ + " missing key "@ + creds.password_key@,
                Some(raw) => if valid_utf8(raw) {
                    r matches Ok((password, v)) && password@ == decode_utf8(raw) && v@ == or_empty(
                        version,
                    )
                } else {
                    r matches Err(e) && e is Invariant && e.text()
                        == "password not valid utf-8: "@ + utf8_error_text(raw)
                },
            },
        },
{
    let (data, version) = match read {
        Ok(found) => found,
        Err(unread) => {
            let mut m = "credentials secret ".to_owned();
            m.append(ns);
            m.append("/");
            m.append(creds.secret_name.as_str());
            m.append(" not found: ");
            m.append(unread.as_str());
            return Err(Error::MissingDependency(m));
        },
    };
    let mut i: usize = data.len();
    assert(data@.take(i as int) =~= data@);
    while i > 0 && !same(data[i - 1].0.as_str(), creds.password_key.as_str())
        invariant
            i <= data@.len(),
            data_entry(data@, creds.password_key@) == data_entry(
                data@.take(i as int),
                creds.password_key@,
            ),
        decreases i,
    {
        assert(data@.take(i as int).drop_last() =~= data@.take(i - 1));
        assert(data@.take(i as int).last() == data@[i - 1]);
        i -= 1;
    }
    if i == 0 {
        let mut m = "secret ".to_owned();
        m.append(ns);
        m.append("/");
        m.append(creds.secret_name.as_str());
        m.append(" missing key ");
        m.append(creds.password_key.as_str());
        return Err(Error::MissingDependency(m));
    }
    assert(data@.take(i as int).last() == data@[i - 1]);
    let raw = data[i - 1].1.clone();
    assert(raw@ =~= data@[i - 1].1@);
    match std_from_utf8(raw) {
        Ok(password) => Ok(
            (
                password,
                match version {
                    Some(v) => v,
                    None => "".to_owned(),
                },
            ),
        ),
        Err(e) => {
            let mut m = "password not valid utf-8: ".to_owned();
            m.append(e.as_str());
            Err(Error::Invariant(m))
        },
    }
}

/// The password of a repository, from what was read.
pub fn read_repo_password(
    ns: &str,
    creds: &RepoCredentials,
    read: Result<(Vec<(String, Vec<u8>)>, Option<String>), String>,
) -> (r: Result<String, Error>)
    ensures
        match read {
            Err(unread) => r matches Err(e) && e is MissingDependency && e.text()
                == "credentials secret "@ + ns@ + "/"@ + creds.secret_name@ + " not found: "@
                + unread@,
            Ok((data, _)) => match data_entry(data@, creds.password_key@) {
                None => r matches Err(e) && e is MissingDependency && e.text() == "secret "@ + ns@
                    + "/"@ + creds.secret_name@ + " missing key "@ + creds.password_key@,
                Some(raw) => if valid_utf8(raw) {
                    r matches Ok(password) && password@ == decode_utf8(raw)
                } else {
                    r matches Err(e) && e is Invariant && e.text()
                        == "password not valid utf-8: "@ + utf8_error_text(raw)
                },
            },
        },
{
    match read_repo_credential(ns, creds, read) {
        Ok((password, _)) => Ok(password),
        Err(e) => Err(e),
    }
}

/// The Secrets that a mover of the repository loads, the password's first. A
/// reference without a namespace falls back on the repository's.
pub fn mover_creds_secret_refs(
    backend: &Backend,
    encryption: &Encryption,
    repo_namespace: Option<&str>,
) -> (r: Vec<CredsSecretRef>)
    ensures
        ref_views(r@) == secret_refs(
            backend.auth_secret_ref,
            encryption.password_secret_ref,
            opt_str(repo_namespace),
        ),
        1 <= r@.len() <= MAX_CREDS_IDX + 1,
{
    let password = &encryption.password_secret_ref;
    let mut out: Vec<CredsSecretRef> = Vec::new();
    out.push(
        CredsSecretRef {
            name: password.name.clone(),
            namespace: match &password.namespace {
                Some(ns) => Some(ns.clone()),
                None => match repo_namespace {
                    Some(ns) => Some(ns.to_owned()),
                    None => None,
                },
            },
        },
    );
    if let Some(auth) = &backend.auth_secret_ref {
        if !same(auth.name.as_str(), password.name.as_str()) {
            out.push(
                CredsSecretRef {
                    name: auth.name.clone(),
                    namespace: match &auth.namespace {
                        Some(ns) => Some(ns.clone()),
                        None => match repo_namespace {
                            Some(ns) => Some(ns.to_owned()),
                            None => None,
                        },
                    },
                },
            );
        }
    }
    assert(ref_views(out@) =~= secret_refs(
        backend.auth_secret_ref,
        encryption.password_secret_ref,
        opt_str(repo_namespace),
    ));
    out
}

/// The names of the Secrets that a mover of the repository loads.
pub fn mover_creds_secrets(backend: &Backend, encryption: &Encryption) -> (r: Vec<String>)
    ensures
        texts(r@) == secret_refs(
            backend.auth_secret_ref,
            encryption.password_secret_ref,
            None,
        ).map_values(|e: (Seq<char>, Option<Seq<char>>)| e.0),
{
    let refs = mover_creds_secret_refs(backend, encryption, None);
    let ghost want = secret_refs(backend.auth_secret_ref, encryption.password_secret_ref, None);
    let mut out: Vec<String> = Vec::new();
    let mut i: usize = 0;
    while i < refs.len()
        invariant
            i <= refs@.len(),
            out@.len() == i,
            ref_views(refs@) == want,
            forall|j: int| 0 <= j < i ==> (#[trigger] out@[j])@ == want[j].0,
        decreases refs@.len() - i,
    {
        assert(want[i as int] == ref_view(refs@[i as int]));
        out.push(refs[i].name.clone());
        i += 1;
    }
    assert(texts(out@) =~= want.map_values(|e: (Seq<char>, Option<Seq<char>>)| e.0));
    out
}

/// A cluster-wide reference is looked up in the cluster whatever namespace it
/// carries, and never as a namespaced repository.
pub proof fn lemma_cluster_lookup_ignores_namespace(
    a: RepositoryRefView,
    b: RepositoryRefView,
    default_ns: Seq<char>,
)
    requires
        a.kind == RepositoryKind::ClusterRepository,
        b.kind == RepositoryKind::ClusterRepository,
        a.name == b.name,
    ensures
        lookup_of(a, default_ns) == lookup_of(b, default_ns),
        lookup_of(a, default_ns) == RepoLookupView::Cluster(a.name),
{
}

/// What is not known to have happened counts as the longest time ago: a check
/// that wants it recent fails.
pub proof fn lemma_unknown_is_never_recent(ts: Option<Seq<char>>, now: Moment)
    ensures
        !known_age(ts, now).0 ==> known_age(ts, now).1 == i64::MAX,
        known_age(ts, now).1 >= 0,
{
}

/// Whether the `Maintenance` at a place is for the repository and tells of a success.
pub open spec fn tells_success(
    items: Seq<Maintenance>,
    i: int,
    kind: RepositoryKind,
    name: Seq<char>,
    namespace: Option<Seq<char>>,
) -> bool {
    0 <= i < items.len() && refers(items[i], kind, name, namespace) && latest_success(items[i]) is Some
}

/// The success that counts is the newest that any `Maintenance` of the repository
/// tells of; there is one as soon as any tells of one.
pub proof fn lemma_latest_maintenance_is_the_newest(
    items: Seq<Maintenance>,
    kind: RepositoryKind,
    name: Seq<char>,
    namespace: Option<Seq<char>>,
)
    ensures
        latest_maintenance(items, kind, name, namespace) is None <==> forall|i: int|
            !tells_success(items, i, kind, name, namespace),
        latest_maintenance(items, kind, name, namespace) matches Some(newest) ==> {
            &&& forall|i: int| #[trigger]
                tells_success(items, i, kind, name, namespace) ==> newest.reached(
                    latest_success(items[i])->0,
                )
            &&& exists|i: int| #[trigger]
                tells_success(items, i, kind, name, namespace) && latest_success(items[i]) == Some(
                    newest,
                )
        },
    decreases items.len(),
{
    if items.len() > 0 {
        let rest = items.drop_last();
        let n = items.len() - 1;
        lemma_latest_maintenance_is_the_newest(rest, kind, name, namespace);
        assert forall|i: int| 0 <= i < n implies #[trigger] tells_success(
            items,
            i,
            kind,
            name,
            namespace,
        ) == tells_success(rest, i, kind, name, namespace) by {
            assert(rest[i] == items[i]);
        }
        assert(items[n] == items.last());
        let before = latest_maintenance(rest, kind, name, namespace);
        let all = latest_maintenance(items, kind, name, namespace);
        if before is Some {
            let j = choose|i: int| #[trigger]
                tells_success(rest, i, kind, name, namespace) && latest_success(rest[i]) == before;
            assert(rest[j] == items[j]);
            assert(tells_success(items, j, kind, name, namespace));
        }
        if all is Some {
            assert forall|i: int| #[trigger]
                tells_success(items, i, kind, name, namespace) implies all->0.reached(
                latest_success(items[i])->0,
            ) by {
                if i < n {
                    assert(rest[i] == items[i]);
                    assert(tells_success(rest, i, kind, name, namespace));
                }
            }
            if !tells_success(items, n, kind, name, namespace) || latest_success(items[n]) != all {
                assert(all == before);
                let j = choose|i: int| #[trigger]
                    tells_success(rest, i, kind, name, namespace) && latest_success(rest[i])
                        == before;
                assert(rest[j] == items[j]);
                assert(tells_success(items, j, kind, name, namespace));
            }
        } else {
            assert forall|i: int| !tells_success(items, i, kind, name, namespace) by {
                if 0 <= i < n {
                    assert(!tells_success(rest, i, kind, name, namespace));
                    assert(tells_success(items, i, kind, name, namespace) == tells_success(
                        rest,
                        i,
                        kind,
                        name,
                        namespace,
                    ));
                }
            }
        }
    }
}

/// Whether an optional timestamp stands for an instant.
pub open spec fn dated(ts: Option<String>, t: Moment) -> bool {
    ts matches Some(s) && parsed_moment(s@) == Some(t)
}

/// Whether a `Maintenance` tells of a success at an instant, by any of its four stamps.
pub open spec fn told(m: Maintenance, t: Moment) -> bool {
    m.status matches Some(st) && {
        ||| st.full matches Some(run) && dated(run.last_run_at, t)
        ||| st.full matches Some(run) && dated(run.last_handled_at, t)
        ||| st.quick matches Some(run) && dated(run.last_run_at, t)
        ||| st.quick matches Some(run) && dated(run.last_handled_at, t)
    }
}

proof fn lemma_latest_success_is_told(m: Maintenance)
    ensures
        latest_success(m) matches Some(newest) ==> told(m, newest),
        forall|t: Moment|
            #[trigger] told(m, t) ==> (latest_success(m) matches Some(newest) && (newest.secs > t.secs
                || (newest.secs == t.secs && newest.nanos >= t.nanos))),
{
}

/// The age of a repository's maintenance is that of the newest success that any of its
/// `Maintenance`s tells of, full or quick, seen by the mover or by the controller: it has
/// reached every stamp, and is one of them.
pub proof fn lemma_newest_of_all_stamps(
    items: Seq<Maintenance>,
    kind: RepositoryKind,
    name: Seq<char>,
    namespace: Option<Seq<char>>,
)
    ensures
        forall|i: int, t: Moment|
            #![trigger told(items[i], t)]
            0 <= i < items.len() && refers(items[i], kind, name, namespace) && told(items[i], t)
                ==> (latest_maintenance(items, kind, name, namespace) matches Some(newest) && (
            newest.secs > t.secs || (newest.secs == t.secs && newest.nanos >= t.nanos))),
        latest_maintenance(items, kind, name, namespace) matches Some(newest) ==> exists|i: int|
            0 <= i < items.len() && #[trigger] refers(items[i], kind, name, namespace) && told(
                items[i],
                newest,
            ),
{
    lemma_latest_maintenance_is_the_newest(items, kind, name, namespace);
    let all = latest_maintenance(items, kind, name, namespace);
    assert forall|i: int, t: Moment|
        #![trigger told(items[i], t)]
        0 <= i < items.len() && refers(items[i], kind, name, namespace) && told(items[i], t) implies (
    all matches Some(newest) && (newest.secs > t.secs || (newest.secs == t.secs && newest.nanos
        >= t.nanos))) by {
        lemma_latest_success_is_told(items[i]);
        assert(tells_success(items, i, kind, name, namespace));
    }
    if all is Some {
        let i = choose|i: int| #[trigger]
            tells_success(items, i, kind, name, namespace) && latest_success(items[i]) == all;
        lemma_latest_success_is_told(items[i]);
        assert(refers(items[i], kind, name, namespace));
    }
}

/// How old something is, where it is known: the whole seconds since, and none where it
/// lies ahead. What cannot be read is not known.
pub proof fn lemma_ages(text: Seq<char>, now: Moment, newest: Moment)
    ensures
        known_age(None, now) == (false, 0x7fff_ffff_ffff_ffffi64),
        parsed_moment(text) is None ==> known_age(Some(text), now) == (
            false,
            0x7fff_ffff_ffff_ffffi64,
        ),
        parsed_moment(text) matches Some(t) ==> known_age(Some(text), now) == (true, age_at(now, t)),
        recency(None, now) == (false, 0x7fff_ffff_ffff_ffffi64),
        recency(Some(newest), now) == (true, age_at(now, newest)),
        known_count(None) == (false, 0x7fff_ffff_ffff_ffffi64),
        forall|n: i64| #[trigger] known_count(Some(n)) == (true, n),
{
}

/// A backend counts as reachable unless the first condition about it says otherwise:
/// without such a condition nothing says that it is down.
pub proof fn lemma_what_reaches_a_backend(conditions: Seq<ConditionView>, at: int)
    ensures
        (forall|i: int|
            0 <= i < conditions.len() ==> (#[trigger] conditions[i]).type_ != "BackendReachable"@)
            ==> reachable(conditions),
        (0 <= at < conditions.len() && conditions[at].type_ == "BackendReachable"@ && forall|i: int|
            0 <= i < at ==> (#[trigger] conditions[i]).type_ != "BackendReachable"@) ==> (reachable(
            conditions,
        ) <==> conditions[at].status == "True"@),
{
    lemma_place_of(conditions, "BackendReachable"@);
    let place = place_of(conditions, "BackendReachable"@);
    if place < conditions.len() {
        assert(conditions[place].type_ == "BackendReachable"@);
    }
    if 0 <= at < conditions.len() && conditions[at].type_ == "BackendReachable"@ && (forall|i: int|
        0 <= i < at ==> (#[trigger] conditions[i]).type_ != "BackendReachable"@) {
        if place < at {
            assert(conditions[place].type_ != "BackendReachable"@);
        }
        if at < place {
            assert(conditions[at].type_ != "BackendReachable"@);
        }
    }
}

/// Where a reference is looked up: a namespaced one in its own namespace or the default
/// one, under its name.
pub proof fn lemma_lookups_keep_the_name(r: RepositoryRef, default_ns: Seq<char>)
    ensures
        r.kind == RepositoryKind::Repository && r.namespace is Some ==> lookup_of(r@, default_ns)
            == RepoLookupView::Namespaced(r.namespace->0@, r.name@),
        r.kind == RepositoryKind::Repository && r.namespace is None ==> lookup_of(r@, default_ns)
            == RepoLookupView::Namespaced(default_ns, r.name@),
        r.kind == RepositoryKind::ClusterRepository ==> lookup_of(r@, default_ns)
            == RepoLookupView::Cluster(r.name@),
        forall|ns: Seq<char>, n: Seq<char>| #[trigger]
            missing_repository(RepoLookupView::Namespaced(ns, n)) == "Repository "@ + ns + "/"@ + n,
        forall|n: Seq<char>| #[trigger]
            missing_repository(RepoLookupView::Cluster(n)) == "ClusterRepository "@ + n,
{
}

/// The words for the phases of a repository.
pub proof fn lemma_phase_words(p: RepositoryPhase)
    ensures
        p is Pending ==> phase_text(p) == "Pending"@,
        p is Initializing ==> phase_text(p) == "Initializing"@,
        p is Ready ==> phase_text(p) == "Ready"@,
        p is Degraded ==> phase_text(p) == "Degraded"@,
        p is Failed ==> phase_text(p) == "Failed"@,
        p matches RepositoryPhase::Unknown(s) ==> phase_text(p) == s@,
{
}

/// A mover loads the password's Secret first, and the backend's own behind it where that
/// has another name. Each is read from the namespace that it names, or else from that of
/// the repository.
pub proof fn lemma_which_secrets_are_loaded(
    auth: Option<SecretRef>,
    password: SecretKeyRef,
    repo_namespace: Option<Seq<char>>,
)
    ensures
        ({
            let refs = secret_refs(auth, password, repo_namespace);
            &&& 1 <= refs.len() <= 2
            &&& refs[0].0 == password.name@
            &&& refs[0].1 == (match password.namespace {
                Some(ns) => Some(ns@),
                None => repo_namespace,
            })
            &&& refs.len() == 2 <==> (auth matches Some(a) && a.name@ != password.name@)
            &&& refs.len() == 2 ==> refs[1].0 == auth->0.name@ && refs[1].1 == (
            match auth->0.namespace {
                Some(ns) => Some(ns@),
                None => repo_namespace,
            })
        }),
        forall|r: CredsSecretRef| #[trigger]
            ref_view(r) == (
                r.name@,
                match r.namespace {
                    Some(ns) => Some(ns@),
                    None => None,
                },
            ),
{
}

/// What a Secret holds under a key is what was entered there, and last where several
/// entries were.
pub proof fn lemma_secret_entries(
    data: Seq<(String, Vec<u8>)>,
    new: (String, Vec<u8>),
    key: Seq<char>,
)
    ensures
        data_entry(Seq::empty(), key) is None,
        data_entry(data.push(new), new.0@) == Some(new.1@),
        key != new.0@ ==> data_entry(data.push(new), key) == data_entry(data, key),
{
    assert(data.push(new).drop_last() =~= data);
}

/// What a lookup says is its namespace and its name, each in its place.
pub proof fn lemma_what_a_lookup_says(l: RepoLookup)
    ensures
        l matches RepoLookup::Namespaced { namespace, name } ==> l@ == RepoLookupView::Namespaced(
            namespace@,
            name@,
        ),
        l matches RepoLookup::Cluster { name } ==> l@ == RepoLookupView::Cluster(name@),
{
}

} // verus!
