//! The gauges that are read off the objects of the cluster at each collection.
use vstd::prelude::*;
use vstd::string::*;

use crate::io::apply::RepositoryPhase;
use crate::io::conditions::condition_views;
use crate::io::creds::{kind_text, repo_kind_str};
use crate::io::group_staging::SnapshotPhase;
use crate::io::repo::phase_label;
use crate::metrics::deletions::{RepoDeletions, deletion_counts, deletion_rows};
use crate::metrics::instruments::{
    Instrument, flag, flag_value, four, label, ns_name, object_labels, one, three, two,
};
use crate::metrics::series::{
    GatedSnapshots, Label, LabelView, PolicyGroup, PolicyHealth, PolicyLatest, PolicySnapshots,
    RepositoryObject, ResourceStores, RestoreObject, Sample, SampleView, Snapshot, active_phase,
    all_countable, breaker_open_since, count_rows, duration_of, files_of, gated_rows,
    gated_snapshot_counts, group_for, group_rows, group_table, health_rows, is_countable,
    is_success_of_policy, label_views, latest_per_policy, latest_rows, lemma_members_have_policy,
    members_for, open_since, or_zero, phase_labels, pinned_labels, policy_backup_health,
    policy_key, policy_label, policy_snapshot_counts, repo_consecutive_backend_failures,
    repo_labels, repository_phase_text, restore_phase_text, sample_views, size_of_snapshot,
    snapshot_countable, snapshot_duration, snapshot_files, snapshot_phase_label,
    snapshot_phase_text, snapshot_size, snapshot_success_unix, stat_labels, success_of_policy,
    success_unix, successes_countable,
};
use crate::metrics::table::{Key, has_key, key_of};
use crate::naming::{RepositoryKind, RepositoryRef};
use crate::text::{opt_text, or_empty, str_or_empty};

verus! {

/// What `f` makes of a sequence, where it makes something of an item, in order.
pub open spec fn picked<T>(v: Seq<T>, f: spec_fn(T) -> Option<SampleView>) -> Seq<SampleView>
    decreases v.len(),
{
    if v.len() == 0 {
        seq![]
    } else {
        match f(v.last()) {
            Some(x) => picked(v.drop_last(), f).push(x),
            None => picked(v.drop_last(), f),
        }
    }
}

/// The series of a value, where there is one.
pub open spec fn series_if(value: Option<i64>, labels: Seq<LabelView>) -> Option<SampleView> {
    match value {
        Some(v) => Some((v, labels)),
        None => None,
    }
}

/// The series of a Snapshot of its own.
pub open spec fn snapshot_series(g: Instrument, s: Snapshot) -> Option<SampleView> {
    match g {
        Instrument::ResourcePhase => Some(
            (
                1,
                phase_labels(
                    "Snapshot"@,
                    or_empty(s.namespace),
                    s.name@,
                    snapshot_phase_text(active_phase(s)),
                ) + policy_label(opt_text(s.policy)),
            ),
        ),
        Instrument::SnapshotSize => series_if(size_of_snapshot(s), stat_labels(s)),
        Instrument::SnapshotFiles => series_if(files_of(s), stat_labels(s)),
        Instrument::SnapshotDuration => series_if(duration_of(s), stat_labels(s)),
        Instrument::SnapshotLastSuccess => series_if(success_unix(s), stat_labels(s)),
        _ => None,
    }
}

/// The namespace that a repository's series tell: none for one of the cluster.
pub open spec fn shown_namespace(kind: RepositoryKind, r: RepositoryObject) -> Seq<char> {
    match kind {
        RepositoryKind::Repository => or_empty(r.namespace),
        RepositoryKind::ClusterRepository => ""@,
    }
}

/// The series of a repository.
pub open spec fn repository_series(g: Instrument, kind: RepositoryKind, r: RepositoryObject) -> Option<
    SampleView,
> {
    let ns = shown_namespace(kind, r);
    match g {
        Instrument::ResourcePhase => Some(
            (1, phase_labels(kind_text(kind), ns, r.name@, repository_phase_text(r))),
        ),
        Instrument::BackendFailures => match r.status {
            Some(st) => match st.health {
                Some(h) => Some(
                    (
                        or_zero(h.consecutive_probe_failures) as i64,
                        repo_labels(kind_text(kind), ns, r.name@),
                    ),
                ),
                None => None,
            },
            None => None,
        },
        Instrument::BreakerOpenSince => match r.status {
            Some(st) => series_if(
                open_since(st.phase, st.health, condition_views(st.conditions@)),
                repo_labels(kind_text(kind), ns, r.name@),
            ),
            None => None,
        },
        _ => None,
    }
}

/// The series of a `Restore`.
pub open spec fn restore_series(g: Instrument, r: RestoreObject) -> Option<SampleView> {
    match g {
        Instrument::ResourcePhase => Some(
            (
                1,
                phase_labels("Restore"@, or_empty(r.namespace), r.name@, restore_phase_text(r)),
            ),
        ),
        _ => None,
    }
}

/// The labels of a policy's series.
pub open spec fn policy_labels(ns: Seq<char>, policy: Seq<char>) -> Seq<LabelView> {
    seq![("namespace"@, ns), ("policy"@, policy)]
}

/// The series of a policy's latest success.
pub open spec fn latest_series(g: Instrument, p: PolicyLatest) -> Option<SampleView> {
    let labels = policy_labels(p.namespace@, p.policy@);
    match g {
        Instrument::PolicyLastSuccess => Some((p.end_unix, labels)),
        Instrument::PolicyLastDuration => series_if(p.duration_seconds, labels),
        Instrument::PolicyLastSize => series_if(p.size_bytes, labels),
        Instrument::PolicyLastFiles => series_if(p.files, labels),
        _ => None,
    }
}

/// The series of a policy's last backup.
pub open spec fn health_series(p: PolicyHealth) -> Option<SampleView> {
    Some((flag(p.healthy), policy_labels(p.namespace@, p.policy@)))
}

/// The series of a policy's figures.
pub open spec fn count_series(g: Instrument, p: PolicySnapshots) -> Option<SampleView> {
    let labels = object_labels(p.namespace@, p.policy@);
    match g {
        Instrument::ConsecutiveFailures => Some((p.consecutive_failures, labels)),
        Instrument::SnapshotsLive => Some((p.live, labels)),
        _ => None,
    }
}

/// The series of the Snapshots that wait.
pub open spec fn gated_series(p: GatedSnapshots) -> Option<SampleView> {
    Some((p.count, seq![("namespace"@, p.namespace@)] + policy_label(opt_text(p.policy))))
}

/// The series of the deletions that are counted for a repository.
pub open spec fn deletion_series(p: RepoDeletions) -> Option<SampleView> {
    Some((p.count, seq![("repo_kind"@, p.repo_kind@), ("repo_name"@, p.repo_name@)]))
}

/// The series of all Snapshots.
pub open spec fn snapshots_series(g: Instrument, v: Seq<Snapshot>) -> Seq<SampleView> {
    picked(v, |s: Snapshot| snapshot_series(g, s))
}

/// The series of all repositories of one kind.
pub open spec fn repositories_series(
    g: Instrument,
    kind: RepositoryKind,
    v: Seq<RepositoryObject>,
) -> Seq<SampleView> {
    picked(v, |r: RepositoryObject| repository_series(g, kind, r))
}

/// The series of all `Restore`s.
pub open spec fn restores_series(g: Instrument, v: Seq<RestoreObject>) -> Seq<SampleView> {
    picked(v, |r: RestoreObject| restore_series(g, r))
}

/// The series of all policies' latest successes.
pub open spec fn latests_series(g: Instrument, v: Seq<PolicyLatest>) -> Seq<SampleView> {
    picked(v, |p: PolicyLatest| latest_series(g, p))
}

/// The series of all policies' last backups.
pub open spec fn healths_series(v: Seq<PolicyHealth>) -> Seq<SampleView> {
    picked(v, |p: PolicyHealth| health_series(p))
}

/// The series of all policies' figures.
pub open spec fn counts_series(g: Instrument, v: Seq<PolicySnapshots>) -> Seq<SampleView> {
    picked(v, |p: PolicySnapshots| count_series(g, p))
}

/// The series of all Snapshots that wait.
pub open spec fn gateds_series(v: Seq<GatedSnapshots>) -> Seq<SampleView> {
    picked(v, |p: GatedSnapshots| gated_series(p))
}

/// The series of all repositories' deletions.
pub open spec fn deletions_series(v: Seq<RepoDeletions>) -> Seq<SampleView> {
    picked(v, |p: RepoDeletions| deletion_series(p))
}

/// Whether the files can be counted that a gauge sums: every Snapshot's, or those of
/// the successes that a policy's latest is chosen from. The other gauges sum none.
pub open spec fn files_countable(g: Instrument, v: Seq<Snapshot>) -> bool {
    match g {
        Instrument::SnapshotFiles => all_countable(v),
        Instrument::PolicyLastSuccess
        | Instrument::PolicyLastDuration
        | Instrument::PolicyLastSize
        | Instrument::PolicyLastFiles => successes_countable(v),
        _ => true,
    }
}

/// Whether a gauge tells a policy's figures.
pub open spec fn tells_figures(g: Instrument) -> bool {
    g == Instrument::ConsecutiveFailures || g == Instrument::SnapshotsLive
}

/// Whether the groups are the policies' Snapshots, with a streak for each.
pub open spec fn streaks_fit(
    groups: Seq<PolicyGroup>,
    streaks: Seq<i64>,
    snapshots: Seq<Snapshot>,
) -> bool {
    group_rows(groups, snapshots) && groups.len() == streaks.len()
}

/// Whether samples are what a gauge tells of the objects.
pub open spec fn tells(
    g: Instrument,
    stores: ResourceStores,
    groups: Seq<PolicyGroup>,
    streaks: Seq<i64>,
    samples: Seq<SampleView>,
) -> bool {
    match g {
        Instrument::PolicyLastSuccess
        | Instrument::PolicyLastDuration
        | Instrument::PolicyLastSize
        | Instrument::PolicyLastFiles => exists|rows: Seq<PolicyLatest>| #[trigger]
            latest_rows(rows, stores.snapshots@) && samples == latests_series(g, rows),
        Instrument::PolicyHealthy => exists|rows: Seq<PolicyHealth>| #[trigger]
            health_rows(rows, stores.snapshots@) && samples == healths_series(rows),
        Instrument::SnapshotsGated => exists|rows: Seq<GatedSnapshots>| #[trigger]
            gated_rows(rows, stores.snapshots@) && samples == gateds_series(rows),
        Instrument::DeletionsPending => exists|rows: Seq<RepoDeletions>| #[trigger]
            deletion_rows(rows, stores.snapshots@, false) && samples == deletions_series(rows),
        Instrument::DeletionsHeld => exists|rows: Seq<RepoDeletions>| #[trigger]
            deletion_rows(rows, stores.snapshots@, true) && samples == deletions_series(rows),
        Instrument::ConsecutiveFailures | Instrument::SnapshotsLive => {
            &&& streaks_fit(groups, streaks, stores.snapshots@)
            &&& exists|rows: Seq<PolicySnapshots>| #[trigger]
                count_rows(rows, groups, streaks) && samples == counts_series(g, rows)
        },
        _ => samples == snapshots_series(g, stores.snapshots@) + repositories_series(
            g,
            RepositoryKind::Repository,
            stores.repositories@,
        ) + repositories_series(
            g,
            RepositoryKind::ClusterRepository,
            stores.cluster_repositories@,
        ) + restores_series(g, stores.restores@),
    }
}

proof fn lemma_picked_next<T>(v: Seq<T>, i: int, f: spec_fn(T) -> Option<SampleView>)
    requires
        0 <= i < v.len(),
    ensures
        picked(v.take(i + 1), f) == match f(v[i]) {
            Some(x) => picked(v.take(i), f).push(x),
            None => picked(v.take(i), f),
        },
{
    assert(v.take(i + 1).drop_last() =~= v.take(i));
    assert(v.take(i + 1).last() == v[i]);
}

proof fn lemma_groups_are_small(groups: Seq<PolicyGroup>, v: Seq<Snapshot>)
    requires
        group_rows(groups, v),
    ensures
        forall|i: int|
            0 <= i < groups.len() ==> (#[trigger] groups[i]).members@.len() <= v.len(),
{
    let table = group_table(groups);
    let f = |k: Key| group_for(v, k);
    assert forall|i: int| 0 <= i < groups.len() implies (#[trigger] groups[i]).members@.len()
        <= v.len() by {
        assert(f(key_of(table[i])) == Some(table[i].value@));
        lemma_members_have_policy(v, key_of(table[i]));
    }
}

proof fn lemma_named_has_members(v: Seq<Snapshot>, n: int)
    requires
        0 <= n < v.len(),
        policy_key(v[n]) is Some,
    ensures
        members_for(v, policy_key(v[n])->0).len() > 0,
    decreases v.len(),
{
    if n < v.len() - 1 {
        assert(v.drop_last()[n] == v[n]);
        lemma_named_has_members(v.drop_last(), n);
    }
}

proof fn lemma_sampled(v: Seq<Sample>, s: Sample)
    ensures
        sample_views(v.push(s)) == sample_views(v).push(s@),
{
    assert(sample_views(v.push(s)) =~= sample_views(v).push(s@));
}

fn opt_sample(value: Option<i64>, labels: Vec<Label>) -> (r: Option<Sample>)
    ensures
        match r {
            Some(x) => series_if(value, label_views(labels@)) == Some(x@),
            None => value is None,
        },
{
    match value {
        Some(v) => Some(Sample { value: v, labels }),
        None => None,
    }
}

/// The labels of a phase series.
pub fn phase_attrs(kind: &str, ns: &str, name: &str, phase: &str) -> (r: Vec<Label>)
    ensures
        label_views(r@) == phase_labels(kind@, ns@, name@, phase@),
{
    four(label("kind", kind), label("namespace", ns), label("name", name), label("phase", phase))
}

/// The labels of a Snapshot's own series; the policy only where there is one.
pub fn snapshot_stat_attrs(s: &Snapshot) -> (r: Vec<Label>)
    ensures
        label_views(r@) == stat_labels(*s),
{
    let mut labels = ns_name(str_or_empty(&s.namespace), s.name.as_str());
    if let Some(p) = &s.policy {
        labels.push(label("policy", p.as_str()));
    }
    assert(label_views(labels@) =~= stat_labels(*s));
    labels
}

/// The labels for the repository that a Snapshot is pinned to; one bucket for all
/// that are pinned to none.
pub fn repo_gauge_attrs(pinned: Option<&RepositoryRef>) -> (r: Vec<Label>)
    ensures
        label_views(r@) == pinned_labels(
            match pinned {
                Some(p) => Some(p@),
                None => None,
            },
        ),
{
    match pinned {
        Some(p) => two(
            label("repo_kind", repo_kind_str(p.kind)),
            label("repo_name", p.name.as_str()),
        ),
        None => two(label("repo_kind", "unknown"), label("repo_name", "unknown")),
    }
}

/// The labels of a repository's series.
pub fn repo_health_attrs(kind: &str, ns: &str, name: &str) -> (r: Vec<Label>)
    ensures
        label_views(r@) == repo_labels(kind@, ns@, name@),
{
    three(label("kind", kind), label("namespace", ns), label("name", name))
}

/// The labels of a policy's series.
pub fn policy_attrs(ns: &str, policy: &str) -> (r: Vec<Label>)
    ensures
        label_views(r@) == policy_labels(ns@, policy@),
{
    two(label("namespace", ns), label("policy", policy))
}

/// The series of a Snapshot of its own.
pub fn snapshot_sample(g: Instrument, s: &Snapshot) -> (r: Option<Sample>)
    requires
        g == Instrument::SnapshotFiles ==> snapshot_countable(*s),
    ensures
        match r {
            Some(x) => snapshot_series(g, *s) == Some(x@),
            None => snapshot_series(g, *s) is None,
        },
{
    match g {
        Instrument::ResourcePhase => {
            let phase = match &s.status {
                Some(st) => match st.phase {
                    Some(p) => p,
                    None => SnapshotPhase::Pending,
                },
                None => SnapshotPhase::Pending,
            };
            let mut labels = phase_attrs(
                "Snapshot",
                str_or_empty(&s.namespace),
                s.name.as_str(),
                snapshot_phase_label(phase),
            );
            if let Some(p) = &s.policy {
                labels.push(label("policy", p.as_str()));
            }
            proof {
                assert(label_views(labels@) =~= phase_labels(
                    "Snapshot"@,
                    or_empty(s.namespace),
                    s.name@,
                    snapshot_phase_text(active_phase(*s)),
                ) + policy_label(opt_text(s.policy)));
            }
            Some(Sample { value: 1, labels })
        },
        Instrument::SnapshotSize => opt_sample(snapshot_size(s), snapshot_stat_attrs(s)),
        Instrument::SnapshotFiles => opt_sample(snapshot_files(s), snapshot_stat_attrs(s)),
        Instrument::SnapshotDuration => opt_sample(snapshot_duration(s), snapshot_stat_attrs(s)),
        Instrument::SnapshotLastSuccess => opt_sample(
            snapshot_success_unix(s),
            snapshot_stat_attrs(s),
        ),
        _ => None,
    }
}

/// The series of a repository.
pub fn repository_sample(g: Instrument, kind: RepositoryKind, r: &RepositoryObject) -> (res: Option<
    Sample,
>)
    ensures
        match res {
            Some(x) => repository_series(g, kind, *r) == Some(x@),
            None => repository_series(g, kind, *r) is None,
        },
{
    let ns = match kind {
        RepositoryKind::Repository => str_or_empty(&r.namespace),
        RepositoryKind::ClusterRepository => "",
    };
    let kind_word = repo_kind_str(kind);
    match g {
        Instrument::ResourcePhase => {
            let phase = match &r.status {
                Some(st) => match &st.phase {
                    Some(p) => phase_label(p),
                    None => phase_label(&RepositoryPhase::Pending),
                },
                None => phase_label(&RepositoryPhase::Pending),
            };
            let labels = phase_attrs(kind_word, ns, r.name.as_str(), phase.as_str());
            Some(Sample { value: 1, labels })
        },
        Instrument::BackendFailures => match &r.status {
            Some(st) => opt_sample(
                repo_consecutive_backend_failures(st.health.as_ref()),
                repo_health_attrs(kind_word, ns, r.name.as_str()),
            ),
            None => None,
        },
        Instrument::BreakerOpenSince => match &r.status {
            Some(st) => opt_sample(
                breaker_open_since(st.phase.as_ref(), st.health.as_ref(), &st.conditions),
                repo_health_attrs(kind_word, ns, r.name.as_str()),
            ),
            None => None,
        },
        _ => None,
    }
}

/// The series of a `Restore`.
pub fn restore_sample(g: Instrument, r: &RestoreObject) -> (res: Option<Sample>)
    ensures
        match res {
            Some(x) => restore_series(g, *r) == Some(x@),
            None => restore_series(g, *r) is None,
        },
{
    match g {
        Instrument::ResourcePhase => Some(
            Sample {
                value: 1,
                labels: phase_attrs(
                    "Restore",
                    str_or_empty(&r.namespace),
                    r.name.as_str(),
                    match &r.phase {
                        Some(p) => p.as_str(),
                        None => "Pending",
                    },
                ),
            },
        ),
        _ => None,
    }
}

fn latest_sample(g: Instrument, p: &PolicyLatest) -> (r: Option<Sample>)
    ensures
        match r {
            Some(x) => latest_series(g, *p) == Some(x@),
            None => latest_series(g, *p) is None,
        },
{
    let value: Option<i64> = match g {
        Instrument::PolicyLastSuccess => Some(p.end_unix),
        Instrument::PolicyLastDuration => p.duration_seconds,
        Instrument::PolicyLastSize => p.size_bytes,
        Instrument::PolicyLastFiles => p.files,
        _ => None,
    };
    opt_sample(value, policy_attrs(p.namespace.as_str(), p.policy.as_str()))
}

fn count_sample(g: Instrument, p: &PolicySnapshots) -> (r: Option<Sample>)
    ensures
        match r {
            Some(x) => count_series(g, *p) == Some(x@),
            None => count_series(g, *p) is None,
        },
{
    let value: Option<i64> = match g {
        Instrument::ConsecutiveFailures => Some(p.consecutive_failures),
        Instrument::SnapshotsLive => Some(p.live),
        _ => None,
    };
    opt_sample(value, ns_name(p.namespace.as_str(), p.policy.as_str()))
}

fn gated_sample(p: &GatedSnapshots) -> (r: Sample)
    ensures
        gated_series(*p) == Some(r@),
{
    let mut labels = one(label("namespace", p.namespace.as_str()));
    if let Some(policy) = &p.policy {
        labels.push(label("policy", policy.as_str()));
    }
    assert(label_views(labels@) =~= seq![("namespace"@, p.namespace@)] + policy_label(
        opt_text(p.policy),
    ));
    Sample { value: p.count, labels }
}

fn push_snapshots(out: &mut Vec<Sample>, g: Instrument, v: &Vec<Snapshot>)
    requires
        g == Instrument::SnapshotFiles ==> all_countable(v@),
    ensures
        sample_views(final(out)@) == sample_views(old(out)@) + snapshots_series(g, v@),
{
    let ghost before = sample_views(out@);
    let ghost f = |s: Snapshot| snapshot_series(g, s);
    let mut i: usize = 0;
    assert(snapshots_series(g, v@.take(0)) =~= seq![]);
    while i < v.len()
        invariant
            i <= v@.len(),
            g == Instrument::SnapshotFiles ==> all_countable(v@),
            sample_views(out@) == before + snapshots_series(g, v@.take(i as int)),
        decreases v@.len() - i,
    {
        proof {
            lemma_picked_next(v@, i as int, |s: Snapshot| snapshot_series(g, s));
            assert(g == Instrument::SnapshotFiles ==> snapshot_countable(v@[i as int]));
        }
        if let Some(x) = snapshot_sample(g, &v[i]) {
            proof {
                lemma_sampled(out@, x);
            }
            out.push(x);
        }
        proof {
            assert(sample_views(out@) =~= before + snapshots_series(g, v@.take(i + 1)));
        }
        i = i + 1;
    }
    assert(v@.take(v@.len() as int) =~= v@);
}

fn push_repositories(
    out: &mut Vec<Sample>,
    g: Instrument,
    kind: RepositoryKind,
    v: &Vec<RepositoryObject>,
)
    ensures
        sample_views(final(out)@) == sample_views(old(out)@) + repositories_series(g, kind, v@),
{
    let ghost before = sample_views(out@);
    let mut i: usize = 0;
    assert(repositories_series(g, kind, v@.take(0)) =~= seq![]);
    while i < v.len()
        invariant
            i <= v@.len(),
            sample_views(out@) == before + repositories_series(g, kind, v@.take(i as int)),
        decreases v@.len() - i,
    {
        proof {
            lemma_picked_next(v@, i as int, |r: RepositoryObject| repository_series(g, kind, r));
        }
        if let Some(x) = repository_sample(g, kind, &v[i]) {
            proof {
                lemma_sampled(out@, x);
            }
            out.push(x);
        }
        proof {
            assert(sample_views(out@) =~= before + repositories_series(g, kind, v@.take(i + 1)));
        }
        i = i + 1;
    }
    assert(v@.take(v@.len() as int) =~= v@);
}

fn push_restores(out: &mut Vec<Sample>, g: Instrument, v: &Vec<RestoreObject>)
    ensures
        sample_views(final(out)@) == sample_views(old(out)@) + restores_series(g, v@),
{
    let ghost before = sample_views(out@);
    let mut i: usize = 0;
    assert(restores_series(g, v@.take(0)) =~= seq![]);
    while i < v.len()
        invariant
            i <= v@.len(),
            sample_views(out@) == before + restores_series(g, v@.take(i as int)),
        decreases v@.len() - i,
    {
        proof {
            lemma_picked_next(v@, i as int, |r: RestoreObject| restore_series(g, r));
        }
        if let Some(x) = restore_sample(g, &v[i]) {
            proof {
                lemma_sampled(out@, x);
            }
            out.push(x);
        }
        proof {
            assert(sample_views(out@) =~= before + restores_series(g, v@.take(i + 1)));
        }
        i = i + 1;
    }
    assert(v@.take(v@.len() as int) =~= v@);
}

fn latest_samples(g: Instrument, rows: &Vec<PolicyLatest>) -> (r: Vec<Sample>)
    ensures
        sample_views(r@) == latests_series(g, rows@),
{
    let mut out: Vec<Sample> = Vec::new();
    let mut i: usize = 0;
    assert(sample_views(out@) =~= latests_series(g, rows@.take(0)));
    while i < rows.len()
        invariant
            i <= rows@.len(),
            sample_views(out@) == latests_series(g, rows@.take(i as int)),
        decreases rows@.len() - i,
    {
        proof {
            lemma_picked_next(rows@, i as int, |p: PolicyLatest| latest_series(g, p));
        }
        if let Some(x) = latest_sample(g, &rows[i]) {
            proof {
                lemma_sampled(out@, x);
            }
            out.push(x);
        }
        i = i + 1;
    }
    assert(rows@.take(rows@.len() as int) =~= rows@);
    out
}

fn health_samples(rows: &Vec<PolicyHealth>) -> (r: Vec<Sample>)
    ensures
        sample_views(r@) == healths_series(rows@),
{
    let mut out: Vec<Sample> = Vec::new();
    let mut i: usize = 0;
    assert(sample_views(out@) =~= healths_series(rows@.take(0)));
    while i < rows.len()
        invariant
            i <= rows@.len(),
            sample_views(out@) == healths_series(rows@.take(i as int)),
        decreases rows@.len() - i,
    {
        proof {
            lemma_picked_next(rows@, i as int, |p: PolicyHealth| health_series(p));
        }
        let row = &rows[i];
        let x = Sample {
            value: flag_value(row.healthy),
            labels: policy_attrs(row.namespace.as_str(), row.policy.as_str()),
        };
        proof {
            lemma_sampled(out@, x);
        }
        out.push(x);
        i = i + 1;
    }
    assert(rows@.take(rows@.len() as int) =~= rows@);
    out
}

fn count_samples(g: Instrument, rows: &Vec<PolicySnapshots>) -> (r: Vec<Sample>)
    ensures
        sample_views(r@) == counts_series(g, rows@),
{
    let mut out: Vec<Sample> = Vec::new();
    let mut i: usize = 0;
    assert(sample_views(out@) =~= counts_series(g, rows@.take(0)));
    while i < rows.len()
        invariant
            i <= rows@.len(),
            sample_views(out@) == counts_series(g, rows@.take(i as int)),
        decreases rows@.len() - i,
    {
        proof {
            lemma_picked_next(rows@, i as int, |p: PolicySnapshots| count_series(g, p));
        }
        if let Some(x) = count_sample(g, &rows[i]) {
            proof {
                lemma_sampled(out@, x);
            }
            out.push(x);
        }
        i = i + 1;
    }
    assert(rows@.take(rows@.len() as int) =~= rows@);
    out
}

fn gated_samples(rows: &Vec<GatedSnapshots>) -> (r: Vec<Sample>)
    ensures
        sample_views(r@) == gateds_series(rows@),
{
    let mut out: Vec<Sample> = Vec::new();
    let mut i: usize = 0;
    assert(sample_views(out@) =~= gateds_series(rows@.take(0)));
    while i < rows.len()
        invariant
            i <= rows@.len(),
            sample_views(out@) == gateds_series(rows@.take(i as int)),
        decreases rows@.len() - i,
    {
        proof {
            lemma_picked_next(rows@, i as int, |p: GatedSnapshots| gated_series(p));
        }
        let x = gated_sample(&rows[i]);
        proof {
            lemma_sampled(out@, x);
        }
        out.push(x);
        i = i + 1;
    }
    assert(rows@.take(rows@.len() as int) =~= rows@);
    out
}

fn deletion_samples(rows: &Vec<RepoDeletions>) -> (r: Vec<Sample>)
    ensures
        sample_views(r@) == deletions_series(rows@),
{
    let mut out: Vec<Sample> = Vec::new();
    let mut i: usize = 0;
    assert(sample_views(out@) =~= deletions_series(rows@.take(0)));
    while i < rows.len()
        invariant
            i <= rows@.len(),
            sample_views(out@) == deletions_series(rows@.take(i as int)),
        decreases rows@.len() - i,
    {
        proof {
            lemma_picked_next(rows@, i as int, |p: RepoDeletions| deletion_series(p));
        }
        let row = &rows[i];
        let x = Sample {
            value: row.count,
            labels: two(
                label("repo_kind", row.repo_kind.as_str()),
                label("repo_name", row.repo_name.as_str()),
            ),
        };
        proof {
            lemma_sampled(out@, x);
        }
        out.push(x);
        i = i + 1;
    }
    assert(rows@.take(rows@.len() as int) =~= rows@);
    out
}

/// Whether the files can be counted that a gauge sums.
pub fn can_sum_files(g: Instrument, snapshots: &Vec<Snapshot>) -> (r: bool)
    ensures
        r == files_countable(g, snapshots@),
{
    let (every, successes) = match g {
        Instrument::SnapshotFiles => (true, true),
        Instrument::PolicyLastSuccess
        | Instrument::PolicyLastDuration
        | Instrument::PolicyLastSize
        | Instrument::PolicyLastFiles => (false, true),
        _ => (false, false),
    };
    if !successes {
        return true;
    }
    let mut i: usize = 0;
    while i < snapshots.len()
        invariant
            i <= snapshots@.len(),
            every == (g == Instrument::SnapshotFiles),
            every ==> files_countable(g, snapshots@) == all_countable(snapshots@),
            !every ==> files_countable(g, snapshots@) == successes_countable(snapshots@),
            forall|n: int|
                0 <= n < i && (every || success_of_policy(snapshots@[n])) ==> snapshot_countable(
                    #[trigger] snapshots@[n],
                ),
        decreases snapshots@.len() - i,
    {
        let s = &snapshots[i];
        if (every || is_success_of_policy(s)) && !is_countable(s) {
            assert(!snapshot_countable(snapshots@[i as int]));
            return false;
        }
        i = i + 1;
    }
    true
}

/// What a gauge tells of the objects there are: its series at this collection. How
/// many backups of a policy failed in a row is told by `streaks`, for each of the
/// policies' groups in turn. An instrument that is not read off the objects tells
/// nothing.
pub fn resource_samples(
    g: Instrument,
    stores: &ResourceStores,
    groups: &Vec<PolicyGroup>,
    streaks: &Vec<i64>,
) -> (r: Vec<Sample>)
    requires
        files_countable(g, stores.snapshots@),
        tells_figures(g) ==> streaks_fit(groups@, streaks@, stores.snapshots@),
        stores.snapshots@.len() <= i64::MAX,
    ensures
        tells(g, *stores, groups@, streaks@, sample_views(r@)),
{
    match g {
        Instrument::PolicyLastSuccess
        | Instrument::PolicyLastDuration
        | Instrument::PolicyLastSize
        | Instrument::PolicyLastFiles => {
            let rows = latest_per_policy(&stores.snapshots);
            let out = latest_samples(g, &rows);
            assert(latest_rows(rows@, stores.snapshots@));
            out
        },
        Instrument::PolicyHealthy => {
            let rows = policy_backup_health(&stores.snapshots);
            let out = health_samples(&rows);
            assert(health_rows(rows@, stores.snapshots@));
            out
        },
        Instrument::SnapshotsGated => {
            let rows = gated_snapshot_counts(&stores.snapshots);
            let out = gated_samples(&rows);
            assert(gated_rows(rows@, stores.snapshots@));
            out
        },
        Instrument::DeletionsPending => {
            let rows = deletion_counts(&stores.snapshots, false);
            let out = deletion_samples(&rows);
            assert(deletion_rows(rows@, stores.snapshots@, false));
            out
        },
        Instrument::DeletionsHeld => {
            let rows = deletion_counts(&stores.snapshots, true);
            let out = deletion_samples(&rows);
            assert(deletion_rows(rows@, stores.snapshots@, true));
            out
        },
        Instrument::ConsecutiveFailures | Instrument::SnapshotsLive => {
            proof {
                lemma_groups_are_small(groups@, stores.snapshots@);
            }
            let rows = policy_snapshot_counts(groups, streaks);
            let out = count_samples(g, &rows);
            assert(count_rows(rows@, groups@, streaks@));
            out
        },
        _ => {
            let mut out: Vec<Sample> = Vec::new();
            assert(sample_views(out@) =~= seq![]);
            push_snapshots(&mut out, g, &stores.snapshots);
            push_repositories(&mut out, g, RepositoryKind::Repository, &stores.repositories);
            push_repositories(
                &mut out,
                g,
                RepositoryKind::ClusterRepository,
                &stores.cluster_repositories,
            );
            push_restores(&mut out, g, &stores.restores);
            proof {
                assert(sample_views(out@) =~= snapshots_series(g, stores.snapshots@)
                    + repositories_series(g, RepositoryKind::Repository, stores.repositories@)
                    + repositories_series(
                    g,
                    RepositoryKind::ClusterRepository,
                    stores.cluster_repositories@,
                ) + restores_series(g, stores.restores@));
            }
            out
        },
    }
}

/// The same, or nothing where the gauge sums files that cannot be counted.
pub fn checked_samples(
    g: Instrument,
    stores: &ResourceStores,
    groups: &Vec<PolicyGroup>,
    streaks: &Vec<i64>,
) -> (r: Option<Vec<Sample>>)
    requires
        tells_figures(g) ==> streaks_fit(groups@, streaks@, stores.snapshots@),
        stores.snapshots@.len() <= i64::MAX,
    ensures
        r is Some <==> files_countable(g, stores.snapshots@),
        r matches Some(samples) ==> tells(g, *stores, groups@, streaks@, sample_views(samples@)),
{
    if can_sum_files(g, &stores.snapshots) {
        Some(resource_samples(g, stores, groups, streaks))
    } else {
        None
    }
}

/// A series that comes of a sequence comes of one of its items: when the item is
/// gone, so is the series.
pub proof fn lemma_series_come_of_objects<T>(v: Seq<T>, f: spec_fn(T) -> Option<SampleView>)
    ensures
        picked(v, f).len() <= v.len(),
        forall|x: SampleView|
            picked(v, f).contains(x) <==> exists|i: int| 0 <= i < v.len() && f(#[trigger] v[i]) == Some(x),
    decreases v.len(),
{
    if v.len() > 0 {
        let rest = v.drop_last();
        let n = v.len() - 1;
        lemma_series_come_of_objects(rest, f);
        let (before, all) = (picked(rest, f), picked(v, f));
        assert forall|x: SampleView|
            all.contains(x) <==> exists|i: int| 0 <= i < v.len() && f(#[trigger] v[i]) == Some(x) by {
            if all.contains(x) {
                let a = all.index_of(x);
                if a < before.len() {
                    assert(before[a] == x);
                    assert(before.contains(x));
                    let i = choose|i: int| 0 <= i < rest.len() && f(#[trigger] rest[i]) == Some(x);
                    assert(f(v[i]) == Some(x));
                } else {
                    assert(f(v[n]) == Some(x));
                }
            }
            if exists|i: int| 0 <= i < v.len() && f(#[trigger] v[i]) == Some(x) {
                let i = choose|i: int| 0 <= i < v.len() && f(#[trigger] v[i]) == Some(x);
                if i < n {
                    assert(f(rest[i]) == Some(x));
                    assert(before.contains(x));
                    let a = before.index_of(x);
                    assert(all[a] == x);
                } else {
                    assert(all[all.len() - 1] == x);
                }
            }
        }
    }
}

/// Whether each object has one phase series, for the phase that it is in, and its value
/// is one: no phase that an object is not in has a series of its own.
pub open spec fn one_phase_each<T>(
    v: Seq<T>,
    f: spec_fn(T) -> Option<SampleView>,
    all: Seq<SampleView>,
) -> bool {
    &&& all.len() == v.len()
    &&& forall|i: int| 0 <= i < v.len() ==> Some(#[trigger] all[i]) == f(v[i]) && all[i].0 == 1
}

proof fn lemma_one_phase_each<T>(v: Seq<T>, f: spec_fn(T) -> Option<SampleView>)
    requires
        forall|x: T| (#[trigger] f(x)) matches Some(s) && s.0 == 1,
    ensures
        one_phase_each(v, f, picked(v, f)),
    decreases v.len(),
{
    if v.len() > 0 {
        let rest = v.drop_last();
        lemma_one_phase_each(rest, f);
        assert(f(v.last()) is Some);
        assert forall|i: int| 0 <= i < v.len() implies Some(#[trigger] picked(v, f)[i]) == f(v[i])
            && picked(v, f)[i].0 == 1 by {
            if i < rest.len() {
                assert(picked(v, f)[i] == picked(rest, f)[i]);
                assert(rest[i] == v[i]);
            }
        }
    }
}

/// Each object of whatever kind has one phase series, for the phase that it is in, and
/// its value is one: no phase that an object is not in has a series of its own.
pub proof fn lemma_one_phase_series_per_object(
    snapshots: Seq<Snapshot>,
    kind: RepositoryKind,
    repositories: Seq<RepositoryObject>,
    restores: Seq<RestoreObject>,
)
    ensures
        one_phase_each(
            snapshots,
            |s: Snapshot| snapshot_series(Instrument::ResourcePhase, s),
            snapshots_series(Instrument::ResourcePhase, snapshots),
        ),
        one_phase_each(
            repositories,
            |r: RepositoryObject| repository_series(Instrument::ResourcePhase, kind, r),
            repositories_series(Instrument::ResourcePhase, kind, repositories),
        ),
        one_phase_each(
            restores,
            |r: RestoreObject| restore_series(Instrument::ResourcePhase, r),
            restores_series(Instrument::ResourcePhase, restores),
        ),
{
    lemma_one_phase_each(
        snapshots,
        |s: Snapshot| snapshot_series(Instrument::ResourcePhase, s),
    );
    lemma_one_phase_each(
        repositories,
        |r: RepositoryObject| repository_series(Instrument::ResourcePhase, kind, r),
    );
    lemma_one_phase_each(restores, |r: RestoreObject| restore_series(Instrument::ResourcePhase, r));
}

/// What is told of how many Snapshots a policy has is how many there are that name
/// it, and each policy that a Snapshot names is told of.
pub proof fn lemma_live_counts_the_policys_snapshots(
    v: Seq<Snapshot>,
    groups: Seq<PolicyGroup>,
    streaks: Seq<i64>,
    rows: Seq<PolicySnapshots>,
)
    requires
        streaks_fit(groups, streaks, v),
        count_rows(rows, groups, streaks),
    ensures
        forall|i: int|
            0 <= i < rows.len() ==> (#[trigger] rows[i]).live == members_for(
                v,
                (rows[i].namespace@, Some(rows[i].policy@)),
            ).len(),
        forall|n: int|
            0 <= n < v.len() && policy_key(#[trigger] v[n]) is Some ==> exists|i: int|
                0 <= i < rows.len() && policy_key(v[n]) == Some(
                    (#[trigger] rows[i].namespace@, Some(rows[i].policy@)),
                ),
{
    let table = group_table(groups);
    let f = |k: Key| group_for(v, k);
    assert forall|i: int| 0 <= i < rows.len() implies (#[trigger] rows[i]).live == members_for(
        v,
        (rows[i].namespace@, Some(rows[i].policy@)),
    ).len() by {
        assert(f(key_of(table[i])) == Some(table[i].value@));
    }
    assert forall|n: int| 0 <= n < v.len() && policy_key(#[trigger] v[n]) is Some implies exists|
        i: int,
    |
        0 <= i < rows.len() && policy_key(v[n]) == Some(
            (#[trigger] rows[i].namespace@, Some(rows[i].policy@)),
        ) by {
        let k = policy_key(v[n])->0;
        lemma_named_has_members(v, n);
        assert(f(k) is Some);
        assert(has_key(table, k));
        let i = choose|i: int| 0 <= i < table.len() && #[trigger] key_of(table[i]) == k;
        assert(rows[i].namespace@ == k.0);
    }
}

/// What a value tells: its series where there is one, and none where there is none.
pub proof fn lemma_absent_values_have_no_series(v: i64, labels: Seq<LabelView>)
    ensures
        series_if(Some(v), labels) == Some((v, labels)),
        series_if(None, labels) is None,
{
}

/// What each gauge tells of a Snapshot: its own figure under the Snapshot's labels, and
/// nothing where the figure is not known. The other gauges tell nothing of it alone.
pub proof fn lemma_gauges_of_a_snapshot(s: Snapshot)
    ensures
        snapshot_series(Instrument::SnapshotSize, s) == series_if(size_of_snapshot(s), stat_labels(s)),
        snapshot_series(Instrument::SnapshotFiles, s) == series_if(files_of(s), stat_labels(s)),
        snapshot_series(Instrument::SnapshotDuration, s) == series_if(duration_of(s), stat_labels(s)),
        snapshot_series(Instrument::SnapshotLastSuccess, s) == series_if(
            success_unix(s),
            stat_labels(s),
        ),
        snapshot_series(Instrument::ResourcePhase, s) == Some(
            (
                1i64,
                phase_labels(
                    "Snapshot"@,
                    or_empty(s.namespace),
                    s.name@,
                    snapshot_phase_text(active_phase(s)),
                ) + policy_label(opt_text(s.policy)),
            ),
        ),
        snapshot_series(Instrument::BackendFailures, s) is None,
        snapshot_series(Instrument::BreakerOpenSince, s) is None,
{
}

/// What each gauge tells of a repository: its phase always, its failures in a row once its
/// health was looked at, and since when its breaker is open while it is. A cluster-wide one
/// is told without a namespace.
pub proof fn lemma_gauges_of_a_repository(r: RepositoryObject)
    ensures
        shown_namespace(RepositoryKind::Repository, r) == or_empty(r.namespace),
        shown_namespace(RepositoryKind::ClusterRepository, r) == ""@,
        forall|kind: RepositoryKind| #[trigger]
            repository_series(Instrument::ResourcePhase, kind, r) == Some(
                (
                    1i64,
                    phase_labels(
                        kind_text(kind),
                        shown_namespace(kind, r),
                        r.name@,
                        repository_phase_text(r),
                    ),
                ),
            ),
        forall|kind: RepositoryKind|
            r.status is None ==> (#[trigger] repository_series(Instrument::BackendFailures, kind, r)) is None,
        forall|kind: RepositoryKind|
            (r.status matches Some(st) && st.health is None) ==> (#[trigger] repository_series(
                Instrument::BackendFailures,
                kind,
                r,
            )) is None,
        forall|kind: RepositoryKind|
            (r.status matches Some(st) && st.health is Some) ==> (#[trigger] repository_series(
                Instrument::BackendFailures,
                kind,
                r,
            )) == Some(
                (
                    match r.status->0.health->0.consecutive_probe_failures {
                        Some(n) => n,
                        None => 0,
                    },
                    repo_labels(kind_text(kind), shown_namespace(kind, r), r.name@),
                ),
            ),
        forall|kind: RepositoryKind|
            r.status is Some ==> (#[trigger] repository_series(Instrument::BreakerOpenSince, kind, r))
                == series_if(
                open_since(
                    r.status->0.phase,
                    r.status->0.health,
                    condition_views(r.status->0.conditions@),
                ),
                repo_labels(kind_text(kind), shown_namespace(kind, r), r.name@),
            ),
        forall|kind: RepositoryKind|
            r.status is None ==> (#[trigger] repository_series(Instrument::BreakerOpenSince, kind, r)) is None,
{
}

/// What the gauges tell of a `Restore`: its phase.
pub proof fn lemma_gauges_of_a_restore(r: RestoreObject)
    ensures
        restore_series(Instrument::ResourcePhase, r) == Some(
            (
                1i64,
                phase_labels("Restore"@, or_empty(r.namespace), r.name@, restore_phase_text(r)),
            ),
        ),
        restore_series(Instrument::BackendFailures, r) is None,
        restore_series(Instrument::SnapshotSize, r) is None,
{
}

/// What the gauges tell of a policy: each its own figure of the latest success, whether the
/// last run succeeded, how many Snapshots there are, how many failed in a row, and how many
/// wait.
pub proof fn lemma_gauges_of_a_policy(
    l: PolicyLatest,
    h: PolicyHealth,
    c: PolicySnapshots,
    g: GatedSnapshots,
    d: RepoDeletions,
)
    ensures
        latest_series(Instrument::PolicyLastSuccess, l) == Some(
            (l.end_unix, seq![("namespace"@, l.namespace@), ("policy"@, l.policy@)]),
        ),
        latest_series(Instrument::PolicyLastDuration, l) == series_if(
            l.duration_seconds,
            seq![("namespace"@, l.namespace@), ("policy"@, l.policy@)],
        ),
        latest_series(Instrument::PolicyLastSize, l) == series_if(
            l.size_bytes,
            seq![("namespace"@, l.namespace@), ("policy"@, l.policy@)],
        ),
        latest_series(Instrument::PolicyLastFiles, l) == series_if(
            l.files,
            seq![("namespace"@, l.namespace@), ("policy"@, l.policy@)],
        ),
        health_series(h) == Some(
            (
                if h.healthy {
                    1i64
                } else {
                    0i64
                },
                seq![("namespace"@, h.namespace@), ("policy"@, h.policy@)],
            ),
        ),
        count_series(Instrument::ConsecutiveFailures, c) == Some(
            (c.consecutive_failures, seq![("namespace"@, c.namespace@), ("name"@, c.policy@)]),
        ),
        count_series(Instrument::SnapshotsLive, c) == Some(
            (c.live, seq![("namespace"@, c.namespace@), ("name"@, c.policy@)]),
        ),
        gated_series(g) == Some(
            (g.count, seq![("namespace"@, g.namespace@)] + policy_label(opt_text(g.policy))),
        ),
        deletion_series(d) == Some(
            (d.count, seq![("repo_kind"@, d.repo_kind@), ("repo_name"@, d.repo_name@)]),
        ),
{
}

/// What a gauge tells of all objects is what it tells of each, and nothing else: of the
/// Snapshots, then of the repositories of either kind, then of the `Restore`s.
pub proof fn lemma_what_is_told_of_all(
    g: Instrument,
    stores: ResourceStores,
    groups: Seq<PolicyGroup>,
    streaks: Seq<i64>,
    samples: Seq<SampleView>,
)
    requires
        tells(g, stores, groups, streaks, samples),
        g == Instrument::ResourcePhase || g == Instrument::SnapshotSize || g
            == Instrument::SnapshotFiles || g == Instrument::SnapshotDuration || g
            == Instrument::SnapshotLastSuccess || g == Instrument::BackendFailures || g
            == Instrument::BreakerOpenSince,
    ensures
        forall|i: int|
            0 <= i < stores.snapshots@.len() ==> (snapshot_series(
                g,
                #[trigger] stores.snapshots@[i],
            ) matches Some(x) ==> samples.contains(x)),
        forall|i: int|
            0 <= i < stores.repositories@.len() ==> (repository_series(
                g,
                RepositoryKind::Repository,
                #[trigger] stores.repositories@[i],
            ) matches Some(x) ==> samples.contains(x)),
        forall|i: int|
            0 <= i < stores.cluster_repositories@.len() ==> (repository_series(
                g,
                RepositoryKind::ClusterRepository,
                #[trigger] stores.cluster_repositories@[i],
            ) matches Some(x) ==> samples.contains(x)),
        forall|i: int|
            0 <= i < stores.restores@.len() ==> (restore_series(
                g,
                #[trigger] stores.restores@[i],
            ) matches Some(x) ==> samples.contains(x)),
        samples.len() <= stores.snapshots@.len() + stores.repositories@.len()
            + stores.cluster_repositories@.len() + stores.restores@.len(),
{
    let f = |s: Snapshot| snapshot_series(g, s);
    let p = |r: RepositoryObject| repository_series(g, RepositoryKind::Repository, r);
    let q = |r: RepositoryObject| repository_series(g, RepositoryKind::ClusterRepository, r);
    let h = |r: RestoreObject| restore_series(g, r);
    let a = snapshots_series(g, stores.snapshots@);
    let b = repositories_series(g, RepositoryKind::Repository, stores.repositories@);
    let c = repositories_series(g, RepositoryKind::ClusterRepository, stores.cluster_repositories@);
    let d = restores_series(g, stores.restores@);
    lemma_series_come_of_objects(stores.snapshots@, f);
    lemma_series_come_of_objects(stores.repositories@, p);
    lemma_series_come_of_objects(stores.cluster_repositories@, q);
    lemma_series_come_of_objects(stores.restores@, h);
    assert(a == picked(stores.snapshots@, f));
    assert(b == picked(stores.repositories@, p));
    assert(c == picked(stores.cluster_repositories@, q));
    assert(d == picked(stores.restores@, h));
    assert(samples == a + b + c + d);
    assert forall|i: int| 0 <= i < stores.snapshots@.len() implies (snapshot_series(
        g,
        #[trigger] stores.snapshots@[i],
    ) matches Some(x) ==> samples.contains(x)) by {
        if snapshot_series(g, stores.snapshots@[i]) is Some {
            let x = snapshot_series(g, stores.snapshots@[i])->0;
            assert(f(stores.snapshots@[i]) == Some(x));
            assert(a.contains(x));
            let n = a.index_of(x);
            assert(samples[n] == x);
        }
    }
    assert forall|i: int| 0 <= i < stores.repositories@.len() implies (repository_series(
        g,
        RepositoryKind::Repository,
        #[trigger] stores.repositories@[i],
    ) matches Some(x) ==> samples.contains(x)) by {
        if repository_series(g, RepositoryKind::Repository, stores.repositories@[i]) is Some {
            let x = repository_series(g, RepositoryKind::Repository, stores.repositories@[i])->0;
            assert(p(stores.repositories@[i]) == Some(x));
            assert(b.contains(x));
            let n = b.index_of(x);
            assert(samples[a.len() + n] == x);
        }
    }
    assert forall|i: int| 0 <= i < stores.cluster_repositories@.len() implies (repository_series(
        g,
        RepositoryKind::ClusterRepository,
        #[trigger] stores.cluster_repositories@[i],
    ) matches Some(x) ==> samples.contains(x)) by {
        let r = stores.cluster_repositories@[i];
        if repository_series(g, RepositoryKind::ClusterRepository, r) is Some {
            let x = repository_series(g, RepositoryKind::ClusterRepository, r)->0;
            assert(q(r) == Some(x));
            assert(c.contains(x));
            let n = c.index_of(x);
            assert(samples[a.len() + b.len() + n] == x);
        }
    }
    assert forall|i: int| 0 <= i < stores.restores@.len() implies (restore_series(
        g,
        #[trigger] stores.restores@[i],
    ) matches Some(x) ==> samples.contains(x)) by {
        if restore_series(g, stores.restores@[i]) is Some {
            let x = restore_series(g, stores.restores@[i])->0;
            assert(h(stores.restores@[i]) == Some(x));
            assert(d.contains(x));
            let n = d.index_of(x);
            assert(samples[a.len() + b.len() + c.len() + n] == x);
        }
    }
}

/// What the gauges over policies and pinned repositories tell is read off the rows of the
/// Snapshots there are.
pub proof fn lemma_what_is_told_of_rows(
    g: Instrument,
    stores: ResourceStores,
    groups: Seq<PolicyGroup>,
    streaks: Seq<i64>,
    samples: Seq<SampleView>,
)
    requires
        tells(g, stores, groups, streaks, samples),
    ensures
        g == Instrument::PolicyHealthy ==> exists|rows: Seq<PolicyHealth>| #[trigger]
            health_rows(rows, stores.snapshots@) && samples == picked(
                rows,
                |p: PolicyHealth| health_series(p),
            ),
        g == Instrument::SnapshotsGated ==> exists|rows: Seq<GatedSnapshots>| #[trigger]
            gated_rows(rows, stores.snapshots@) && samples == picked(
                rows,
                |p: GatedSnapshots| gated_series(p),
            ),
        g == Instrument::DeletionsPending ==> exists|rows: Seq<RepoDeletions>| #[trigger]
            deletion_rows(rows, stores.snapshots@, false) && samples == picked(
                rows,
                |p: RepoDeletions| deletion_series(p),
            ),
        g == Instrument::DeletionsHeld ==> exists|rows: Seq<RepoDeletions>| #[trigger]
            deletion_rows(rows, stores.snapshots@, true) && samples == picked(
                rows,
                |p: RepoDeletions| deletion_series(p),
            ),
        g == Instrument::PolicyLastSuccess || g == Instrument::PolicyLastDuration || g
            == Instrument::PolicyLastSize || g == Instrument::PolicyLastFiles ==> exists|
            rows: Seq<PolicyLatest>,
        | #[trigger]
            latest_rows(rows, stores.snapshots@) && samples == picked(
                rows,
                |p: PolicyLatest| latest_series(g, p),
            ),
        g == Instrument::ConsecutiveFailures || g == Instrument::SnapshotsLive ==> exists|
            rows: Seq<PolicySnapshots>,
        | #[trigger]
            count_rows(rows, groups, streaks) && samples == picked(
                rows,
                |p: PolicySnapshots| count_series(g, p),
            ),
{
}

/// The files that a gauge sums have to be countable, and only those.
pub proof fn lemma_which_files_are_summed(g: Instrument, v: Seq<Snapshot>)
    ensures
        files_countable(Instrument::SnapshotFiles, v) <==> forall|i: int|
            0 <= i < v.len() ==> snapshot_countable(#[trigger] v[i]),
        files_countable(Instrument::PolicyLastFiles, v) <==> forall|i: int|
            0 <= i < v.len() && v[i].policy is Some && success_unix(v[i]) is Some
                ==> snapshot_countable(#[trigger] v[i]),
        g != Instrument::SnapshotFiles && g != Instrument::PolicyLastSuccess && g
            != Instrument::PolicyLastDuration && g != Instrument::PolicyLastSize && g
            != Instrument::PolicyLastFiles ==> files_countable(g, v),
{
    if files_countable(Instrument::PolicyLastFiles, v) {
        assert forall|i: int|
            0 <= i < v.len() && v[i].policy is Some && success_unix(v[i]) is Some implies snapshot_countable(
            #[trigger] v[i],
        ) by {
            assert(success_of_policy(v[i]));
        }
    }
}

/// Only two gauges tell a policy's figures, and they need the policies' own groups with a
/// streak for each.
pub proof fn lemma_which_gauges_tell_figures(
    g: Instrument,
    groups: Seq<PolicyGroup>,
    streaks: Seq<i64>,
    v: Seq<Snapshot>,
)
    ensures
        tells_figures(g) <==> g == Instrument::ConsecutiveFailures || g == Instrument::SnapshotsLive,
        streaks_fit(groups, streaks, v) <==> group_rows(groups, v) && groups.len() == streaks.len(),
{
}

} // verus!
