use kopiur_controller::consts::SNAPSHOT_CLEANUP_FINALIZER;
use kopiur_controller::io::apply::RepositoryPhase;
use kopiur_controller::io::conditions::Condition;
use kopiur_controller::io::group_staging::SnapshotPhase;
use kopiur_controller::io::repo::{RepositoryHealthStatus, RepositoryStatus};
use kopiur_controller::metrics::deletions::{deletion_counts, RepoDeletions};
use kopiur_controller::metrics::instruments::{
    BatchJobOutcome, BatchMemberOutcome, Change, Instrument, InstrumentKind, Measure, Metrics,
    PolicyCascadeMode, SnapshotDeletionOutcome,
};
use kopiur_controller::metrics::memory::resident_memory_bytes;
use kopiur_controller::metrics::observe::{
    can_sum_files, checked_samples, repo_gauge_attrs, resource_samples,
};
use kopiur_controller::metrics::series::{
    breaker_open_since, can_count_files, counts_toward_deletion_gauge, deletion_held,
    gated_snapshot_counts, latest_per_policy, parse_unix_seconds, policy_backup_health,
    policy_snapshot_counts, policy_snapshot_groups, repo_consecutive_backend_failures,
    snapshot_file_count, snapshot_gated, snapshot_success_unix, GatedSnapshots, Label,
    PolicyHealth, PolicySnapshots, RepositoryObject, ResourceStores, RestoreObject, Snapshot,
    SnapshotStats, SnapshotStatus, SnapshotTiming,
};
use kopiur_controller::naming::{RepositoryKind, RepositoryRef};

const END_TIME: &str = "2026-05-24T02:18:42Z";
const END_UNIX: i64 = 1_779_589_122;

const GAUGES: [Instrument; 17] = [
    Instrument::ResourcePhase,
    Instrument::SnapshotSize,
    Instrument::SnapshotFiles,
    Instrument::SnapshotDuration,
    Instrument::SnapshotLastSuccess,
    Instrument::PolicyLastSuccess,
    Instrument::PolicyLastDuration,
    Instrument::PolicyLastSize,
    Instrument::PolicyLastFiles,
    Instrument::PolicyHealthy,
    Instrument::DeletionsPending,
    Instrument::DeletionsHeld,
    Instrument::ConsecutiveFailures,
    Instrument::SnapshotsLive,
    Instrument::SnapshotsGated,
    Instrument::BackendFailures,
    Instrument::BreakerOpenSince,
];

fn line(name: &str, labels: &[Label], value: &str) -> String {
    let inner: Vec<String> = labels
        .iter()
        .map(|l| format!("{}=\"{}\"", l.key, l.value))
        .collect();
    format!("{}{{{}}} {}", name, inner.join(","), value)
}

/// Every series that is read off the objects, one line each, with a policy's streak
/// for each of its groups.
fn gather_counted(stores: &ResourceStores, streaks: &Vec<i64>) -> String {
    let groups = policy_snapshot_groups(&stores.snapshots);
    assert_eq!(groups.len(), streaks.len());
    let mut text = String::new();
    for g in GAUGES {
        assert!(can_sum_files(g, &stores.snapshots));
        for s in resource_samples(g, stores, &groups, streaks) {
            text.push_str(&line(g.name(), &s.labels, &s.value.to_string()));
            text.push('\n');
        }
    }
    text
}

fn gather_with(stores: &ResourceStores) -> String {
    let groups = policy_snapshot_groups(&stores.snapshots);
    gather_counted(stores, &vec![0; groups.len()])
}

/// Every change, one line each, as if it were the first.
fn changed(m: &Metrics) -> String {
    let mut text = String::new();
    for c in &m.changes {
        let value = match c.measure {
            Measure::Add(n) => n.to_string(),
            Measure::Put(n) => n.to_string(),
            Measure::Timed => "timed".to_string(),
        };
        text.push_str(&line(c.instrument.name(), &c.labels, &value));
        text.push('\n');
    }
    text
}

fn stores(snapshots: Vec<Snapshot>) -> ResourceStores {
    ResourceStores {
        snapshots,
        repositories: vec![],
        cluster_repositories: vec![],
        restores: vec![],
    }
}

fn snapshot_cr(ns: &str, name: &str, policy: Option<&str>, status: SnapshotStatus) -> Snapshot {
    Snapshot {
        namespace: Some(ns.to_string()),
        name: name.to_string(),
        created_at: None,
        deleting: false,
        finalizers: vec![],
        policy: policy.map(str::to_string),
        status: Some(status),
    }
}

fn bare_status() -> SnapshotStatus {
    SnapshotStatus {
        phase: None,
        stats: None,
        timing: None,
        conditions: vec![],
        repository: None,
    }
}

fn phase_status(phase: SnapshotPhase) -> SnapshotStatus {
    SnapshotStatus {
        phase: Some(phase),
        ..bare_status()
    }
}

fn succeeded_status(size: i64, dur: i64, end_time: &str) -> SnapshotStatus {
    SnapshotStatus {
        phase: Some(SnapshotPhase::Succeeded),
        timing: Some(SnapshotTiming {
            end_time: Some(end_time.to_string()),
            duration_seconds: Some(dur),
        }),
        stats: Some(SnapshotStats {
            size_bytes: Some(size),
            files_new: Some(3),
            files_modified: Some(1),
            files_unchanged: Some(6),
        }),
        conditions: vec![],
        repository: None,
    }
}

fn failed_status(end_time: &str) -> SnapshotStatus {
    SnapshotStatus {
        phase: Some(SnapshotPhase::Failed),
        timing: Some(SnapshotTiming {
            end_time: Some(end_time.to_string()),
            duration_seconds: None,
        }),
        ..bare_status()
    }
}

fn condition(type_: &str, status: &str, reason: &str) -> Condition {
    Condition {
        type_: type_.to_string(),
        status: status.to_string(),
        reason: reason.to_string(),
        message: "m".to_string(),
        observed_generation: None,
        last_transition_time: "2026-01-01T00:00:00Z".to_string(),
    }
}

fn repo_status(
    phase: RepositoryPhase,
    health: Option<RepositoryHealthStatus>,
    conditions: Vec<Condition>,
) -> RepositoryStatus {
    RepositoryStatus {
        phase: Some(phase),
        conditions,
        storage_stats: None,
        health,
        last_reverify_at: None,
    }
}

fn repository_cr_with_status(
    ns: Option<&str>,
    name: &str,
    status: RepositoryStatus,
) -> RepositoryObject {
    RepositoryObject {
        namespace: ns.map(str::to_string),
        name: name.to_string(),
        status: Some(status),
    }
}

fn series_value(text: &str, metric: &str, contains: &[&str]) -> Option<String> {
    text.lines()
        .find(|l| l.starts_with(&format!("{metric}{{")) && contains.iter().all(|c| l.contains(c)))
        .map(|l| l.rsplit(' ').next().unwrap().to_string())
}

#[test]
fn metrics_register_and_export_under_kopiur_namespace() {
    let mut m = Metrics::new();
    m.record_reconcile("Snapshot");
    m.record_error("Snapshot", "transient");
    m.inc_orphaned_snapshot("ns");
    m.inc_work_spec_cms_swept(1);
    m.inc_projected_secrets_swept(1);
    m.set_snapshot_verified("ns", "db", 1_700_000_000);
    m.set_repository_maintenance_configured("Repository", "ns", "nas", false);
    let text = format!(
        "{}{}",
        changed(&m),
        gather_with(&stores(vec![snapshot_cr(
            "ns",
            "db",
            Some("daily"),
            succeeded_status(1234, 5, END_TIME),
        )]))
    );
    for name in [
        "kopiur_controller_reconciliations",
        "kopiur_orphaned_snapshots",
        "kopiur_work_spec_cms_swept",
        "kopiur_projected_secrets_swept",
        "kopiur_resource_phase",
        "kopiur_snapshot_size_bytes",
        "kopiur_snapshot_verified_timestamp_seconds",
        "kopiur_repository_maintenance_configured",
    ] {
        assert!(text.contains(name), "{text}");
    }
    assert!(text.lines().all(|l| l.starts_with("kopiur_")), "{text}");
    assert!(text.contains(
        "kopiur_repository_maintenance_configured{kind=\"Repository\",namespace=\"ns\",name=\"nas\"} 0"
    ));
    assert!(text.contains("kopiur_controller_reconcile_duration_seconds{kind=\"Snapshot\"} timed"));
}

#[test]
fn repo_catalog_sets_snapshot_discovered_and_foreign_gauges() {
    let mut m = Metrics::new();
    m.set_repo_catalog("apps", "nas", Some(42), Some(7), Some(3));
    let text = changed(&m);
    let find = |metric: &str| series_value(&text, metric, &["name=\"nas\""]).unwrap();
    assert_eq!(find("kopiur_repo_snapshot_count"), "42");
    assert_eq!(find("kopiur_repo_discovered_snapshots"), "7");
    assert_eq!(find("kopiur_repo_foreign_snapshots"), "3");
}

#[test]
fn repo_catalog_omits_the_foreign_gauge_series_when_unset() {
    let mut m = Metrics::new();
    m.set_repo_catalog("apps", "nas", Some(1), Some(0), None);
    let text = changed(&m);
    assert!(
        series_value(&text, "kopiur_repo_foreign_snapshots", &["name=\"nas\""]).is_none(),
        "{text}"
    );
    assert_eq!(m.changes.len(), 2);
}

#[test]
fn backup_refusals_export_with_the_reason_label() {
    let mut m = Metrics::new();
    m.inc_backup_refused("apps", "db-daily", "RepositoryReadOnly");
    let text = changed(&m);
    assert!(text.contains("kopiur_snapshot_refusals"), "{text}");
    assert!(text.contains("reason=\"RepositoryReadOnly\""), "{text}");
    assert!(text.contains("name=\"db-daily\""), "{text}");
}

#[test]
fn succeeded_snapshot_emits_single_active_phase_and_stats() {
    let text = gather_with(&stores(vec![snapshot_cr(
        "apps",
        "db",
        Some("daily"),
        succeeded_status(4321, 42, END_TIME),
    )]));
    let phase_lines: Vec<&str> = text
        .lines()
        .filter(|l| l.starts_with("kopiur_resource_phase{") && l.contains("name=\"db\""))
        .collect();
    assert_eq!(phase_lines.len(), 1, "exactly one phase series: {text}");
    let line = phase_lines[0];
    assert!(line.contains("phase=\"Succeeded\""), "{line}");
    assert!(line.contains("policy=\"daily\""), "{line}");
    assert!(line.trim_end().ends_with(" 1"), "active phase is 1: {line}");
    for metric in [
        "kopiur_snapshot_size_bytes",
        "kopiur_snapshot_files",
        "kopiur_snapshot_duration_seconds",
        "kopiur_snapshot_last_success_timestamp_seconds",
    ] {
        let l = text
            .lines()
            .find(|l| l.starts_with(&format!("{metric}{{")) && l.contains("name=\"db\""))
            .unwrap_or_else(|| panic!("missing {metric}: {text}"));
        assert!(l.contains("policy=\"daily\""), "{l}");
    }
    let value = |metric: &str| series_value(&text, metric, &[]).unwrap();
    assert_eq!(
        value("kopiur_snapshot_last_success_timestamp_seconds"),
        END_UNIX.to_string()
    );
    assert_eq!(value("kopiur_snapshot_size_bytes"), "4321");
    assert_eq!(value("kopiur_snapshot_files"), "10");
    assert_eq!(value("kopiur_snapshot_duration_seconds"), "42");
}

#[test]
fn deleted_snapshot_series_disappear() {
    let mut s = stores(vec![snapshot_cr(
        "apps",
        "db",
        Some("daily"),
        succeeded_status(4321, 42, END_TIME),
    )]);
    let before = gather_with(&s);
    assert!(before.contains("name=\"db\""), "present before delete: {before}");
    s.snapshots.clear();
    assert_eq!(gather_with(&s), "");
}

#[test]
fn policy_last_backup_reflects_newest_succeeded() {
    let mut failed_newer = failed_status("2027-01-01T00:00:00Z");
    failed_newer.timing = Some(SnapshotTiming {
        end_time: Some("2027-01-01T00:00:00Z".to_string()),
        duration_seconds: Some(99),
    });
    failed_newer.stats = Some(SnapshotStats {
        size_bytes: Some(999),
        files_new: None,
        files_modified: None,
        files_unchanged: None,
    });
    let text = gather_with(&stores(vec![
        snapshot_cr(
            "apps",
            "db-1",
            Some("daily"),
            succeeded_status(100, 10, "2026-05-24T00:00:00Z"),
        ),
        snapshot_cr("apps", "db-2", Some("daily"), succeeded_status(200, 20, END_TIME)),
        snapshot_cr("apps", "db-3", Some("daily"), failed_newer),
    ]));
    let val = |metric: &str| series_value(&text, metric, &["policy=\"daily\""]).unwrap();
    assert_eq!(val("kopiur_policy_last_backup_size_bytes"), "200");
    assert_eq!(val("kopiur_policy_last_backup_duration_seconds"), "20");
    assert_eq!(
        val("kopiur_policy_last_backup_success_timestamp_seconds"),
        END_UNIX.to_string()
    );
    assert_eq!(val("kopiur_policy_last_backup_files"), "10");
}

fn snap_created(name: &str, policy: &str, phase: SnapshotPhase, created: &str) -> Snapshot {
    Snapshot {
        created_at: parse_unix_seconds(created),
        ..snapshot_cr("apps", name, Some(policy), phase_status(phase))
    }
}

#[test]
fn policy_backup_health_reflects_latest_terminal_attempt() {
    let discovered = Snapshot {
        created_at: parse_unix_seconds("2026-06-01T00:00:00Z"),
        ..snapshot_cr("apps", "disc", None, phase_status(SnapshotPhase::Discovered))
    };
    let snaps = vec![
        snap_created("a-1", "a", SnapshotPhase::Succeeded, "2026-05-01T00:00:00Z"),
        snap_created("a-2", "a", SnapshotPhase::Failed, "2026-05-02T00:00:00Z"),
        snap_created("b-1", "b", SnapshotPhase::Failed, "2026-05-01T00:00:00Z"),
        snap_created("b-2", "b", SnapshotPhase::Succeeded, "2026-05-02T00:00:00Z"),
        snap_created("c-1", "c", SnapshotPhase::Succeeded, "2026-05-01T00:00:00Z"),
        snap_created("d-1", "d", SnapshotPhase::Running, "2026-05-01T00:00:00Z"),
        discovered,
    ];
    let health = policy_backup_health(&snaps);
    let row = |policy: &str, healthy: bool| PolicyHealth {
        namespace: "apps".into(),
        policy: policy.into(),
        healthy,
    };
    assert_eq!(health, vec![row("a", false), row("b", true), row("c", true)]);
    assert_eq!(health.iter().filter(|h| h.healthy).count(), 2);
}

#[test]
fn policy_backup_health_gauge_exports_zero_and_one_per_policy() {
    let text = gather_with(&stores(vec![
        snap_created("ok-1", "ok", SnapshotPhase::Succeeded, "2026-05-01T00:00:00Z"),
        snap_created("bad-1", "bad", SnapshotPhase::Failed, "2026-05-01T00:00:00Z"),
    ]));
    let value = |policy: &str| {
        series_value(
            &text,
            "kopiur_snapshotpolicy_last_backup_success",
            &[&format!("policy=\"{policy}\"")],
        )
        .unwrap()
    };
    assert_eq!(value("ok"), "1");
    assert_eq!(value("bad"), "0");
}

#[test]
fn snapshot_without_policyref_omits_policy_label() {
    let text = gather_with(&stores(vec![snapshot_cr(
        "apps",
        "orphan",
        None,
        succeeded_status(50, 5, END_TIME),
    )]));
    let phase_line = text
        .lines()
        .find(|l| l.starts_with("kopiur_resource_phase{") && l.contains("name=\"orphan\""))
        .unwrap();
    assert!(!phase_line.contains("policy="), "no policy label: {phase_line}");
    assert!(!text.contains("kopiur_policy_last_backup"), "{text}");
}

#[test]
fn repo_cluster_restore_emit_phase_without_policy() {
    let ready = || repo_status(RepositoryPhase::Ready, None, vec![]);
    let s = ResourceStores {
        snapshots: vec![],
        repositories: vec![repository_cr_with_status(Some("ns"), "nas", ready())],
        cluster_repositories: vec![repository_cr_with_status(None, "shared", ready())],
        restores: vec![RestoreObject {
            namespace: Some("ns".to_string()),
            name: "rst".to_string(),
            phase: Some("Restoring".to_string()),
        }],
    };
    let text = gather_with(&s);
    for (kind, name) in [
        ("Repository", "nas"),
        ("ClusterRepository", "shared"),
        ("Restore", "rst"),
    ] {
        let line = text
            .lines()
            .find(|l| {
                l.starts_with("kopiur_resource_phase{")
                    && l.contains(&format!("kind=\"{kind}\""))
                    && l.contains(&format!("name=\"{name}\""))
            })
            .unwrap_or_else(|| panic!("missing {kind}/{name}: {text}"));
        assert!(!line.contains("policy="), "{kind} has no policy label: {line}");
        assert!(line.trim_end().ends_with(" 1"), "{line}");
    }
    assert_eq!(text.lines().count(), 3);
    assert_eq!(
        text,
        "kopiur_resource_phase{kind=\"Repository\",namespace=\"ns\",name=\"nas\",phase=\"Ready\"} 1\n\
         kopiur_resource_phase{kind=\"ClusterRepository\",namespace=\"\",name=\"shared\",phase=\"Ready\"} 1\n\
         kopiur_resource_phase{kind=\"Restore\",namespace=\"ns\",name=\"rst\",phase=\"Restoring\"} 1\n"
    );
}

#[test]
fn an_object_without_a_phase_is_in_the_first_one() {
    let bare = |name: &str, status: Option<RepositoryStatus>| RepositoryObject {
        namespace: Some("ns".to_string()),
        name: name.to_string(),
        status,
    };
    let mut phaseless = repo_status(RepositoryPhase::Ready, None, vec![]);
    phaseless.phase = None;
    let newer = repo_status(RepositoryPhase::Unknown("Moving".to_string()), None, vec![]);
    let s = ResourceStores {
        snapshots: vec![],
        repositories: vec![
            bare("a", None),
            bare("b", Some(phaseless)),
            bare("c", Some(newer)),
        ],
        cluster_repositories: vec![bare("d", None)],
        restores: vec![RestoreObject {
            namespace: Some("ns".to_string()),
            name: "e".to_string(),
            phase: None,
        }],
    };
    let told: Vec<(String, String)> =
        resource_samples(Instrument::ResourcePhase, &s, &vec![], &vec![])
            .into_iter()
            .map(|x| (x.labels[2].value.clone(), x.labels[3].value.clone()))
            .collect();
    let want = |name: &str, phase: &str| (name.to_string(), phase.to_string());
    assert_eq!(
        told,
        vec![
            want("a", "Pending"),
            want("b", "Pending"),
            want("c", "Moving"),
            want("d", "Pending"),
            want("e", "Pending"),
        ]
    );
}

#[test]
fn completion_counter_exports_with_labels() {
    let mut m = Metrics::new();
    m.inc_snapshot_completed("succeeded", "apps", Some("daily"));
    m.inc_snapshot_completed("failed", "apps", None);
    let text = changed(&m);
    assert!(text.contains("kopiur_snapshots_completed"), "{text}");
    let succ = text
        .lines()
        .find(|l| l.contains("result=\"succeeded\""))
        .unwrap();
    assert!(succ.contains("policy=\"daily\""), "{succ}");
    assert!(succ.contains("namespace=\"apps\""), "{succ}");
    let fail = text
        .lines()
        .find(|l| l.contains("result=\"failed\""))
        .unwrap();
    assert!(!fail.contains("policy="), "{fail}");
}

fn stats(new: Option<i64>, modified: Option<i64>, unchanged: Option<i64>) -> SnapshotStats {
    SnapshotStats {
        size_bytes: None,
        files_new: new,
        files_modified: modified,
        files_unchanged: unchanged,
    }
}

#[test]
fn file_count_rule_unknown_is_absent() {
    assert_eq!(snapshot_file_count(&stats(None, None, None)), None);
    assert_eq!(snapshot_file_count(&stats(Some(3), None, None)), Some(3));
    assert_eq!(
        snapshot_file_count(&stats(Some(3), Some(1), Some(6))),
        Some(10)
    );
    assert_eq!(
        snapshot_file_count(&stats(Some(0), Some(0), Some(0))),
        Some(0)
    );
}

#[test]
fn counts_that_do_not_fit_are_told() {
    assert!(can_count_files(&stats(Some(i64::MAX), Some(0), None)));
    assert!(!can_count_files(&stats(Some(i64::MAX), Some(1), None)));
    assert!(!can_count_files(&stats(Some(i64::MAX), None, Some(1))));
}

#[test]
fn latest_per_policy_edge_cases() {
    assert!(latest_per_policy(&vec![]).is_empty());

    let all_failed = vec![snapshot_cr("apps", "x", Some("daily"), failed_status(END_TIME))];
    assert!(latest_per_policy(&all_failed).is_empty());

    let mut no_end = phase_status(SnapshotPhase::Succeeded);
    no_end.stats = Some(SnapshotStats {
        size_bytes: Some(1),
        ..stats(None, None, None)
    });
    assert!(latest_per_policy(&vec![snapshot_cr("apps", "x", Some("daily"), no_end)]).is_empty());

    let no_policy = vec![snapshot_cr("apps", "x", None, succeeded_status(1, 1, END_TIME))];
    assert!(latest_per_policy(&no_policy).is_empty());

    let snaps = vec![
        snapshot_cr("b-ns", "s1", Some("p2"), succeeded_status(2, 2, END_TIME)),
        snapshot_cr("a-ns", "s2", Some("p1"), succeeded_status(1, 1, END_TIME)),
    ];
    let out = latest_per_policy(&snaps);
    assert_eq!(out.len(), 2);
    assert_eq!(
        (out[0].namespace.as_str(), out[0].policy.as_str()),
        ("a-ns", "p1")
    );
    assert_eq!(
        (out[1].namespace.as_str(), out[1].policy.as_str()),
        ("b-ns", "p2")
    );
}

#[test]
fn of_equal_ends_the_first_counts_and_of_equal_births_the_last() {
    let snaps = vec![
        snapshot_cr("ns", "one", Some("p"), succeeded_status(1, 1, END_TIME)),
        snapshot_cr("ns", "two", Some("p"), succeeded_status(2, 2, END_TIME)),
        snapshot_cr("ns", "three", Some("p"), failed_status(END_TIME)),
    ];
    let out = latest_per_policy(&snaps);
    assert_eq!(out.len(), 1);
    assert_eq!(out[0].size_bytes, Some(1));
    assert!(!policy_backup_health(&snaps)[0].healthy);
}

#[test]
fn snapshot_deletion_outcome_labels_are_exhaustive_and_stable() {
    assert_eq!(SnapshotDeletionOutcome::Deleted.as_str(), "deleted");
    assert_eq!(SnapshotDeletionOutcome::Retained.as_str(), "retained");
    assert_eq!(SnapshotDeletionOutcome::Orphaned.as_str(), "orphaned");
    assert_eq!(
        SnapshotDeletionOutcome::CascadeRetained.as_str(),
        "cascade_retained"
    );
    assert_eq!(
        SnapshotDeletionOutcome::PolicyCascadeRetained.as_str(),
        "policy_cascade_retained"
    );
}

#[test]
fn batch_job_and_member_outcome_labels_are_stable() {
    assert_eq!(BatchJobOutcome::Succeeded.as_str(), "succeeded");
    assert_eq!(BatchJobOutcome::Failed.as_str(), "failed");
    assert_eq!(BatchMemberOutcome::Deleted.as_str(), "deleted");
    assert_eq!(BatchMemberOutcome::Failed.as_str(), "failed");
    assert_eq!(PolicyCascadeMode::Retain.as_str(), "retain");
    assert_eq!(PolicyCascadeMode::Delete.as_str(), "delete");
}

#[test]
fn repo_gauge_attrs_falls_back_to_the_unknown_bucket_when_unpinned() {
    let attrs = repo_gauge_attrs(None);
    assert_eq!(attrs[0].value, "unknown");
    assert_eq!(attrs[1].value, "unknown");
}

#[test]
fn repo_gauge_attrs_labels_by_the_pinned_repository_kind_and_name() {
    let repo = RepositoryRef {
        kind: RepositoryKind::Repository,
        name: "nas".into(),
        namespace: Some("team-a".into()),
    };
    let attrs = repo_gauge_attrs(Some(&repo));
    assert_eq!(attrs[0].value, "Repository");
    assert_eq!(attrs[1].value, "nas");

    let crepo = RepositoryRef {
        kind: RepositoryKind::ClusterRepository,
        name: "shared".into(),
        namespace: None,
    };
    let attrs = repo_gauge_attrs(Some(&crepo));
    assert_eq!(attrs[0].value, "ClusterRepository");
    assert_eq!(attrs[1].value, "shared");
    assert_eq!((attrs[0].key, attrs[1].key), ("repo_kind", "repo_name"));
}

fn deleting_snapshot(name: &str, with_finalizer: bool, held: bool) -> Snapshot {
    let mut status = bare_status();
    if held {
        status.conditions = vec![condition("DeletionHeld", "True", "MassDeletionBreaker")];
    }
    let mut s = snapshot_cr("ns", name, None, status);
    s.deleting = true;
    if with_finalizer {
        s.finalizers = vec![SNAPSHOT_CLEANUP_FINALIZER.to_string()];
    }
    s
}

#[test]
fn counts_toward_deletion_gauge_requires_both_deletion_timestamp_and_finalizer() {
    assert!(counts_toward_deletion_gauge(&deleting_snapshot("a", true, false)));
    let mut not_deleting = deleting_snapshot("b", true, false);
    not_deleting.deleting = false;
    assert!(!counts_toward_deletion_gauge(&not_deleting));
    assert!(!counts_toward_deletion_gauge(&deleting_snapshot("c", false, false)));
}

#[test]
fn deletion_held_reads_only_a_true_deletion_held_condition() {
    assert!(deletion_held(&deleting_snapshot("a", true, true)));
    assert!(!deletion_held(&deleting_snapshot("b", true, false)));
}

#[test]
fn mass_deletion_metrics_register_and_export_under_kopiur_namespace() {
    let mut m = Metrics::new();
    m.inc_snapshot_deletion("ns", SnapshotDeletionOutcome::Deleted);
    m.inc_snapshot_cascade_retained("ns");
    m.inc_snapshot_policy_cascade_retained("ns");
    m.inc_snapshot_delete_batch_job(BatchJobOutcome::Succeeded);
    m.inc_snapshot_delete_batch_members(BatchMemberOutcome::Deleted, 3);
    let text = format!(
        "{}{}",
        changed(&m),
        gather_with(&stores(vec![
            deleting_snapshot("held-1", true, true),
            deleting_snapshot("pending-1", true, false),
        ]))
    );
    for fragment in [
        "kopiur_snapshot_deletions{",
        "outcome=\"deleted\"",
        "outcome=\"cascade_retained\"",
        "outcome=\"policy_cascade_retained\"",
        "kopiur_snapshots_cascade_retained",
        "kopiur_snapshots_policy_cascade_retained",
        "kopiur_snapshot_delete_batch_jobs",
        "kopiur_snapshot_delete_batch_members{outcome=\"deleted\"} 3",
        "kopiur_snapshot_deletions_pending_external",
        "kopiur_snapshot_deletions_held",
        "repo_kind=\"unknown\"",
        "repo_name=\"unknown\"",
    ] {
        assert!(text.contains(fragment), "{fragment}: {text}");
    }
    let lines = |metric: &str| -> Vec<&str> {
        text.lines()
            .filter(|l| l.starts_with(&format!("{metric}{{")))
            .collect()
    };
    assert_eq!(
        lines("kopiur_snapshot_deletions_pending_external"),
        vec![
            "kopiur_snapshot_deletions_pending_external{repo_kind=\"unknown\",repo_name=\"unknown\"} 2"
        ]
    );
    assert_eq!(
        lines("kopiur_snapshot_deletions_held"),
        vec!["kopiur_snapshot_deletions_held{repo_kind=\"unknown\",repo_name=\"unknown\"} 1"]
    );
}

fn pinned(mut s: Snapshot, kind: RepositoryKind, name: &str, ns: Option<&str>) -> Snapshot {
    s.status.as_mut().unwrap().repository = Some(RepositoryRef {
        kind,
        name: name.to_string(),
        namespace: ns.map(str::to_string),
    });
    s
}

#[test]
fn deletions_are_counted_per_pinned_repository() {
    let nas = RepositoryKind::Repository;
    let shared = RepositoryKind::ClusterRepository;
    let all = vec![
        pinned(deleting_snapshot("a", true, false), nas, "nas", Some("team-a")),
        deleting_snapshot("b", true, true),
        pinned(deleting_snapshot("c", true, true), nas, "nas", Some("team-a")),
        pinned(deleting_snapshot("d", true, false), shared, "nas", None),
        pinned(deleting_snapshot("e", false, true), shared, "nas", None),
        pinned(deleting_snapshot("f", true, false), nas, "nas", Some("team-b")),
    ];
    let row = |kind: &str, name: &str, count: i64| RepoDeletions {
        repo_kind: kind.to_string(),
        repo_name: name.to_string(),
        count,
    };
    assert_eq!(
        deletion_counts(&all, false),
        vec![
            row("ClusterRepository", "nas", 1),
            row("Repository", "nas", 3),
            row("unknown", "unknown", 1),
        ]
    );
    assert_eq!(
        deletion_counts(&all, true),
        vec![row("Repository", "nas", 1), row("unknown", "unknown", 1)]
    );
    assert!(deletion_counts(&vec![], false).is_empty());
}

#[test]
fn files_that_cannot_be_summed_matter_only_where_they_are() {
    let mut status = succeeded_status(1, 1, END_TIME);
    status.stats.as_mut().unwrap().files_new = Some(i64::MAX);
    let unowned = stores(vec![snapshot_cr("ns", "a", None, status.clone())]);
    assert!(!can_sum_files(Instrument::SnapshotFiles, &unowned.snapshots));
    assert!(can_sum_files(Instrument::PolicyLastFiles, &unowned.snapshots));
    assert!(can_sum_files(Instrument::SnapshotSize, &unowned.snapshots));
    assert_eq!(
        checked_samples(Instrument::SnapshotFiles, &unowned, &vec![], &vec![]),
        None
    );
    let sizes = checked_samples(Instrument::SnapshotSize, &unowned, &vec![], &vec![]).unwrap();
    assert_eq!(sizes.len(), 1);
    assert_eq!(sizes[0].value, 1);
    assert!(latest_per_policy(&unowned.snapshots).is_empty());
    let mut undated = status.clone();
    undated.timing.as_mut().unwrap().end_time = Some("yesterday".to_string());
    let undated = vec![snapshot_cr("ns", "a", Some("daily"), undated)];
    assert!(can_sum_files(Instrument::PolicyLastFiles, &undated));
    assert!(latest_per_policy(&undated).is_empty());
    let owned = vec![snapshot_cr("ns", "a", Some("daily"), status)];
    assert!(!can_sum_files(Instrument::PolicyLastSize, &owned));
    assert!(can_sum_files(Instrument::SnapshotsGated, &owned));
}

#[test]
fn migrated_policy_gauges_derive_from_store_and_disappear() {
    let succeeded = snapshot_cr(
        "apps",
        "db-1",
        Some("daily"),
        succeeded_status(100, 10, "2026-05-24T00:00:00Z"),
    );
    let failed = snapshot_cr("apps", "db-2", Some("daily"), failed_status(END_TIME));
    let running = snapshot_cr(
        "apps",
        "db-3",
        Some("daily"),
        phase_status(SnapshotPhase::Running),
    );
    let discovered = snapshot_cr("apps", "disc", None, phase_status(SnapshotPhase::Discovered));
    let mut s = stores(vec![succeeded, failed, running, discovered]);

    let groups = policy_snapshot_groups(&s.snapshots);
    assert_eq!(groups.len(), 1);
    assert_eq!(groups[0].members, vec![0, 1, 2]);
    assert_eq!(
        policy_snapshot_counts(&groups, &vec![1]),
        vec![PolicySnapshots {
            namespace: "apps".to_string(),
            policy: "daily".to_string(),
            live: 3,
            consecutive_failures: 1,
        }]
    );
    let text = gather_counted(&s, &vec![1]);
    let labels = ["namespace=\"apps\"", "name=\"daily\""];
    assert_eq!(
        series_value(&text, "kopiur_snapshot_consecutive_failures", &labels).as_deref(),
        Some("1"),
    );
    assert_eq!(
        series_value(&text, "kopiur_snapshots_live", &labels).as_deref(),
        Some("3"),
    );
    assert!(series_value(&text, "kopiur_snapshots_live", &["name=\"disc\""]).is_none());

    s.snapshots.truncate(0);
    let groups = policy_snapshot_groups(&s.snapshots);
    assert!(groups.is_empty());
    let after = gather_counted(&s, &vec![]);
    assert!(series_value(&after, "kopiur_snapshot_consecutive_failures", &[]).is_none());
    assert!(series_value(&after, "kopiur_snapshots_live", &[]).is_none());
}

fn gated_snapshot(ns: &str, name: &str, policy: Option<&str>) -> Snapshot {
    let mut status = phase_status(SnapshotPhase::Pending);
    status.conditions = vec![condition("Ready", "False", "RepositoryNotReady")];
    snapshot_cr(ns, name, policy, status)
}

#[test]
fn gated_predicate_requires_pending_and_the_repository_not_ready_reason() {
    assert!(snapshot_gated(&gated_snapshot("apps", "a", Some("daily"))));
    let mut preflight = phase_status(SnapshotPhase::Pending);
    preflight.conditions = vec![condition("Ready", "False", "PreflightFailed")];
    assert!(!snapshot_gated(&snapshot_cr("apps", "b", None, preflight)));
    let mut launched = gated_snapshot("apps", "c", None);
    launched.status.as_mut().unwrap().phase = Some(SnapshotPhase::Running);
    assert!(!snapshot_gated(&launched));
    let mut bare = gated_snapshot("apps", "d", None);
    bare.status = None;
    assert!(!snapshot_gated(&bare));
    let mut fresh = gated_snapshot("apps", "e", None);
    fresh.status.as_mut().unwrap().phase = None;
    assert!(snapshot_gated(&fresh));
}

#[test]
fn gated_gauge_counts_per_policy_and_omits_the_policy_label_when_unset() {
    let g1 = gated_snapshot("apps", "g1", Some("daily"));
    let g2 = gated_snapshot("apps", "g2", Some("daily"));
    let adhoc = gated_snapshot("apps", "adhoc", None);
    let mut s = stores(vec![g1, g2, adhoc]);
    assert_eq!(
        gated_snapshot_counts(&s.snapshots),
        vec![
            GatedSnapshots {
                namespace: "apps".to_string(),
                policy: None,
                count: 1,
            },
            GatedSnapshots {
                namespace: "apps".to_string(),
                policy: Some("daily".to_string()),
                count: 2,
            },
        ]
    );
    let text = gather_with(&s);
    assert_eq!(
        series_value(&text, "kopiur_snapshot_gated", &["policy=\"daily\""]).as_deref(),
        Some("2"),
    );
    let no_policy_line = text
        .lines()
        .find(|l| {
            l.starts_with("kopiur_snapshot_gated{")
                && l.contains("namespace=\"apps\"")
                && !l.contains("policy=")
        })
        .unwrap_or_else(|| panic!("missing policy-less gated series: {text}"));
    assert!(no_policy_line.trim_end().ends_with(" 1"), "{no_policy_line}");

    s.snapshots[0].status.as_mut().unwrap().phase = Some(SnapshotPhase::Running);
    let text = gather_with(&s);
    assert_eq!(
        series_value(&text, "kopiur_snapshot_gated", &["policy=\"daily\""]).as_deref(),
        Some("1"),
    );
    s.snapshots[1].status.as_mut().unwrap().phase = Some(SnapshotPhase::Running);
    s.snapshots.pop();
    let text = gather_with(&s);
    assert!(
        !text.lines().any(|l| l.starts_with("kopiur_snapshot_gated{")),
        "gated series must all disappear on recovery: {text}"
    );
}

fn health(failures: Option<i64>, first: Option<&str>, last: Option<&str>) -> RepositoryHealthStatus {
    RepositoryHealthStatus {
        last_healthy_at: last.map(str::to_string),
        consecutive_probe_failures: failures,
        first_failure_at: first.map(str::to_string),
    }
}

#[test]
fn repository_backend_failure_gauges_cover_both_kinds_and_close_with_recovery() {
    let degraded = repository_cr_with_status(
        Some("apps"),
        "nas",
        repo_status(
            RepositoryPhase::Degraded,
            Some(health(Some(4), Some(END_TIME), None)),
            vec![condition("BackendReachable", "False", "BackendUnreachable")],
        ),
    );
    let recovered = repository_cr_with_status(
        None,
        "shared",
        repo_status(
            RepositoryPhase::Ready,
            Some(health(None, None, Some(END_TIME))),
            vec![condition("BackendReachable", "True", "Reachable")],
        ),
    );
    let unprobed = repository_cr_with_status(
        Some("apps"),
        "cold",
        repo_status(RepositoryPhase::Ready, None, vec![]),
    );
    let mut s = ResourceStores {
        snapshots: vec![],
        repositories: vec![degraded, unprobed],
        cluster_repositories: vec![recovered],
        restores: vec![],
    };
    let failures = "kopiur_repository_consecutive_backend_failures";
    let open = "kopiur_repository_breaker_open_since_timestamp_seconds";
    let text = gather_with(&s);
    assert_eq!(
        series_value(
            &text,
            failures,
            &["kind=\"Repository\"", "namespace=\"apps\"", "name=\"nas\""],
        )
        .as_deref(),
        Some("4"),
    );
    assert_eq!(
        series_value(
            &text,
            failures,
            &[
                "kind=\"ClusterRepository\"",
                "namespace=\"\"",
                "name=\"shared\""
            ],
        )
        .as_deref(),
        Some("0"),
    );
    assert!(series_value(&text, failures, &["name=\"cold\""]).is_none());
    assert_eq!(
        series_value(&text, open, &["kind=\"Repository\"", "name=\"nas\""]).as_deref(),
        Some(END_UNIX.to_string().as_str()),
    );
    assert!(series_value(&text, open, &["name=\"shared\""]).is_none());

    s.repositories[0] = repository_cr_with_status(
        Some("apps"),
        "nas",
        repo_status(
            RepositoryPhase::Ready,
            Some(health(Some(0), None, Some(END_TIME))),
            vec![condition("BackendReachable", "True", "Reachable")],
        ),
    );
    let after = gather_with(&s);
    assert!(series_value(&after, open, &["name=\"nas\""]).is_none());
    assert_eq!(
        series_value(&after, failures, &["name=\"nas\""]).as_deref(),
        Some("0"),
    );

    s.repositories.remove(0);
    let gone = gather_with(&s);
    assert!(series_value(&gone, failures, &["name=\"nas\""]).is_none());
}

#[test]
fn breaker_open_since_requires_degraded_phase_and_the_false_condition() {
    let h = health(Some(3), Some(END_TIME), None);
    let unreachable = vec![condition("BackendReachable", "False", "BackendUnreachable")];
    assert_eq!(
        breaker_open_since(Some(&RepositoryPhase::Degraded), Some(&h), &unreachable),
        Some(END_UNIX)
    );
    assert_eq!(
        breaker_open_since(Some(&RepositoryPhase::Degraded), Some(&h), &vec![]),
        None
    );
    assert_eq!(
        breaker_open_since(Some(&RepositoryPhase::Ready), Some(&h), &unreachable),
        None
    );
    let no_first = health(Some(3), None, None);
    assert_eq!(
        breaker_open_since(
            Some(&RepositoryPhase::Degraded),
            Some(&no_first),
            &unreachable
        ),
        None
    );
}

#[test]
fn repo_consecutive_backend_failures_emits_iff_health_exists() {
    assert_eq!(repo_consecutive_backend_failures(None), None);
    assert_eq!(
        repo_consecutive_backend_failures(Some(&health(None, None, None))),
        Some(0)
    );
    assert_eq!(
        repo_consecutive_backend_failures(Some(&health(Some(7), None, None))),
        Some(7)
    );
}

#[test]
fn a_snapshot_without_a_status_is_pending() {
    let mut s = snapshot_cr("ns", "new", None, bare_status());
    s.status = None;
    let text = gather_with(&stores(vec![s]));
    assert_eq!(
        text,
        "kopiur_resource_phase{kind=\"Snapshot\",namespace=\"ns\",name=\"new\",phase=\"Pending\"} 1\n"
    );
}

#[test]
fn an_instrument_that_is_not_observed_tells_nothing() {
    let s = stores(vec![snapshot_cr("ns", "a", None, succeeded_status(1, 1, END_TIME))]);
    assert!(resource_samples(Instrument::RepoSize, &s, &vec![], &vec![]).is_empty());
    assert_eq!(Instrument::RepoSize.kind(), InstrumentKind::Gauge);
    assert_eq!(Instrument::ResourcePhase.kind(), InstrumentKind::Observed);
    assert_eq!(Instrument::BreakerTrips.kind(), InstrumentKind::Counter);
    assert_eq!(Instrument::LeaderRenewDuration.kind(), InstrumentKind::Histogram);
}

#[test]
fn success_needs_the_phase_and_a_readable_end() {
    assert_eq!(parse_unix_seconds(END_TIME), Some(END_UNIX));
    assert_eq!(parse_unix_seconds("2026-05-24T04:18:42.9+02:00"), Some(END_UNIX));
    assert_eq!(parse_unix_seconds("soon"), None);
    let good = snapshot_cr("ns", "a", None, succeeded_status(1, 1, END_TIME));
    assert_eq!(snapshot_success_unix(&good), Some(END_UNIX));
    let odd = snapshot_cr("ns", "a", None, succeeded_status(1, 1, "soon"));
    assert_eq!(snapshot_success_unix(&odd), None);
    let failed = snapshot_cr("ns", "a", None, failed_status(END_TIME));
    assert_eq!(snapshot_success_unix(&failed), None);
}

#[test]
fn every_other_change_has_its_labels() {
    let mut m = Metrics::default();
    m.record_failure_event_dropped("timeout");
    m.inc_secrets_projected("ns", 2);
    m.inc_snapshot_deletion_failure("ns");
    m.inc_policy_cascade_children_deleted("ns", PolicyCascadeMode::Retain);
    m.inc_creds_secrets_reaped("sweep", 4);
    m.set_projected_secrets_live(9);
    m.inc_schedule_backup_created("ns", "nightly");
    m.inc_snapshots_adopted("ns", "daily", 5);
    m.inc_health_probe_failure("ns", "nas", "Repository", "vanished");
    m.inc_breaker_trip("Repository", "ns", "nas", "unreachable");
    m.set_repo_size_bytes("ns", "nas", 77);
    m.set_restore_duration("ns", "rst", 12);
    m.set_maintenance_reclaimed_bytes("ns", "nas", 34);
    m.set_leader(true);
    m.set_leader(false);
    m.record_leader_renew(Some("stalled"));
    m.record_leader_renew(None);
    assert_eq!(
        changed(&m),
        "kopiur_controller_failure_events_dropped{cause=\"timeout\"} 1\n\
         kopiur_secrets_projected{namespace=\"ns\"} 2\n\
         kopiur_snapshot_deletion_failures{namespace=\"ns\"} 1\n\
         kopiur_policy_cascade_children_deleted{namespace=\"ns\",mode=\"retain\"} 1\n\
         kopiur_creds_secrets_reaped{by=\"sweep\"} 4\n\
         kopiur_projected_secrets_live{} 9\n\
         kopiur_schedule_snapshots_created{namespace=\"ns\",name=\"nightly\"} 1\n\
         kopiur_snapshots_adopted{namespace=\"ns\",policy=\"daily\"} 5\n\
         kopiur_repository_health_probe_failures{namespace=\"ns\",name=\"nas\",kind=\"Repository\",outcome=\"vanished\"} 1\n\
         kopiur_repository_breaker_trips{kind=\"Repository\",namespace=\"ns\",name=\"nas\",probe_kind=\"unreachable\"} 1\n\
         kopiur_repo_size_bytes{namespace=\"ns\",name=\"nas\"} 77\n\
         kopiur_restore_duration_seconds{namespace=\"ns\",name=\"rst\"} 12\n\
         kopiur_maintenance_last_reclaimed_bytes{namespace=\"ns\",name=\"nas\"} 34\n\
         kopiur_leader_is_leader{} 1\n\
         kopiur_leader_transitions{} 1\n\
         kopiur_leader_is_leader{} 0\n\
         kopiur_leader_renew_duration_seconds{} timed\n\
         kopiur_leader_renew_failures{reason=\"stalled\"} 1\n\
         kopiur_leader_renew_duration_seconds{} timed\n"
    );
    let first: &Change = &m.changes[0];
    assert_eq!(first.measure, Measure::Add(1));
}

#[test]
fn the_second_word_of_statm_counts_pages() {
    assert_eq!(resident_memory_bytes("1024 25 10 1 0 5 0\n", 4096), Some(102_400));
    assert_eq!(resident_memory_bytes("  1024\t 25", 4096), Some(102_400));
    assert_eq!(resident_memory_bytes("1024", 4096), None);
    assert_eq!(resident_memory_bytes("", 4096), None);
    assert_eq!(resident_memory_bytes("1 x", 4096), None);
    assert_eq!(resident_memory_bytes("1 25", 0), None);
    assert_eq!(resident_memory_bytes("1 9223372036854775807", 4096), Some(i64::MAX));
    assert_eq!(resident_memory_bytes("1 9223372036854775808", 4096), None);
}
