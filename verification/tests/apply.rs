use kopiur_controller::consts::{
    MAINTENANCE_APPLY_FAILED_REASON, MAINTENANCE_CONFIGURED_REASON, MAINTENANCE_DISABLED_REASON,
    MAINTENANCE_NAMESPACE_UNRESOLVED_REASON, PRUNED_BY_ANNOTATION, RUN_COUNTED_ANNOTATION,
};
use kopiur_controller::error::Error;
use kopiur_controller::io::apply::{
    annotation_patch, apply_merge_patch, entries, entry, get, get_integer, get_text, get_true,
    is_terminal_for_generation, plan_status_patch, status_merge_patch_is_noop,
    status_patch_is_noop, terminal_gate_holds, Json, JsonNumber, RepositoryPhase,
};
use kopiur_controller::io::conditions::{same_conditions, upsert_condition, Condition};
use kopiur_controller::io::maintenance::{
    bootstrap_maintenance_owner_plan, build_managed_maintenance, classify_maintenance,
    coverage_after_apply, coverage_without_managed, in_process_create_owner_target, is_covered,
    is_managed_by, maintenance_action, maintenance_condition, maintenance_conditions,
    maintenance_covered_by_foreign, maintenance_warning, plan_maintenance, refers_to,
    repository_has_maintenance, ApplyOutcome, CronSpec,
    Maintenance, MaintenanceAction, MaintenanceCoverage, MaintenanceDefaults,
    MaintenanceSchedule, MaintenanceStep, RepositoryMaintenanceSpec, RestampPolicy,
};
use kopiur_controller::io::meta::{controlling_owner, ApiResource, OwnerReference};
use kopiur_controller::io::prune::{
    next_prune_step, pruned_by_patch, tolerate_absent, PruneStep,
};
use kopiur_controller::io::staging_run::reclaim_patch;
use kopiur_controller::naming::{RepositoryKind, RepositoryRef};
use kopiur_controller::replication_run::{counted_patch, ReplicationRunOutcome};

fn num(n: u64) -> Json {
    Json::Number(JsonNumber::PosInt(n))
}

fn text(s: &str) -> Json {
    Json::Text(s.to_string())
}

#[test]
fn a_merge_patch_merges_removes_and_replaces() {
    let target = entries("a", entries("x", num(1), "y", num(2)), "b", text("old"));
    let patch = entries(
        "a",
        entries("x", Json::Null, "z", num(3)),
        "b",
        Json::Array(vec![num(4)]),
    );
    let out = apply_merge_patch(&target, &patch);
    let want = entries("a", entries("y", num(2), "z", num(3)), "b", Json::Array(vec![num(4)]));
    assert!(out.equals(&want), "{out:?}");
    assert!(apply_merge_patch(&num(1), &entry("k", Json::Null)).equals(&Json::Object(vec![])));
    assert!(apply_merge_patch(&target, &num(7)).equals(&num(7)));
}

#[test]
fn a_patch_that_was_applied_changes_nothing_more() {
    let current = entries("phase", text("Ready"), "stats", entries("n", num(1), "m", num(2)));
    let patch = entry("stats", entry("n", num(9)));
    assert!(!status_merge_patch_is_noop(Some(&current), &patch));
    let after = apply_merge_patch(&current, &patch);
    assert!(status_merge_patch_is_noop(Some(&after), &patch));
    assert!(!status_merge_patch_is_noop(None, &Json::Object(vec![])));
    assert!(status_merge_patch_is_noop(Some(&current), &entry("gone", Json::Null)));
}

#[test]
fn the_shallow_test_looks_at_whole_values() {
    let current = entries("phase", text("Ready"), "stats", entries("n", num(1), "m", num(2)));
    assert!(status_patch_is_noop(Some(&current), &entry("phase", text("Ready"))));
    assert!(!status_patch_is_noop(Some(&current), &entry("stats", entry("n", num(1)))));
    assert!(!status_patch_is_noop(None, &entry("phase", text("Ready"))));
}

#[test]
fn a_status_is_sent_only_where_it_changes() {
    let current = entry("phase", text("Ready"));
    assert_eq!(plan_status_patch(Some(&current), entry("phase", text("Ready"))), None);
    let body = plan_status_patch(Some(&current), entry("phase", text("Failed"))).unwrap();
    assert!(body.equals(&entry("status", entry("phase", text("Failed")))));
}

#[test]
fn values_are_read_by_key() {
    let j = entries("t", text("x"), "n", Json::Number(JsonNumber::NegInt(-3)));
    assert_eq!(get_text(get(Some(&j), "t")).map(String::as_str), Some("x"));
    assert_eq!(get_integer(get(Some(&j), "n")), Some(-3));
    assert!(get(Some(&j), "none").is_none());
    assert!(get_true(Some(&Json::Bool(true))));
    assert!(!get_true(Some(&text("true"))));
    assert!(j.copy().equals(&j));
    assert!(!num(1).equals(&Json::Number(JsonNumber::Float(1))));
}

#[test]
fn a_final_failure_stands_for_its_generation() {
    let failed = RepositoryPhase::Failed;
    assert!(is_terminal_for_generation(Some(&failed), Some(3), Some(3)));
    assert!(!is_terminal_for_generation(Some(&failed), Some(2), Some(3)));
    assert!(!is_terminal_for_generation(Some(&failed), None, None));
    assert!(!is_terminal_for_generation(Some(&RepositoryPhase::Degraded), Some(3), Some(3)));
    assert!(!is_terminal_for_generation(
        Some(&RepositoryPhase::Unknown("Failed".to_string())),
        Some(3),
        Some(3)
    ));
    let gate = |recorded: Option<&str>, current: &str, reinit: bool| {
        terminal_gate_holds(Some(&failed), Some(3), Some(3), recorded, current, reinit)
    };
    assert!(gate(Some("7"), "7", false));
    assert!(!gate(Some("7"), "8", false));
    assert!(!gate(Some("7"), "7", true));
}

fn condition(type_: &str, status: &str, at: &str) -> Condition {
    Condition {
        type_: type_.to_string(),
        status: status.to_string(),
        reason: "r".to_string(),
        message: "m".to_string(),
        observed_generation: Some(1),
        last_transition_time: at.to_string(),
    }
}

#[test]
fn a_condition_keeps_its_time_while_its_status_stays() {
    let before = vec![condition("A", "True", "t0"), condition("B", "False", "t0")];
    let same = upsert_condition(&before, "B", false, "r", "m", Some(1), "t1");
    assert!(same_conditions(&before, &same));
    let flipped = upsert_condition(&before, "B", true, "r2", "m2", Some(2), "t1");
    assert_eq!(flipped[0], before[0]);
    assert_eq!(flipped[1].status, "True");
    assert_eq!(flipped[1].last_transition_time, "t1");
    assert_eq!(flipped[1].observed_generation, Some(2));
    let added = upsert_condition(&before, "C", true, "r", "m", None, "t1");
    assert_eq!(added.len(), 3);
    assert_eq!(added[2].type_, "C");
    let again = upsert_condition(&added, "C", true, "r", "m", None, "t2");
    assert!(same_conditions(&added, &again));
}

fn controller(kind: &str, name: &str, controller: Option<bool>) -> OwnerReference {
    OwnerReference {
        api_version: "v1".to_string(),
        kind: kind.to_string(),
        name: name.to_string(),
        uid: "u".to_string(),
        controller,
        block_owner_deletion: None,
    }
}

fn maintenance(owners: Vec<OwnerReference>, ns: Option<&str>) -> Maintenance {
    Maintenance {
        namespace: Some("apps".to_string()),
        owner_references: owners,
        repository: RepositoryRef {
            kind: RepositoryKind::Repository,
            name: "nas".to_string(),
            namespace: ns.map(str::to_string),
        },
        status: None,
    }
}

#[test]
fn a_maintenance_is_told_by_its_repository_and_its_owner() {
    let own = maintenance(vec![controller("Repository", "nas", Some(true))], None);
    let foreign = maintenance(vec![controller("Repository", "nas", None)], None);
    let other = maintenance(vec![], Some("b"));
    assert!(is_managed_by(&own, "Repository", "nas"));
    assert!(!is_managed_by(&foreign, "Repository", "nas"));
    assert!(refers_to(&own, RepositoryKind::Repository, "nas", Some("apps")));
    assert!(!refers_to(&other, RepositoryKind::Repository, "nas", Some("apps")));
    let items = vec![own.clone(), other.clone()];
    assert!(repository_has_maintenance(&items, RepositoryKind::Repository, "nas", Some("apps")));
    assert!(!repository_has_maintenance(
        &vec![other.clone()],
        RepositoryKind::Repository,
        "nas",
        Some("apps")
    ));
    let (is_foreign, managed) =
        classify_maintenance(&items, RepositoryKind::Repository, "Repository", "nas", Some("apps"));
    assert!(!is_foreign);
    assert_eq!(managed, Some(&items[0]));
    let both = vec![foreign, own];
    assert!(maintenance_covered_by_foreign(
        true,
        &both,
        RepositoryKind::Repository,
        "Repository",
        "nas",
        Some("apps")
    ));
    assert!(!maintenance_covered_by_foreign(
        false,
        &both,
        RepositoryKind::Repository,
        "Repository",
        "nas",
        Some("apps")
    ));
    let owners = vec![controller("A", "a", None), controller("B", "b", Some(true))];
    assert_eq!(controlling_owner(&owners).map(|o| o.name.as_str()), Some("b"));
}

fn step(enabled: bool, items: &Vec<Maintenance>, placement: Option<&str>) -> MaintenanceStep {
    plan_maintenance(
        true,
        enabled,
        items,
        RepositoryKind::Repository,
        "Repository",
        "nas",
        Some("apps"),
        placement,
        "apps",
    )
}

#[test]
fn maintenance_is_managed_unless_it_is_off_or_a_user_has_it() {
    assert_eq!(maintenance_action(true, false, false, true), MaintenanceAction::Manage);
    assert_eq!(maintenance_action(true, false, false, false), MaintenanceAction::Unresolved);
    assert_eq!(maintenance_action(true, true, true, true), MaintenanceAction::Unmanage);
    assert_eq!(maintenance_action(false, false, false, true), MaintenanceAction::Leave);
    let own = maintenance(vec![controller("Repository", "nas", Some(true))], None);
    let foreign = maintenance(vec![], None);
    assert_eq!(
        step(true, &vec![], Some("p")),
        MaintenanceStep::Apply {
            namespace: "p".to_string()
        }
    );
    assert_eq!(
        step(true, &vec![], None),
        MaintenanceStep::Report(MaintenanceCoverage::Unresolved)
    );
    assert_eq!(
        step(true, &vec![own.clone(), foreign], Some("p")),
        MaintenanceStep::Delete {
            namespace: "apps".to_string(),
            coverage: MaintenanceCoverage::CoveredByForeign
        }
    );
    assert_eq!(
        step(false, &vec![own], Some("p")),
        MaintenanceStep::Delete {
            namespace: "apps".to_string(),
            coverage: MaintenanceCoverage::DisabledBySpec
        }
    );
    assert_eq!(
        step(false, &vec![], Some("p")),
        MaintenanceStep::Report(MaintenanceCoverage::DisabledBySpec)
    );
    let cold = plan_maintenance(
        false,
        true,
        &vec![],
        RepositoryKind::Repository,
        "Repository",
        "nas",
        None,
        Some("p"),
        "apps",
    );
    assert_eq!(cold, MaintenanceStep::Skip);
}

#[test]
fn coverage_is_told_with_a_reason() {
    let failed = coverage_after_apply(ApplyOutcome::Rejected, false, "p");
    assert_eq!(
        failed,
        MaintenanceCoverage::ApplyFailed {
            namespace: "p".to_string()
        }
    );
    assert_eq!(
        coverage_after_apply(ApplyOutcome::Rejected, true, "p"),
        MaintenanceCoverage::CoveredByManaged
    );
    assert_eq!(
        coverage_after_apply(ApplyOutcome::Applied, false, "p"),
        MaintenanceCoverage::CoveredByManaged
    );
    assert!(matches!(
        coverage_after_apply(ApplyOutcome::NoOwner, true, "p"),
        MaintenanceCoverage::ApplyFailed { .. }
    ));
    for (coverage, holds, reason, warn) in [
        (failed, false, MAINTENANCE_APPLY_FAILED_REASON, true),
        (
            MaintenanceCoverage::Unresolved,
            false,
            MAINTENANCE_NAMESPACE_UNRESOLVED_REASON,
            true,
        ),
        (
            coverage_without_managed(true),
            true,
            MAINTENANCE_CONFIGURED_REASON,
            false,
        ),
        (
            coverage_without_managed(false),
            false,
            MAINTENANCE_DISABLED_REASON,
            false,
        ),
    ] {
        let (h, r, m, w) = maintenance_condition(&coverage, "Repository", "nas");
        assert_eq!((h, r, w), (holds, reason, warn));
        assert!(m.contains("Repository nas"), "{m}");
        assert_eq!(is_covered(&coverage), holds);
    }
}

#[test]
fn owners_are_stamped_by_the_cluster_identity() {
    assert_eq!(
        bootstrap_maintenance_owner_plan("new", "old", None, false),
        (Some("new".to_string()), RestampPolicy::AnyStale, vec![])
    );
    assert_eq!(
        bootstrap_maintenance_owner_plan("new", "old", Some("east"), false),
        (
            Some("new".to_string()),
            RestampPolicy::OwnFormatsOnly,
            vec!["old".to_string()]
        )
    );
    assert_eq!(
        bootstrap_maintenance_owner_plan("new", "old", Some("east"), true),
        (None, RestampPolicy::AnyStale, vec![])
    );
    assert_eq!(in_process_create_owner_target(true, Some("o")), Some("o"));
    assert_eq!(in_process_create_owner_target(false, Some("o")), None);
}

#[test]
fn a_managed_maintenance_takes_the_spec_or_the_defaults() {
    let cron = |c: &str| CronSpec {
        cron: c.to_string(),
        jitter: None,
        timezone: None,
    };
    let defaults = MaintenanceDefaults {
        schedule: MaintenanceSchedule {
            quick: cron("0 */6 * * *"),
            full: cron("0 3 * * *"),
            timezone: None,
        },
        takeover_policy: "Never".to_string(),
    };
    let spec = RepositoryMaintenanceSpec {
        enabled: true,
        schedule: None,
        takeover_policy: Some("Force".to_string()),
        mover: Some(num(1)),
        failure_policy: None,
    };
    let m = build_managed_maintenance(
        RepositoryKind::Repository,
        "nas",
        "apps",
        &spec,
        &defaults,
        controller("Repository", "nas", Some(true)),
        "lease",
        "legacy",
        Some("east"),
    );
    assert_eq!((m.name.as_str(), m.namespace.as_str()), ("nas", "apps"));
    assert_eq!(m.schedule, defaults.schedule);
    assert_eq!(m.takeover_policy, "Force");
    assert_eq!(m.owner, "lease");
    assert_eq!(m.owner_aliases, vec!["legacy".to_string()]);
    assert_eq!(m.repository.namespace, None);
}

fn kube(code: Option<u16>) -> Error {
    Error::Kube {
        code,
        message: "x".to_string(),
    }
}

#[test]
fn pruning_marks_before_it_deletes() {
    assert_eq!(next_prune_step(PruneStep::Stamp, Ok(())).unwrap(), PruneStep::Delete);
    assert_eq!(
        next_prune_step(PruneStep::Stamp, Err(kube(Some(404)))).unwrap(),
        PruneStep::Delete
    );
    assert!(next_prune_step(PruneStep::Stamp, Err(kube(Some(500)))).is_err());
    assert_eq!(next_prune_step(PruneStep::Delete, Ok(())).unwrap(), PruneStep::Done);
    assert!(tolerate_absent(Err(kube(Some(404)))).is_ok());
    assert!(tolerate_absent(Err(kube(None))).is_err());
    let patch = pruned_by_patch("retention");
    let mark = get(get(get(Some(&patch), "metadata"), "annotations"), PRUNED_BY_ANNOTATION);
    assert_eq!(get_text(mark).map(String::as_str), Some("retention"));
}

#[test]
fn the_core_group_has_no_prefix() {
    assert_eq!(ApiResource::named("", "v1", "Secret", "secrets").api_version, "v1");
    assert_eq!(ApiResource::named("g", "v1", "K", "ks").api_version, "g/v1");
}

#[test]
fn patches_hold_what_they_set() {
    let mark = annotation_patch("k", "v");
    let at = get(get(get(Some(&mark), "metadata"), "annotations"), "k");
    assert_eq!(get_text(at).map(String::as_str), Some("v"));
    let counted = counted_patch(ReplicationRunOutcome::Failed);
    let at = get(
        get(get(Some(&counted), "metadata"), "annotations"),
        RUN_COUNTED_ANNOTATION,
    );
    assert_eq!(get_text(at).map(String::as_str), Some("failed"));
    let reclaim = reclaim_patch();
    let policy = get(get(Some(&reclaim), "spec"), "persistentVolumeReclaimPolicy");
    assert_eq!(get_text(policy).map(String::as_str), Some("Delete"));
}

#[test]
fn a_steady_coverage_is_written_once() {
    let coverage = MaintenanceCoverage::CoveredByManaged;
    let first =
        maintenance_conditions(&coverage, "Repository", "nas", &vec![], Some(1), "t0").unwrap();
    assert_eq!(first.len(), 1);
    assert_eq!(first[0].status, "True");
    assert_eq!(first[0].reason, MAINTENANCE_CONFIGURED_REASON);
    assert_eq!(
        maintenance_conditions(&coverage, "Repository", "nas", &first, Some(1), "t1"),
        None
    );
    let turned = maintenance_conditions(
        &MaintenanceCoverage::DisabledBySpec,
        "Repository",
        "nas",
        &first,
        Some(1),
        "t2",
    )
    .unwrap();
    assert_eq!(turned[0].status, "False");
    assert_eq!(turned[0].last_transition_time, "t2");
}

#[test]
fn a_warning_marks_the_change_of_the_condition() {
    let failed = MaintenanceCoverage::ApplyFailed {
        namespace: "team-a".to_string(),
    };
    let (_, reason, message, _) = maintenance_condition(&failed, "Repository", "nas");
    assert_eq!(
        maintenance_warning(&failed, "Repository", "nas", &vec![], Some(1), "t0"),
        Some((reason, message))
    );
    let written =
        maintenance_conditions(&failed, "Repository", "nas", &vec![], Some(1), "t0").unwrap();
    assert_eq!(
        maintenance_warning(&failed, "Repository", "nas", &written, Some(1), "t1"),
        None
    );
    let unresolved = MaintenanceCoverage::Unresolved;
    assert_eq!(
        maintenance_warning(&unresolved, "Repository", "nas", &written, Some(1), "t2")
            .map(|w| w.0),
        Some(MAINTENANCE_NAMESPACE_UNRESOLVED_REASON)
    );
    for quiet in [
        MaintenanceCoverage::CoveredByManaged,
        MaintenanceCoverage::CoveredByForeign,
        MaintenanceCoverage::DisabledBySpec,
    ] {
        assert_eq!(
            maintenance_warning(&quiet, "Repository", "nas", &written, Some(1), "t3"),
            None
        );
    }
}
