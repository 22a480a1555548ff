use kopiur_controller::clock::Moment;
use kopiur_controller::consts::{
    CREDS_SCOPE_CR, CREDS_SCOPE_LABEL, PROJECTED_AT_ANNOTATION, PROJECTED_FROM_ANNOTATION,
};
use kopiur_controller::error::Error;
use kopiur_controller::io::creds::{
    build_projected_secret, creds_route, delete_outcome, ensure_creds_present, first_missing_cred,
    is_reapable_projected_copy, map_projection_apply_error, missing_creds_message, plain_creds,
    projected_ownership, projection_decision, projection_denied_message, projection_names,
    projection_name_conflict_message, projection_source_missing_message,
    projection_unresolved_ns_message, reap_outcome, reap_precheck, reap_signal, repo_kind_str,
    shrink_walk_goes_on, shrink_walk_is_vacuous, CredsAction, CredsContext, CredsEvent,
    CredsPrefix, CredsRoute, CredsRun, CredsSecretRef, DeleteOutcome, ProjectedOwnership,
    ProjectedSecret, ProjectionDecision, ProjectionDenyReason, ReapSignal, SourceSecret,
    MAX_CREDS_IDX,
};
use kopiur_controller::io::meta::{ObjectMeta, OwnerReference};
use kopiur_controller::naming::RepositoryKind;
use kopiur_controller::strmap::StringMap;

const NOW: Moment = Moment {
    secs: 1_780_000_000,
    nanos: 0,
};

fn api_error(code: u16) -> Error {
    Error::Kube {
        code: Some(code),
        message: "boom".into(),
    }
}

fn source() -> SourceSecret {
    SourceSecret {
        name: Some("repo-pw".into()),
        namespace: Some("kopiur-system".into()),
        data: None,
        string_data: None,
        type_: None,
    }
}

fn meta_of(s: &ProjectedSecret) -> ObjectMeta {
    ObjectMeta {
        labels: Some(s.labels.clone()),
        owner_references: vec![s.owner_reference.clone()],
    }
}

fn owner(name: &str) -> OwnerReference {
    OwnerReference {
        api_version: "kopiur.home-operations.com/v1alpha1".into(),
        kind: "Snapshot".into(),
        name: name.into(),
        uid: "uid-123".into(),
        controller: Some(true),
        block_owner_deletion: Some(false),
    }
}

fn ctx() -> CredsContext<'static> {
    CredsContext {
        secret_names: &[],
        repo_kind: "ClusterRepository",
        repo_name: "shared",
        repo_secret_namespace: Some("kopiur-system"),
    }
}

#[test]
fn projection_allowed_only_when_consumer_and_owner_both_agree() {
    assert_eq!(projection_decision(true, true), ProjectionDecision::Project);
}

#[test]
fn projection_denied_when_owner_disallows_even_if_consumer_enabled() {
    assert_eq!(
        projection_decision(true, false),
        ProjectionDecision::Deny(ProjectionDenyReason::OwnerNotAllowed)
    );
}

#[test]
fn projection_denied_when_consumer_not_opted_in() {
    assert_eq!(
        projection_decision(false, true),
        ProjectionDecision::Deny(ProjectionDenyReason::ConsumerNotOptedIn)
    );
    assert_eq!(
        projection_decision(false, false),
        ProjectionDecision::Deny(ProjectionDenyReason::ConsumerNotOptedIn)
    );
}

#[test]
fn projection_denied_message_names_the_unmet_gate() {
    let owner_msg = projection_denied_message(
        "repo-pw",
        "kopiur-system",
        "team-a",
        ProjectionDenyReason::OwnerNotAllowed,
        &ctx(),
    );
    assert!(owner_msg.contains("owner has not allowed"));
    assert!(owner_msg.contains("credentialProjection.allowed: true"));
    assert!(owner_msg.contains("`repo-pw`"));

    let consumer_msg = projection_denied_message(
        "repo-pw",
        "kopiur-system",
        "team-a",
        ProjectionDenyReason::ConsumerNotOptedIn,
        &ctx(),
    );
    assert!(consumer_msg.contains("consumer has not opted in"));
    assert!(consumer_msg.contains("credentialProjection.enabled: true"));
}

#[test]
fn creds_prefix_names_are_stable_and_kind_distinct() {
    let all = [
        CredsPrefix::snapshot_backup("app").secret_name(0),
        CredsPrefix::restore("app").secret_name(0),
        CredsPrefix::snapshot_pin("app").secret_name(0),
        CredsPrefix::snapshot_delete_batch("app-batch").secret_name(0),
        CredsPrefix::maintenance("app").secret_name(0),
        CredsPrefix::verification("app").secret_name(0),
        CredsPrefix::replication("app").secret_name(0),
        CredsPrefix::bootstrap("app").secret_name(0),
        CredsPrefix::snapshot_replication_src("app").secret_name(0),
        CredsPrefix::snapshot_replication_dst("app").secret_name(0),
    ];
    for (i, a) in all.iter().enumerate() {
        for b in &all[i + 1..] {
            assert_ne!(a, b, "kind slugs must be pairwise distinct");
        }
    }
    assert_eq!(
        CredsPrefix::snapshot_backup("app").secret_name(0),
        "app-creds-0"
    );
    assert_eq!(
        CredsPrefix::maintenance("app").secret_name(0),
        "app-maint-creds-0"
    );
    assert_eq!(
        CredsPrefix::verification("nightly").secret_name(1),
        "nightly-vfy-creds-1"
    );
    assert_eq!(
        CredsPrefix::restore("app").secret_name(0),
        "app-restore-creds-0"
    );
    assert_eq!(
        CredsPrefix::snapshot_replication_src("offsite").secret_name(0),
        "offsite-srepl-src-creds-0"
    );
    assert_eq!(
        CredsPrefix::snapshot_replication_dst("offsite").secret_name(0),
        "offsite-srepl-dst-creds-0"
    );
}

#[test]
fn creds_prefix_caps_long_names_deterministically() {
    let long = "n".repeat(80);
    let a = CredsPrefix::maintenance(&long).secret_name(0);
    assert!(a.len() <= 63, "{} chars", a.len());
    assert_eq!(a, CredsPrefix::maintenance(&long).secret_name(0));
    assert_ne!(a, CredsPrefix::maintenance(&long).secret_name(1));
}

fn secret_owned_by(uid: &str) -> ObjectMeta {
    let mut o = owner("other");
    o.uid = uid.into();
    ObjectMeta {
        labels: None,
        owner_references: vec![o],
    }
}

#[test]
fn ownership_free_when_absent() {
    assert!(matches!(
        projected_ownership(None, "uid-123"),
        ProjectedOwnership::Free
    ));
}

#[test]
fn ownership_self_when_controller_uid_matches() {
    let s = secret_owned_by("uid-123");
    assert!(matches!(
        projected_ownership(Some(&s), "uid-123"),
        ProjectedOwnership::OwnedBySelf
    ));
}

#[test]
fn ownership_other_when_uid_differs_or_controller_ref_missing() {
    let s = secret_owned_by("uid-999");
    assert!(matches!(
        projected_ownership(Some(&s), "uid-123"),
        ProjectedOwnership::OwnedByOther(Some(_))
    ));
    let bare = ObjectMeta {
        labels: None,
        owner_references: vec![],
    };
    assert!(matches!(
        projected_ownership(Some(&bare), "uid-123"),
        ProjectedOwnership::OwnedByOther(None)
    ));
}

#[test]
fn name_conflict_message_names_both_owners() {
    let mut other = owner("db");
    other.kind = "Restore".into();
    let msg = projection_name_conflict_message("db-creds-0", "team-a", Some(&other), &ctx());
    assert!(msg.contains("`db-creds-0`"));
    assert!(msg.contains("`team-a`"));
    assert!(msg.contains("Restore `db`"));
    assert!(msg.contains("ClusterRepository `shared`"));
    assert!(msg.contains("rename"));

    let unowned = projection_name_conflict_message("db-creds-0", "team-a", None, &ctx());
    assert!(unowned.contains("not managed by kopiur"));
    assert!(
        !msg.contains("  "),
        "message must not embed space runs: {msg}"
    );
    assert!(
        !unowned.contains("  "),
        "message must not embed space runs: {unowned}"
    );
}

#[test]
fn reapable_requires_marker_label_and_owner_uid() {
    let src = source();
    let ours = build_projected_secret(
        "app-maint-creds-1",
        "team-a",
        owner("app"),
        &src,
        NOW,
    );
    let meta = meta_of(&ours);
    assert!(is_reapable_projected_copy(&meta, "uid-123"));
    assert!(!is_reapable_projected_copy(&meta, "uid-999"));
    let legacy = ObjectMeta {
        labels: Some(StringMap::new()),
        ..meta
    };
    assert!(!is_reapable_projected_copy(&legacy, "uid-123"));
}

#[test]
fn projected_secret_copies_data_and_is_owned_and_labeled() {
    let mut src = source();
    src.data = Some(vec![("KOPIA_PASSWORD".to_string(), b"hunter2".to_vec())]);

    let s = build_projected_secret(
        "job-creds-0",
        "team-a",
        owner("job"),
        &src,
        NOW,
    );

    assert_eq!(s.name, "job-creds-0");
    assert_eq!(s.namespace, "team-a");
    assert_eq!(s.owner_reference.kind, "Snapshot");
    assert_eq!(s.owner_reference.controller, Some(true));
    assert_eq!(s.data, src.data);
    assert_eq!(s.type_, "Opaque");
    assert_eq!(s.immutable, None);
    let labels = &s.labels;
    assert_eq!(
        labels
            .get("app.kubernetes.io/managed-by")
            .map(String::as_str),
        Some("kopiur")
    );
    assert_eq!(
        labels
            .get("app.kubernetes.io/component")
            .map(String::as_str),
        Some("credentials")
    );
    assert_eq!(
        labels
            .get(CREDS_SCOPE_LABEL)
            .map(String::as_str),
        Some(CREDS_SCOPE_CR)
    );
    let ann = &s.annotations;
    assert_eq!(
        ann.get(PROJECTED_FROM_ANNOTATION).map(String::as_str),
        Some("kopiur-system/repo-pw")
    );
    assert!(ann.get(PROJECTED_AT_ANNOTATION).is_some());
}
#[test]
fn reprojection_differs_so_the_apply_is_a_real_write() {
    let src = source();
    let t0 = Moment { secs: 1_700_000_000, nanos: 0 };
    let t1 = Moment { secs: 1_700_003_600, nanos: 0 };

    let first = build_projected_secret("app-creds-0", "team-a", owner("app"), &src, t0);
    let second = build_projected_secret("app-creds-0", "team-a", owner("app"), &src, t1);

    assert_ne!(
        first.annotations, second.annotations,
        "a re-projection must produce a different object, or the SSA no-ops \
         and the sweep's resourceVersion precondition cannot fire"
    );
    assert_eq!(first.data, second.data);
    assert_eq!(first.labels, second.labels);
}

#[test]
fn source_missing_message_is_actionable() {
    let msg = projection_source_missing_message("repo-pw", "kopiur-system", "team-a", &ctx());
    assert!(msg.contains("`repo-pw`"));
    assert!(msg.contains("`kopiur-system`"));
    assert!(msg.contains("`team-a`"));
    assert!(msg.contains("ClusterRepository `shared`"));
    assert!(msg.contains("KOPIA_PASSWORD"));
}

#[test]
fn unresolved_ns_message_points_at_explicit_namespace() {
    let msg = projection_unresolved_ns_message("repo-pw", &ctx());
    assert!(msg.contains("no resolvable source namespace"));
    assert!(msg.contains("explicit `namespace`"));
    assert!(msg.contains("spec.credentialProjection"));
}

#[test]
fn apply_403_maps_to_rbac_toggle_hint() {
    let mapped = map_projection_apply_error(api_error(403), "job-creds-0", "team-a");
    match mapped {
        Error::MissingDependency(m) => {
            assert!(m.contains("HTTP 403"));
            assert!(m.contains("features.credentialProjection.enabled: true"));
            assert!(m.contains("`job-creds-0`"));
        }
        other => panic!("expected MissingDependency, got {other:?}"),
    }
}

#[test]
fn non_403_error_passes_through_unchanged() {
    assert!(matches!(
        map_projection_apply_error(api_error(500), "job-creds-0", "team-a"),
        Error::Kube { .. }
    ));
}
#[test]
fn shrink_walk_vacuous_only_past_the_max_index() {
    assert!(!shrink_walk_is_vacuous(0));
    assert!(!shrink_walk_is_vacuous(1));
    assert!(shrink_walk_is_vacuous(MAX_CREDS_IDX + 1));
    assert!(shrink_walk_is_vacuous(MAX_CREDS_IDX + 2));
}

#[test]
fn only_an_own_copy_passes_the_look_before_a_reap() {
    assert_eq!(reap_precheck(None, "uid-123"), Some(ReapSignal::Absent));
    let foreign = secret_owned_by("uid-999");
    assert_eq!(reap_precheck(Some(&foreign), "uid-123"), Some(ReapSignal::Kept));
    let ours = meta_of(&build_projected_secret("c", "team-a", owner("app"), &source(), NOW));
    assert_eq!(reap_precheck(Some(&ours), "uid-123"), None);
}

#[test]
fn every_copy_of_a_consumer_is_looked_at_under_a_name_of_its_own() {
    assert_eq!(
        projection_names(&CredsPrefix::restore("app")),
        vec!["app-restore-creds-0".to_string(), "app-restore-creds-1".to_string()]
    );
    let long = CredsPrefix::restore(&"x".repeat(80));
    let names = projection_names(&long);
    assert_eq!(names, vec![long.secret_name(0), long.secret_name(1)]);
    assert_ne!(names[0], names[1]);
    assert!(names.iter().all(|n| n.len() <= 63));
    assert_eq!(projection_names(&CredsPrefix::restore(&"x".repeat(80))), names);
}

#[test]
fn a_copy_tells_when_and_from_where() {
    let s = build_projected_secret("c", "team-a", owner("app"), &source(), NOW);
    assert_eq!(
        s.annotations.get(PROJECTED_AT_ANNOTATION).map(String::as_str),
        Some("2026-05-28T20:26:40+00:00")
    );
}

#[test]
fn a_missing_secret_is_told_by_where_it_is() {
    let elsewhere = missing_creds_message("repo-pw", "team-a", &ctx());
    assert!(elsewhere.contains("`repo-pw`"), "{elsewhere}");
    assert!(elsewhere.contains("`team-a`"), "{elsewhere}");
    assert!(elsewhere.contains("kopiur-system"), "{elsewhere}");
    let names = vec!["a".to_string(), "b".to_string(), "c".to_string()];
    let c = CredsContext {
        secret_names: &names,
        ..ctx()
    };
    assert_eq!(first_missing_cred(&c, "team-a", &vec![true, true, true]), None);
    assert_eq!(
        first_missing_cred(&c, "team-a", &vec![true, false, false]),
        Some(missing_creds_message("b", "team-a", &c))
    );
    assert!(ensure_creds_present(&c, "team-a", &vec![true]).is_ok());
    match ensure_creds_present(&c, "team-a", &vec![false]) {
        Err(Error::MissingDependency(m)) => {
            assert_eq!(m, missing_creds_message("a", "team-a", &c))
        }
        other => panic!("{other:?}"),
    }
}

fn sref(name: &str, ns: Option<&str>) -> CredsSecretRef {
    CredsSecretRef {
        name: name.to_string(),
        namespace: ns.map(str::to_string),
    }
}

#[test]
fn routes_follow_the_gates() {
    assert_eq!(creds_route(&sref("s", Some("team-a")), "team-a", false, false), CredsRoute::InPlace);
    assert_eq!(creds_route(&sref("s", Some("sys")), "team-a", true, true), CredsRoute::Project);
    assert_eq!(
        creds_route(&sref("s", Some("sys")), "team-a", true, false),
        CredsRoute::Denied(ProjectionDenyReason::OwnerNotAllowed)
    );
    assert_eq!(
        creds_route(&sref("s", Some("sys")), "team-a", false, true),
        CredsRoute::InPlace
    );
    assert_eq!(creds_route(&sref("s", None), "team-a", false, true), CredsRoute::InPlace);
    assert_eq!(creds_route(&sref("s", None), "team-a", true, true), CredsRoute::Unresolved);
}

#[test]
fn a_run_settles_each_secret_in_turn() {
    let refs = vec![sref("repo-pw", Some("kopiur-system")), sref("s3-keys", Some("team-a"))];
    let prefix = CredsPrefix::maintenance("app");
    let c = ctx();
    let (mut run, first) = CredsRun::start(&refs, "team-a", &prefix, "uid-123", true, true, &c);
    match first {
        CredsAction::ReadTarget { copy } => assert_eq!(copy, "app-maint-creds-0"),
        other => panic!("{other:?}"),
    }
    match run.next(CredsEvent::Target(None)) {
        CredsAction::ReadSource { secret, namespace } => {
            assert_eq!((secret.as_str(), namespace.as_str()), ("repo-pw", "kopiur-system"))
        }
        other => panic!("{other:?}"),
    }
    match run.next(CredsEvent::Source(true)) {
        CredsAction::Apply { copy } => assert_eq!(copy, "app-maint-creds-0"),
        other => panic!("{other:?}"),
    }
    let applied = meta_of(&build_projected_secret("x", "team-a", owner("app"), &source(), NOW));
    match run.next(CredsEvent::Applied(applied)) {
        CredsAction::Verify { copy, secret } => {
            assert_eq!((copy.as_str(), secret.as_str()), ("app-maint-creds-1", "s3-keys"))
        }
        other => panic!("{other:?}"),
    }
    assert!(matches!(run.next(CredsEvent::Presence(true)), CredsAction::Done));
    let out = run.finish();
    assert_eq!(out.names, vec!["app-maint-creds-0".to_string(), "s3-keys".to_string()]);
    assert_eq!(out.projected, 1);
}

#[test]
fn a_run_stops_at_the_first_obstacle() {
    let refs = vec![sref("repo-pw", Some("kopiur-system"))];
    let prefix = CredsPrefix::maintenance("app");
    let c = ctx();
    let fail = |a: CredsAction| match a {
        CredsAction::Fail(e) => e.message().to_string(),
        other => panic!("{other:?}"),
    };
    let (mut run, _) = CredsRun::start(&refs, "team-a", &prefix, "uid-123", true, true, &c);
    let taken = secret_owned_by("uid-999");
    assert!(fail(run.next(CredsEvent::Target(Some(taken)))).contains("rename"));

    let (mut run, _) = CredsRun::start(&refs, "team-a", &prefix, "uid-123", true, true, &c);
    let _ = run.next(CredsEvent::Target(None));
    assert_eq!(
        fail(run.next(CredsEvent::Source(false))),
        projection_source_missing_message("repo-pw", "kopiur-system", "team-a", &c)
    );

    let (mut run, _) = CredsRun::start(&refs, "team-a", &prefix, "uid-123", true, true, &c);
    let _ = run.next(CredsEvent::Target(None));
    let _ = run.next(CredsEvent::Source(true));
    assert!(fail(run.next(CredsEvent::Rejected(api_error(403)))).contains("HTTP 403"));

    let (_, denied) = CredsRun::start(&refs, "team-a", &prefix, "uid-123", true, false, &c);
    assert_eq!(
        fail(denied),
        projection_denied_message(
            "repo-pw",
            "kopiur-system",
            "team-a",
            ProjectionDenyReason::OwnerNotAllowed,
            &c
        )
    );

    let nowhere = vec![sref("repo-pw", None)];
    let (_, lost) = CredsRun::start(&nowhere, "team-a", &prefix, "uid-123", true, true, &c);
    assert_eq!(fail(lost), projection_unresolved_ns_message("repo-pw", &c));

    let here = vec![sref("repo-pw", Some("team-a"))];
    let (mut run, _) = CredsRun::start(&here, "team-a", &prefix, "uid-123", true, true, &c);
    assert_eq!(
        fail(run.next(CredsEvent::Presence(false))),
        missing_creds_message("repo-pw", "team-a", &c)
    );
}

#[test]
fn signals_add_up() {
    assert_eq!(delete_outcome(Ok(())).unwrap(), DeleteOutcome::Deleted);
    assert_eq!(delete_outcome(Err(api_error(404))).unwrap(), DeleteOutcome::Spared);
    assert_eq!(delete_outcome(Err(api_error(409))).unwrap(), DeleteOutcome::Spared);
    assert_eq!(delete_outcome(Err(api_error(403))).unwrap(), DeleteOutcome::Forbidden);
    assert!(delete_outcome(Err(api_error(500))).is_err());
    assert_eq!(reap_signal(DeleteOutcome::Deleted), ReapSignal::Deleted);
    assert_eq!(reap_signal(DeleteOutcome::Spared), ReapSignal::Kept);
    assert_eq!(reap_signal(DeleteOutcome::Forbidden), ReapSignal::Forbidden);
    assert!(shrink_walk_goes_on(ReapSignal::Deleted));
    assert!(!shrink_walk_goes_on(ReapSignal::Absent));
    let good = reap_outcome(&vec![ReapSignal::Deleted, ReapSignal::Absent, ReapSignal::Deleted]);
    assert_eq!((good.deleted, good.settled), (2, true));
    let bad = reap_outcome(&vec![ReapSignal::Deleted, ReapSignal::Forbidden]);
    assert_eq!((bad.deleted, bad.settled), (1, false));
    let err = reap_outcome(&vec![ReapSignal::Errored]);
    assert_eq!((err.deleted, err.settled), (0, false));
}

#[test]
fn names_are_plain_or_by_kind() {
    let plain = plain_creds(vec!["a".to_string()]);
    assert_eq!((plain[0].secret.as_str(), plain[0].prefix.as_deref()), ("a", None));
    assert_eq!(repo_kind_str(RepositoryKind::ClusterRepository), "ClusterRepository");
    assert_eq!(
        CredsPrefix::verification_for_repo("nightly", "abc123").secret_name(0),
        "nightly-vfy-abc123-creds-0"
    );
    assert_eq!(CredsPrefix::seed("nas").secret_name(0), "nas-seed-creds-0");
}
