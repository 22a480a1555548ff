use kopiur_controller::clock::{Moment, Span};
use kopiur_controller::consts::{
    GROUP_STAGING_WAITING_REASON, STAGED_COMPONENT_LABEL, STAGED_PVC_BINDING_REASON,
    STAGING_WAITING_REASON,
};
use kopiur_controller::io::apply::{entry, Json};
use kopiur_controller::io::group_staging::{GroupMember, GroupMembers, VgsObservation};
use kopiur_controller::io::meta::OwnerReference;
use kopiur_controller::io::staging::{
    ClassInfo, CopyMethod, PersistentVolumeClaim, PvcSpec, StagedPvcObservation, StagedSource,
    StagingOutcome, VsObservation, REASON_NO_CLASS, REASON_SOURCE_NOT_CSI, REASON_STACK_MISSING,
    REASON_STAGED_PVC_BIND_TIMEOUT,
};
use kopiur_controller::io::staging_run::{
    default_storage_class, mover_pod_selector, plan_cleanup, staging_timeout_seconds,
    CleanupStep, GroupPin, StagingAction, StagingEvent, StagingPlan, StagingState, StagingStep,
};

const NOW: Moment = Moment {
    secs: 1_780_000_000,
    nanos: 0,
};

fn owner() -> OwnerReference {
    OwnerReference {
        api_version: "v1".to_string(),
        kind: "Snapshot".to_string(),
        name: "db".to_string(),
        uid: "u".to_string(),
        controller: Some(true),
        block_owner_deletion: None,
    }
}

fn plan(copy_method: CopyMethod) -> StagingPlan {
    StagingPlan {
        copy_method,
        source_pvc: Some("data".to_string()),
        source_namespace: "apps".to_string(),
        source_index: 0,
        policy_name: "daily".to_string(),
        selector: Some(entry("matchLabels", entry("a", Json::Text("b".to_string())))),
        group: None,
        namespaced_install: false,
        ns: "apps".to_string(),
        snapshot_cr: "db".to_string(),
        staging: None,
        explicit_class: None,
        timeout: Some(Span {
            secs: 600,
            nanos: 0,
        }),
        owner: owner(),
    }
}

fn claim(class: Option<&str>) -> PersistentVolumeClaim {
    PersistentVolumeClaim {
        name: Some("data".to_string()),
        namespace: Some("apps".to_string()),
        labels: None,
        owner_references: vec![],
        created_at: None,
        spec: Some(PvcSpec {
            access_modes: Some(vec!["ReadWriteOnce".to_string()]),
            storage_class_name: class.map(str::to_string),
            volume_mode: Some("Filesystem".to_string()),
            volume_name: Some("pv-1".to_string()),
            storage_request: Some("10Gi".to_string()),
            data_source: None,
        }),
        phase: None,
    }
}

fn ask(step: StagingStep) -> (StagingState, StagingAction) {
    match step {
        StagingStep::Ask { state, action } => (state, action),
        other => panic!("{other:?}"),
    }
}

fn done(step: StagingStep) -> StagingOutcome {
    match step {
        StagingStep::Done(outcome) => outcome,
        other => panic!("{other:?}"),
    }
}

fn classes() -> Option<Vec<ClassInfo>> {
    Some(vec![ClassInfo {
        name: "csi".to_string(),
        driver: "d".to_string(),
        is_default: false,
    }])
}

fn snapshot(ready: bool) -> StagingEvent {
    StagingEvent::Snapshot(Some(VsObservation {
        ready,
        restore_size: Some("20Gi".to_string()),
        error: None,
        created_at: Some(NOW.secs),
    }))
}

fn staged(phase: &str, created: i64) -> StagingEvent {
    StagingEvent::Staged(Some(StagedPvcObservation {
        phase: Some(phase.to_string()),
        created_at: Some(created),
    }))
}

/// As far as the staged claim, by way of a snapshot.
fn to_staged(p: &StagingPlan) -> StagingState {
    let (s, a) = ask(p.begin());
    assert_eq!(a, StagingAction::ReadSource { name: "data".to_string() });
    let (s, a) = ask(p.advance(s, StagingEvent::Source(Some(claim(Some("fast")))), NOW));
    assert_eq!(a, StagingAction::ReadDriver { class: "fast".to_string() });
    let (s, a) = ask(p.advance(s, StagingEvent::Driver(Some("d".to_string())), NOW));
    assert_eq!(a, StagingAction::ListClasses);
    let (s, a) = ask(p.advance(s, StagingEvent::Classes(classes()), NOW));
    match a {
        StagingAction::MakeSnapshot(vs) => {
            assert_eq!(vs.name, "db-snap");
            assert_eq!(vs.api_version, "snapshot.storage.k8s.io/v1");
            assert_eq!(vs.kind, "VolumeSnapshot");
            assert_eq!(
                vs.labels.get(STAGED_COMPONENT_LABEL).map(String::as_str),
                Some("staged-source-snapshot")
            );
        }
        other => panic!("{other:?}"),
    }
    let (s, a) = ask(p.advance(s, StagingEvent::Made, NOW));
    assert_eq!(a, StagingAction::ReadSnapshot { name: "db-snap".to_string() });
    let (s, a) = ask(p.advance(s, snapshot(true), NOW));
    match a {
        StagingAction::MakeStaged(pvc) => {
            assert_eq!(pvc.name.as_deref(), Some("db-src"));
            assert_eq!(
                pvc.labels
                    .as_ref()
                    .and_then(|l| l.get(STAGED_COMPONENT_LABEL))
                    .map(String::as_str),
                Some("staged-source")
            );
            assert_eq!((pvc.created_at, pvc.phase.as_deref()), (None, None));
            let spec = pvc.spec.unwrap();
            assert_eq!(spec.storage_request.as_deref(), Some("20Gi"));
            assert_eq!(spec.data_source.unwrap().name, "db-snap");
            assert_eq!(spec.volume_name, None);
            assert_eq!(spec.volume_mode.as_deref(), Some("Filesystem"));
        }
        other => panic!("{other:?}"),
    }
    s
}

#[test]
fn a_snapshot_is_staged_step_by_step() {
    let p = plan(CopyMethod::Snapshot);
    let s = to_staged(&p);
    let (s, a) = ask(p.advance(s, StagingEvent::Made, NOW));
    assert_eq!(a, StagingAction::ReadBinding { class: "fast".to_string() });
    let (s, a) = ask(p.advance(
        s,
        StagingEvent::Binding(Some(Some("Immediate".to_string()))),
        NOW,
    ));
    assert_eq!(a, StagingAction::ReadStaged { name: "db-src".to_string() });
    assert_eq!(
        done(p.advance(s, staged("Bound", NOW.secs), NOW)),
        StagingOutcome::Ready(StagedSource {
            pvc_name: "db-src".to_string(),
            volume_snapshot_name: Some("db-snap".to_string()),
            volume_group_snapshot_name: None,
            copy_method: "Snapshot",
            storage_class_name: Some("fast".to_string()),
            staging_timeout_seconds: 600,
        })
    );
}

#[test]
fn sizes_and_deadlines_matter_only_where_they_are_used() {
    let endless = "170141183460469231731687303715884105727Ki";
    let huge = |class: Option<&str>| {
        let mut c = claim(class);
        c.spec.as_mut().unwrap().storage_request = Some(endless.to_string());
        c
    };
    let found = |class: Option<&str>| StagingEvent::Source(Some(huge(class)));
    let p = plan(CopyMethod::Snapshot);
    assert!(p.is_workable(&StagingState::Source, &found(None)));
    assert!(matches!(
        done(p.advance(StagingState::Source, found(None), NOW)),
        StagingOutcome::Failed { reason, .. } if reason == REASON_SOURCE_NOT_CSI
    ));
    let c = plan(CopyMethod::Clone);
    assert!(c.is_workable(&StagingState::Source, &found(Some("fast"))));
    assert!(!c.is_workable(&StagingState::Source, &found(None)));
    let driver = StagingState::Driver { source: huge(Some("fast")) };
    assert!(!c.is_workable(&driver, &StagingEvent::Driver(None)));
    assert!(p.is_workable(&driver, &StagingEvent::Driver(None)));

    let seen = |ready: bool, size: &str, created_at: Option<i64>| {
        StagingEvent::Snapshot(Some(VsObservation {
            ready,
            restore_size: Some(size.to_string()),
            error: None,
            created_at,
        }))
    };
    let waits = StagingState::Snapshot { source: claim(None), class: "csi".to_string() };
    assert!(p.is_workable(&waits, &seen(true, "1Gi", Some(i64::MAX))));
    assert!(!p.is_workable(&waits, &seen(false, "1Gi", Some(i64::MAX))));
    assert!(p.is_workable(&waits, &seen(false, endless, Some(0))));
    assert!(!p.is_workable(&waits, &seen(true, endless, Some(0))));

    let binding = StagingState::Staged {
        class: None,
        effective: "fast".to_string(),
        snapshot: Some("db-snap".to_string()),
    };
    assert!(p.is_workable(&binding, &staged("Bound", i64::MAX)));
    assert!(p.is_workable(&binding, &staged("Lost", i64::MAX)));
    assert!(!p.is_workable(&binding, &staged("Pending", i64::MAX)));
    match done(p.advance(binding, staged("Bound", i64::MAX), NOW)) {
        StagingOutcome::Ready(r) => assert_eq!(r.volume_snapshot_name.as_deref(), Some("db-snap")),
        other => panic!("{other:?}"),
    }
}

#[test]
fn a_claim_that_waits_for_its_consumer_is_ready_unbound() {
    let p = plan(CopyMethod::Snapshot);
    let s = to_staged(&p);
    let (s, _) = ask(p.advance(s, StagingEvent::Made, NOW));
    match done(p.advance(
        s,
        StagingEvent::Binding(Some(Some("WaitForFirstConsumer".to_string()))),
        NOW,
    )) {
        StagingOutcome::Ready(r) => assert_eq!(r.pvc_name, "db-src"),
        other => panic!("{other:?}"),
    }
}

#[test]
fn a_claim_that_does_not_bind_waits_and_then_fails() {
    let p = plan(CopyMethod::Snapshot);
    for (created, late) in [(NOW.secs - 599, false), (NOW.secs - 600, true)] {
        let s = to_staged(&p);
        let (s, _) = ask(p.advance(s, StagingEvent::Made, NOW));
        let (s, _) = ask(p.advance(s, StagingEvent::Binding(Some(None)), NOW));
        match done(p.advance(s, staged("Pending", created), NOW)) {
            StagingOutcome::Waiting { reason, .. } => {
                assert!(!late);
                assert_eq!(reason, STAGED_PVC_BINDING_REASON);
            }
            StagingOutcome::Failed { reason, .. } => {
                assert!(late);
                assert_eq!(reason, REASON_STAGED_PVC_BIND_TIMEOUT);
            }
            other => panic!("{other:?}"),
        }
    }
}

#[test]
fn a_snapshot_that_is_not_ready_is_waited_for() {
    let p = plan(CopyMethod::Snapshot);
    let (s, _) = ask(p.begin());
    let (s, _) = ask(p.advance(s, StagingEvent::Source(Some(claim(Some("fast")))), NOW));
    let (s, _) = ask(p.advance(s, StagingEvent::Driver(Some("d".to_string())), NOW));
    let (s, _) = ask(p.advance(s, StagingEvent::Classes(classes()), NOW));
    let (s, _) = ask(p.advance(s, StagingEvent::Made, NOW));
    match done(p.advance(s, snapshot(false), NOW)) {
        StagingOutcome::Waiting { reason, message } => {
            assert_eq!(reason, STAGING_WAITING_REASON);
            assert!(message.contains("apps/db-snap"), "{message}");
        }
        other => panic!("{other:?}"),
    }
}

#[test]
fn what_cannot_be_staged_fails_at_once() {
    let mut p = plan(CopyMethod::Direct);
    assert_eq!(done(p.begin()), StagingOutcome::NotApplicable);
    p = plan(CopyMethod::Snapshot);
    p.namespaced_install = true;
    match done(p.begin()) {
        StagingOutcome::Failed { reason, .. } => assert_eq!(reason, REASON_SOURCE_NOT_CSI),
        other => panic!("{other:?}"),
    }
    p.namespaced_install = false;
    let (s, _) = ask(p.begin());
    match done(p.advance(s, StagingEvent::Source(None), NOW)) {
        StagingOutcome::Failed { reason, message } => {
            assert_eq!(reason, REASON_SOURCE_NOT_CSI);
            assert!(message.contains("was not found"), "{message}");
        }
        other => panic!("{other:?}"),
    }
    let (s, _) = ask(p.begin());
    match done(p.advance(s, StagingEvent::Source(Some(claim(None))), NOW)) {
        StagingOutcome::Failed { reason, message } => {
            assert_eq!(reason, REASON_SOURCE_NOT_CSI);
            assert!(message.contains("no StorageClass"), "{message}");
        }
        other => panic!("{other:?}"),
    }
    for (listed, want) in [(None, REASON_STACK_MISSING), (Some(vec![]), REASON_NO_CLASS)] {
        let (s, _) = ask(p.begin());
        let (s, _) = ask(p.advance(s, StagingEvent::Source(Some(claim(Some("fast")))), NOW));
        let (s, _) = ask(p.advance(s, StagingEvent::Driver(Some("d".to_string())), NOW));
        match done(p.advance(s, StagingEvent::Classes(listed), NOW)) {
            StagingOutcome::Failed { reason, .. } => assert_eq!(reason, want),
            other => panic!("{other:?}"),
        }
    }
}

#[test]
fn a_clone_takes_no_snapshot() {
    let p = plan(CopyMethod::Clone);
    let (s, _) = ask(p.begin());
    let (s, _) = ask(p.advance(s, StagingEvent::Source(Some(claim(Some("fast")))), NOW));
    let (_, a) = ask(p.advance(s, StagingEvent::Driver(Some("d".to_string())), NOW));
    match a {
        StagingAction::MakeStaged(pvc) => {
            let spec = pvc.spec.unwrap();
            assert_eq!(spec.data_source.unwrap().kind, "PersistentVolumeClaim");
            assert_eq!(spec.storage_request.as_deref(), Some("10Gi"));
        }
        other => panic!("{other:?}"),
    }
}

#[test]
fn a_group_is_captured_once_and_its_member_is_used() {
    let mut p = plan(CopyMethod::Snapshot);
    p.group = Some(GroupPin {
        namespace: "apps".to_string(),
        name: "g".to_string(),
    });
    let (s, _) = ask(p.begin());
    let (s, _) = ask(p.advance(s, StagingEvent::Source(Some(claim(Some("fast")))), NOW));
    let (s, a) = ask(p.advance(s, StagingEvent::Driver(Some("d".to_string())), NOW));
    assert_eq!(a, StagingAction::ListGroupClasses);
    let (s, a) = ask(p.advance(s, StagingEvent::Classes(classes()), NOW));
    match a {
        StagingAction::MakeGroup(g) => assert_eq!(g.name, "g"),
        other => panic!("{other:?}"),
    }
    let (s, a) = ask(p.advance(s, StagingEvent::Made, NOW));
    assert_eq!(a, StagingAction::ReadGroup);
    let seen = |ready: bool| {
        StagingEvent::Group(Some(VgsObservation {
            ready,
            error: None,
            created_at: Some(NOW.secs),
        }))
    };
    let (s, a) = ask(p.advance(s, seen(true), NOW));
    assert_eq!(a, StagingAction::ListMembers);
    let members = GroupMembers {
        entries: vec![(
            "apps".to_string(),
            "data".to_string(),
            GroupMember {
                volume_snapshot_name: "snap-7".to_string(),
                restore_size: None,
            },
        )],
    };
    let (_, a) = ask(p.advance(s, StagingEvent::Members(members), NOW));
    match a {
        StagingAction::MakeStaged(pvc) => {
            assert_eq!(pvc.spec.unwrap().data_source.unwrap().name, "snap-7")
        }
        other => panic!("{other:?}"),
    }

    let (s, _) = ask(p.begin());
    let (s, _) = ask(p.advance(s, StagingEvent::Source(Some(claim(Some("fast")))), NOW));
    let (s, _) = ask(p.advance(s, StagingEvent::Driver(Some("d".to_string())), NOW));
    let (s, _) = ask(p.advance(s, StagingEvent::Classes(classes()), NOW));
    let (s, _) = ask(p.advance(s, StagingEvent::Made, NOW));
    match done(p.advance(s, seen(false), NOW)) {
        StagingOutcome::Waiting { reason, .. } => {
            assert_eq!(reason, GROUP_STAGING_WAITING_REASON)
        }
        other => panic!("{other:?}"),
    }
}

#[test]
fn cleanup_lets_go_of_the_claim_before_the_snapshot() {
    let pods = vec![Some("pod-1".to_string()), None];
    assert_eq!(
        plan_cleanup("db", Some(&claim(Some("fast"))), &pods, None),
        vec![
            CleanupStep::DeletePod {
                name: "pod-1".to_string()
            },
            CleanupStep::ReclaimVolume {
                name: "pv-1".to_string()
            },
            CleanupStep::DeleteClaim {
                name: "db-src".to_string()
            },
            CleanupStep::DeleteSnapshot {
                name: "db-snap".to_string()
            },
        ]
    );
    let group = GroupPin {
        namespace: "apps".to_string(),
        name: "g".to_string(),
    };
    assert_eq!(
        plan_cleanup("db", None, &pods, Some(&group)),
        vec![CleanupStep::ReapGroup {
            namespace: "apps".to_string(),
            name: "g".to_string()
        }]
    );
    assert_eq!(mover_pod_selector("db"), "batch.kubernetes.io/job-name=db");
}

#[test]
fn small_helpers() {
    assert_eq!(staging_timeout_seconds(None), 0);
    assert_eq!(staging_timeout_seconds(Some(Span { secs: 90, nanos: 5 })), 90);
    let t = |n: &str, d: Option<&str>| (Some(n.to_string()), d.map(str::to_string));
    assert_eq!(
        default_storage_class(&vec![t("a", Some("false")), t("b", Some("true")), t("c", None)])
            .as_deref(),
        Some("b")
    );
    assert_eq!(default_storage_class(&vec![t("a", None)]), None);
}
