use kopiur_controller::clock::{Moment, Span};
use kopiur_controller::consts::{
    GROUP_LABEL, GROUP_STAGING_WAITING_REASON, REASON_GROUP_MEMBER_MISSING,
    REASON_GROUP_STAGING_TIMEOUT, REASON_NO_GROUP_CLASS, REASON_VGS_FAILED,
};
use kopiur_controller::io::apply::{entry, get, get_text, Json};
use kopiur_controller::io::group_staging::{
    belongs_to_group, build_volume_group_snapshot, content_info, group_driver,
    group_member_stage, group_name, group_reapable, group_wait_stage, is_final_phase,
    map_group_members, member_vs, no_member_listed, pick_group_class, pv_info, sibling_states,
    vgs_observation, vgs_wait_outcome, volume_group_snapshot_ar, volume_group_snapshot_class_ar,
    ContentInfo, GroupStage, MemberVs, PvInfo, SiblingState, SnapshotPhase, VgsObservation,
    VgsWait, DEFAULT_GROUP_CLASS_ANNOTATION, GROUP_SNAPSHOT_GROUP, GROUP_SNAPSHOT_VERSION,
};
use kopiur_controller::io::staging::{ClassInfo, DEFAULT_CLASS_ANNOTATION};

fn t(h: u32) -> Moment {
    Moment::parse_rfc3339(&format!("2026-08-05T{h:02}:00:00Z")).unwrap()
}

fn obs(ready: bool, error: Option<&str>, created: Option<u32>) -> VgsObservation {
    VgsObservation {
        ready,
        error: error.map(str::to_string),
        created_at: created.map(|h| t(h).secs),
    }
}

const TEN_MIN: Span = Span {
    secs: 600,
    nanos: 0,
};

#[test]
fn ready_wins_over_both_the_error_and_the_deadline() {
    let o = obs(true, Some("some earlier hiccup"), Some(1));
    assert_eq!(
        vgs_wait_outcome(&o, "ns", "g", "cls", Some(TEN_MIN), t(23)),
        VgsWait::Ready
    );
}

#[test]
fn an_error_is_never_fatal_on_sight() {
    let o = obs(
        false,
        Some("failed to create group snapshot: conflict"),
        Some(1),
    );
    match vgs_wait_outcome(&o, "ns", "g", "cls", Some(TEN_MIN), t(1)) {
        VgsWait::Waiting(msg) => {
            assert!(msg.contains("possibly-transient"), "{msg}");
            assert!(
                msg.contains("conflict"),
                "the error is still surfaced: {msg}"
            );
        }
        other => panic!("an error inside the deadline must WAIT, got {other:?}"),
    }
}

#[test]
fn the_deadline_is_what_fails_and_it_names_the_group_escape_hatch() {
    let o = obs(false, None, Some(1));
    match vgs_wait_outcome(&o, "ns", "g", "cls", Some(TEN_MIN), t(3)) {
        VgsWait::Failed { reason, message } => {
            assert_eq!(reason, REASON_GROUP_STAGING_TIMEOUT);
            assert!(message.contains("10m"), "must echo the budget: {message}");
            assert!(
                message.contains("groupBy: None"),
                "must name the way out: {message}"
            );
        }
        other => panic!("past the deadline must fail, got {other:?}"),
    }
    let o = obs(false, Some("driver said no"), Some(1));
    match vgs_wait_outcome(&o, "ns", "g", "cls", Some(TEN_MIN), t(3)) {
        VgsWait::Failed { reason, message } => {
            assert_eq!(reason, REASON_VGS_FAILED);
            assert!(message.contains("driver said no"), "{message}");
        }
        other => panic!("expected Failed, got {other:?}"),
    }
}

#[test]
fn a_missing_creation_timestamp_or_zero_timeout_never_expires() {
    assert!(matches!(
        vgs_wait_outcome(
            &obs(false, None, None),
            "ns",
            "g",
            "c",
            Some(TEN_MIN),
            t(23)
        ),
        VgsWait::Waiting(_)
    ));
    match vgs_wait_outcome(&obs(false, None, Some(1)), "ns", "g", "c", None, t(23)) {
        VgsWait::Waiting(msg) => assert!(msg.contains("indefinitely"), "{msg}"),
        other => panic!("expected Waiting, got {other:?}"),
    }
}

#[test]
fn the_waiting_message_is_deterministic_so_status_does_not_churn() {
    let o = obs(false, None, Some(1));
    let a = vgs_wait_outcome(&o, "ns", "g", "c", Some(TEN_MIN), t(1));
    let b = vgs_wait_outcome(&o, "ns", "g", "c", Some(TEN_MIN), t(1));
    assert_eq!(a, b);
    assert_eq!(a, vgs_wait_outcome(&o, "ns", "g", "c", Some(TEN_MIN), t(1)));
}

fn member(name: &str, group: &str, content: &str) -> MemberVs {
    MemberVs {
        name: name.to_string(),
        group: Some(group.to_string()),
        content: Some(content.to_string()),
        restore_size: Some("1Gi".into()),
    }
}

#[test]
fn members_map_back_to_their_pvcs_through_content_and_pv() {
    let members = vec![
        member("snap-a", "grp", "content-a"),
        member("snap-b", "grp", "content-b"),
    ];
    let contents = vec![
        ContentInfo {
            name: "content-a".into(),
            volume_handle: Some("vol-1".into()),
        },
        ContentInfo {
            name: "content-b".into(),
            volume_handle: Some("vol-2".into()),
        },
    ];
    let pvs = vec![
        PvInfo {
            volume_handle: "vol-1".into(),
            claim_namespace: "db".into(),
            claim_name: "pgdata".into(),
        },
        PvInfo {
            volume_handle: "vol-2".into(),
            claim_namespace: "db".into(),
            claim_name: "wal".into(),
        },
    ];
    let map = map_group_members(&members, &contents, &pvs, "grp");
    assert_eq!(map.entries.len(), 2);
    assert_eq!(
        map.get("db", "pgdata").unwrap().volume_snapshot_name,
        "snap-a"
    );
    assert_eq!(
        map.get("db", "wal").unwrap().volume_snapshot_name,
        "snap-b"
    );
}

#[test]
fn snapshots_belonging_to_another_group_are_ignored() {
    let mut other = member("snap-other", "some-other-group", "content-a");
    other.group = Some("other-grp".into());
    let contents = vec![ContentInfo {
        name: "content-a".into(),
        volume_handle: Some("vol-1".into()),
    }];
    let pvs = vec![PvInfo {
        volume_handle: "vol-1".into(),
        claim_namespace: "db".into(),
        claim_name: "pgdata".into(),
    }];
    assert!(map_group_members(&[other], &contents, &pvs, "grp").is_empty());
}

#[test]
fn an_unresolvable_member_is_omitted_never_guessed() {
    let members = vec![
        member("snap-a", "grp", "missing-content"),
        MemberVs {
            name: "snap-b".into(),
            group: Some("grp".into()),
            content: None,
            restore_size: None,
        },
    ];
    let contents = vec![ContentInfo {
        name: "content-x".into(),
        volume_handle: Some("vol-9".into()),
    }];
    let pvs = vec![PvInfo {
        volume_handle: "vol-9".into(),
        claim_namespace: "db".into(),
        claim_name: "x".into(),
    }];
    assert!(map_group_members(&members, &contents, &pvs, "grp").is_empty());
}

#[test]
fn a_content_with_no_volume_handle_is_omitted() {
    let members = vec![member("snap-a", "grp", "content-a")];
    let contents = vec![ContentInfo {
        name: "content-a".into(),
        volume_handle: None,
    }];
    assert!(map_group_members(&members, &contents, &[], "grp").is_empty());
}

fn state(terminal: bool, staged_pvc_present: bool) -> SiblingState {
    SiblingState {
        terminal,
        staged_pvc_present,
    }
}

#[test]
fn the_group_is_reaped_only_when_every_sibling_is_done() {
    let done = state(true, false);
    assert!(group_reapable(Some(&[done, done])));
    assert!(!group_reapable(Some(&[done, state(false, false)])));
}

#[test]
fn a_terminal_sibling_that_still_holds_a_staged_pvc_blocks_the_reap() {
    assert!(!group_reapable(Some(&[state(true, true)])));
    assert!(group_reapable(Some(&[state(true, false)])));
}

#[test]
fn a_failed_sibling_read_fails_closed() {
    assert!(!group_reapable(None));
}

#[test]
fn an_empty_member_set_is_only_reapable_because_the_caller_proved_it() {
    assert!(group_reapable(Some(&[])));
}

#[test]
fn the_default_group_class_annotation_is_the_kubernetes_io_one() {
    assert_eq!(
        DEFAULT_GROUP_CLASS_ANNOTATION,
        "groupsnapshot.storage.kubernetes.io/is-default-class"
    );
    assert_ne!(
        DEFAULT_GROUP_CLASS_ANNOTATION,
        DEFAULT_CLASS_ANNOTATION
    );
    assert!(
        !DEFAULT_GROUP_CLASS_ANNOTATION.starts_with(&format!("{GROUP_SNAPSHOT_GROUP}/")),
        "the annotation domain deliberately differs from the API group"
    );
}

#[test]
fn the_built_group_carries_its_type_meta_and_group_label() {
    let sel = entry("matchLabels", entry("backup", Json::Text("include".to_string())));
    let obj = build_volume_group_snapshot("grp-1", "billing", &sel, "hostpath-grpclass", "grp-1");

    assert_eq!(
        obj.api_version,
        format!("{GROUP_SNAPSHOT_GROUP}/{GROUP_SNAPSHOT_VERSION}")
    );
    assert_eq!(obj.kind, "VolumeGroupSnapshot");
    assert_eq!(obj.namespace, "billing");
    assert_eq!(obj.name, "grp-1");
    assert_eq!(obj.labels.get(GROUP_LABEL).map(String::as_str), Some("grp-1"));
    let spec = get(Some(&obj.data), "spec");
    assert_eq!(
        get_text(get(spec, "volumeGroupSnapshotClassName")).map(String::as_str),
        Some("hostpath-grpclass")
    );
    let chosen = get(get(get(get(spec, "source"), "selector"), "matchLabels"), "backup");
    assert_eq!(get_text(chosen).map(String::as_str), Some("include"));
}

#[test]
fn names_and_kinds() {
    assert_eq!(group_name("nightly"), "nightly-grp");
    assert_eq!(volume_group_snapshot_ar().plural, "volumegroupsnapshots");
    assert_eq!(volume_group_snapshot_class_ar().kind, "VolumeGroupSnapshotClass");
    assert!(belongs_to_group(Some("g"), "g"));
    assert!(!belongs_to_group(Some("h"), "g"));
    assert!(!belongs_to_group(None, "g"));
}

#[test]
fn objects_are_read() {
    let status = Json::Object(vec![
        ("readyToUse".to_string(), Json::Bool(true)),
        ("volumeGroupSnapshotName".to_string(), Json::Text("grp".to_string())),
        (
            "boundVolumeSnapshotContentName".to_string(),
            Json::Text("content-a".to_string()),
        ),
        ("restoreSize".to_string(), Json::Text("1Gi".to_string())),
    ]);
    let data = entry("status", status);
    let m = member_vs("snap-a", &data);
    assert_eq!(m, member("snap-a", "grp", "content-a"));
    let o = vgs_observation(&data, Some(5));
    assert_eq!((o.ready, o.error, o.created_at), (true, None, Some(5)));
    let c = content_info(
        "content-a",
        &entry(
            "spec",
            entry("source", entry("volumeHandle", Json::Text("vol-1".to_string()))),
        ),
    );
    assert_eq!(c.volume_handle.as_deref(), Some("vol-1"));
    assert_eq!(content_info("c", &Json::Null).volume_handle, None);
    assert!(pv_info(Some("h"), Some("ns"), Some("n")).is_some());
    assert!(pv_info(Some("h"), None, Some("n")).is_none());
    assert!(no_member_listed(&[m.clone()], "other"));
    assert!(!no_member_listed(&[m], "grp"));
}

#[test]
fn siblings_are_judged_by_phase_and_claim() {
    assert!(is_final_phase(Some(SnapshotPhase::Succeeded)));
    assert!(is_final_phase(Some(SnapshotPhase::Unchanged)));
    assert!(!is_final_phase(Some(SnapshotPhase::Running)));
    assert!(!is_final_phase(None));
    assert_eq!(
        sibling_states(&[(Some(SnapshotPhase::Failed), Some(true)), (None, Some(false))]),
        Some(vec![state(true, true), state(false, false)])
    );
    assert_eq!(sibling_states(&[(Some(SnapshotPhase::Failed), None)]), None);
}

fn class(name: &str, driver: &str) -> ClassInfo {
    ClassInfo {
        name: name.to_string(),
        driver: driver.to_string(),
        is_default: false,
    }
}

fn failed(stage: GroupStage) -> (&'static str, String) {
    match stage {
        GroupStage::Failed { reason, message } => (reason, message),
        other => panic!("{other:?}"),
    }
}

#[test]
fn a_group_needs_a_selector_a_driver_and_a_class() {
    let (reason, message) =
        failed(group_driver(false, "daily", 2, "ns", "g", "ns", "data", Some("d")).unwrap_err());
    assert_eq!(reason, REASON_GROUP_MEMBER_MISSING);
    assert!(message.contains("source #2"), "{message}");
    let (reason, message) =
        failed(group_driver(true, "daily", 2, "ns", "g", "ns", "data", None).unwrap_err());
    assert_eq!(reason, REASON_NO_GROUP_CLASS);
    assert!(message.contains("ns/data"), "{message}");
    assert_eq!(
        group_driver(true, "daily", 2, "ns", "g", "ns", "data", Some("d")).unwrap(),
        "d"
    );
    assert_eq!(pick_group_class(Some(&[class("c", "d")]), "d").unwrap(), "c");
    let (reason, message) = failed(pick_group_class(None, "d").unwrap_err());
    assert_eq!(reason, REASON_NO_GROUP_CLASS);
    assert!(message.contains(GROUP_SNAPSHOT_GROUP), "{message}");
    let (_, message) = failed(pick_group_class(Some(&[class("c", "e")]), "d").unwrap_err());
    assert!(message.contains("`d`"), "{message}");
    let both = [class("a", "d"), class("b", "d")];
    let (_, message) = failed(pick_group_class(Some(&both), "d").unwrap_err());
    assert!(message.contains("a, b"), "{message}");
}

#[test]
fn stages_follow_the_wait_and_the_members() {
    match group_wait_stage(None, "ns", "g", "c", Some(TEN_MIN), t(1)).unwrap_err() {
        GroupStage::Waiting { reason, message } => {
            assert_eq!(reason, GROUP_STAGING_WAITING_REASON);
            assert_eq!(message, "waiting for VolumeGroupSnapshot `ns/g` to become readyToUse");
        }
        other => panic!("{other:?}"),
    }
    let ready = obs(true, None, Some(1));
    assert!(group_wait_stage(Some(&ready), "ns", "g", "c", Some(TEN_MIN), t(1)).is_ok());
    let members = map_group_members(
        &[member("snap-a", "grp", "content-a")],
        &[ContentInfo {
            name: "content-a".into(),
            volume_handle: Some("vol-1".into()),
        }],
        &[PvInfo {
            volume_handle: "vol-1".into(),
            claim_namespace: "db".into(),
            claim_name: "pgdata".into(),
        }],
        "grp",
    );
    match group_member_stage(&members, "db", "grp", "db", "pgdata") {
        GroupStage::Ready { member } => assert_eq!(member.volume_snapshot_name, "snap-a"),
        other => panic!("{other:?}"),
    }
    let (reason, message) = failed(group_member_stage(&members, "db", "grp", "db", "wal"));
    assert_eq!(reason, REASON_GROUP_MEMBER_MISSING);
    assert!(message.contains("db/wal"), "{message}");
}
