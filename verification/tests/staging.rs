use kopiur_controller::clock::{Moment, Span};
use kopiur_controller::io::apply::{entry, get, get_text, Json, JsonNumber};
use kopiur_controller::io::meta::OwnerReference;
use kopiur_controller::io::staging::{
    ambiguous_class_message, build_staged_pvc, build_volume_snapshot, child_labels, class_info,
    cleanup_plan, data_source_for, deadline_for, decide_class, effective_binding_mode,
    explicit_class_not_found_message, fmt_go_duration, is_deadline_dated, is_nameable,
    is_quantity_small, listed_classes, namespaced_install_cannot_stage_message,
    no_class_for_driver_message, pvc_bind_outcome, quantity_to_bytes, source_class,
    source_not_csi_message, source_pvc_not_found_message, stack_missing_message,
    staged_class_of, staged_class_preflight, staged_pvc_name, staged_pvc_observation,
    staged_pvc_size, staging_applicability, volume_snapshot_ar, volume_snapshot_class_ar,
    volume_snapshot_content_ar, volume_snapshot_name, vs_observation, vs_wait_outcome,
    BindingMode, ClassDecision, ClassInfo, CopyMethod, PersistentVolumeClaim, PvcAccessMode,
    PvcBindWait, PvcSpec, StagedPvcObservation, StagingApplicability, StagingSpec,
    VsObservation, VsWait, DEFAULT_CLASS_ANNOTATION, MAX_NAME_LEN,
    REASON_STAGED_CLASS_MISMATCH, REASON_STAGED_CLASS_NOT_FOUND,
    REASON_STAGED_PVC_BIND_TIMEOUT, REASON_STAGED_PVC_LOST, REASON_STAGING_TIMEOUT,
    REASON_VS_FAILED, SNAPSHOT_GROUP,
};

fn span(secs: u64) -> Span {
    Span { secs, nanos: 0 }
}

fn no_owner() -> OwnerReference {
    OwnerReference {
        api_version: String::new(),
        kind: String::new(),
        name: String::new(),
        uid: String::new(),
        controller: None,
        block_owner_deletion: None,
    }
}

fn no_overrides() -> StagingSpec {
    StagingSpec {
        storage_class_name: None,
        access_modes: vec![],
    }
}


fn class(name: &str, driver: &str, default: bool) -> ClassInfo {
    ClassInfo {
        name: name.into(),
        driver: driver.into(),
        is_default: default,
    }
}

#[test]
fn decide_class_explicit_wins_when_present() {
    let classes = [class("csi-a", "ebs.csi.aws.com", false)];
    assert_eq!(
        decide_class(&classes, "ebs.csi.aws.com", Some("csi-a")),
        ClassDecision::Use("csi-a".into())
    );
    assert_eq!(
        decide_class(&classes, "ebs.csi.aws.com", Some("nope")),
        ClassDecision::ExplicitNotFound("nope".into())
    );
}

#[test]
fn decide_class_treats_a_blank_explicit_name_as_unset() {
    let driver = "ebs.csi.aws.com";
    let classes = [class("csi-a", driver, false)];
    for blank in ["", "   ", "\n\t "] {
        assert_eq!(
            decide_class(&classes, driver, Some(blank)),
            ClassDecision::Use("csi-a".into()),
            "blank name {blank:?} should auto-select, not report a missing class"
        );
    }
    let ambiguous = [class("a", driver, false), class("b", driver, false)];
    assert!(matches!(
        decide_class(&ambiguous, driver, Some("")),
        ClassDecision::Ambiguous { .. }
    ));
    assert_eq!(
        decide_class(&classes, driver, Some("  csi-a  ")),
        ClassDecision::Use("csi-a".into())
    );
    assert_eq!(
        decide_class(&classes, driver, Some("nope")),
        ClassDecision::ExplicitNotFound("nope".into())
    );
}

#[test]
fn decide_class_single_match_is_used() {
    let classes = [
        class("csi-a", "ebs.csi.aws.com", false),
        class("other", "pd.csi.storage.gke.io", false),
    ];
    assert_eq!(
        decide_class(&classes, "ebs.csi.aws.com", None),
        ClassDecision::Use("csi-a".into())
    );
}

#[test]
fn decide_class_no_match_for_driver() {
    let classes = [class("csi-a", "ebs.csi.aws.com", false)];
    assert_eq!(
        decide_class(&classes, "zfs.csi.openebs.io", None),
        ClassDecision::NoneForDriver("zfs.csi.openebs.io".into())
    );
    assert_eq!(
        decide_class(&[], "any", None),
        ClassDecision::NoneForDriver("any".into())
    );
}

#[test]
fn decide_class_many_picks_unique_default_else_ambiguous() {
    let driver = "rbd.csi.ceph.com";
    let many = [
        class("a", driver, false),
        class("b", driver, true),
        class("c", driver, false),
    ];
    assert_eq!(
        decide_class(&many, driver, None),
        ClassDecision::Use("b".into())
    );
    let no_default = [class("a", driver, false), class("b", driver, false)];
    match decide_class(&no_default, driver, None) {
        ClassDecision::Ambiguous { candidates, .. } => {
            assert_eq!(candidates, vec!["a".to_string(), "b".to_string()])
        }
        other => panic!("expected Ambiguous, got {other:?}"),
    }
    let two_defaults = [class("a", driver, true), class("b", driver, true)];
    assert!(matches!(
        decide_class(&two_defaults, driver, None),
        ClassDecision::Ambiguous { .. }
    ));
}

#[test]
fn staged_names_are_deterministic_and_bounded() {
    assert_eq!(volume_snapshot_name("db"), "db-snap");
    assert_eq!(staged_pvc_name("db"), "db-src");
    let long = "a".repeat(80);
    let n = staged_pvc_name(&long);
    assert!(n.len() <= MAX_NAME_LEN, "bounded to 63: {} ", n.len());
    assert!(n.ends_with("-src"));
    assert_eq!(staged_pvc_name(&long), n);
}

#[test]
fn data_source_snapshot_vs_clone() {
    let snap = data_source_for(CopyMethod::Snapshot, "src", "vs");
    assert_eq!(snap.api_group.as_deref(), Some(SNAPSHOT_GROUP));
    assert_eq!(snap.kind, "VolumeSnapshot");
    assert_eq!(snap.name, "vs");
    let clone = data_source_for(CopyMethod::Clone, "src", "vs");
    assert_eq!(clone.api_group, None);
    assert_eq!(clone.kind, "PersistentVolumeClaim");
    assert_eq!(clone.name, "src");
}

#[test]
fn staged_size_takes_the_larger() {
    assert_eq!(
        staged_pvc_size(Some("20Gi"), Some("10Gi")).as_deref(),
        Some("20Gi")
    );
    assert_eq!(
        staged_pvc_size(Some("5Gi"), Some("10Gi")).as_deref(),
        Some("10Gi")
    );
    assert_eq!(
        staged_pvc_size(Some("0"), Some("10Gi")).as_deref(),
        Some("10Gi")
    );
    assert_eq!(staged_pvc_size(None, Some("10Gi")).as_deref(), Some("10Gi"));
    assert_eq!(staged_pvc_size(None, None), None);
}

#[test]
fn staged_pvc_copies_source_and_sets_data_source() {
    let mut source = override_test_source();
    source.spec.as_mut().unwrap().storage_request = Some("10Gi".into());
    let ds = data_source_for(CopyMethod::Snapshot, "src", "vs");
    let owner = no_owner();
    let staged = build_staged_pvc("db-src", "ns", &source, ds, Some("0"), None, owner);
    let spec = staged.spec.unwrap();
    assert_eq!(
        spec.access_modes.as_deref(),
        Some(["ReadWriteOnce".to_string()].as_slice())
    );
    assert_eq!(spec.storage_class_name.as_deref(), Some("fast"));
    assert_eq!(spec.volume_mode.as_deref(), Some("Filesystem"));
    assert_eq!(spec.storage_request.as_deref(), Some("10Gi"));
    let ds = spec.data_source.unwrap();
    assert_eq!(ds.kind, "VolumeSnapshot");
    assert_eq!(ds.name, "vs");
}
fn pvc(spec: PvcSpec) -> PersistentVolumeClaim {
    PersistentVolumeClaim {
        name: None,
        namespace: None,
        labels: None,
        owner_references: vec![],
        created_at: None,
        spec: Some(spec),
        phase: None,
    }
}

fn empty_spec() -> PvcSpec {
    PvcSpec {
        access_modes: None,
        storage_class_name: None,
        volume_mode: None,
        volume_name: None,
        storage_request: None,
        data_source: None,
    }
}

fn override_test_source() -> PersistentVolumeClaim {
    pvc(PvcSpec {
        access_modes: Some(vec!["ReadWriteOnce".into()]),
        storage_class_name: Some("fast".into()),
        volume_mode: Some("Filesystem".into()),
        ..empty_spec()
    })
}

#[test]
fn nfs_source_is_not_applicable_even_on_a_namespaced_install() {
    assert_eq!(
        staging_applicability(CopyMethod::Snapshot, None, true),
        StagingApplicability::NotApplicable
    );
    assert_eq!(
        staging_applicability(CopyMethod::Clone, None, true),
        StagingApplicability::NotApplicable
    );
}

#[test]
fn direct_is_not_applicable_regardless_of_scope_or_source() {
    for namespaced in [true, false] {
        assert_eq!(
            staging_applicability(CopyMethod::Direct, Some("data"), namespaced),
            StagingApplicability::NotApplicable
        );
        assert_eq!(
            staging_applicability(CopyMethod::Direct, None, namespaced),
            StagingApplicability::NotApplicable
        );
    }
}

#[test]
fn a_pvc_source_on_a_namespaced_install_still_needs_cluster_scope() {
    assert_eq!(
        staging_applicability(CopyMethod::Snapshot, Some("data"), true),
        StagingApplicability::ClusterScopeRequired
    );
}

#[test]
fn a_pvc_source_on_a_cluster_install_proceeds() {
    assert_eq!(
        staging_applicability(CopyMethod::Snapshot, Some("data"), false),
        StagingApplicability::Proceed {
            source_name: "data"
        }
    );
}

#[test]
fn staged_pvc_honors_staging_overrides() {
    let owner = no_owner();
    let source = override_test_source();
    let staging = StagingSpec {
        storage_class_name: Some("cephfs-shallow".into()),
        access_modes: vec![PvcAccessMode::ReadOnlyMany],
    };
    let ds = data_source_for(CopyMethod::Snapshot, "src", "vs");
    let staged = build_staged_pvc("db-src", "ns", &source, ds, None, Some(&staging), owner);
    let spec = staged.spec.as_ref().unwrap();
    assert_eq!(spec.storage_class_name.as_deref(), Some("cephfs-shallow"));
    assert_eq!(
        spec.access_modes.as_deref(),
        Some(["ReadOnlyMany".to_string()].as_slice())
    );
    assert_eq!(spec.volume_mode.as_deref(), Some("Filesystem"));
    assert_eq!(staged_class_of(&staged).as_deref(), Some("cephfs-shallow"));
}

#[test]
fn staged_pvc_overrides_are_independent_and_empty_modes_inherit() {
    let owner = no_owner();
    let source = override_test_source();
    let staging = StagingSpec {
        storage_class_name: Some("cephfs-shallow".into()),
        ..no_overrides()
    };
    let ds = data_source_for(CopyMethod::Clone, "src", "vs");
    let staged = build_staged_pvc(
        "db-src",
        "ns",
        &source,
        ds,
        None,
        Some(&staging),
        owner.clone(),
    );
    let spec = staged.spec.as_ref().unwrap();
    assert_eq!(spec.storage_class_name.as_deref(), Some("cephfs-shallow"));
    assert_eq!(
        spec.access_modes.as_deref(),
        Some(["ReadWriteOnce".to_string()].as_slice()),
        "unset accessModes must inherit the source's"
    );
    let staging = StagingSpec {
        access_modes: vec![PvcAccessMode::ReadOnlyMany],
        ..no_overrides()
    };
    let ds = data_source_for(CopyMethod::Clone, "src", "vs");
    let staged = build_staged_pvc("db-src", "ns", &source, ds, None, Some(&staging), owner);
    let spec = staged.spec.as_ref().unwrap();
    assert_eq!(
        spec.storage_class_name.as_deref(),
        Some("fast"),
        "unset storageClassName must inherit the source's"
    );
    assert_eq!(
        spec.access_modes.as_deref(),
        Some(["ReadOnlyMany".to_string()].as_slice())
    );
}

#[test]
fn staged_class_preflight_passes_matching_and_unknown_source_driver() {
    assert_eq!(
        staged_class_preflight(
            "cephfs-shallow",
            Some("cephfs.csi.ceph.com"),
            Some("cephfs.csi.ceph.com")
        ),
        None
    );
    assert_eq!(
        staged_class_preflight("cephfs-shallow", Some("cephfs.csi.ceph.com"), None),
        None
    );
}

#[test]
fn staged_class_preflight_rejects_missing_class_and_wrong_driver() {
    let (reason, msg) =
        staged_class_preflight("nope", None, Some("cephfs.csi.ceph.com")).unwrap();
    assert_eq!(reason, REASON_STAGED_CLASS_NOT_FOUND);
    assert!(msg.contains("`nope`"), "{msg}");
    assert!(msg.contains("does not exist"), "{msg}");

    let (reason, msg) = staged_class_preflight(
        "ebs-class",
        Some("ebs.csi.aws.com"),
        Some("cephfs.csi.ceph.com"),
    )
    .unwrap();
    assert_eq!(reason, REASON_STAGED_CLASS_MISMATCH);
    assert!(msg.contains("ebs.csi.aws.com"), "{msg}");
    assert!(msg.contains("cephfs.csi.ceph.com"), "{msg}");
    assert!(
        msg.contains("would never bind"),
        "the why must be spelled out: {msg}"
    );
}

#[test]
fn cleanup_plan_only_reclaims_a_bound_pv() {
    let mut pvc = pvc(PvcSpec {
        volume_name: Some("pv-123".into()),
        ..empty_spec()
    });
    assert_eq!(cleanup_plan(&pvc).reclaim_pv.as_deref(), Some("pv-123"));
    pvc.spec.as_mut().unwrap().volume_name = None;
    assert_eq!(cleanup_plan(&pvc).reclaim_pv, None);
}

#[test]
fn stack_missing_message_names_driver_and_default_pointer() {
    let msg = stack_missing_message("ebs.csi.aws.com");
    assert!(
        msg.contains("VolumeSnapshotClass API"),
        "should say what's missing: {msg}"
    );
    assert!(
        msg.contains("external-snapshotter"),
        "should say the fix (install the stack): {msg}"
    );
    assert!(
        msg.contains("driver `ebs.csi.aws.com`"),
        "should name the source's driver: {msg}"
    );
    assert!(
        msg.contains("copyMethod defaulted to Snapshot as of this release"),
        "should explain the new default: {msg}"
    );
    assert!(
        msg.contains("set spec.copyMethod: Direct on the SnapshotPolicy"),
        "should give the exact fix: {msg}"
    );
}

#[test]
fn source_not_csi_message_has_default_pointer() {
    let msg = source_not_csi_message("backups", "app-data");
    assert!(msg.contains("backups/app-data"));
    assert!(msg.contains("no StorageClass / CSI provisioner"));
    assert!(msg.contains("copyMethod defaulted to Snapshot as of this release"));
}

#[test]
fn source_pvc_not_found_message_has_default_pointer() {
    let msg = source_pvc_not_found_message("backups", "app-data", CopyMethod::Snapshot);
    assert!(msg.contains("backups/app-data"));
    assert!(msg.contains("was not found"));
    assert!(msg.contains("copyMethod defaulted to Snapshot as of this release"));
}

#[test]
fn explicit_class_not_found_message_has_default_pointer() {
    let msg = explicit_class_not_found_message("csi-missing", "ebs.csi.aws.com");
    assert!(msg.contains("volumeSnapshotClassName `csi-missing` does not exist"));
    assert!(msg.contains("driver `ebs.csi.aws.com`"));
    assert!(msg.contains("copyMethod defaulted to Snapshot as of this release"));
}

#[test]
fn no_class_for_driver_message_has_default_pointer() {
    let msg = no_class_for_driver_message("zfs.csi.openebs.io");
    assert!(msg.contains("no VolumeSnapshotClass has driver `zfs.csi.openebs.io`"));
    assert!(msg.contains(DEFAULT_CLASS_ANNOTATION));
    assert!(msg.contains("copyMethod defaulted to Snapshot as of this release"));
}

fn t0() -> Moment {
    Moment::parse_rfc3339("2026-07-04T18:30:00Z").unwrap()
}

fn obs(ready: bool, error: Option<&str>, age: Option<Span>) -> VsObservation {
    VsObservation {
        ready,
        restore_size: Some("5Gi".into()),
        error: error.map(str::to_string),
        created_at: age.map(|a| t0().secs - a.secs as i64),
    }
}

const TEN_MIN: Option<Span> = Some(Span { secs: 600, nanos: 0 });
const CONFLICT_409: &str = "the object has been modified; please apply your changes \
    to the latest version and try again";

fn decide(o: &VsObservation, timeout: Option<Span>) -> VsWait {
    vs_wait_outcome(
        o,
        "selfhosted",
        "karakeep-snap",
        "openebs-snapshots",
        timeout,
        t0(),
    )
}

#[test]
fn vs_error_on_first_sight_is_waiting_not_failed() {
    let o = obs(
        false,
        Some(CONFLICT_409),
        Some(span(1)),
    );
    match decide(&o, TEN_MIN) {
        VsWait::Waiting(msg) => {
            assert!(
                msg.contains(CONFLICT_409),
                "error surfaced for diagnosis: {msg}"
            );
            assert!(
                msg.contains("possibly-transient") && msg.contains("retries automatically"),
                "framed as transient, not fatal: {msg}"
            );
            assert!(
                msg.contains("staging fails at 2026-07-04T18:39:59Z"),
                "names the (deterministic) deadline: {msg}"
            );
        }
        other => panic!("a fresh VS error must be Waiting, got {other:?}"),
    }
}

#[test]
fn ready_wins_over_error_and_deadline() {
    let o = obs(
        true,
        Some(CONFLICT_409),
        Some(span(3600)),
    );
    assert_eq!(
        decide(&o, TEN_MIN),
        VsWait::Ready {
            restore_size: Some("5Gi".into())
        }
    );
}

#[test]
fn persistent_error_fails_only_at_the_deadline() {
    let age = |s| Some(span(s));
    assert!(matches!(
        decide(&obs(false, Some(CONFLICT_409), age(599)), TEN_MIN),
        VsWait::Waiting(_)
    ));
    match decide(&obs(false, Some(CONFLICT_409), age(600)), TEN_MIN) {
        VsWait::Failed { reason, message } => {
            assert_eq!(reason, REASON_VS_FAILED);
            assert!(message.contains(CONFLICT_409), "{message}");
            assert!(message.contains("within 10m"), "{message}");
            assert!(message.contains("spec.staging.timeout"), "{message}");
            assert!(
                message.contains("VolumeSnapshotClass `openebs-snapshots`"),
                "{message}"
            );
            assert!(
                message.contains("next scheduled run (or a new Snapshot) retries"),
                "terminal semantics must be honest: {message}"
            );
        }
        other => panic!("expected Failed at the deadline, got {other:?}"),
    }
}

#[test]
fn silent_not_ready_times_out_with_distinct_reason() {
    match decide(
        &obs(false, None, Some(span(601))),
        TEN_MIN,
    ) {
        VsWait::Failed { reason, message } => {
            assert_eq!(reason, REASON_STAGING_TIMEOUT);
            assert!(message.contains("reported no error"), "{message}");
            assert!(message.contains("spec.staging.timeout"), "{message}");
        }
        other => panic!("expected StagingTimedOut, got {other:?}"),
    }
}

#[test]
fn zero_timeout_waits_indefinitely() {
    let o = obs(
        false,
        Some(CONFLICT_409),
        Some(span(864000)),
    );
    match decide(&o, None) {
        VsWait::Waiting(msg) => {
            assert!(msg.contains("waiting indefinitely"), "{msg}")
        }
        other => panic!("indefinite timeout must never fail, got {other:?}"),
    }
}

#[test]
fn missing_creation_timestamp_is_not_expired() {
    assert!(matches!(
        decide(&obs(false, Some(CONFLICT_409), None), TEN_MIN),
        VsWait::Waiting(_)
    ));
}

#[test]
fn fmt_go_duration_echoes_crd_grammar() {
    let d = span;
    assert_eq!(fmt_go_duration(d(600)), "10m");
    assert_eq!(fmt_go_duration(d(3600)), "1h");
    assert_eq!(fmt_go_duration(d(90)), "90s");
    assert_eq!(fmt_go_duration(d(0)), "0s");
}

#[test]
fn volume_snapshot_has_source_and_class() {
    let owner = no_owner();
    let vs = build_volume_snapshot("db-snap", "ns", "db", Some("csi-class"), owner);
    let spec = get(Some(&vs.data), "spec");
    assert_eq!(
        get_text(get(get(spec, "source"), "persistentVolumeClaimName")).map(String::as_str),
        Some("db")
    );
    assert_eq!(
        get_text(get(spec, "volumeSnapshotClassName")).map(String::as_str),
        Some("csi-class")
    );
    let owner = no_owner();
    let vs2 = build_volume_snapshot("db-snap", "ns", "db", None, owner);
    assert!(get(get(Some(&vs2.data), "spec"), "volumeSnapshotClassName").is_none());
}

#[test]
fn binding_mode_defaults_to_immediate() {
    assert_eq!(effective_binding_mode(None), BindingMode::Immediate);
    assert_eq!(
        effective_binding_mode(Some("Immediate")),
        BindingMode::Immediate
    );
    assert_eq!(
        effective_binding_mode(Some("WaitForFirstConsumer")),
        BindingMode::WaitForFirstConsumer
    );
}

fn pvc_obs(phase: Option<&str>, age: Option<Span>) -> StagedPvcObservation {
    StagedPvcObservation {
        phase: phase.map(str::to_string),
        created_at: age.map(|a| t0().secs - a.secs as i64),
    }
}

fn bind_decide(o: &StagedPvcObservation, timeout: Option<Span>) -> PvcBindWait {
    pvc_bind_outcome(
        o,
        "selfhosted",
        "forgejo-src",
        Some("cephfs"),
        timeout,
        t0(),
    )
}

#[test]
fn bound_wins_even_past_the_deadline() {
    let o = pvc_obs(Some("Bound"), Some(span(3600)));
    assert_eq!(bind_decide(&o, TEN_MIN), PvcBindWait::Bound);
}

#[test]
fn pending_within_deadline_waits_with_the_fixed_deadline_named() {
    let o = pvc_obs(Some("Pending"), Some(span(1)));
    match bind_decide(&o, TEN_MIN) {
        PvcBindWait::Waiting(msg) => {
            assert!(msg.contains("selfhosted/forgejo-src"), "{msg}");
            assert!(msg.contains("StorageClass `cephfs`"), "{msg}");
            assert!(
                msg.contains("staging fails at 2026-07-04T18:39:59Z"),
                "deterministic deadline (no now()) so status doesn't churn: {msg}"
            );
        }
        other => panic!("a fresh Pending PVC must be Waiting, got {other:?}"),
    }
}

#[test]
fn pending_past_deadline_fails_with_the_knob_and_the_shallow_clone_fix() {
    let o = pvc_obs(Some("Pending"), Some(span(600)));
    match bind_decide(&o, TEN_MIN) {
        PvcBindWait::Failed { reason, message } => {
            assert_eq!(reason, REASON_STAGED_PVC_BIND_TIMEOUT);
            assert!(message.contains("within 10m"), "{message}");
            assert!(message.contains("spec.staging.timeout"), "{message}");
            assert!(
                message.contains("backingSnapshot") && message.contains("storageClassName"),
                "the CephFS shallow-clone fix must be named: {message}"
            );
            assert!(
                message.contains("next scheduled run (or a new Snapshot) retries"),
                "{message}"
            );
        }
        other => panic!("expected Failed at the deadline, got {other:?}"),
    }
    let o = pvc_obs(Some("Pending"), Some(span(599)));
    assert!(matches!(bind_decide(&o, TEN_MIN), PvcBindWait::Waiting(_)));
}

#[test]
fn lost_pvc_is_terminal_immediately() {
    let o = pvc_obs(Some("Lost"), Some(span(1)));
    match bind_decide(&o, TEN_MIN) {
        PvcBindWait::Failed { reason, message } => {
            assert_eq!(reason, REASON_STAGED_PVC_LOST);
            assert!(message.contains("Lost"), "{message}");
        }
        other => panic!("Lost must be terminal on sight, got {other:?}"),
    }
}

#[test]
fn missing_creation_timestamp_and_zero_timeout_never_expire() {
    let o = pvc_obs(Some("Pending"), None);
    assert!(matches!(bind_decide(&o, TEN_MIN), PvcBindWait::Waiting(_)));
    let o = pvc_obs(
        Some("Pending"),
        Some(span(86_400)),
    );
    match bind_decide(&o, None) {
        PvcBindWait::Waiting(msg) => {
            assert!(msg.contains("waiting indefinitely"), "{msg}");
        }
        other => panic!("no timeout must wait forever, got {other:?}"),
    }
}

#[test]
fn bind_message_without_a_known_class_stays_readable() {
    let o = pvc_obs(Some("Pending"), Some(span(1)));
    match pvc_bind_outcome(&o, "ns", "db-src", None, TEN_MIN, t0()) {
        PvcBindWait::Waiting(msg) => {
            assert!(msg.contains("its StorageClass"), "{msg}");
        }
        other => panic!("expected Waiting, got {other:?}"),
    }
}

#[test]
fn staged_pvc_observation_reads_phase_and_creation() {
    let mut pvc = pvc(empty_spec());
    pvc.phase = Some("Pending".into());
    let obs = staged_pvc_observation(&pvc);
    assert_eq!(obs.phase.as_deref(), Some("Pending"));
    assert_eq!(obs.created_at, None);
}

#[test]
fn quantities_have_binary_and_decimal_units() {
    assert_eq!(quantity_to_bytes("10"), Some(10));
    assert_eq!(quantity_to_bytes("1Ki"), Some(1024));
    assert_eq!(quantity_to_bytes("3Gi"), Some(3 * 1024 * 1024 * 1024));
    assert_eq!(quantity_to_bytes("2k"), Some(2000));
    assert_eq!(quantity_to_bytes("2M"), Some(2_000_000));
    assert_eq!(quantity_to_bytes("x"), None);
    assert!(is_quantity_small(Some("1Gi")));
    assert!(is_quantity_small(None));
    assert!(!is_quantity_small(Some("170141183460469231731687303715884105727Ti")));
}

#[test]
fn of_two_quantities_the_larger_text_stays_and_of_equal_ones_the_first() {
    assert_eq!(staged_pvc_size(Some("1024Mi"), Some("1Gi")).as_deref(), Some("1024Mi"));
    assert_eq!(staged_pvc_size(Some("2048Mi"), Some("1Gi")).as_deref(), Some("2048Mi"));
}

#[test]
fn a_deadline_counts_from_the_creation() {
    let d = deadline_for(TEN_MIN, Some(t0().secs)).unwrap();
    assert_eq!(d.secs, t0().secs + 600);
    assert_eq!(deadline_for(None, Some(0)), None);
    assert_eq!(deadline_for(TEN_MIN, None), None);
    assert!(is_deadline_dated(TEN_MIN, Some(0)));
    assert!(!is_deadline_dated(TEN_MIN, Some(i64::MAX)));
}

#[test]
fn names_that_cannot_be_cut_are_told() {
    assert!(is_nameable("db", "snap"));
    assert!(is_nameable(&"a".repeat(80), "snap"));
    assert!(!is_nameable(&"é".repeat(80), "snap"));
    let n = volume_snapshot_name(&"a".repeat(80));
    assert_eq!(n.len(), MAX_NAME_LEN);
    assert!(n.ends_with("-snap"));
}

#[test]
fn a_snapshot_is_observed_by_its_status() {
    let number = |n: u64| Json::Number(JsonNumber::PosInt(n));
    let status = Json::Object(vec![
        ("readyToUse".to_string(), Json::Bool(true)),
        ("restoreSize".to_string(), Json::Text("5Gi".to_string())),
        (
            "error".to_string(),
            entry("message", Json::Text("boom".to_string())),
        ),
    ]);
    let o = vs_observation(&entry("status", status), Some(7));
    assert!(o.ready);
    assert_eq!(o.restore_size.as_deref(), Some("5Gi"));
    assert_eq!(o.error.as_deref(), Some("boom"));
    assert_eq!(o.created_at, Some(7));
    let o = vs_observation(&entry("status", entry("restoreSize", number(42))), None);
    assert!(!o.ready);
    assert_eq!(o.restore_size.as_deref(), Some("42"));
    let o = vs_observation(&Json::Null, None);
    assert_eq!((o.ready, o.restore_size, o.error), (false, None, None));
}

#[test]
fn classes_are_read_and_listed() {
    let c = class_info("csi-a", Some("d"), Some("true"));
    assert_eq!(c, class("csi-a", "d", true));
    assert_eq!(class_info("csi-a", None, Some("false")), class("csi-a", "", false));
    assert_eq!(listed_classes::<u8, u8>(Ok(1)), Ok(Some(1)));
    assert_eq!(listed_classes::<u8, u8>(Err((Some(404), 9))), Ok(None));
    assert_eq!(listed_classes::<u8, u8>(Err((Some(403), 9))), Err(9));
    assert_eq!(listed_classes::<u8, u8>(Err((None, 9))), Err(9));
    assert_eq!(source_class(&override_test_source()), Some("fast"));
    let mut blank = override_test_source();
    blank.spec.as_mut().unwrap().storage_class_name = Some(String::new());
    assert_eq!(source_class(&blank), None);
}

#[test]
fn messages_are_exact() {
    assert_eq!(
        ambiguous_class_message("d", &vec!["a".to_string(), "b".to_string()]),
        "multiple VolumeSnapshotClasses match driver `d` (a, b) and none is the unique default; \
         set volumeSnapshotClassName explicitly to choose one"
    );
    let m = namespaced_install_cannot_stage_message();
    assert!(m.contains("installScope: namespaced"), "{m}");
    let labels = child_labels("k", "v");
    assert_eq!(labels.get("k").map(String::as_str), Some("v"));
    assert_eq!(
        labels.get("app.kubernetes.io/managed-by").map(String::as_str),
        Some("kopiur")
    );
}

#[test]
fn kinds_have_their_urls() {
    let ar = volume_snapshot_ar();
    assert_eq!(ar.api_version, "snapshot.storage.k8s.io/v1");
    assert_eq!((ar.kind.as_str(), ar.plural.as_str()), ("VolumeSnapshot", "volumesnapshots"));
    assert_eq!(volume_snapshot_class_ar().plural, "volumesnapshotclasses");
    assert_eq!(volume_snapshot_content_ar().plural, "volumesnapshotcontents");
}
