use kopiur_controller::clock::Moment;
use kopiur_controller::consts::{
    REPLICATION_COMPONENT, RUN_COUNTED_ANNOTATION, RUN_REQUESTED_ANNOTATION,
    RUN_TRIGGER_ANNOTATION, SNAPSHOT_REPLICATION_COMPONENT,
};
use kopiur_controller::error::Error;
use kopiur_controller::replication_run::{
    fit_job_name, job_selector, job_terminal_state, manual_replication_job_name,
    manual_run_request, manual_run_status, plan_runs, recorded_running, run_job_annotations,
    run_request_from, run_to_count, strings, suspended_report, unreadable_phase, Job,
    JobCondition, ReplicationKind, ReplicationManualRunPhase, ReplicationManualRunStatus,
    ReplicationRunOutcome, ReplicationRunTrigger, RunRequest, RunToCount,
};
use kopiur_controller::strmap::StringMap;

fn annotated(pairs: &[(&str, &str)]) -> StringMap {
    let mut m = StringMap::new();
    for (k, v) in pairs {
        m.insert(k, v);
    }
    m
}

fn requested(raw: &str) -> StringMap {
    annotated(&[(RUN_REQUESTED_ANNOTATION, raw)])
}

fn status(raw: &str, phase: ReplicationManualRunPhase) -> ReplicationManualRunStatus {
    ReplicationManualRunStatus {
        requested_at: Some(raw.to_string()),
        phase: Some(phase),
        completed_at: None,
    }
}

fn job(annotations: Option<StringMap>, condition: Option<(&str, &str)>) -> Job {
    Job {
        name: Some("j".into()),
        annotations,
        conditions: condition
            .map(|(type_, status)| JobCondition {
                type_: type_.into(),
                status: status.into(),
            })
            .into_iter()
            .collect(),
    }
}

const RAW: &str = "2026-06-11T12:00:00Z";

#[test]
fn no_annotation_is_no_request() {
    for kind in [ReplicationKind::Repository, ReplicationKind::Snapshot] {
        assert_eq!(
            manual_run_request(kind, None, None).expect("ok"),
            None
        );
        assert_eq!(
            manual_run_request(kind, Some(&StringMap::new()), None).expect("ok"),
            None
        );
    }
}

#[test]
fn a_fresh_request_is_returned_verbatim_and_parsed() {
    let a = requested(RAW);
    let req = manual_run_request(ReplicationKind::Repository, Some(&a), None)
        .expect("ok")
        .expect("requested");
    assert_eq!(req.raw, RAW, "status pins the value the user wrote");
    assert_eq!(req.at.to_rfc3339(), "2026-06-11T12:00:00+00:00");
}

#[test]
fn dedupe_answers_only_terminal_phases_of_the_same_timestamp() {
    let a = requested(RAW);
    let ask = |st: Option<&ReplicationManualRunStatus>| {
        manual_run_request(ReplicationKind::Snapshot, Some(&a), st).expect("ok")
    };
    for terminal in [
        ReplicationManualRunPhase::Succeeded,
        ReplicationManualRunPhase::Failed,
    ] {
        assert!(
            ask(Some(&status(RAW, terminal.clone()))).is_none(),
            "{terminal:?} answers the request"
        );
    }
    for open in [
        ReplicationManualRunPhase::Pending,
        ReplicationManualRunPhase::Running,
        ReplicationManualRunPhase::Unknown("Queued".into()),
    ] {
        assert!(
            ask(Some(&status(RAW, open.clone()))).is_some(),
            "{open:?} does not answer the request"
        );
    }
    assert!(
        ask(Some(&status(
            "2026-06-11T13:00:00Z",
            ReplicationManualRunPhase::Succeeded
        )))
        .is_some()
    );
}

#[test]
fn an_answered_request_stays_answered_even_if_the_value_is_later_garbage() {
    let a = requested("yesterday");
    let answered = status("yesterday", ReplicationManualRunPhase::Succeeded);
    assert!(
        manual_run_request(
            ReplicationKind::Repository,
            Some(&a),
            Some(&answered)
        )
        .expect("ok")
        .is_none()
    );
}

#[test]
fn garbage_is_a_validation_error_naming_this_kinds_run_command() {
    let a = requested("yesterday");
    for (kind, want) in [
        (ReplicationKind::Repository, "--kind repository"),
        (ReplicationKind::Snapshot, "--kind snapshot"),
    ] {
        let err = manual_run_request(kind, Some(&a), None).expect_err("garbage");
        let msg = err.message().to_string();
        assert!(msg.contains("must be an RFC3339 timestamp"), "{msg}");
        assert!(msg.contains("kubectl kopiur replication run"), "{msg}");
        assert!(msg.contains(want), "{msg}");
    }
}

#[test]
fn manual_job_names_are_deterministic_bounded_and_collision_free() {
    let at = Moment::parse_rfc3339("2026-06-11T12:00:00Z").unwrap();
    let repo = manual_replication_job_name(ReplicationKind::Repository, "offsite", at);
    let snap = manual_replication_job_name(ReplicationKind::Snapshot, "offsite", at);
    assert_eq!(
        repo,
        manual_replication_job_name(ReplicationKind::Repository, "offsite", at),
        "deterministic: the same request re-observes its own Job"
    );
    assert_ne!(repo, snap);
    for n in [&repo, &snap] {
        assert!(n.len() <= 52, "{n}");
        assert_ne!(n.as_str(), &format!("offsite-repl-{}", at.secs));
        assert_ne!(n.as_str(), &format!("offsite-srepl-{}", at.secs));
    }
    let long = "a-very-long-repository-replication-name-blowing-the-dns-budget";
    for kind in [ReplicationKind::Repository, ReplicationKind::Snapshot] {
        assert!(manual_replication_job_name(kind, long, at).len() <= 52);
    }
}

#[test]
fn only_terminal_phases_stamp_a_completion_instant() {
    let now = Moment { secs: 1_781_179_200, nanos: 0 };
    let req = RunRequest {
        raw: RAW.into(),
        at: now,
    };
    for phase in [
        ReplicationManualRunPhase::Succeeded,
        ReplicationManualRunPhase::Failed,
    ] {
        let st = manual_run_status(&req, phase.clone(), now);
        assert_eq!(st.requested_at.as_deref(), Some(RAW));
        assert!(st.completed_at.is_some(), "{phase:?} is terminal");
    }
    for phase in [
        ReplicationManualRunPhase::Pending,
        ReplicationManualRunPhase::Running,
    ] {
        assert!(
            manual_run_status(&req, phase.clone(), now)
                .completed_at
                .is_none(),
            "{phase:?} has not completed"
        );
    }
}

#[test]
fn recorded_running_pins_this_request_only() {
    let req = RunRequest {
        raw: RAW.into(),
        at: Moment { secs: 1_781_179_200, nanos: 0 },
    };
    assert!(recorded_running(
        Some(&status(RAW, ReplicationManualRunPhase::Running)),
        &req
    ));
    assert!(!recorded_running(
        Some(&status(RAW, ReplicationManualRunPhase::Pending)),
        &req
    ));
    assert!(!recorded_running(
        Some(&status(
            "2026-06-11T13:00:00Z",
            ReplicationManualRunPhase::Running
        )),
        &req
    ));
    assert!(!recorded_running(None, &req));
}

#[test]
fn job_annotations_carry_the_slot_and_the_trigger() {
    let at = Moment::parse_rfc3339("2026-06-11T12:00:00Z").unwrap();
    let a = run_job_annotations("k/slot", at, ReplicationRunTrigger::Manual);
    assert_eq!(
        a.get("k/slot").map(String::as_str),
        Some("2026-06-11T12:00:00+00:00")
    );
    assert_eq!(
        a.get(RUN_TRIGGER_ANNOTATION).map(String::as_str),
        Some("manual")
    );
}

#[test]
fn run_to_count_attributes_terminal_uncounted_jobs_only() {
    assert_eq!(run_to_count(&job(None, None)), None);
    assert_eq!(
        run_to_count(&job(None, Some(("Complete", "True")))),
        Some((
            ReplicationRunTrigger::Cron,
            ReplicationRunOutcome::Succeeded
        ))
    );
    assert_eq!(
        run_to_count(&job(
            Some(annotated(&[(RUN_TRIGGER_ANNOTATION, "manual")])),
            Some(("Failed", "True"))
        )),
        Some((ReplicationRunTrigger::Manual, ReplicationRunOutcome::Failed))
    );
    assert_eq!(
        run_to_count(&job(
            Some(annotated(&[(RUN_TRIGGER_ANNOTATION, "wat")])),
            Some(("Complete", "True"))
        )),
        Some((
            ReplicationRunTrigger::Cron,
            ReplicationRunOutcome::Succeeded
        ))
    );
    assert_eq!(
        run_to_count(&job(
            Some(annotated(&[
                (RUN_TRIGGER_ANNOTATION, "manual"),
                (RUN_COUNTED_ANNOTATION, "succeeded")
            ])),
            Some(("Complete", "True"))
        )),
        None
    );
}

#[test]
fn a_suspended_replication_reports_a_waiting_request_distinctly() {
    let (quiet_reason, quiet_msg) = suspended_report(false);
    let (pending_reason, pending_msg) = suspended_report(true);
    assert_ne!(quiet_reason, pending_reason);
    assert!(pending_msg.contains("run requested"), "{pending_msg}");
    assert!(pending_msg.contains("suspended"), "{pending_msg}");
    assert!(pending_msg.contains("resumed"), "{pending_msg}");
    assert!(!quiet_msg.contains("run requested"), "{quiet_msg}");
}

#[test]
fn job_selector_is_per_kind_and_per_cr() {
    let repo = job_selector(ReplicationKind::Repository, "offsite");
    let snap = job_selector(ReplicationKind::Snapshot, "offsite");
    assert_ne!(repo, snap, "the two kinds' Jobs must never cross-select");
    assert!(repo.contains(REPLICATION_COMPONENT), "{repo}");
    assert!(repo.ends_with("=offsite"), "{repo}");
    assert!(snap.contains(SNAPSHOT_REPLICATION_COMPONENT), "{snap}");
}

#[test]
fn a_malformed_request_is_told_whole() {
    let err = run_request_from(ReplicationKind::Repository, "soon", None).expect_err("garbage");
    assert!(matches!(err, Error::Validation(_)));
    let command = strings(ReplicationKind::Repository).run_command;
    assert_eq!(
        err.message(),
        format!(
            "annotation `{RUN_REQUESTED_ANNOTATION}` must be an RFC3339 timestamp, got `soon`; \
             use `{command}` to stamp it"
        )
    );
}

#[test]
fn a_phase_that_is_not_known_is_told_before_it_is_written_over() {
    let a = requested(RAW);
    let unknown = ReplicationManualRunPhase::Unknown("Queued".into());
    assert_eq!(
        unreadable_phase(Some(&a), Some(&status(RAW, unknown.clone()))),
        Some("Queued".to_string())
    );
    assert_eq!(
        unreadable_phase(Some(&a), Some(&status("2026-06-11T13:00:00Z", unknown))),
        None
    );
    assert_eq!(
        unreadable_phase(Some(&a), Some(&status(RAW, ReplicationManualRunPhase::Running))),
        None
    );
    assert_eq!(unreadable_phase(None, None), None);
}

#[test]
fn names_are_exact() {
    let at = Moment { secs: 1_781_179_200, nanos: 5 };
    assert_eq!(
        manual_replication_job_name(ReplicationKind::Repository, "offsite", at),
        "offsite-mrepl-1781179200"
    );
    assert_eq!(
        manual_replication_job_name(ReplicationKind::Snapshot, "offsite", at),
        "offsite-msrepl-1781179200"
    );
    assert_eq!(fit_job_name("a", "-b"), "a-b");
    let long = fit_job_name("postgres-data-postgres-data-postgres-data-postgres-data", "-x");
    assert_eq!(long.len(), 52);
    assert!(long.starts_with("postgres-data-postgres-data-postgres-data"));
    assert!(long.ends_with("-x"));
}

#[test]
fn a_trigger_survives_its_text() {
    for t in [ReplicationRunTrigger::Cron, ReplicationRunTrigger::Manual] {
        assert_eq!(ReplicationRunTrigger::parse(t.as_str()), Some(t));
    }
    assert_eq!(ReplicationRunTrigger::parse("wat"), None);
    assert_eq!(ReplicationRunOutcome::Failed.as_str(), "failed");
}

#[test]
fn runs_are_counted_in_the_order_of_the_jobs() {
    let mut named = job(None, Some(("Complete", "True")));
    named.name = Some("k".into());
    let mut nameless = job(None, Some(("Failed", "True")));
    nameless.name = None;
    let plan = plan_runs(&vec![
        job(Some(annotated(&[(RUN_TRIGGER_ANNOTATION, "manual")])), Some(("Failed", "True"))),
        nameless,
        job(None, None),
        named,
    ]);
    assert!(plan.observation.has_active);
    assert_eq!(
        plan.to_count,
        vec![
            RunToCount {
                job: "j".into(),
                trigger: ReplicationRunTrigger::Manual,
                outcome: ReplicationRunOutcome::Failed,
            },
            RunToCount {
                job: "k".into(),
                trigger: ReplicationRunTrigger::Cron,
                outcome: ReplicationRunOutcome::Succeeded,
            },
        ]
    );
    let done = plan_runs(&vec![job(None, Some(("Complete", "True")))]);
    assert!(!done.observation.has_active);
}

#[test]
fn a_condition_that_does_not_hold_ends_nothing() {
    assert_eq!(job_terminal_state(&job(None, Some(("Complete", "False")))), None);
    assert_eq!(job_terminal_state(&job(None, Some(("Failed", "True")))), Some(false));
}
