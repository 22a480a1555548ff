//! Runs on demand, shared by the two kinds of replication.
//!
//! An annotation with an RFC3339 timestamp asks for one run. The run is a
//! scheduled run with another Job name and with the request as its slot, and
//! the answer stands in the object's status. Each terminal Job is counted once,
//! by a marker that the Job itself carries.
use vstd::prelude::*;
use vstd::string::*;
use vstd::utf8::*;

use crate::clock::{Moment, parsed_moment, rfc3339_text};
use crate::consts::{
    COMPONENT_LABEL, REPLICATION_COMPONENT, REPLICATION_INSTANCE_LABEL, RUN_COUNTED_ANNOTATION,
    RUN_REQUESTED_ANNOTATION, RUN_TRIGGER_ANNOTATION, SNAPSHOT_REPLICATION_COMPONENT,
    SNAPSHOT_REPLICATION_INSTANCE_LABEL,
};
use crate::error::Error;
use crate::naming::{lemma_hex_is_ascii, lemma_short_hash_shape, short, short_hash, text_hash};
use crate::io::apply::{Json, annotation_patch, annotation_tree, tree};
use crate::strmap::{StringMap, lookup, opt_map, value_of};
use crate::text::{
    byte_len, decimal, head, holds_text, lemma_chars_within_bytes, lemma_holds_end,
    lemma_holds_itself, lemma_holds_on, lemma_signed_decimal_reads_back, opt_text, same,
    signed_decimal, signed_decimal_text, take_chars,
};

verus! {

/// The longest Job name, in bytes.
pub const MAX_JOB_NAME: usize = 52;

/// Which kind of replication is meant.
#[derive(Debug, Clone, Copy, PartialEq, Eq, Structural)]
pub enum ReplicationKind {
    /// `RepositoryReplication`.
    Repository,
    /// `SnapshotReplication`.
    Snapshot,
}

/// What asked for a run.
#[derive(Debug, Clone, Copy, PartialEq, Eq, Structural)]
pub enum ReplicationRunTrigger {
    /// The schedule.
    Cron,
    /// A request by annotation.
    Manual,
}

/// How a run ended.
#[derive(Debug, Clone, Copy, PartialEq, Eq, Structural)]
pub enum ReplicationRunOutcome {
    /// The Job completed.
    Succeeded,
    /// The Job failed.
    Failed,
}

/// The phase of a requested run, as the status records it.
#[derive(Debug, Clone, PartialEq, Eq)]
pub enum ReplicationManualRunPhase {
    /// Recorded, not started: the replication is suspended.
    Pending,
    /// A Job exists or existed.
    Running,
    /// The Job completed.
    Succeeded,
    /// The Job failed.
    Failed,
    /// A phase that this build does not know.
    Unknown(String),
}

/// The answer to a request, as the status records it.
#[derive(Debug, Clone, PartialEq, Eq)]
pub struct ReplicationManualRunStatus {
    /// The request that this answers, verbatim.
    pub requested_at: Option<String>,
    /// The phase of its run.
    pub phase: Option<ReplicationManualRunPhase>,
    /// When the run ended.
    pub completed_at: Option<String>,
}

/// A request that is not answered yet.
#[derive(Debug, Clone, PartialEq, Eq)]
pub struct RunRequest {
    /// The annotation's value as the user wrote it.
    pub raw: String,
    /// The instant that it stands for, which is the slot of the run.
    pub at: Moment,
}

/// A condition of a Job.
#[derive(Debug, Clone, PartialEq, Eq)]
pub struct JobCondition {
    /// The type of the condition.
    pub type_: String,
    /// Its status.
    pub status: String,
}

/// A mover Job, as far as counting runs goes.
#[derive(Debug, Clone, PartialEq, Eq)]
pub struct Job {
    /// Its name.
    pub name: Option<String>,
    /// Its annotations.
    pub annotations: Option<StringMap>,
    /// Its conditions.
    pub conditions: Vec<JobCondition>,
}

/// The strings of one kind of replication.
pub struct KindStrings {
    /// The component of its Jobs.
    pub component: &'static str,
    /// The label that ties a Job to its object.
    pub instance_label: &'static str,
    /// The part of a Job's name that marks a requested run.
    pub manual_token: &'static str,
    /// The command that requests a run.
    pub run_command: &'static str,
}

/// What one look at an object's Jobs shows.
#[derive(Debug, Clone, Copy, PartialEq, Eq, Structural)]
pub struct RunObservation {
    /// Whether a Job of the object is still running.
    pub has_active: bool,
}

/// A terminal run that is still to be counted.
#[derive(Debug, Clone, PartialEq, Eq)]
pub struct RunToCount {
    /// The Job to mark.
    pub job: String,
    /// What asked for the run.
    pub trigger: ReplicationRunTrigger,
    /// How it ended.
    pub outcome: ReplicationRunOutcome,
}

/// What is to be done about an object's Jobs.
#[derive(Debug, Clone, PartialEq, Eq)]
pub struct RunPlan {
    /// What the Jobs show.
    pub observation: RunObservation,
    /// The runs to mark and then count, in the order of the Jobs.
    pub to_count: Vec<RunToCount>,
}

/// The component of a kind's Jobs.
pub open spec fn component_of(kind: ReplicationKind) -> Seq<char> {
    match kind {
        ReplicationKind::Repository => REPLICATION_COMPONENT@,
        ReplicationKind::Snapshot => SNAPSHOT_REPLICATION_COMPONENT@,
    }
}

/// The label that ties a kind's Jobs to their object.
pub open spec fn instance_label_of(kind: ReplicationKind) -> Seq<char> {
    match kind {
        ReplicationKind::Repository => REPLICATION_INSTANCE_LABEL@,
        ReplicationKind::Snapshot => SNAPSHOT_REPLICATION_INSTANCE_LABEL@,
    }
}

/// The part of a Job's name that marks a requested run.
pub open spec fn manual_token_of(kind: ReplicationKind) -> Seq<char> {
    match kind {
        ReplicationKind::Repository => "mrepl"@,
        ReplicationKind::Snapshot => "msrepl"@,
    }
}

/// The command that requests a run.
pub open spec fn run_command_of(kind: ReplicationKind) -> Seq<char> {
    match kind {
        ReplicationKind::Repository => "kubectl kopiur replication run --kind repository"@,
        ReplicationKind::Snapshot => "kubectl kopiur replication run --kind snapshot"@,
    }
}

/// The message for a request that is no RFC3339 timestamp.
pub open spec fn malformed_request(kind: ReplicationKind, raw: Seq<char>) -> Seq<char> {
    "annotation `"@ + RUN_REQUESTED_ANNOTATION@ + "` must be an RFC3339 timestamp, got `"@ + raw
        + "`; use `"@ + run_command_of(kind) + "` to stamp it"@
}

/// The text of a trigger.
pub open spec fn trigger_text(t: ReplicationRunTrigger) -> Seq<char> {
    match t {
        ReplicationRunTrigger::Cron => "cron"@,
        ReplicationRunTrigger::Manual => "manual"@,
    }
}

/// The text of an outcome.
pub open spec fn outcome_text(o: ReplicationRunOutcome) -> Seq<char> {
    match o {
        ReplicationRunOutcome::Succeeded => "succeeded"@,
        ReplicationRunOutcome::Failed => "failed"@,
    }
}

/// The trigger that a text stands for.
pub open spec fn trigger_of(text: Seq<char>) -> Option<ReplicationRunTrigger> {
    if text == "cron"@ {
        Some(ReplicationRunTrigger::Cron)
    } else if text == "manual"@ {
        Some(ReplicationRunTrigger::Manual)
    } else {
        None
    }
}

/// Whether a status is the final answer to the request `raw`.
pub open spec fn answers(status: ReplicationManualRunStatus, raw: Seq<char>) -> bool {
    &&& opt_text(status.requested_at) == Some(raw)
    &&& status.phase matches Some(p) && (p is Succeeded || p is Failed)
}

/// Whether an optional status is the final answer to the request `raw`.
pub open spec fn answered(status: Option<&ReplicationManualRunStatus>, raw: Seq<char>) -> bool {
    status matches Some(s) && answers(*s, raw)
}

/// The request that the annotations hold.
pub open spec fn requested(annotations: Option<&StringMap>) -> Option<Seq<char>> {
    match annotations {
        Some(m) => value_of(m@, RUN_REQUESTED_ANNOTATION@),
        None => None,
    }
}

/// `name` and `suffix` in one Job name of at most 52 bytes: a name that is too
/// long is cut and gets its short hash.
pub open spec fn fitted_job_name(name: Seq<char>, suffix: Seq<char>) -> Seq<char> {
    let taken = encode_utf8(suffix).len();
    let budget: int = if taken <= MAX_JOB_NAME {
        MAX_JOB_NAME - taken
    } else {
        0
    };
    if encode_utf8(name).len() <= budget {
        name + suffix
    } else {
        let keep: int = if budget >= 9 {
            budget - 9
        } else {
            0
        };
        head(name, keep) + "-"@ + short(name) + suffix
    }
}

/// The part of a requested run's Job name behind the object's name.
pub open spec fn manual_suffix(kind: ReplicationKind, requested: Moment) -> Seq<char> {
    "-"@ + manual_token_of(kind) + "-"@ + signed_decimal(requested.secs as int)
}

/// Whether a condition says that the Job has ended, and how.
pub open spec fn verdict(c: JobCondition) -> Option<bool> {
    if c.status@ == "True"@ && c.type_@ == "Complete"@ {
        Some(true)
    } else if c.status@ == "True"@ && c.type_@ == "Failed"@ {
        Some(false)
    } else {
        None
    }
}

/// Whether a Job has ended, and how: what the first condition that tells says.
pub open spec fn ended(conditions: Seq<JobCondition>) -> Option<bool>
    decreases conditions.len(),
{
    if conditions.len() == 0 {
        None
    } else if verdict(conditions.first()) is Some {
        verdict(conditions.first())
    } else {
        ended(conditions.drop_first())
    }
}

/// What is to be counted of a Job.
pub open spec fn countable(
    annotations: Map<Seq<char>, Seq<char>>,
    conditions: Seq<JobCondition>,
) -> Option<(ReplicationRunTrigger, ReplicationRunOutcome)> {
    if annotations.dom().contains(RUN_COUNTED_ANNOTATION@) {
        None
    } else {
        match ended(conditions) {
            None => None,
            Some(complete) => Some(
                (
                    match value_of(annotations, RUN_TRIGGER_ANNOTATION@) {
                        Some(t) => match trigger_of(t) {
                            Some(trigger) => trigger,
                            None => ReplicationRunTrigger::Cron,
                        },
                        None => ReplicationRunTrigger::Cron,
                    },
                    if complete {
                        ReplicationRunOutcome::Succeeded
                    } else {
                        ReplicationRunOutcome::Failed
                    },
                ),
            ),
        }
    }
}

/// The name of a Job that is to be counted, with what is to be counted.
pub open spec fn count_entry(job: Job) -> Option<
    (Seq<char>, ReplicationRunTrigger, ReplicationRunOutcome),
> {
    match (countable(opt_map(job.annotations), job.conditions@), job.name) {
        (Some((trigger, outcome)), Some(name)) => Some((name@, trigger, outcome)),
        _ => None,
    }
}

/// The Jobs to count, in order.
pub open spec fn count_entries(jobs: Seq<Job>) -> Seq<
    (Seq<char>, ReplicationRunTrigger, ReplicationRunOutcome),
>
    decreases jobs.len(),
{
    if jobs.len() == 0 {
        Seq::empty()
    } else {
        match count_entry(jobs.last()) {
            Some(e) => count_entries(jobs.drop_last()).push(e),
            None => count_entries(jobs.drop_last()),
        }
    }
}

/// What a list of runs to count says.
pub open spec fn count_views(runs: Seq<RunToCount>) -> Seq<
    (Seq<char>, ReplicationRunTrigger, ReplicationRunOutcome),
> {
    runs.map_values(|r: RunToCount| (r.job@, r.trigger, r.outcome))
}

impl ReplicationRunTrigger {
    /// The text of the trigger.
    pub fn as_str(self) -> (r: &'static str)
        ensures
            r@ == trigger_text(self),
    {
        match self {
            ReplicationRunTrigger::Cron => "cron",
            ReplicationRunTrigger::Manual => "manual",
        }
    }

    /// The trigger that a text stands for.
    pub fn parse(text: &str) -> (r: Option<ReplicationRunTrigger>)
        ensures
            r == trigger_of(text@),
    {
        if same(text, "cron") {
            Some(ReplicationRunTrigger::Cron)
        } else if same(text, "manual") {
            Some(ReplicationRunTrigger::Manual)
        } else {
            None
        }
    }
}

impl ReplicationRunOutcome {
    /// The text of the outcome.
    pub fn as_str(self) -> (r: &'static str)
        ensures
            r@ == outcome_text(self),
    {
        match self {
            ReplicationRunOutcome::Succeeded => "succeeded",
            ReplicationRunOutcome::Failed => "failed",
        }
    }
}

impl ReplicationManualRunStatus {
    /// Whether this is the final answer to the request `raw`.
    pub fn answers(&self, raw: &str) -> (r: bool)
        ensures
            r == answers(*self, raw@),
    {
        let same_request = match &self.requested_at {
            Some(at) => same(at.as_str(), raw),
            None => false,
        };
        let terminal = match &self.phase {
            Some(ReplicationManualRunPhase::Succeeded) => true,
            Some(ReplicationManualRunPhase::Failed) => true,
            _ => false,
        };
        same_request && terminal
    }
}

/// The strings of one kind of replication.
pub fn strings(kind: ReplicationKind) -> (r: KindStrings)
    ensures
        r.component@ == component_of(kind),
        r.instance_label@ == instance_label_of(kind),
        r.manual_token@ == manual_token_of(kind),
        r.run_command@ == run_command_of(kind),
{
    match kind {
        ReplicationKind::Repository => KindStrings {
            component: REPLICATION_COMPONENT,
            instance_label: REPLICATION_INSTANCE_LABEL,
            manual_token: "mrepl",
            run_command: "kubectl kopiur replication run --kind repository",
        },
        ReplicationKind::Snapshot => KindStrings {
            component: SNAPSHOT_REPLICATION_COMPONENT,
            instance_label: SNAPSHOT_REPLICATION_INSTANCE_LABEL,
            manual_token: "msrepl",
            run_command: "kubectl kopiur replication run --kind snapshot",
        },
    }
}

/// The selector of one object's mover Jobs.
pub fn job_selector(kind: ReplicationKind, cr_name: &str) -> (r: String)
    ensures
        r@ == COMPONENT_LABEL@ + "="@ + component_of(kind) + ","@ + instance_label_of(kind) + "="@
            + cr_name@,
{
    let s = strings(kind);
    let mut out = COMPONENT_LABEL.to_owned();
    out.append("=");
    out.append(s.component);
    out.append(",");
    out.append(s.instance_label);
    out.append("=");
    out.append(cr_name);
    out
}

/// The request for a request's text and what RFC3339 makes of it.
pub fn run_request_from(kind: ReplicationKind, raw: &str, parsed: Option<Moment>) -> (r: Result<
    RunRequest,
    Error,
>)
    ensures
        match (r, parsed) {
            (Ok(q), Some(at)) => q.raw@ == raw@ && q.at == at,
            (Err(e), None) => e is Validation && e.text() == malformed_request(kind, raw@),
            _ => false,
        },
{
    match parsed {
        Some(at) => Ok(RunRequest { raw: raw.to_owned(), at }),
        None => {
            let mut m = "annotation `".to_owned();
            m.append(RUN_REQUESTED_ANNOTATION);
            m.append("` must be an RFC3339 timestamp, got `");
            m.append(raw);
            m.append("`; use `");
            m.append(strings(kind).run_command);
            m.append("` to stamp it");
            Err(Error::Validation(m))
        },
    }
}

/// The request that the annotations hold, where it still wants a run.
///
/// There is none where the annotation is absent, or where `manual` is the final
/// answer to it. That is looked at before the value is read as a timestamp, so an
/// answered request stays answered whatever it says. A pending or running
/// answer is not final.
pub fn manual_run_request(
    kind: ReplicationKind,
    annotations: Option<&StringMap>,
    manual: Option<&ReplicationManualRunStatus>,
) -> (r: Result<Option<RunRequest>, Error>)
    ensures
        match requested(annotations) {
            None => r matches Ok(None),
            Some(raw) => if answered(manual, raw) {
                r matches Ok(None)
            } else {
                match parsed_moment(raw) {
                    Some(at) => r matches Ok(Some(q)) && q.raw@ == raw && q.at == at
                        && q.at.valid(),
                    None => r matches Err(e) && e is Validation && e.text() == malformed_request(
                        kind,
                        raw,
                    ),
                }
            },
        },
{
    let raw = match lookup(annotations, RUN_REQUESTED_ANNOTATION) {
        Some(raw) => raw.as_str(),
        None => {
            return Ok(None);
        },
    };
    let done = match manual {
        Some(m) => m.answers(raw),
        None => false,
    };
    if done {
        return Ok(None);
    }
    match run_request_from(kind, raw, Moment::parse_rfc3339(raw)) {
        Ok(q) => Ok(Some(q)),
        Err(e) => Err(e),
    }
}

/// The recorded phase of a request, where this build does not know it: it is about
/// to be written over, which is to be told first.
pub fn unreadable_phase(
    annotations: Option<&StringMap>,
    manual: Option<&ReplicationManualRunStatus>,
) -> (r: Option<String>)
    ensures
        opt_text(r) == match (requested(annotations), manual) {
            (Some(raw), Some(m)) => if opt_text(m.requested_at) == Some(raw) {
                match m.phase {
                    Some(ReplicationManualRunPhase::Unknown(p)) => Some(p@),
                    _ => None,
                }
            } else {
                None
            },
            _ => None,
        },
{
    match (lookup(annotations, RUN_REQUESTED_ANNOTATION), manual) {
        (Some(raw), Some(m)) => {
            let same_request = match &m.requested_at {
                Some(at) => same(at.as_str(), raw.as_str()),
                None => false,
            };
            match &m.phase {
                Some(ReplicationManualRunPhase::Unknown(p)) => if same_request {
                    Some(p.clone())
                } else {
                    None
                },
                _ => None,
            }
        },
        _ => None,
    }
}

/// `name` and `suffix` in one Job name.
pub fn fit_job_name(name: &str, suffix: &str) -> (r: String)
    ensures
        r@ == fitted_job_name(name@, suffix@),
{
    let taken: usize = byte_len(suffix);
    let budget: usize = if taken <= MAX_JOB_NAME {
        MAX_JOB_NAME - taken
    } else {
        0
    };
    if byte_len(name) <= budget {
        let mut out = name.to_owned();
        out.append(suffix);
        out
    } else {
        let hash = short_hash(name);
        let keep: usize = if budget >= 9 {
            budget - 9
        } else {
            0
        };
        let mut out = take_chars(name, keep);
        out.append("-");
        out.append(hash.as_str());
        out.append(suffix);
        out
    }
}

/// The name of the Job of a requested run. It depends on the request, so that a
/// request that is driven again meets the Job that it already has.
pub fn manual_replication_job_name(kind: ReplicationKind, cr: &str, requested: Moment) -> (r: String)
    ensures
        r@ == fitted_job_name(cr@, manual_suffix(kind, requested)),
{
    let mut suffix = "-".to_owned();
    suffix.append(strings(kind).manual_token);
    suffix.append("-");
    let at = signed_decimal_text(requested.secs);
    suffix.append(at.as_str());
    fit_job_name(cr, suffix.as_str())
}

/// The status of a request in one phase. Only a terminal phase has an end.
pub fn manual_run_status(request: &RunRequest, phase: ReplicationManualRunPhase, now: Moment) -> (r:
    ReplicationManualRunStatus)
    requires
        now.valid(),
    ensures
        opt_text(r.requested_at) == Some(request.raw@),
        r.phase == Some(phase),
        opt_text(r.completed_at) == if phase is Succeeded || phase is Failed {
            Some(rfc3339_text(now.secs, now.nanos))
        } else {
            None
        },
{
    let completed_at: Option<String> = match &phase {
        ReplicationManualRunPhase::Succeeded | ReplicationManualRunPhase::Failed => Some(
            now.to_rfc3339(),
        ),
        ReplicationManualRunPhase::Pending
        | ReplicationManualRunPhase::Running
        | ReplicationManualRunPhase::Unknown(_) => None,
    };
    ReplicationManualRunStatus {
        requested_at: Some(request.raw.clone()),
        phase: Some(phase),
        completed_at,
    }
}

/// Whether the status records this request as running: its Job was there and is
/// gone before its outcome was seen.
pub fn recorded_running(manual: Option<&ReplicationManualRunStatus>, request: &RunRequest) -> (r:
    bool)
    ensures
        r == (manual matches Some(m) && opt_text(m.requested_at) == Some(request.raw@)
            && m.phase == Some(ReplicationManualRunPhase::Running)),
{
    match manual {
        None => false,
        Some(m) => {
            let same_request = match &m.requested_at {
                Some(at) => same(at.as_str(), request.raw.as_str()),
                None => false,
            };
            let running = match &m.phase {
                Some(ReplicationManualRunPhase::Running) => true,
                _ => false,
            };
            same_request && running
        },
    }
}

/// The annotations of a mover Job: its slot, and what asked for it.
pub fn run_job_annotations(slot_annotation: &str, slot: Moment, trigger: ReplicationRunTrigger) -> (r:
    StringMap)
    requires
        slot.valid(),
    ensures
        r@ == Map::<Seq<char>, Seq<char>>::empty().insert(
            slot_annotation@,
            rfc3339_text(slot.secs, slot.nanos),
        ).insert(RUN_TRIGGER_ANNOTATION@, trigger_text(trigger)),
{
    let mut annotations = StringMap::new();
    let at = slot.to_rfc3339();
    annotations.insert(slot_annotation, at.as_str());
    annotations.insert(RUN_TRIGGER_ANNOTATION, trigger.as_str());
    annotations
}

/// The text of the reason why a suspended replication is not ready.
pub open spec fn suspended_reason(pending_request: bool) -> Seq<char> {
    if pending_request {
        "SuspendedWithPendingRun"@
    } else {
        "Suspended"@
    }
}

/// The reason and the message of a suspended replication. A waiting request
/// changes the reason, because a condition is written only where its reason moves.
pub fn suspended_report(pending_request: bool) -> (r: (&'static str, &'static str))
    ensures
        r.0@ == suspended_reason(pending_request),
        r.1@ == if pending_request {
            "run requested; replication is suspended (spec.suspend) — the run starts when it is resumed"@
        } else {
            "replication is suspended (spec.suspend)"@
        },
{
    if pending_request {
        (
            "SuspendedWithPendingRun",
            "run requested; replication is suspended (spec.suspend) — the run starts when it is resumed",
        )
    } else {
        ("Suspended", "replication is suspended (spec.suspend)")
    }
}

/// Whether a Job has ended: `true` where it completed, `false` where it failed.
pub fn job_terminal_state(job: &Job) -> (r: Option<bool>)
    ensures
        r == ended(job.conditions@),
{
    let mut i: usize = 0;
    assert(job.conditions@.skip(0) =~= job.conditions@);
    while i < job.conditions.len()
        invariant
            i <= job.conditions@.len(),
            ended(job.conditions@) == ended(job.conditions@.skip(i as int)),
        decreases job.conditions@.len() - i,
    {
        let c = &job.conditions[i];
        assert(job.conditions@.skip(i as int).drop_first() =~= job.conditions@.skip(i + 1));
        if same(c.status.as_str(), "True") {
            if same(c.type_.as_str(), "Complete") {
                return Some(true);
            }
            if same(c.type_.as_str(), "Failed") {
                return Some(false);
            }
        }
        i += 1;
    }
    None
}

/// What is to be counted of a Job: nothing where it is counted already or has
/// not ended. A Job that does not say what asked for it, in a word that is
/// known, was asked for by the schedule.
pub fn run_to_count(job: &Job) -> (r: Option<(ReplicationRunTrigger, ReplicationRunOutcome)>)
    ensures
        r == countable(opt_map(job.annotations), job.conditions@),
{
    let counted = match &job.annotations {
        Some(a) => a.get(RUN_COUNTED_ANNOTATION).is_some(),
        None => false,
    };
    if counted {
        return None;
    }
    let outcome = match job_terminal_state(job) {
        None => {
            return None;
        },
        Some(true) => ReplicationRunOutcome::Succeeded,
        Some(false) => ReplicationRunOutcome::Failed,
    };
    let named = match &job.annotations {
        Some(a) => match a.get(RUN_TRIGGER_ANNOTATION) {
            Some(v) => ReplicationRunTrigger::parse(v.as_str()),
            None => None,
        },
        None => None,
    };
    let trigger = match named {
        Some(t) => t,
        None => ReplicationRunTrigger::Cron,
    };
    Some((trigger, outcome))
}

/// What a look at an object's Jobs shows, and which runs are to be counted. A
/// run is marked first and counted where that succeeded, so none counts twice.
pub fn plan_runs(jobs: &Vec<Job>) -> (r: RunPlan)
    ensures
        r.observation.has_active == exists|i: int|
            0 <= i < jobs@.len() && ended((#[trigger] jobs@[i]).conditions@) is None,
        count_views(r.to_count@) == count_entries(jobs@),
{
    let mut has_active = false;
    let mut to_count: Vec<RunToCount> = Vec::new();
    let mut i: usize = 0;
    assert(jobs@.take(0) =~= Seq::empty());
    assert(count_views(to_count@) =~= Seq::empty());
    while i < jobs.len()
        invariant
            i <= jobs@.len(),
            has_active == exists|j: int|
                0 <= j < i && ended((#[trigger] jobs@[j]).conditions@) is None,
            count_views(to_count@) == count_entries(jobs@.take(i as int)),
        decreases jobs@.len() - i,
    {
        let job = &jobs[i];
        let ghost was = to_count@;
        assert(jobs@.take(i + 1).drop_last() =~= jobs@.take(i as int));
        assert(jobs@.take(i + 1).last() == jobs@[i as int]);
        if job_terminal_state(job).is_none() {
            has_active = true;
        } else if let Some((trigger, outcome)) = run_to_count(job) {
            if let Some(name) = &job.name {
                to_count.push(RunToCount { job: name.clone(), trigger, outcome });
                assert(count_views(to_count@) =~= count_views(was).push((name@, trigger, outcome)));
            }
        }
        i += 1;
    }
    assert(jobs@.take(i as int) =~= jobs@);
    RunPlan { observation: RunObservation { has_active }, to_count }
}

/// The patch that marks a run as counted.
pub fn counted_patch(outcome: ReplicationRunOutcome) -> (r: Json)
    ensures
        tree(r) == annotation_tree(RUN_COUNTED_ANNOTATION@, outcome_text(outcome)),
{
    annotation_patch(RUN_COUNTED_ANNOTATION, outcome.as_str())
}

/// Ten to the `k`.
spec fn pow10(k: nat) -> nat
    decreases k,
{
    if k == 0 {
        1
    } else {
        10 * pow10((k - 1) as nat)
    }
}

proof fn lemma_decimal_len(n: nat, k: nat)
    requires
        k >= 1,
        n < pow10(k),
    ensures
        decimal(n).len() <= k,
        is_ascii_chars(decimal(n)),
    decreases k,
{
    reveal_strlit("0123456789abcdef");
    if n >= 10 {
        assert(k >= 2) by {
            reveal_with_fuel(pow10, 2);
        }
        lemma_decimal_len(n / 10, (k - 1) as nat);
    }
}

/// Seconds take at most twenty characters.
pub proof fn lemma_seconds_are_short(secs: i64)
    ensures
        signed_decimal(secs as int).len() <= 20,
        is_ascii_chars(signed_decimal(secs as int)),
{
    reveal_strlit("-");
    let n: nat = if secs < 0 {
        (-secs) as nat
    } else {
        secs as nat
    };
    assert(pow10(19) == 10_000_000_000_000_000_000) by {
        reveal_with_fuel(pow10, 20);
    }
    lemma_decimal_len(n, 19);
}

proof fn lemma_manual_suffix(kind: ReplicationKind, requested: Moment)
    ensures
        manual_suffix(kind, requested).len() <= 28,
        is_ascii_chars(manual_suffix(kind, requested)),
{
    reveal_strlit("-");
    reveal_strlit("mrepl");
    reveal_strlit("msrepl");
    lemma_seconds_are_short(requested.secs);
}

/// A fitted name has at most 52 characters, and at most 52 bytes where the
/// object's name is ASCII, as long as the suffix is ASCII and leaves room for a
/// hash.
pub proof fn lemma_fitted_job_name_fits(name: Seq<char>, suffix: Seq<char>)
    requires
        is_ascii_chars(suffix),
        suffix.len() <= 43,
    ensures
        fitted_job_name(name, suffix).len() <= 52,
        is_ascii_chars(name) ==> encode_utf8(fitted_job_name(name, suffix)).len() <= 52,
{
    let r = fitted_job_name(name, suffix);
    is_ascii_chars_encode_utf8(suffix);
    lemma_chars_within_bytes(name);
    lemma_short_hash_shape(name);
    lemma_hex_is_ascii((text_hash(name) & 0xffff_ffff) as nat, 8);
    reveal_strlit("-");
    if is_ascii_chars(name) {
        assert(is_ascii_chars(r));
        is_ascii_chars_encode_utf8(r);
    }
}

/// The Job name of a requested run fits.
pub proof fn lemma_manual_job_name_fits(kind: ReplicationKind, cr: Seq<char>, requested: Moment)
    ensures
        fitted_job_name(cr, manual_suffix(kind, requested)).len() <= 52,
        is_ascii_chars(cr) ==> encode_utf8(
            fitted_job_name(cr, manual_suffix(kind, requested)),
        ).len() <= 52,
{
    lemma_manual_suffix(kind, requested);
    lemma_fitted_job_name_fits(cr, manual_suffix(kind, requested));
}

/// A fitted name ends in its suffix, whole.
pub proof fn lemma_fitted_ends_in_suffix(name: Seq<char>, suffix: Seq<char>)
    ensures
        ({
            let r = fitted_job_name(name, suffix);
            &&& r.len() >= suffix.len()
            &&& r.skip(r.len() - suffix.len()) == suffix
        }),
{
    let r = fitted_job_name(name, suffix);
    assert(r.skip(r.len() - suffix.len()) =~= suffix);
}

/// Two requested runs of the two kinds at one instant never share a Job name,
/// whatever their objects are called.
pub proof fn lemma_manual_names_differ_between_kinds(a: Seq<char>, b: Seq<char>, requested: Moment)
    ensures
        fitted_job_name(a, manual_suffix(ReplicationKind::Repository, requested))
            != fitted_job_name(b, manual_suffix(ReplicationKind::Snapshot, requested)),
{
    let s = manual_suffix(ReplicationKind::Repository, requested);
    let t = manual_suffix(ReplicationKind::Snapshot, requested);
    let x = fitted_job_name(a, s);
    let y = fitted_job_name(b, t);
    let d = signed_decimal(requested.secs as int).len();
    reveal_strlit("-");
    reveal_strlit("mrepl");
    reveal_strlit("msrepl");
    lemma_fitted_ends_in_suffix(a, s);
    lemma_fitted_ends_in_suffix(b, t);
    assert(s[1] == 'm' && s.len() == 7 + d);
    assert(t[2] == 's' && t.len() == 8 + d);
    assert(x.skip(x.len() - s.len())[1] == x[x.len() - d - 6]);
    assert(y.skip(y.len() - t.len())[2] == y[y.len() - d - 6]);
}

/// A requested run never takes the Job name of a scheduled run at the same
/// second: those end in `-repl-` or `-srepl-` and the second.
pub proof fn lemma_manual_names_differ_from_scheduled(
    kind: ReplicationKind,
    cr: Seq<char>,
    requested: Moment,
    front: Seq<char>,
)
    ensures
        fitted_job_name(cr, manual_suffix(kind, requested)) != front + "-repl-"@ + signed_decimal(
            requested.secs as int,
        ),
        fitted_job_name(cr, manual_suffix(kind, requested)) != front + "-srepl-"@ + signed_decimal(
            requested.secs as int,
        ),
{
    let s = manual_suffix(kind, requested);
    let x = fitted_job_name(cr, s);
    let number = signed_decimal(requested.secs as int);
    let d = number.len();
    reveal_strlit("-");
    reveal_strlit("mrepl");
    reveal_strlit("msrepl");
    reveal_strlit("-repl-");
    reveal_strlit("-srepl-");
    lemma_fitted_ends_in_suffix(cr, s);
    let y = front + "-repl-"@ + number;
    let z = front + "-srepl-"@ + number;
    assert(y[y.len() - d - 6] == '-');
    assert(z[z.len() - d - 6] == 's' && z[z.len() - d - 7] == '-');
    match kind {
        ReplicationKind::Repository => {
            assert(s[1] == 'm' && s.len() == 7 + d);
            assert(x.skip(x.len() - s.len())[1] == x[x.len() - d - 6]);
        },
        ReplicationKind::Snapshot => {
            assert(s[1] == 'm' && s[2] == 's' && s.len() == 8 + d);
            assert(x.skip(x.len() - s.len())[1] == x[x.len() - d - 7]);
            assert(x.skip(x.len() - s.len())[2] == x[x.len() - d - 6]);
        },
    }
}

/// A run is counted once: a Job that carries the marker is not counted again,
/// whatever else it says, and whatever value the marker has.
pub proof fn lemma_counted_once(
    annotations: Map<Seq<char>, Seq<char>>,
    conditions: Seq<JobCondition>,
    mark: Seq<char>,
)
    ensures
        countable(annotations.insert(RUN_COUNTED_ANNOTATION@, mark), conditions) is None,
{
}

/// A trigger is read back from its own text.
pub proof fn lemma_trigger_text_round_trip(t: ReplicationRunTrigger)
    ensures
        trigger_of(trigger_text(t)) == Some(t),
{
    reveal_strlit("cron");
    reveal_strlit("manual");
    assert("cron"@.len() != "manual"@.len());
}

/// A request that arrives while the replication is suspended changes the reason.
pub proof fn lemma_waiting_request_shows()
    ensures
        suspended_reason(true) != suspended_reason(false),
{
    reveal_strlit("SuspendedWithPendingRun");
    reveal_strlit("Suspended");
    assert("SuspendedWithPendingRun"@.len() != "Suspended"@.len());
}

/// Whether a condition tells that a Job has ended with this type.
pub open spec fn tells(c: JobCondition, type_: Seq<char>) -> bool {
    c.type_@ == type_ && c.status@ == "True"@
}

proof fn lemma_the_first_that_tells(conditions: Seq<JobCondition>) -> (at: int)
    ensures
        0 <= at <= conditions.len(),
        forall|i: int|
            0 <= i < at ==> !tells(#[trigger] conditions[i], "Complete"@) && !tells(
                conditions[i],
                "Failed"@,
            ),
        at == conditions.len() ==> ended(conditions) is None,
        at < conditions.len() && tells(conditions[at], "Complete"@) ==> ended(conditions) == Some(true),
        at < conditions.len() && !tells(conditions[at], "Complete"@) ==> tells(
            conditions[at],
            "Failed"@,
        ) && ended(conditions) == Some(false),
    decreases conditions.len(),
{
    if conditions.len() == 0 {
        0
    } else if verdict(conditions.first()) is Some {
        0
    } else {
        let rest = conditions.drop_first();
        let at = lemma_the_first_that_tells(rest);
        assert forall|i: int| 0 <= i < at + 1 implies !tells(#[trigger] conditions[i], "Complete"@)
            && !tells(conditions[i], "Failed"@) by {
            if i > 0 {
                assert(rest[i - 1] == conditions[i]);
            }
        }
        if at < rest.len() {
            assert(rest[at] == conditions[at + 1]);
        }
        at + 1
    }
}

/// A Job has ended as soon as any of its conditions, wherever it stands, says `Complete` or
/// `Failed` and is true, and not before. Where only one of the two is said, that is how it
/// ended.
pub proof fn lemma_when_a_job_has_ended(conditions: Seq<JobCondition>)
    ensures
        ended(conditions) is Some <==> exists|i: int|
            0 <= i < conditions.len() && (#[trigger] conditions[i]).status@ == "True"@ && (
            conditions[i].type_@ == "Complete"@ || conditions[i].type_@ == "Failed"@),
        ended(conditions) == Some(true) ==> exists|i: int|
            0 <= i < conditions.len() && (#[trigger] conditions[i]).status@ == "True"@
                && conditions[i].type_@ == "Complete"@,
        ended(conditions) == Some(false) ==> exists|i: int|
            0 <= i < conditions.len() && (#[trigger] conditions[i]).status@ == "True"@
                && conditions[i].type_@ == "Failed"@,
{
    let at = lemma_the_first_that_tells(conditions);
    if at < conditions.len() {
        assert(conditions[at].status@ == "True"@);
    } else {
        assert forall|i: int| 0 <= i < conditions.len() implies !((#[trigger] conditions[i]).status@
            == "True"@ && (conditions[i].type_@ == "Complete"@ || conditions[i].type_@ == "Failed"@)) by {
            assert(!tells(conditions[i], "Complete"@) && !tells(conditions[i], "Failed"@));
        }
    }
}

/// Of two conditions that both tell, the one that stands first does.
pub proof fn lemma_the_first_end_counts(conditions: Seq<JobCondition>, at: int)
    requires
        0 <= at < conditions.len(),
        conditions[at].status@ == "True"@,
        conditions[at].type_@ == "Complete"@ || conditions[at].type_@ == "Failed"@,
        forall|i: int|
            0 <= i < at ==> (#[trigger] conditions[i]).status@ != "True"@ || (conditions[i].type_@
                != "Complete"@ && conditions[i].type_@ != "Failed"@),
    ensures
        ended(conditions) == Some(conditions[at].type_@ == "Complete"@),
{
    let first = lemma_the_first_that_tells(conditions);
    assert(tells(conditions[at], "Complete"@) || tells(conditions[at], "Failed"@));
    if first < at {
        assert(conditions[first].status@ != "True"@ || (conditions[first].type_@ != "Complete"@
            && conditions[first].type_@ != "Failed"@));
    }
    reveal_strlit("Complete");
    reveal_strlit("Failed");
    assert("Complete"@.len() != "Failed"@.len());
}

/// A condition of another type, or one that is not true, changes nothing wherever it
/// stands.
pub proof fn lemma_other_conditions_change_nothing(
    a: Seq<JobCondition>,
    c: JobCondition,
    b: Seq<JobCondition>,
)
    requires
        c.status@ != "True"@ || (c.type_@ != "Complete"@ && c.type_@ != "Failed"@),
    ensures
        ended(a + seq![c] + b) == ended(a + b),
    decreases a.len(),
{
    if a.len() == 0 {
        assert((a + seq![c] + b).drop_first() =~= b);
        assert(a + b =~= b);
        assert((a + seq![c] + b).first() == c);
    } else {
        let rest = a.drop_first();
        lemma_other_conditions_change_nothing(rest, c, b);
        assert((a + seq![c] + b).drop_first() =~= rest + seq![c] + b);
        assert((a + b).drop_first() =~= rest + b);
        assert((a + seq![c] + b).first() == a.first());
        assert((a + b).first() == a.first());
    }
}

/// What is counted of a Job: nothing while it runs or once it carries the marker, and
/// otherwise how it ended and what asked for it. Only the word `manual` tells a request;
/// without it the schedule asked.
pub proof fn lemma_what_is_counted(
    annotations: Map<Seq<char>, Seq<char>>,
    conditions: Seq<JobCondition>,
)
    ensures
        ended(conditions) is None ==> countable(annotations, conditions) is None,
        annotations.dom().contains(RUN_COUNTED_ANNOTATION@) ==> countable(annotations, conditions) is None,
        ended(conditions) is Some && !annotations.dom().contains(RUN_COUNTED_ANNOTATION@) ==> (
        countable(annotations, conditions) matches Some(c) && c.0 == (if annotations.dom().contains(
            RUN_TRIGGER_ANNOTATION@,
        ) && annotations[RUN_TRIGGER_ANNOTATION@] == "manual"@ {
            ReplicationRunTrigger::Manual
        } else {
            ReplicationRunTrigger::Cron
        }) && c.1 == (if ended(conditions) == Some(true) {
            ReplicationRunOutcome::Succeeded
        } else {
            ReplicationRunOutcome::Failed
        })),
{
    reveal_strlit("cron");
    reveal_strlit("manual");
    assert("cron"@.len() != "manual"@.len());
}

/// Each Job is counted for itself: what is counted of a list is what is counted of each of
/// its Jobs, in order, and a Job without a name is passed over.
pub proof fn lemma_each_job_is_counted(jobs: Seq<Job>, job: Job)
    ensures
        count_entries(Seq::empty()) == Seq::<
            (Seq<char>, ReplicationRunTrigger, ReplicationRunOutcome),
        >::empty(),
        job.name is None || countable(opt_map(job.annotations), job.conditions@) is None
            ==> count_entries(jobs.push(job)) == count_entries(jobs),
        job.name matches Some(name) ==> (countable(
            opt_map(job.annotations),
            job.conditions@,
        ) matches Some(c) ==> count_entries(jobs.push(job)) == count_entries(jobs).push(
            (name@, c.0, c.1),
        )),
{
    assert(jobs.push(job).drop_last() =~= jobs);
    assert(jobs.push(job).last() == job);
}

/// What is told of the runs to count is told of each, in order.
pub proof fn lemma_runs_to_count(runs: Seq<RunToCount>, i: int)
    ensures
        count_views(runs).len() == runs.len(),
        0 <= i < runs.len() ==> count_views(runs)[i] == (
            runs[i].job@,
            runs[i].trigger,
            runs[i].outcome,
        ),
{
}

/// A request is answered for good only by a status of that very request that succeeded or
/// failed. One that is pending, running, unknown or of another request leaves it open.
pub proof fn lemma_what_answers_a_request(status: ReplicationManualRunStatus, raw: Seq<char>)
    ensures
        answered(None, raw) == false,
        answered(Some(&status), raw) <==> (status.requested_at matches Some(at) && at@ == raw) && (
        status.phase == Some(ReplicationManualRunPhase::Succeeded) || status.phase == Some(
            ReplicationManualRunPhase::Failed,
        )),
        (status.phase matches Some(p) && (p is Pending || p is Running || p is Unknown)) ==> !answered(
            Some(&status),
            raw,
        ),
        status.phase is None ==> !answered(Some(&status), raw),
{
}

/// A request is what the annotation says, and nothing without it.
pub proof fn lemma_where_a_request_stands(annotations: StringMap)
    ensures
        requested(None) is None,
        requested(Some(&annotations)) is Some <==> annotations@.dom().contains(
            "kopiur.home-operations.com/run-requested"@,
        ),
        requested(Some(&annotations)) matches Some(raw) ==> raw
            == annotations@["kopiur.home-operations.com/run-requested"@],
{
}

/// A name that fits its Job is kept whole. A longer one is cut, no more than it has to be,
/// and carries its hash.
pub proof fn lemma_job_names(name: Seq<char>, suffix: Seq<char>)
    ensures
        encode_utf8(name).len() + encode_utf8(suffix).len() <= 52 ==> fitted_job_name(name, suffix)
            == name + suffix,
        encode_utf8(suffix).len() <= 43 && encode_utf8(name).len() + encode_utf8(suffix).len() > 52
            ==> fitted_job_name(name, suffix) == head(name, 43 - encode_utf8(suffix).len()) + "-"@
            + short(name) + suffix,
{
}

/// The Jobs of two requests of one object have suffixes of their own, and a request made
/// at the same second has the same.
pub proof fn lemma_requests_have_their_own_jobs(kind: ReplicationKind, a: Moment, b: Moment)
    ensures
        manual_suffix(kind, a) == manual_suffix(kind, b) <==> a.secs == b.secs,
{
    let front = "-"@ + manual_token_of(kind) + "-"@;
    let (x, y) = (manual_suffix(kind, a), manual_suffix(kind, b));
    lemma_signed_decimal_reads_back(a.secs as int);
    lemma_signed_decimal_reads_back(b.secs as int);
    assert(x.skip(front.len() as int) =~= signed_decimal(a.secs as int));
    assert(y.skip(front.len() as int) =~= signed_decimal(b.secs as int));
}

/// The words of the two kinds of replication, which share none.
pub proof fn lemma_words_of_replications()
    ensures
        component_of(ReplicationKind::Repository) == "repository-replication"@,
        component_of(ReplicationKind::Snapshot) == "snapshot-replication"@,
        instance_label_of(ReplicationKind::Repository)
            == "kopiur.home-operations.com/repository-replication"@,
        instance_label_of(ReplicationKind::Snapshot)
            == "kopiur.home-operations.com/snapshot-replication"@,
        manual_token_of(ReplicationKind::Repository) == "mrepl"@,
        manual_token_of(ReplicationKind::Snapshot) == "msrepl"@,
        run_command_of(ReplicationKind::Repository)
            == "kubectl kopiur replication run --kind repository"@,
        run_command_of(ReplicationKind::Snapshot) == "kubectl kopiur replication run --kind snapshot"@,
        trigger_text(ReplicationRunTrigger::Cron) == "cron"@,
        trigger_text(ReplicationRunTrigger::Manual) == "manual"@,
        outcome_text(ReplicationRunOutcome::Succeeded) == "succeeded"@,
        outcome_text(ReplicationRunOutcome::Failed) == "failed"@,
        suspended_reason(true) == "SuspendedWithPendingRun"@,
        suspended_reason(false) == "Suspended"@,
{
}

/// A request that cannot be read is told with what it says and how to make a good one.
pub proof fn lemma_what_a_malformed_request_tells(kind: ReplicationKind, raw: Seq<char>)
    ensures
        holds_text(malformed_request(kind, raw), raw),
        holds_text(malformed_request(kind, raw), run_command_of(kind)),
        holds_text(
            malformed_request(kind, raw),
            "annotation `"@ + "kopiur.home-operations.com/run-requested"@,
        ),
{
    broadcast use lemma_holds_end, lemma_holds_on, lemma_holds_itself;

}

/// A trigger is read only from the words that there are.
pub proof fn lemma_which_triggers_are_read(text: Seq<char>)
    ensures
        trigger_of(text) == Some(ReplicationRunTrigger::Cron) <==> text == "cron"@,
        trigger_of(text) == Some(ReplicationRunTrigger::Manual) <==> text == "manual"@,
{
    reveal_strlit("cron");
    reveal_strlit("manual");
    assert("cron"@.len() != "manual"@.len());
}

} // verus!
