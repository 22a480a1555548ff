use kopiur_controller::error::Error;
use kopiur_controller::leader::{
    campaign_outcome, campaign_step, claimed_spec, classify_attempt, decide, lease_view, plan_lease_write,
    plan_release, reconfirm_look, remaining, renew_failure_reason, write_outcome, write_won, Acquired,
    AttemptOutcome, AttemptResult, CampaignOutcome, Decision, LeadershipLost, LeaseSpec,
    LeaseTimings, LeaseWrite, Observation, ReconfirmEvent, ReconfirmLook, ReconfirmRun,
    ReconfirmStep, Reconfirmed, RenewRound, RoundOutcome, RoundStep, WriteOutcome,
    LEASE_DURATION, RENEW_DEADLINE, RENEW_PERIOD, RETRY_PERIOD,
};

const ME: &str = "kopiur-abc";
const OTHER: &str = "kopiur-xyz";

fn secs(s: u64) -> u64 {
    s * 1_000_000_000
}

const NOW: i128 = 1_780_000_000_000_000_000;

fn lease(holder: &str, renewed_secs_ago: i128, transitions: i32) -> LeaseSpec {
    LeaseSpec {
        holder_identity: Some(holder.to_string()),
        lease_duration_seconds: Some(15),
        acquire_time: None,
        renew_time: Some(NOW - renewed_secs_ago * 1_000_000_000),
        lease_transitions: Some(transitions),
        preferred_holder: None,
        strategy: None,
    }
}

fn kube(code: u16) -> Error {
    Error::Kube {
        code: Some(code),
        message: "boom".to_string(),
    }
}

/// Whether the Lease is held after the write that it calls for, and what was written.
fn act(
    observed: Option<&LeaseSpec>,
    unchanged_for: u64,
    outcome: Result<(), Error>,
) -> (Result<bool, Error>, LeaseWrite) {
    let write = plan_lease_write(
        observed.map(Some),
        ME,
        unchanged_for,
        NOW,
        LeaseTimings::default(),
    );
    let held = match write {
        LeaseWrite::Nothing => Ok(false),
        _ => write_won(outcome),
    };
    (held, write)
}

#[test]
fn unheld_lease_is_claimed() {
    assert_eq!(decide(None, ME, secs(0), LEASE_DURATION), Decision::Claim);
}

#[test]
fn own_lease_is_renewed() {
    assert_eq!(
        decide(Some(ME), ME, secs(0), LEASE_DURATION),
        Decision::Renew
    );
    assert_eq!(
        decide(Some(ME), ME, secs(9999), LEASE_DURATION),
        Decision::Renew
    );
}

#[test]
fn fresh_foreign_lease_means_standby() {
    assert_eq!(
        decide(Some(OTHER), ME, secs(1), LEASE_DURATION),
        Decision::Standby
    );
    assert_eq!(
        decide(Some(OTHER), ME, LEASE_DURATION, LEASE_DURATION),
        Decision::Standby
    );
}

#[test]
fn foreign_lease_unchanged_past_duration_is_claimed() {
    assert_eq!(
        decide(Some(OTHER), ME, LEASE_DURATION + secs(1), LEASE_DURATION),
        Decision::Claim
    );
}

#[test]
fn expiry_is_observation_based_not_wall_clock() {
    assert_eq!(
        decide(Some(OTHER), ME, secs(0), LEASE_DURATION),
        Decision::Standby
    );
}

#[test]
fn renew_deadline_leaves_a_margin_before_lease_expiry() {
    let worst_case_abdication = RENEW_PERIOD + RENEW_DEADLINE;
    assert!(
        worst_case_abdication < LEASE_DURATION,
        "worst-case abdication {worst_case_abdication:?} must be < {LEASE_DURATION:?}"
    );
    assert!(RENEW_DEADLINE < LEASE_DURATION);
    assert!(RETRY_PERIOD < RENEW_DEADLINE);
    assert!(
        RENEW_DEADLINE as f64 / RETRY_PERIOD as f64 >= 4.0,
        "the renew window must allow at least ~4 attempts"
    );
}

#[test]
fn observation_tracks_changes_and_staleness() {
    let mut obs = Observation::new(secs(100));
    let view_a = (Some(OTHER.to_string()), None);
    let first = obs.track(view_a.clone(), secs(100));
    assert!(first < secs(1), "a fresh observation starts the clock");
    let second = obs.track(view_a, secs(107));
    assert!(second >= first);
    assert_eq!(second, secs(7));
    let view_b = (Some(OTHER.to_string()), Some(NOW));
    let reset = obs.track(view_b, secs(108));
    assert!(reset < secs(1), "an observed change resets the clock");
    let view_c = (Some(ME.to_string()), Some(NOW));
    assert_eq!(obs.track(view_c, secs(120)), 0);
}

#[test]
fn renew_stamps_renew_time_and_keeps_holder_and_transitions() {
    let held = lease(ME, 9, 3);
    let (won, write) = act(Some(&held), 0, Ok(()));
    assert_eq!(won.ok(), Some(true), "the current holder keeps leadership on renew");
    match write {
        LeaseWrite::Replace(spec) => {
            assert_eq!(spec.holder_identity.as_deref(), Some(ME));
            assert_eq!(spec.lease_transitions, Some(3));
            assert_eq!(spec.renew_time, Some(NOW));
            assert_eq!(spec.lease_duration_seconds, Some(15));
        }
        other => panic!("renew must write the lease: {other:?}"),
    }
}

#[test]
fn claim_of_expired_foreign_lease_bumps_transitions() {
    let stale = lease(OTHER, 60, 4);
    let (won, write) = act(Some(&stale), LEASE_DURATION + secs(1), Ok(()));
    assert_eq!(won.ok(), Some(true), "an expired foreign lease is claimable");
    match write {
        LeaseWrite::Replace(spec) => {
            assert_eq!(spec.holder_identity.as_deref(), Some(ME));
            assert_eq!(spec.lease_transitions, Some(5));
            assert_eq!(spec.acquire_time, Some(NOW));
        }
        other => panic!("claim writes: {other:?}"),
    }
}

#[test]
fn fresh_foreign_lease_stands_by_without_writing() {
    let (won, write) = act(Some(&lease(OTHER, 1, 1)), secs(1), Ok(()));
    assert_eq!(won.ok(), Some(false), "a freshly-observed foreign lease is honored");
    assert_eq!(write, LeaseWrite::Nothing);
}

#[test]
fn create_race_409_is_standby_not_error() {
    let (won, write) = act(None, 0, Err(kube(409)));
    assert_eq!(won.ok(), Some(false));
    match write {
        LeaseWrite::Create(spec) => {
            assert_eq!(spec.lease_transitions, Some(1));
            assert_eq!(spec.holder_identity.as_deref(), Some(ME));
        }
        other => panic!("an absent Lease is created: {other:?}"),
    }
}

#[test]
fn cas_conflict_on_claim_is_standby_not_error() {
    let (won, _) = act(
        Some(&lease(OTHER, 60, 4)),
        LEASE_DURATION + secs(1),
        Err(kube(409)),
    );
    assert_eq!(won.ok(), Some(false));
}

#[test]
fn a_failed_write_is_an_error() {
    let (won, _) = act(None, 0, Err(kube(500)));
    assert!(matches!(won, Err(Error::Kube { code: Some(500), .. })));
    assert_eq!(write_outcome(Ok(())), WriteOutcome::Accepted);
    assert_eq!(write_outcome(Err(kube(409))), WriteOutcome::Conflict);
    assert_eq!(
        write_outcome(Err(kube(500))),
        WriteOutcome::Failed("boom".to_string())
    );
}

#[test]
fn a_lease_that_says_nothing_is_claimed() {
    let write = plan_lease_write(Some(None), ME, 0, NOW, LeaseTimings::default());
    match write {
        LeaseWrite::Replace(spec) => assert_eq!(spec.lease_transitions, Some(1)),
        other => panic!("{other:?}"),
    }
    assert_eq!(lease_view(None), (None, None));
    assert_eq!(
        lease_view(Some(&lease(OTHER, 2, 1))),
        (Some(OTHER.to_string()), Some(NOW - 2_000_000_000))
    );
}

#[test]
fn a_lease_that_changed_hands_too_often_is_still_renewed() {
    let own = lease(ME, 2, i32::MAX);
    match act(Some(&own), 0, Ok(())) {
        (Ok(true), LeaseWrite::Replace(spec)) => {
            assert_eq!(spec.lease_transitions, Some(i32::MAX))
        }
        other => panic!("{other:?}"),
    }
    let others = lease(OTHER, 2, i32::MAX);
    assert!(matches!(act(Some(&others), 0, Ok(())), (Ok(false), LeaseWrite::Nothing)));
}

#[test]
fn an_oversized_duration_is_told_as_long_as_can_be() {
    let spec = claimed_spec(ME, NOW, 1, u64::MAX);
    assert_eq!(spec.lease_duration_seconds, Some((u64::MAX / 1_000_000_000).min(i32::MAX as u64) as i32));
    let spec = claimed_spec(ME, NOW, 1, secs(3_000_000_000));
    assert_eq!(spec.lease_duration_seconds, Some(i32::MAX));
}

/// What one try comes to, and how long it takes.
struct Try {
    takes: u64,
    result: AttemptResult,
}

/// Runs rounds from the election on, on a clock of its own; the last try repeats.
/// Stops at the loss of leadership or after `limit`, and tells when.
fn run_renewal(tries: &[Try], limit: u64) -> (u64, Option<LeadershipLost>) {
    let timings = LeaseTimings::default();
    let mut now: u64 = secs(1000);
    let start = now;
    let mut last_renewed = now;
    let mut nth = 0;
    loop {
        now += timings.renew_period;
        let mut round = RenewRound::open(now, timings, last_renewed + timings.lease_duration);
        let mut step = round.ask(now);
        let outcome = loop {
            match step {
                RoundStep::Attempt { bound } => {
                    let t = &tries[nth.min(tries.len() - 1)];
                    nth += 1;
                    let result = if t.takes >= bound {
                        now += bound;
                        AttemptResult::TimedOut {
                            seconds: bound / 1_000_000_000,
                        }
                    } else {
                        now += t.takes;
                        t.result.clone()
                    };
                    step = round.settle(classify_attempt(result, ME), now);
                }
                RoundStep::Sleep { span } => {
                    now += span;
                    step = round.ask(now);
                }
                RoundStep::Over(outcome) => break outcome,
            }
        };
        match outcome {
            RoundOutcome::Renewed => last_renewed = now,
            RoundOutcome::Lost(lost) => return (now - start, Some(lost)),
        }
        if now - start > limit {
            return (now - start, None);
        }
    }
}

fn answered(won: bool, holder: &str) -> AttemptResult {
    AttemptResult::Answered {
        won,
        holder: Some(holder.to_string()),
    }
}

#[test]
fn renewal_task_completes_when_the_lease_is_stolen() {
    let (_, lost) = run_renewal(
        &[Try {
            takes: 0,
            result: answered(false, OTHER),
        }],
        secs(60),
    );
    assert_eq!(
        lost,
        Some(LeadershipLost::ToPeer {
            holder: Some(OTHER.to_string())
        })
    );
}

#[test]
fn renewal_survives_a_spurious_conflict_while_still_holding() {
    let (_, lost) = run_renewal(
        &[
            Try {
                takes: 0,
                result: answered(false, ME),
            },
            Try {
                takes: 0,
                result: answered(true, ME),
            },
        ],
        secs(120),
    );
    assert_eq!(lost, None, "a conflict that clears must not depose the leader");
}

#[test]
fn renewal_abdicates_when_conflicts_never_let_us_re_stamp() {
    let (_, lost) = run_renewal(
        &[Try {
            takes: 0,
            result: answered(false, ME),
        }],
        secs(60),
    );
    match lost {
        Some(LeadershipLost::RenewFailed {
            attempts,
            last_error,
            safe_until,
        }) => {
            assert_eq!(attempts, 5);
            assert_eq!(last_error, "concurrent write while we still hold the Lease");
            assert_eq!(safe_until, secs(1000) + LEASE_DURATION);
        }
        other => panic!("an unending conflict is a failed renew: {other:?}"),
    }
}

#[test]
fn renewal_survives_a_stall_shorter_than_the_renew_window() {
    let (_, lost) = run_renewal(
        &[
            Try {
                takes: secs(7),
                result: AttemptResult::Failed("InternalError".to_string()),
            },
            Try {
                takes: 0,
                result: answered(true, ME),
            },
        ],
        secs(120),
    );
    assert_eq!(
        lost, None,
        "a stall shorter than the renew window must be retried, not abdicated"
    );
}

#[test]
fn renewal_abdicates_when_the_apiserver_stalls_instead_of_hanging() {
    let (took, lost) = run_renewal(
        &[Try {
            takes: u64::MAX,
            result: answered(true, ME),
        }],
        secs(60),
    );
    assert!(took <= RENEW_PERIOD + RENEW_DEADLINE + secs(1));
    assert!(took >= RENEW_DEADLINE);
    match lost {
        Some(LeadershipLost::RenewFailed {
            attempts,
            last_error,
            ..
        }) => {
            assert!(attempts >= 2);
            assert_eq!(last_error, "no response within 2s");
        }
        other => panic!("a stall is a failed renew: {other:?}"),
    }
}

/// Runs a second look on a clock of its own.
fn run_reconfirm(
    safe_until: u64,
    start: u64,
    look: &dyn Fn() -> ReconfirmEvent,
    takes: u64,
) -> (u64, Reconfirmed) {
    let mut run = ReconfirmRun::open(safe_until, LeaseTimings::default());
    let mut now = start;
    let mut step = run.ask(now);
    loop {
        match step {
            ReconfirmStep::Attempt { bound } => {
                let event = if takes >= bound {
                    now += bound;
                    ReconfirmEvent::TimedOut
                } else {
                    now += takes;
                    look()
                };
                step = run.settle(event, now);
            }
            ReconfirmStep::Sleep { span } => {
                now += span;
                step = run.ask(now);
            }
            ReconfirmStep::Over(outcome) => return (now - start, outcome),
        }
    }
}

fn margin() -> u64 {
    LEASE_DURATION - (RENEW_PERIOD + RENEW_DEADLINE)
}

#[test]
fn reconfirm_accepts_only_a_lease_that_still_names_us() {
    let held = lease(ME, 12, 7);
    match reconfirm_look(Some(Some(&held)), ME, NOW) {
        ReconfirmLook::Restamp(spec) => {
            assert_eq!(spec.renew_time, Some(NOW));
            assert_eq!(spec.holder_identity.as_deref(), Some(ME));
            assert_eq!(spec.lease_transitions, Some(7));
        }
        other => panic!("{other:?}"),
    }
    let (_, outcome) = run_reconfirm(
        margin(),
        0,
        &|| ReconfirmEvent::Written(WriteOutcome::Accepted),
        0,
    );
    assert_eq!(outcome, Reconfirmed::StillOurs);
}

#[test]
fn reconfirm_gives_up_when_a_peer_holds_the_lease() {
    let foreign = lease(OTHER, 1, 8);
    assert_eq!(
        reconfirm_look(Some(Some(&foreign)), ME, NOW),
        ReconfirmLook::Over(Reconfirmed::Lost(
            "the Lease now names kopiur-xyz; it left our hands while we were out of contact"
                .to_string()
        ))
    );
}

#[test]
fn reconfirm_gives_up_on_an_unheld_or_absent_lease() {
    let mut unheld = lease(ME, 1, 9);
    unheld.holder_identity = None;
    assert_eq!(
        reconfirm_look(Some(Some(&unheld)), ME, NOW),
        ReconfirmLook::Over(Reconfirmed::Lost(
            "the Lease now names <nobody>; it left our hands while we were out of contact"
                .to_string()
        ))
    );
    assert_eq!(
        reconfirm_look(None, ME, NOW),
        ReconfirmLook::Over(Reconfirmed::Lost(
            "the Lease no longer exists; a peer may have recreated and claimed it".to_string()
        ))
    );
}

#[test]
fn reconfirm_never_outlives_the_margin() {
    let (spent, outcome) =
        run_reconfirm(secs(50) + margin(), secs(50), &|| ReconfirmEvent::TimedOut, u64::MAX);
    assert_eq!(
        outcome,
        Reconfirmed::Lost(
            "ran out of margin before the Lease could be re-reached (no response); past this \
             point a standby may legitimately claim it, so continuing to reconcile could not be \
             proven exclusive"
                .to_string()
        )
    );
    assert!(spent >= margin());
    assert!(spent < LEASE_DURATION - (RENEW_PERIOD + RENEW_DEADLINE) + RETRY_PERIOD);
}

#[test]
fn reconfirm_remembers_what_went_wrong() {
    for (event, text) in [
        (
            ReconfirmEvent::Written(WriteOutcome::Conflict),
            "concurrent write on the Lease",
        ),
        (
            ReconfirmEvent::Written(WriteOutcome::Failed("denied".to_string())),
            "denied",
        ),
        (ReconfirmEvent::Failed("refused".to_string()), "refused"),
        (ReconfirmEvent::TimedOut, "no response"),
    ] {
        let mut run = ReconfirmRun::open(secs(10), LeaseTimings::default());
        assert_eq!(run.last_error, "no attempt completed");
        let step = run.settle(event, secs(9));
        assert_eq!(step, ReconfirmStep::Sleep { span: secs(1) });
        assert_eq!(run.last_error, text);
    }
    let mut run = ReconfirmRun::open(secs(10), LeaseTimings::default());
    let over = Reconfirmed::Lost("gone".to_string());
    assert_eq!(
        run.settle(ReconfirmEvent::Over(over.clone()), secs(9)),
        ReconfirmStep::Over(over)
    );
    assert_eq!(run.ask(secs(2)), ReconfirmStep::Attempt { bound: secs(6) });
}

#[test]
fn the_margin_is_what_reconfirm_may_spend() {
    let worst_case_abdication = RENEW_PERIOD + RENEW_DEADLINE;
    let margin = LEASE_DURATION - worst_case_abdication;
    assert!(
        margin != 0,
        "no margin left for reconfirm; it must then never run at all"
    );
    assert!(
        worst_case_abdication + margin <= LEASE_DURATION,
        "renew round + reconfirm must not outlive the lease duration"
    );
}

#[test]
fn release_clears_our_holder_identity() {
    let held = lease(ME, 1, 3);
    let freed = plan_release(Some(Some(&held)), ME).expect("release must write the lease");
    assert_eq!(freed.holder_identity, None);
    assert_eq!(freed.renew_time, None);
    assert_eq!(freed.lease_transitions, Some(3));
    assert_eq!(
        decide(freed.holder_identity.as_deref(), OTHER, 0, LEASE_DURATION),
        Decision::Claim
    );
}

#[test]
fn release_of_a_foreign_lease_is_a_no_op() {
    assert_eq!(plan_release(Some(Some(&lease(OTHER, 1, 3))), ME), None);
    assert_eq!(plan_release(Some(None), ME), None);
    assert_eq!(plan_release(None, ME), None);
}

#[test]
fn a_campaign_goes_on_until_it_is_won_or_forbidden() {
    assert_eq!(campaign_step(&CampaignOutcome::Won), Some(Acquired::Leading));
    assert_eq!(campaign_step(&CampaignOutcome::Lost), None);
    assert_eq!(campaign_step(&CampaignOutcome::TimedOut), None);
    assert_eq!(
        campaign_step(&CampaignOutcome::Failed(Some(403))),
        Some(Acquired::Degraded)
    );
    assert_eq!(campaign_step(&CampaignOutcome::Failed(Some(500))), None);
    assert_eq!(campaign_step(&CampaignOutcome::Failed(None)), None);
    assert_eq!(campaign_outcome(None), CampaignOutcome::TimedOut);
    assert_eq!(campaign_outcome(Some(Ok(true))), CampaignOutcome::Won);
    assert_eq!(campaign_outcome(Some(Ok(false))), CampaignOutcome::Lost);
    assert_eq!(
        campaign_outcome(Some(Err(kube(403)))),
        CampaignOutcome::Failed(Some(403))
    );
    let other = Error::Invariant("x".to_string());
    assert_eq!(campaign_outcome(Some(Err(other))), CampaignOutcome::Failed(None));
}

#[test]
fn tries_are_told_apart() {
    assert_eq!(renew_failure_reason(&answered(true, ME)), None);
    assert_eq!(renew_failure_reason(&answered(false, ME)), Some("conflict"));
    let failed = AttemptResult::Failed("x".to_string());
    assert_eq!(renew_failure_reason(&failed), Some("transport"));
    assert_eq!(
        renew_failure_reason(&AttemptResult::TimedOut { seconds: 6 }),
        Some("stalled")
    );
    assert_eq!(
        classify_attempt(AttemptResult::TimedOut { seconds: 6 }, ME),
        AttemptOutcome::Retryable("no response within 6s".to_string())
    );
    assert_eq!(
        classify_attempt(failed, ME),
        AttemptOutcome::Retryable("x".to_string())
    );
    assert_eq!(
        classify_attempt(
            AttemptResult::Answered {
                won: false,
                holder: None
            },
            ME
        ),
        AttemptOutcome::LostToPeer { holder: None }
    );
}

#[test]
fn what_is_left_never_goes_below_nothing() {
    assert_eq!(remaining(10, 4), 6);
    assert_eq!(remaining(4, 10), 0);
}

#[test]
fn a_peer_waits_out_the_leader() {
    let written = secs(100);
    let opened = written + RENEW_PERIOD;
    let closes = opened + RENEW_DEADLINE;
    assert_eq!(
        decide(Some(ME), OTHER, remaining(closes, written), LEASE_DURATION),
        Decision::Standby
    );
    let later = written + LEASE_DURATION + 1;
    assert_eq!(
        decide(Some(ME), OTHER, remaining(later, written), LEASE_DURATION),
        Decision::Claim
    );
}
