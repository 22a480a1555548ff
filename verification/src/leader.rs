//! Leader election over a Lease.
//!
//! A replica claims a Lease that nobody holds, or that it has watched unchanged
//! for longer than a lease lasts, on its own clock. It renews the Lease it holds in
//! rounds that end before anybody else may claim it, and gives up only on a foreign
//! holder that it has seen, or when a round's time is up.
//!
//! Spans and points of time of the process's own clock are in nanoseconds; time
//! stamps in a Lease are nanoseconds since the Unix epoch.
use vstd::prelude::*;
use vstd::string::*;

use crate::error::Error;
use crate::text::{decimal, decimal_text, opt_str, opt_text, same, same_opt};

verus! {

/// How long a Lease is honored without a change.
pub const LEASE_DURATION: u64 = 15_000_000_000;

/// How long a leader keeps trying to renew before it gives up.
pub const RENEW_DEADLINE: u64 = 10_000_000_000;

/// How long a leader waits between two successful rounds.
pub const RENEW_PERIOD: u64 = 2_000_000_000;

/// How long to wait between two tries.
pub const RETRY_PERIOD: u64 = 2_000_000_000;

/// How long one try to renew may take.
pub const RENEW_ATTEMPT_TIMEOUT: u64 = 6_000_000_000;

/// How long one try to be elected may take.
pub const CAMPAIGN_TIMEOUT: u64 = 10_000_000_000;

/// How long giving the Lease back may take.
pub const RELEASE_TIMEOUT: u64 = 5_000_000_000;

/// Nanoseconds in one second.
pub const SECOND: u64 = 1_000_000_000;

/// The times of an election.
#[derive(Debug, Clone, Copy, PartialEq, Eq, Structural)]
pub struct LeaseTimings {
    /// How long a Lease is honored without a change.
    pub lease_duration: u64,
    /// How long a leader keeps trying to renew.
    pub renew_deadline: u64,
    /// How long a leader waits between two successful rounds.
    pub renew_period: u64,
    /// How long to wait between two tries.
    pub retry_period: u64,
}

/// What a Lease says.
#[derive(Debug, Clone, PartialEq, Eq)]
pub struct LeaseSpec {
    /// Who holds it.
    pub holder_identity: Option<String>,
    /// How long it lasts, in seconds.
    pub lease_duration_seconds: Option<i32>,
    /// When it was claimed.
    pub acquire_time: Option<i128>,
    /// When it was last renewed.
    pub renew_time: Option<i128>,
    /// How often it changed hands.
    pub lease_transitions: Option<i32>,
    /// Who should get it next.
    pub preferred_holder: Option<String>,
    /// How the next holder is chosen.
    pub strategy: Option<String>,
}

/// What to do about a Lease.
#[derive(Debug, Clone, Copy, PartialEq, Eq, Structural)]
pub enum Decision {
    /// Claim it.
    Claim,
    /// Renew it.
    Renew,
    /// Wait.
    Standby,
}

/// What to write.
#[derive(Debug, Clone, PartialEq, Eq)]
pub enum LeaseWrite {
    /// Nothing.
    Nothing,
    /// A new Lease.
    Create(LeaseSpec),
    /// This in place of what was read, if that has not changed.
    Replace(LeaseSpec),
}

/// What came of a write.
#[derive(Debug, Clone, PartialEq, Eq)]
pub enum WriteOutcome {
    /// It was taken.
    Accepted,
    /// Somebody else was faster.
    Conflict,
    /// It failed.
    Failed(String),
}

/// What a replica has seen of a Lease, and since when it has not changed.
#[derive(Debug, Clone, PartialEq, Eq)]
pub struct Observation {
    /// The holder and the time of renewal that were seen last.
    pub seen: Option<(Option<String>, Option<i128>)>,
    /// Since when they have not changed.
    pub since: u64,
}

/// How a campaign ended.
#[derive(Debug, Clone, Copy, PartialEq, Eq, Structural)]
pub enum Acquired {
    /// This replica leads.
    Leading,
    /// The operator may not use the Lease: it runs without an election.
    Degraded,
}

/// What came of one try to be elected.
#[derive(Debug, Clone, PartialEq, Eq)]
pub enum CampaignOutcome {
    /// This replica holds the Lease.
    Won,
    /// It does not.
    Lost,
    /// The API server failed, with this status code where it gave one.
    Failed(Option<u16>),
    /// There was no answer in time.
    TimedOut,
}

/// Why leadership ended.
#[derive(Debug, Clone, PartialEq, Eq)]
pub enum LeadershipLost {
    /// The Lease was seen in other hands.
    ToPeer {
        /// The holder that was seen.
        holder: Option<String>,
    },
    /// The time for renewing is up.
    RenewFailed {
        /// How many tries were made.
        attempts: u32,
        /// What went wrong last.
        last_error: String,
        /// From when on somebody else may claim the Lease.
        safe_until: u64,
    },
}

/// How a round of renewing ended.
#[derive(Debug, Clone, PartialEq, Eq)]
pub enum RoundOutcome {
    /// The Lease is renewed.
    Renewed,
    /// Leadership is lost.
    Lost(LeadershipLost),
}

/// What came of one try to renew.
#[derive(Debug, Clone, PartialEq, Eq)]
pub enum AttemptResult {
    /// The API server answered.
    Answered {
        /// Whether the write was taken.
        won: bool,
        /// The holder that was read before it.
        holder: Option<String>,
    },
    /// The API server or the way to it failed.
    Failed(String),
    /// There was no answer within this many seconds.
    TimedOut {
        /// The seconds.
        seconds: u64,
    },
}

/// What one try to renew means.
#[derive(Debug, Clone, PartialEq, Eq)]
pub enum AttemptOutcome {
    /// The Lease is renewed.
    Renewed,
    /// The Lease is in other hands.
    LostToPeer {
        /// The holder that was seen.
        holder: Option<String>,
    },
    /// It is worth another try.
    Retryable(String),
}

/// A round of renewing.
#[derive(Debug, Clone, PartialEq, Eq)]
pub struct RenewRound {
    /// When its time is up.
    pub window_closes: u64,
    /// From when on somebody else may claim the Lease.
    pub safe_until: u64,
    /// How long to wait between two tries.
    pub retry_period: u64,
    /// How many tries were made.
    pub attempts: u32,
    /// What went wrong last.
    pub last_error: String,
}

/// A step of a round.
#[derive(Debug, Clone, PartialEq, Eq)]
pub enum RoundStep {
    /// Try to renew, for so long at most.
    Attempt {
        /// How long.
        bound: u64,
    },
    /// Wait for so long, then ask again.
    Sleep {
        /// How long.
        span: u64,
    },
    /// The round is over.
    Over(RoundOutcome),
}

/// What a second look at the Lease came to.
#[derive(Debug, Clone, PartialEq, Eq)]
pub enum Reconfirmed {
    /// It never left this replica's hands.
    StillOurs,
    /// That cannot be shown.
    Lost(String),
}

/// What one second look means.
#[derive(Debug, Clone, PartialEq, Eq)]
pub enum ReconfirmLook {
    /// It is over.
    Over(Reconfirmed),
    /// Write this in place of what was read.
    Restamp(LeaseSpec),
}

/// What came of one second look.
#[derive(Debug, Clone, PartialEq, Eq)]
pub enum ReconfirmEvent {
    /// It is over.
    Over(Reconfirmed),
    /// What came of the write.
    Written(WriteOutcome),
    /// The API server or the way to it failed.
    Failed(String),
    /// There was no answer in time.
    TimedOut,
}

/// A step of showing that the Lease never left this replica's hands.
#[derive(Debug, Clone, PartialEq, Eq)]
pub enum ReconfirmStep {
    /// Look at the Lease, for so long at most.
    Attempt {
        /// How long.
        bound: u64,
    },
    /// Wait for so long, then ask again.
    Sleep {
        /// How long.
        span: u64,
    },
    /// This came of it.
    Over(Reconfirmed),
}

/// The showing that the Lease never left this replica's hands.
#[derive(Debug, Clone, PartialEq, Eq)]
pub struct ReconfirmRun {
    /// From when on somebody else may claim the Lease.
    pub give_up_at: u64,
    /// How long to wait between two tries.
    pub retry_period: u64,
    /// What went wrong last.
    pub last_error: String,
}

/// What a Lease says, the holder's name as text.
pub struct LeaseView {
    /// Who holds it.
    pub holder: Option<Seq<char>>,
    /// How long it lasts, in seconds.
    pub duration: Option<i32>,
    /// When it was claimed.
    pub acquired: Option<i128>,
    /// When it was last renewed.
    pub renewed: Option<i128>,
    /// How often it changed hands.
    pub transitions: Option<i32>,
    /// Who should get it next.
    pub preferred: Option<Seq<char>>,
    /// How the next holder is chosen.
    pub strategy: Option<Seq<char>>,
}

impl View for LeaseSpec {
    type V = LeaseView;

    open spec fn view(&self) -> LeaseView {
        LeaseView {
            holder: opt_text(self.holder_identity),
            duration: self.lease_duration_seconds,
            acquired: self.acquire_time,
            renewed: self.renew_time,
            transitions: self.lease_transitions,
            preferred: opt_text(self.preferred_holder),
            strategy: opt_text(self.strategy),
        }
    }
}

/// A Lease that says nothing.
pub open spec fn blank_lease() -> LeaseView {
    LeaseView {
        holder: None,
        duration: None,
        acquired: None,
        renewed: None,
        transitions: None,
        preferred: None,
        strategy: None,
    }
}

/// What an optional Lease says; one that is absent says nothing.
pub open spec fn said(spec: Option<&LeaseSpec>) -> LeaseView {
    match spec {
        Some(s) => s@,
        None => blank_lease(),
    }
}

/// What to do about a Lease with this holder, unchanged for so long.
pub open spec fn verdict(
    holder: Option<Seq<char>>,
    identity: Seq<char>,
    unchanged_for: u64,
    lease_duration: u64,
) -> Decision {
    match holder {
        Some(h) => if h == identity {
            Decision::Renew
        } else if unchanged_for > lease_duration {
            Decision::Claim
        } else {
            Decision::Standby
        },
        None => Decision::Claim,
    }
}

/// The whole seconds of a span, as far as 32 bits go.
pub open spec fn capped_seconds(span: u64) -> i32 {
    let secs = span / SECOND;
    if secs <= i32::MAX {
        secs as i32
    } else {
        i32::MAX
    }
}

/// A Lease that was just claimed.
pub open spec fn claimed(identity: Seq<char>, now: i128, transitions: int, lease_duration: u64) -> LeaseView {
    LeaseView {
        holder: Some(identity),
        duration: Some(capped_seconds(lease_duration)),
        acquired: Some(now),
        renewed: Some(now),
        transitions: Some(transitions as i32),
        preferred: None,
        strategy: None,
    }
}

/// How often a Lease changed hands.
pub open spec fn hands(spec: Option<&LeaseSpec>) -> int {
    match spec {
        Some(s) => match s.lease_transitions {
            Some(n) => n as int,
            None => 0,
        },
        None => 0,
    }
}

/// What is left of the time until `until`.
pub open spec fn left(until: u64, now: u64) -> u64 {
    if now < until {
        (until - now) as u64
    } else {
        0
    }
}

/// The smaller of two spans.
pub open spec fn shorter(a: u64, b: u64) -> u64 {
    if a <= b {
        a
    } else {
        b
    }
}

/// Whether the times leave a leader no chance to lead beside another: it gives up
/// before a lease has run out, and a round has room for more than one try.
pub open spec fn safe_timings(t: LeaseTimings) -> bool {
    &&& t.renew_period + t.renew_deadline < t.lease_duration
    &&& t.retry_period < t.renew_deadline
    &&& RENEW_ATTEMPT_TIMEOUT < t.renew_deadline
}

fn copy_opt(o: &Option<String>) -> (r: Option<String>)
    ensures
        opt_text(r) == opt_text(*o),
{
    match o {
        Some(s) => Some(s.clone()),
        None => None,
    }
}

fn borrow_opt(o: &Option<String>) -> (r: Option<&str>)
    ensures
        opt_str(r) == opt_text(*o),
{
    match o {
        Some(s) => Some(s.as_str()),
        None => None,
    }
}

/// What is left of the time until `until`.
pub fn remaining(until: u64, now: u64) -> (r: u64)
    ensures
        r == left(until, now),
{
    if now < until {
        until - now
    } else {
        0
    }
}

fn min_span(a: u64, b: u64) -> (r: u64)
    ensures
        r == shorter(a, b),
{
    if a <= b {
        a
    } else {
        b
    }
}

impl Default for LeaseTimings {
    fn default() -> (r: Self)
        ensures
            r.lease_duration == LEASE_DURATION,
            r.renew_deadline == RENEW_DEADLINE,
            r.renew_period == RENEW_PERIOD,
            r.retry_period == RETRY_PERIOD,
    {
        LeaseTimings {
            lease_duration: LEASE_DURATION,
            renew_deadline: RENEW_DEADLINE,
            renew_period: RENEW_PERIOD,
            retry_period: RETRY_PERIOD,
        }
    }
}

impl LeaseSpec {
    /// A Lease that says nothing.
    pub fn blank() -> (r: LeaseSpec)
        ensures
            r@ == blank_lease(),
    {
        LeaseSpec {
            holder_identity: None,
            lease_duration_seconds: None,
            acquire_time: None,
            renew_time: None,
            lease_transitions: None,
            preferred_holder: None,
            strategy: None,
        }
    }

    /// A copy of what the Lease says.
    pub fn copy(&self) -> (r: LeaseSpec)
        ensures
            r@ == self@,
    {
        LeaseSpec {
            holder_identity: copy_opt(&self.holder_identity),
            lease_duration_seconds: self.lease_duration_seconds,
            acquire_time: self.acquire_time,
            renew_time: self.renew_time,
            lease_transitions: self.lease_transitions,
            preferred_holder: copy_opt(&self.preferred_holder),
            strategy: copy_opt(&self.strategy),
        }
    }
}

/// What to do about a Lease with this holder, which this replica has watched
/// unchanged for so long. How old the Lease says it is plays no part: clocks differ.
pub fn decide(
    holder: Option<&str>,
    identity: &str,
    observed_unchanged_for: u64,
    lease_duration: u64,
) -> (r: Decision)
    ensures
        r == verdict(opt_str(holder), identity@, observed_unchanged_for, lease_duration),
{
    match holder {
        Some(h) => if same(h, identity) {
            Decision::Renew
        } else if observed_unchanged_for > lease_duration {
            Decision::Claim
        } else {
            Decision::Standby
        },
        None => Decision::Claim,
    }
}

/// What a view of a Lease says.
pub open spec fn seen_text(v: Option<(Option<String>, Option<i128>)>) -> Option<
    (Option<Seq<char>>, Option<i128>),
> {
    match v {
        Some((h, t)) => Some((opt_text(h), t)),
        None => None,
    }
}

impl Observation {
    /// Nothing is seen yet.
    pub fn new(now: u64) -> (r: Self)
        ensures
            r.seen is None,
            r.since == now,
    {
        Observation { seen: None, since: now }
    }

    /// Records what is seen now; returns for how long it has not changed. Any
    /// change, of the holder or of the time of renewal, starts the clock anew.
    pub fn track(&mut self, current: (Option<String>, Option<i128>), now: u64) -> (r: u64)
        ensures
            seen_text(final(self).seen) == Some((opt_text(current.0), current.1)),
            final(self).since == if seen_text(old(self).seen) == Some(
                (opt_text(current.0), current.1),
            ) {
                old(self).since
            } else {
                now
            },
            r == left(now, final(self).since),
    {
        let unchanged = match &self.seen {
            None => false,
            Some((h, t)) => {
                let same_time = match (*t, current.1) {
                    (None, None) => true,
                    (Some(a), Some(b)) => a == b,
                    _ => false,
                };
                same_time && same_opt(borrow_opt(h), borrow_opt(&current.0))
            },
        };
        if !unchanged {
            self.seen = Some(current);
            self.since = now;
        }
        remaining(now, self.since)
    }
}

/// A Lease that was just claimed. A lease that lasts longer than can be told lasts
/// as long as can be told.
pub fn claimed_spec(identity: &str, now: i128, transitions: i32, lease_duration: u64) -> (r:
    LeaseSpec)
    ensures
        r@ == claimed(identity@, now, transitions as int, lease_duration),
{
    let secs: u64 = lease_duration / SECOND;
    let duration: i32 = if secs <= 0x7fff_ffff {
        secs as i32
    } else {
        0x7fff_ffff
    };
    LeaseSpec {
        holder_identity: Some(identity.to_owned()),
        lease_duration_seconds: Some(duration),
        acquire_time: Some(now),
        renew_time: Some(now),
        lease_transitions: Some(transitions),
        preferred_holder: None,
        strategy: None,
    }
}

/// The holder and the time of renewal of what was read; neither where there is no
/// Lease, or where it says nothing.
pub fn lease_view(spec: Option<&LeaseSpec>) -> (r: (Option<String>, Option<i128>))
    ensures
        opt_text(r.0) == said(spec).holder,
        r.1 == said(spec).renewed,
{
    match spec {
        Some(s) => (copy_opt(&s.holder_identity), s.renew_time),
        None => (None, None),
    }
}

/// Whether a write is the one that a Lease calls for. `observed` is what was read:
/// nothing, or a Lease, which may say nothing.
pub open spec fn write_fits(
    w: LeaseWrite,
    observed: Option<Option<&LeaseSpec>>,
    identity: Seq<char>,
    unchanged_for: u64,
    now: i128,
    lease_duration: u64,
) -> bool {
    match observed {
        None => w matches LeaseWrite::Create(s) && s@ == claimed(identity, now, 1, lease_duration),
        Some(spec) => match verdict(said(spec).holder, identity, unchanged_for, lease_duration) {
            Decision::Standby => w is Nothing,
            Decision::Renew => w matches LeaseWrite::Replace(s) && s@ == (LeaseView {
                renewed: Some(now),
                ..said(spec)
            }),
            Decision::Claim => w matches LeaseWrite::Replace(s) && s@ == claimed(
                identity,
                now,
                hands(spec) + 1,
                lease_duration,
            ),
        },
    }
}

/// What to write, from the Lease that was read and for how long it has not
/// changed. Renewing changes the time of renewal alone; claiming counts that the
/// Lease changed hands.
pub fn plan_lease_write(
    observed: Option<Option<&LeaseSpec>>,
    identity: &str,
    observed_unchanged_for: u64,
    now: i128,
    timings: LeaseTimings,
) -> (r: LeaseWrite)
    requires
        observed matches Some(spec) ==> (verdict(
            said(spec).holder,
            identity@,
            observed_unchanged_for,
            timings.lease_duration,
        ) == Decision::Claim ==> hands(spec) < i32::MAX),
    ensures
        write_fits(
            r,
            observed,
            identity@,
            observed_unchanged_for,
            now,
            timings.lease_duration,
        ),
{
    let spec = match observed {
        None => {
            return LeaseWrite::Create(claimed_spec(identity, now, 1, timings.lease_duration));
        },
        Some(s) => s,
    };
    let holder: Option<&str> = match spec {
        Some(s) => borrow_opt(&s.holder_identity),
        None => None,
    };
    match decide(holder, identity, observed_unchanged_for, timings.lease_duration) {
        Decision::Standby => LeaseWrite::Nothing,
        Decision::Renew => {
            let mut renewed = match spec {
                Some(s) => s.copy(),
                None => LeaseSpec::blank(),
            };
            renewed.renew_time = Some(now);
            LeaseWrite::Replace(renewed)
        },
        Decision::Claim => {
            let before: i32 = match spec {
                Some(s) => match s.lease_transitions {
                    Some(n) => n,
                    None => 0,
                },
                None => 0,
            };
            LeaseWrite::Replace(claimed_spec(identity, now, before + 1, timings.lease_duration))
        },
    }
}

/// What came of a write, from what the API server said: that somebody else was
/// faster is told apart from other failures.
pub fn write_outcome(answer: Result<(), Error>) -> (r: WriteOutcome)
    ensures
        match answer {
            Ok(_) => r == WriteOutcome::Accepted,
            Err(Error::Kube { code: Some(409), .. }) => r == WriteOutcome::Conflict,
            Err(e) => r matches WriteOutcome::Failed(m) && m@ == e.text(),
        },
{
    match answer {
        Ok(_) => WriteOutcome::Accepted,
        Err(Error::Kube { code: Some(409), .. }) => WriteOutcome::Conflict,
        Err(e) => WriteOutcome::Failed(e.message().to_owned()),
    }
}

/// Whether this replica holds the Lease after a write. That somebody else was
/// faster is no error.
pub fn write_won(answer: Result<(), Error>) -> (r: Result<bool, Error>)
    ensures
        match answer {
            Ok(_) => r == Ok::<bool, Error>(true),
            Err(Error::Kube { code: Some(409), .. }) => r == Ok::<bool, Error>(false),
            Err(e) => r == Err::<bool, Error>(e),
        },
{
    match answer {
        Ok(_) => Ok(true),
        Err(Error::Kube { code: Some(409), .. }) => Ok(false),
        Err(e) => Err(e),
    }
}

/// What came of one try to be elected, from whether this replica holds the Lease
/// after it; without an answer the time was up.
pub fn campaign_outcome(answer: Option<Result<bool, Error>>) -> (r: CampaignOutcome)
    ensures
        r == match answer {
            None => CampaignOutcome::TimedOut,
            Some(Ok(true)) => CampaignOutcome::Won,
            Some(Ok(false)) => CampaignOutcome::Lost,
            Some(Err(Error::Kube { code, .. })) => CampaignOutcome::Failed(code),
            Some(Err(_)) => CampaignOutcome::Failed(None),
        },
{
    match answer {
        None => CampaignOutcome::TimedOut,
        Some(Ok(true)) => CampaignOutcome::Won,
        Some(Ok(false)) => CampaignOutcome::Lost,
        Some(Err(Error::Kube { code, .. })) => CampaignOutcome::Failed(code),
        Some(Err(_)) => CampaignOutcome::Failed(None),
    }
}

/// Whether a campaign is over, from what came of one try. Without the permission
/// to use the Lease the operator runs without an election; any other failure passes.
pub fn campaign_step(outcome: &CampaignOutcome) -> (r: Option<Acquired>)
    ensures
        r == match *outcome {
            CampaignOutcome::Won => Some(Acquired::Leading),
            CampaignOutcome::Failed(Some(403)) => Some(Acquired::Degraded),
            _ => None,
        },
{
    match outcome {
        CampaignOutcome::Won => Some(Acquired::Leading),
        CampaignOutcome::Failed(Some(403)) => Some(Acquired::Degraded),
        _ => None,
    }
}

/// The metric's word for why a try to renew failed.
pub open spec fn failure_word(a: AttemptResult) -> Option<Seq<char>> {
    match a {
        AttemptResult::Answered { won, .. } => if won {
            None
        } else {
            Some("conflict"@)
        },
        AttemptResult::Failed(_) => Some("transport"@),
        AttemptResult::TimedOut { .. } => Some("stalled"@),
    }
}

/// The metric's word for why a try to renew failed.
pub fn renew_failure_reason(a: &AttemptResult) -> (r: Option<&'static str>)
    ensures
        opt_str(r) == failure_word(*a),
{
    match a {
        AttemptResult::Answered { won, .. } => if *won {
            None
        } else {
            Some("conflict")
        },
        AttemptResult::Failed(_) => Some("transport"),
        AttemptResult::TimedOut { .. } => Some("stalled"),
    }
}

/// Whether an outcome is what a try to renew means.
pub open spec fn attempt_means(a: AttemptResult, identity: Seq<char>, o: AttemptOutcome) -> bool {
    match a {
        AttemptResult::Answered { won, holder } => if won {
            o is Renewed
        } else if opt_text(holder) == Some(identity) {
            o matches AttemptOutcome::Retryable(why) && why@
                == "concurrent write while we still hold the Lease"@
        } else {
            o matches AttemptOutcome::LostToPeer { holder: h } && opt_text(h) == opt_text(holder)
        },
        AttemptResult::Failed(e) => o matches AttemptOutcome::Retryable(why) && why@ == e@,
        AttemptResult::TimedOut { seconds } => o matches AttemptOutcome::Retryable(why) && why@
            == "no response within "@ + decimal(seconds as nat) + "s"@,
    }
}

/// What a try to renew means. A write that was not taken is no loss as long as
/// the Lease still names this replica; only another holder that was seen is.
pub fn classify_attempt(a: AttemptResult, identity: &str) -> (r: AttemptOutcome)
    ensures
        attempt_means(a, identity@, r),
{
    match a {
        AttemptResult::Answered { won, holder } => {
            if won {
                return AttemptOutcome::Renewed;
            }
            if same_opt(borrow_opt(&holder), Some(identity)) {
                AttemptOutcome::Retryable("concurrent write while we still hold the Lease".to_owned())
            } else {
                AttemptOutcome::LostToPeer { holder }
            }
        },
        AttemptResult::Failed(e) => AttemptOutcome::Retryable(e),
        AttemptResult::TimedOut { seconds } => {
            let mut m = "no response within ".to_owned();
            let number = decimal_text(seconds);
            m.append(number.as_str());
            m.append("s");
            AttemptOutcome::Retryable(m)
        },
    }
}

impl RenewRound {
    /// Opens a round now. Its time counts from here, and not from the last renewal.
    pub fn open(now: u64, timings: LeaseTimings, safe_until: u64) -> (r: Self)
        requires
            now + timings.renew_deadline <= u64::MAX,
        ensures
            r.window_closes == now + timings.renew_deadline,
            r.safe_until == safe_until,
            r.retry_period == timings.retry_period,
            r.attempts == 0,
            r.last_error@ == "no attempt completed"@,
    {
        RenewRound {
            window_closes: now + timings.renew_deadline,
            safe_until,
            retry_period: timings.retry_period,
            attempts: 0,
            last_error: "no attempt completed".to_owned(),
        }
    }

    /// Whether a step tells that the round's time is up.
    pub open spec fn gives_up(self, r: RoundStep) -> bool {
        r matches RoundStep::Over(
            RoundOutcome::Lost(LeadershipLost::RenewFailed { attempts, last_error, safe_until }),
        ) && attempts == self.attempts && last_error@ == self.last_error@ && safe_until
            == self.safe_until
    }

    /// Whether two points of a round share its times.
    pub open spec fn same_times(self, other: Self) -> bool {
        &&& self.window_closes == other.window_closes
        &&& self.safe_until == other.safe_until
        &&& self.retry_period == other.retry_period
    }

    fn give_up(&self) -> (r: RoundStep)
        ensures
            self.gives_up(r),
    {
        RoundStep::Over(
            RoundOutcome::Lost(
                LeadershipLost::RenewFailed {
                    attempts: self.attempts,
                    last_error: self.last_error.clone(),
                    safe_until: self.safe_until,
                },
            ),
        )
    }

    /// The next try, bounded by what one may take and by what is left of the round;
    /// or the end, where nothing is left.
    pub fn ask(&mut self, now: u64) -> (r: RoundStep)
        requires
            old(self).attempts < u32::MAX,
        ensures
            final(self).same_times(*old(self)),
            final(self).last_error == old(self).last_error,
            ({
                let time = left(old(self).window_closes, now);
                if time == 0 {
                    final(self).attempts == old(self).attempts && old(self).gives_up(r)
                } else {
                    final(self).attempts == old(self).attempts + 1 && r == (RoundStep::Attempt {
                        bound: shorter(RENEW_ATTEMPT_TIMEOUT, time),
                    })
                }
            }),
    {
        let time: u64 = remaining(self.window_closes, now);
        if time == 0 {
            return self.give_up();
        }
        self.attempts = self.attempts + 1;
        RoundStep::Attempt { bound: min_span(RENEW_ATTEMPT_TIMEOUT, time) }
    }

    /// What follows a try: the end, or a wait that does not outlast the round.
    pub fn settle(&mut self, outcome: AttemptOutcome, now: u64) -> (r: RoundStep)
        ensures
            final(self).same_times(*old(self)),
            final(self).attempts == old(self).attempts,
            match outcome {
                AttemptOutcome::Renewed => final(self).last_error == old(self).last_error && r
                    == RoundStep::Over(RoundOutcome::Renewed),
                AttemptOutcome::LostToPeer { holder } => final(self).last_error == old(
                    self,
                ).last_error && r == RoundStep::Over(
                    RoundOutcome::Lost(LeadershipLost::ToPeer { holder }),
                ),
                AttemptOutcome::Retryable(why) => final(self).last_error == why && {
                    let time = left(old(self).window_closes, now);
                    if time == 0 {
                        final(self).gives_up(r)
                    } else {
                        r == (RoundStep::Sleep { span: shorter(old(self).retry_period, time) })
                    }
                },
            },
    {
        match outcome {
            AttemptOutcome::Renewed => RoundStep::Over(RoundOutcome::Renewed),
            AttemptOutcome::LostToPeer { holder } => RoundStep::Over(
                RoundOutcome::Lost(LeadershipLost::ToPeer { holder }),
            ),
            AttemptOutcome::Retryable(why) => {
                self.last_error = why;
                let time: u64 = remaining(self.window_closes, now);
                if time == 0 {
                    self.give_up()
                } else {
                    RoundStep::Sleep { span: min_span(self.retry_period, time) }
                }
            },
        }
    }
}

/// The message where no time is left to reach the Lease.
pub open spec fn margin_gone(last_error: Seq<char>) -> Seq<char> {
    "ran out of margin before the Lease could be re-reached ("@ + last_error
        + "); past this point a standby may legitimately claim it, so continuing to reconcile could not be proven exclusive"@
}

/// Whether a second look means what it should.
pub open spec fn look_means(
    observed: Option<Option<&LeaseSpec>>,
    identity: Seq<char>,
    now: i128,
    look: ReconfirmLook,
) -> bool {
    match observed {
        None => look matches ReconfirmLook::Over(Reconfirmed::Lost(m)) && m@
            == "the Lease no longer exists; a peer may have recreated and claimed it"@,
        Some(spec) => if said(spec).holder == Some(identity) {
            look matches ReconfirmLook::Restamp(s) && s@ == (LeaseView {
                renewed: Some(now),
                ..said(spec)
            })
        } else {
            look matches ReconfirmLook::Over(Reconfirmed::Lost(m)) && m@ == "the Lease now names "@
                + (match said(spec).holder {
                Some(h) => h,
                None => "<nobody>"@,
            }) + "; it left our hands while we were out of contact"@
        },
    }
}

/// What a second look at the Lease means. It has to name this replica still:
/// taking it over means to write another name, so then nobody has.
pub fn reconfirm_look(observed: Option<Option<&LeaseSpec>>, identity: &str, now: i128) -> (r:
    ReconfirmLook)
    ensures
        look_means(observed, identity@, now, r),
{
    let spec = match observed {
        None => {
            return ReconfirmLook::Over(
                Reconfirmed::Lost(
                    "the Lease no longer exists; a peer may have recreated and claimed it".to_owned(),
                ),
            );
        },
        Some(s) => s,
    };
    let holder: Option<&str> = match spec {
        Some(s) => borrow_opt(&s.holder_identity),
        None => None,
    };
    if same_opt(holder, Some(identity)) {
        let mut again = match spec {
            Some(s) => s.copy(),
            None => LeaseSpec::blank(),
        };
        again.renew_time = Some(now);
        return ReconfirmLook::Restamp(again);
    }
    let mut m = "the Lease now names ".to_owned();
    match holder {
        Some(h) => m.append(h),
        None => m.append("<nobody>"),
    }
    m.append("; it left our hands while we were out of contact");
    ReconfirmLook::Over(Reconfirmed::Lost(m))
}

impl ReconfirmRun {
    /// Begins. What is left until somebody else may claim the Lease is all the time
    /// there is.
    pub fn open(safe_until: u64, timings: LeaseTimings) -> (r: Self)
        ensures
            r.give_up_at == safe_until,
            r.retry_period == timings.retry_period,
            r.last_error@ == "no attempt completed"@,
    {
        ReconfirmRun {
            give_up_at: safe_until,
            retry_period: timings.retry_period,
            last_error: "no attempt completed".to_owned(),
        }
    }

    /// The next look, bounded by what is left; or the end, where nothing is.
    pub fn ask(&self, now: u64) -> (r: ReconfirmStep)
        ensures
            ({
                let time = left(self.give_up_at, now);
                if time == 0 {
                    r matches ReconfirmStep::Over(Reconfirmed::Lost(m)) && m@ == margin_gone(
                        self.last_error@,
                    )
                } else {
                    r == (ReconfirmStep::Attempt { bound: shorter(RENEW_ATTEMPT_TIMEOUT, time) })
                }
            }),
    {
        let time: u64 = remaining(self.give_up_at, now);
        if time == 0 {
            let mut m = "ran out of margin before the Lease could be re-reached (".to_owned();
            m.append(self.last_error.as_str());
            m.append(
                "); past this point a standby may legitimately claim it, so continuing to reconcile could not be proven exclusive",
            );
            return ReconfirmStep::Over(Reconfirmed::Lost(m));
        }
        ReconfirmStep::Attempt { bound: min_span(RENEW_ATTEMPT_TIMEOUT, time) }
    }

    /// What follows a look: the end, or a wait that does not outlast the time there
    /// is. Where nothing is left, the next question ends it.
    pub fn settle(&mut self, event: ReconfirmEvent, now: u64) -> (r: ReconfirmStep)
        ensures
            final(self).give_up_at == old(self).give_up_at,
            final(self).retry_period == old(self).retry_period,
            match event {
                ReconfirmEvent::Over(o) => r == ReconfirmStep::Over(o) && final(self).last_error
                    == old(self).last_error,
                ReconfirmEvent::Written(WriteOutcome::Accepted) => r == ReconfirmStep::Over(
                    Reconfirmed::StillOurs,
                ) && final(self).last_error == old(self).last_error,
                _ => {
                    &&& r == (ReconfirmStep::Sleep {
                        span: shorter(old(self).retry_period, left(old(self).give_up_at, now)),
                    })
                    &&& final(self).last_error@ == match event {
                        ReconfirmEvent::Written(WriteOutcome::Failed(e)) => e@,
                        ReconfirmEvent::Failed(e) => e@,
                        ReconfirmEvent::TimedOut => "no response"@,
                        _ => "concurrent write on the Lease"@,
                    }
                },
            },
    {
        match event {
            ReconfirmEvent::Over(o) => {
                return ReconfirmStep::Over(o);
            },
            ReconfirmEvent::Written(WriteOutcome::Accepted) => {
                return ReconfirmStep::Over(Reconfirmed::StillOurs);
            },
            ReconfirmEvent::Written(WriteOutcome::Conflict) => {
                self.last_error = "concurrent write on the Lease".to_owned();
            },
            ReconfirmEvent::Written(WriteOutcome::Failed(e)) => {
                self.last_error = e;
            },
            ReconfirmEvent::Failed(e) => {
                self.last_error = e;
            },
            ReconfirmEvent::TimedOut => {
                self.last_error = "no response".to_owned();
            },
        }
        ReconfirmStep::Sleep { span: min_span(self.retry_period, remaining(self.give_up_at, now)) }
    }
}

/// What to write to give the Lease back: nothing, unless this replica holds it.
/// Then the Lease names nobody, so that the next replica that looks claims it.
pub fn plan_release(observed: Option<Option<&LeaseSpec>>, identity: &str) -> (r: Option<LeaseSpec>)
    ensures
        match observed {
            Some(Some(spec)) => if spec@.holder == Some(identity@) {
                r matches Some(s) && s@ == (LeaseView { holder: None, renewed: None, ..spec@ })
            } else {
                r is None
            },
            _ => r is None,
        },
{
    match observed {
        Some(Some(spec)) => {
            if !same_opt(borrow_opt(&spec.holder_identity), Some(identity)) {
                return None;
            }
            let mut freed = spec.copy();
            freed.holder_identity = None;
            freed.renew_time = None;
            Some(freed)
        },
        _ => None,
    }
}

/// The times that hold where none are set are safe.
pub proof fn lemma_default_timings_are_safe()
    ensures
        safe_timings(
            LeaseTimings {
                lease_duration: LEASE_DURATION,
                renew_deadline: RENEW_DEADLINE,
                renew_period: RENEW_PERIOD,
                retry_period: RETRY_PERIOD,
            },
        ),
{
}

/// A round never outlasts its time: each try and each wait that it asks for ends
/// by then, if it takes no longer than it may.
pub proof fn lemma_round_keeps_its_window(window_closes: u64, now: u64, retry_period: u64)
    requires
        left(window_closes, now) > 0,
    ensures
        now + shorter(RENEW_ATTEMPT_TIMEOUT, left(window_closes, now)) <= window_closes,
        now + shorter(retry_period, left(window_closes, now)) <= window_closes,
{
}

/// A leader that cannot renew has given up before anybody else may claim the
/// Lease. Its last renewal took effect at `written` and was answered at `answered`, by
/// which it goes; its round was opened within the period after that. As long as the
/// answer took no longer than the times leave room for, the round closes before a lease
/// has run out since the write.
pub proof fn lemma_gives_up_before_a_peer_may_claim(
    timings: LeaseTimings,
    written: u64,
    answered: u64,
    opened: u64,
)
    requires
        safe_timings(timings),
        written <= answered <= opened <= answered + timings.renew_period,
        (answered - written) + timings.renew_period + timings.renew_deadline
            < timings.lease_duration,
    ensures
        opened + timings.renew_deadline < written + timings.lease_duration,
{
}

/// No two replicas lead at once: while a leader may still be in its last round, every
/// other replica that has seen its last renewal stands by. A renewal is seen when it
/// took effect or later.
pub proof fn lemma_a_peer_waits_out_the_leader(
    timings: LeaseTimings,
    written: u64,
    answered: u64,
    opened: u64,
    leader: Seq<char>,
    peer: Seq<char>,
    seen: u64,
    now: u64,
)
    requires
        safe_timings(timings),
        written <= answered <= opened <= answered + timings.renew_period,
        (answered - written) + timings.renew_period + timings.renew_deadline
            < timings.lease_duration,
        leader != peer,
        written <= seen,
        now <= opened + timings.renew_deadline,
    ensures
        verdict(Some(leader), peer, left(now, seen), timings.lease_duration) == Decision::Standby,
{
    lemma_gives_up_before_a_peer_may_claim(timings, written, answered, opened);
}

/// A replica that has seen a Lease change at `changed` does not claim it from its
/// holder before a lease has run out since then.
pub proof fn lemma_no_claim_within_a_lease(
    holder: Seq<char>,
    identity: Seq<char>,
    changed: u64,
    now: u64,
    lease_duration: u64,
)
    requires
        holder != identity,
        now <= changed + lease_duration,
    ensures
        verdict(Some(holder), identity, left(now, changed), lease_duration) == Decision::Standby,
{
}

/// Whatever a replica writes names that replica as the holder, and carries the
/// time of the write.
pub proof fn lemma_a_write_names_its_writer(
    w: LeaseWrite,
    observed: Option<Option<&LeaseSpec>>,
    identity: Seq<char>,
    unchanged_for: u64,
    now: i128,
    lease_duration: u64,
)
    requires
        write_fits(w, observed, identity, unchanged_for, now, lease_duration),
    ensures
        match w {
            LeaseWrite::Nothing => true,
            LeaseWrite::Create(s) => s@.holder == Some(identity) && s@.renewed == Some(now),
            LeaseWrite::Replace(s) => s@.holder == Some(identity) && s@.renewed == Some(now),
        },
{
}

/// Renewing keeps everything but the time of renewal, and so does a second look.
pub proof fn lemma_renewing_keeps_the_lease(
    w: LeaseWrite,
    look: ReconfirmLook,
    spec: &LeaseSpec,
    identity: Seq<char>,
    unchanged_for: u64,
    now: i128,
    lease_duration: u64,
)
    requires
        spec@.holder == Some(identity),
        write_fits(w, Some(Some(spec)), identity, unchanged_for, now, lease_duration),
        look_means(Some(Some(spec)), identity, now, look),
    ensures
        w matches LeaseWrite::Replace(s) && s@ == (LeaseView { renewed: Some(now), ..spec@ }),
        look matches ReconfirmLook::Restamp(s) && s@ == (LeaseView { renewed: Some(now), ..spec@ }),
{
}

/// A Lease that somebody else holds is not written to as long as it lasts.
pub proof fn lemma_a_live_peer_is_left_alone(
    w: LeaseWrite,
    spec: &LeaseSpec,
    identity: Seq<char>,
    unchanged_for: u64,
    now: i128,
    lease_duration: u64,
)
    requires
        write_fits(w, Some(Some(spec)), identity, unchanged_for, now, lease_duration),
        spec@.holder is Some,
        spec@.holder != Some(identity),
        unchanged_for <= lease_duration,
    ensures
        w is Nothing,
{
}

/// Leadership is lost to somebody else only where the Lease was read without this
/// replica's name on it, and a write to it was not taken.
pub proof fn lemma_loss_is_verified(a: AttemptResult, identity: Seq<char>, o: AttemptOutcome)
    requires
        attempt_means(a, identity, o),
    ensures
        o is LostToPeer <==> (a matches AttemptResult::Answered { won, holder } && !won && opt_text(
            holder,
        ) != Some(identity)),
        o is Renewed <==> (a matches AttemptResult::Answered { won, .. } && won),
{
}

/// A second look goes on only where the Lease still names this replica: a foreign
/// holder, a Lease that names nobody and no Lease at all each end it, and a look
/// alone never shows that the Lease is held.
pub proof fn lemma_only_our_own_name_goes_on(
    observed: Option<Option<&LeaseSpec>>,
    identity: Seq<char>,
    now: i128,
    look: ReconfirmLook,
)
    requires
        look_means(observed, identity, now, look),
    ensures
        look is Restamp <==> (observed matches Some(spec) && said(spec).holder == Some(identity)),
        look !is Restamp ==> (look matches ReconfirmLook::Over(o) && o is Lost),
{
}

/// A Lease that was given back is claimed by the next replica that looks,
/// however short it has watched.
pub proof fn lemma_released_lease_is_free(
    spec: LeaseSpec,
    identity: Seq<char>,
    unchanged_for: u64,
    lease_duration: u64,
)
    requires
        spec@.holder is None,
    ensures
        verdict(spec@.holder, identity, unchanged_for, lease_duration) == Decision::Claim,
{
}

/// What is left until an instant is what is missing to it, and nothing once it is there.
/// The shorter of two spans is one of them, and neither is shorter.
pub proof fn lemma_spans(a: u64, b: u64)
    ensures
        b <= a ==> b + left(a, b) == a,
        b >= a ==> left(a, b) == 0,
        shorter(a, b) <= a,
        shorter(a, b) <= b,
        shorter(a, b) == a || shorter(a, b) == b,
{
}

/// A Lease tells how long it lasts in whole seconds, never longer than it does and less
/// than one second shorter; a Lease that lasts longer than can be told is told as long as
/// can be.
pub proof fn lemma_a_lease_tells_its_seconds(
    s: LeaseSpec,
    identity: Seq<char>,
    now: i128,
    transitions: i32,
    lease_duration: u64,
)
    requires
        s@ == claimed(identity, now, transitions as int, lease_duration),
    ensures
        s.lease_duration_seconds matches Some(d) && 0 <= d && d * 1_000_000_000 <= lease_duration
            && (d < 0x7fff_ffff ==> lease_duration < (d + 1) * 1_000_000_000),
{
}

/// What a claim writes: the claimer's name, the present as the time of the claim and of
/// the renewal, one change of hands more, and no wish for another holder.
pub proof fn lemma_a_claim_is_complete(
    w: LeaseWrite,
    observed: Option<Option<&LeaseSpec>>,
    identity: Seq<char>,
    unchanged_for: u64,
    now: i128,
    lease_duration: u64,
)
    requires
        write_fits(w, observed, identity, unchanged_for, now, lease_duration),
        observed matches Some(Some(s)) ==> (s.lease_transitions matches Some(n) ==> n < 0x7fff_ffff),
    ensures
        observed is None ==> (w matches LeaseWrite::Create(s) && opt_text(s.holder_identity)
            == Some(identity) && s.acquire_time == Some(now) && s.renew_time == Some(now)
            && s.lease_transitions == Some(1i32) && s.preferred_holder is None && s.strategy is None),
        observed matches Some(None) ==> (w matches LeaseWrite::Replace(s) && opt_text(
            s.holder_identity,
        ) == Some(identity) && s.lease_transitions == Some(1i32)
            && s.acquire_time == Some(now) && s.renew_time == Some(now)),
        observed matches Some(Some(was)) ==> ({
            let free = match was.holder_identity {
                Some(h) => h@ != identity && unchanged_for > lease_duration,
                None => true,
            };
            free ==> (w matches LeaseWrite::Replace(s) && opt_text(s.holder_identity) == Some(
                identity,
            ) && s.acquire_time == Some(now) && s.renew_time == Some(now) && s.lease_transitions
                == Some(
                match was.lease_transitions {
                    Some(before) => (before + 1) as i32,
                    None => 1i32,
                },
            ) && s.preferred_holder is None && s.strategy is None)
        }),
{
}

/// A claim tells how long the Lease lasts by the claimer's own times.
pub proof fn lemma_a_claim_tells_its_seconds(
    w: LeaseWrite,
    observed: Option<Option<&LeaseSpec>>,
    identity: Seq<char>,
    unchanged_for: u64,
    now: i128,
    lease_duration: u64,
)
    requires
        write_fits(w, observed, identity, unchanged_for, now, lease_duration),
        observed matches Some(Some(s)) ==> (s.holder_identity matches Some(h) ==> h@ != identity),
    ensures
        match w {
            LeaseWrite::Nothing => true,
            LeaseWrite::Create(s) | LeaseWrite::Replace(s) =>
            s.lease_duration_seconds matches Some(d) && d * 1_000_000_000 <= lease_duration && (d
                < 0x7fff_ffff ==> lease_duration < (d + 1) * 1_000_000_000),
        },
{
}

/// Nothing is written exactly where another replica's name stands on the Lease and the
/// Lease has not been unchanged for longer than it lasts. Renewing writes back every
/// field as it was read, but for the time of renewal.
pub proof fn lemma_who_writes_what(
    w: LeaseWrite,
    was: LeaseSpec,
    identity: Seq<char>,
    unchanged_for: u64,
    now: i128,
    lease_duration: u64,
)
    requires
        write_fits(w, Some(Some(&was)), identity, unchanged_for, now, lease_duration),
    ensures
        w is Nothing <==> (was.holder_identity matches Some(h) && h@ != identity && unchanged_for
            <= lease_duration),
        w !is Create,
        (was.holder_identity matches Some(h) && h@ == identity) ==> (w matches LeaseWrite::Replace(s) && opt_text(
            s.holder_identity,
        ) == Some(identity) && s.lease_duration_seconds
            == was.lease_duration_seconds && s.acquire_time == was.acquire_time && s.renew_time
            == Some(now) && s.lease_transitions == was.lease_transitions && opt_text(
            s.preferred_holder,
        ) == opt_text(was.preferred_holder) && opt_text(s.strategy) == opt_text(was.strategy)),
{
}

/// The word for a failed try tells how it failed, and there is none for one that
/// succeeded.
pub proof fn lemma_failures_have_words(a: AttemptResult)
    ensures
        failure_word(a) is None <==> (a matches AttemptResult::Answered { won, .. } && won),
        failure_word(a) == Some("conflict"@) <==> (a matches AttemptResult::Answered { won, .. }
            && !won),
        failure_word(a) == Some("transport"@) <==> a is Failed,
        failure_word(a) == Some("stalled"@) <==> a is TimedOut,
{
    reveal_strlit("conflict");
    reveal_strlit("transport");
    reveal_strlit("stalled");
    assert("conflict"@.len() == 8 && "transport"@.len() == 9 && "stalled"@.len() == 7);
}

/// A try that failed is tried again with what it said; nothing is lost by it.
pub proof fn lemma_a_failed_try_is_tried_again(
    a: AttemptResult,
    identity: Seq<char>,
    o: AttemptOutcome,
)
    requires
        attempt_means(a, identity, o),
    ensures
        a is Failed || a is TimedOut ==> o is Retryable,
        a matches AttemptResult::Failed(e) ==> (o matches AttemptOutcome::Retryable(why) && why@
            == e@),
        (a matches AttemptResult::Answered { won, holder } && !won && (holder matches Some(h) && h@
            == identity)) ==> o is Retryable,
        o matches AttemptOutcome::LostToPeer { holder } ==> (a matches AttemptResult::Answered {
            holder: seen,
            ..
        } && opt_text(holder) == opt_text(seen)),
{
}

/// A round that is given up tells how often it was tried, what went wrong last, and
/// until when nobody else may claim the Lease.
pub proof fn lemma_giving_up_tells_why(round: RenewRound, r: RoundStep)
    requires
        round.gives_up(r),
    ensures
        r matches RoundStep::Over(
            RoundOutcome::Lost(LeadershipLost::RenewFailed { attempts, last_error, safe_until }),
        ) && attempts == round.attempts && last_error@ == round.last_error@ && safe_until
            == round.safe_until,
{
}

/// What leaves room for a second try leaves the first one less than the whole round, and
/// the default times leave a leader three seconds between giving up and a peer's claim.
pub proof fn lemma_what_safe_times_are(t: LeaseTimings)
    ensures
        safe_timings(t) <==> t.renew_period + t.renew_deadline < t.lease_duration && t.retry_period
            < t.renew_deadline && 6_000_000_000 < t.renew_deadline,
        LEASE_DURATION - (RENEW_PERIOD + RENEW_DEADLINE) == 3_000_000_000,
        LEASE_DURATION == 15_000_000_000,
        RENEW_DEADLINE == 10_000_000_000,
        RETRY_PERIOD == 2_000_000_000,
{
}

/// Looking again at a Lease that names this replica stamps it anew and changes nothing
/// else of it; a Lease that names another tells who.
pub proof fn lemma_a_second_look(
    was: LeaseSpec,
    identity: Seq<char>,
    now: i128,
    look: ReconfirmLook,
)
    requires
        look_means(Some(Some(&was)), identity, now, look),
    ensures
        (was.holder_identity matches Some(h) && h@ == identity) ==> (look matches
            ReconfirmLook::Restamp(s) && opt_text(s.holder_identity) == Some(identity)
            && s.lease_duration_seconds == was.lease_duration_seconds && s.acquire_time
            == was.acquire_time && s.renew_time == Some(now) && s.lease_transitions
            == was.lease_transitions && opt_text(s.preferred_holder) == opt_text(
            was.preferred_holder,
        ) && opt_text(s.strategy) == opt_text(was.strategy)),
        !(was.holder_identity matches Some(h) && h@ == identity) ==> look !is Restamp,
{
}

/// A Lease is unchanged exactly where its holder and its time of renewal are.
pub proof fn lemma_what_counts_as_seen(
    a: Option<(Option<String>, Option<i128>)>,
    holder: Option<String>,
    renewed: Option<i128>,
)
    ensures
        seen_text(a) == Some((opt_text(holder), renewed)) <==> (a matches Some(s) && opt_text(s.0)
            == opt_text(holder) && s.1 == renewed),
{
}

/// The times of a round stay: when it closes, until when it is safe, and how long it waits
/// between two tries.
pub proof fn lemma_the_times_of_a_round(a: RenewRound, b: RenewRound)
    ensures
        a.same_times(b) <==> a.window_closes == b.window_closes && a.safe_until == b.safe_until
            && a.retry_period == b.retry_period,
{
}

/// What is said of a try that is tried again: why the write was not taken, or for how long
/// there was no answer.
pub proof fn lemma_what_a_retry_says(a: AttemptResult, identity: Seq<char>, o: AttemptOutcome)
    requires
        attempt_means(a, identity, o),
    ensures
        (a matches AttemptResult::Answered { won, holder } && !won && opt_text(holder) == Some(identity))
            ==> (o matches AttemptOutcome::Retryable(why) && why@
            == "concurrent write while we still hold the Lease"@),
        a matches AttemptResult::TimedOut { seconds } ==> (o matches AttemptOutcome::Retryable(why)
            && why@ == "no response within "@ + decimal(seconds as nat) + "s"@),
{
}

/// What is said where a second look ends: that the Lease is gone, or whom it names.
pub proof fn lemma_what_a_lost_look_says(
    observed: Option<Option<&LeaseSpec>>,
    identity: Seq<char>,
    now: i128,
    look: ReconfirmLook,
    last_error: Seq<char>,
)
    requires
        look_means(observed, identity, now, look),
    ensures
        observed is None ==> (look matches ReconfirmLook::Over(Reconfirmed::Lost(m)) && m@
            == "the Lease no longer exists; a peer may have recreated and claimed it"@),
        (observed matches Some(Some(s)) && (s.holder_identity matches Some(h) && h@ != identity)) ==> (
        look matches ReconfirmLook::Over(Reconfirmed::Lost(m)) && m@ == "the Lease now names "@
            + observed->0->0.holder_identity->0@
            + "; it left our hands while we were out of contact"@),
        (observed matches Some(Some(s)) && s.holder_identity is None) ==> (look matches
            ReconfirmLook::Over(Reconfirmed::Lost(m)) && m@
            == "the Lease now names "@ + "<nobody>"@
            + "; it left our hands while we were out of contact"@),
        margin_gone(last_error) == "ran out of margin before the Lease could be re-reached ("@
            + last_error
            + "); past this point a standby may legitimately claim it, so continuing to reconcile could not be proven exclusive"@,
{
}

/// A Lease that says nothing has nothing in any of its fields.
pub proof fn lemma_a_blank_lease(s: LeaseSpec)
    requires
        s@ == blank_lease(),
    ensures
        s.holder_identity is None,
        s.lease_duration_seconds is None,
        s.acquire_time is None,
        s.renew_time is None,
        s.lease_transitions is None,
        s.preferred_holder is None,
        s.strategy is None,
{
}

} // verus!
