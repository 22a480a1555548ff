//! Instants and spans of time, and their RFC3339 text.
use vstd::prelude::*;

verus! {

/// The first second that a calendar date can be given for.
pub const FIRST_SECOND: i64 = -8_334_601_228_800;

/// The last second that a calendar date can be given for.
pub const LAST_SECOND: i64 = 8_210_266_876_799;

/// Nanoseconds in one second.
pub const NANOS_PER_SEC: u32 = 1_000_000_000;

/// An instant: seconds since the Unix epoch and nanoseconds into that second.
/// Within a leap second `nanos` runs on past one second.
#[derive(Debug, Clone, Copy, PartialEq, Eq, Structural)]
pub struct Moment {
    /// Seconds since the Unix epoch.
    pub secs: i64,
    /// Nanoseconds into the second.
    pub nanos: u32,
}

/// A span of time that is not negative.
#[derive(Debug, Clone, Copy, PartialEq, Eq, Structural)]
pub struct Span {
    /// Whole seconds.
    pub secs: u64,
    /// Nanoseconds beyond them.
    pub nanos: u32,
}

/// Whether the instant can be given as a calendar date and time of day.
pub open spec fn on_calendar(secs: int, nanos: int) -> bool {
    &&& FIRST_SECOND <= secs <= LAST_SECOND
    &&& 0 <= nanos < 2 * NANOS_PER_SEC
    &&& nanos < NANOS_PER_SEC || secs % 60 == 59
}

/// The first second of the year 0.
pub const FIRST_RFC3339_SECOND: i64 = -62_167_219_200;

/// The last second of the year 9999.
pub const LAST_RFC3339_SECOND: i64 = 253_402_300_799;

/// Whether RFC3339 has a text for the second: its years have four digits.
pub open spec fn in_rfc3339(secs: int) -> bool {
    FIRST_RFC3339_SECOND <= secs <= LAST_RFC3339_SECOND
}

/// What `chrono::DateTime::parse_from_rfc3339` reads from a text: the seconds
/// since the Unix epoch and the nanoseconds, or nothing.
pub uninterp spec fn rfc3339_instant(text: Seq<char>) -> Option<(i64, u32)>;

/// What `chrono::DateTime::to_rfc3339` writes for an instant in UTC.
pub uninterp spec fn rfc3339_text(secs: i64, nanos: u32) -> Seq<char>;

/// What `chrono::DateTime::to_rfc3339_opts` writes for an instant in UTC, to
/// the second and with `Z` for the offset.
pub uninterp spec fn rfc3339_zulu_text(secs: i64, nanos: u32) -> Seq<char>;

/// `chrono::DateTime::parse_from_rfc3339`, with the instant given as seconds
/// and nanoseconds. What it reads depends on the text alone, and a read instant
/// is one that chrono can give a calendar date for.
#[verifier::external_body]
fn chrono_parse(text: &str) -> (r: Option<(i64, u32)>)
    ensures
        r == rfc3339_instant(text@),
        r matches Some(m) ==> on_calendar(m.0 as int, m.1 as int),
{
    chrono::DateTime::parse_from_rfc3339(text).ok().map(
        |t| (t.timestamp(), t.timestamp_subsec_nanos()),
    )
}

/// `chrono::DateTime::to_rfc3339` on an instant in UTC. The text depends on the
/// instant alone, and for a year of four digits the instant is read back from it.
#[verifier::external_body]
fn chrono_to_rfc3339(secs: i64, nanos: u32) -> (r: String)
    requires
        on_calendar(secs as int, nanos as int),
    ensures
        r@ == rfc3339_text(secs, nanos),
        in_rfc3339(secs as int) ==> rfc3339_instant(r@) == Some((secs, nanos)),
{
    chrono::DateTime::<chrono::Utc>::from_timestamp(secs, nanos).unwrap().to_rfc3339()
}

/// `chrono::DateTime::to_rfc3339_opts` on an instant in UTC, with whole seconds
/// and `Z`. The text depends on the instant alone.
#[verifier::external_body]
fn chrono_to_rfc3339_zulu(secs: i64, nanos: u32) -> (r: String)
    requires
        on_calendar(secs as int, nanos as int),
    ensures
        r@ == rfc3339_zulu_text(secs, nanos),
{
    let at = chrono::DateTime::<chrono::Utc>::from_timestamp(secs, nanos).unwrap();
    at.to_rfc3339_opts(chrono::SecondsFormat::Secs, true)
}

/// Seconds in one day.
pub const SECS_PER_DAY: i64 = 86_400;

/// The seconds that a leap second adds between two instants, by the times of day
/// alone: one where the earlier time of day is within a leap second, which is over by
/// the later one.
pub open spec fn leap_between(later: Moment, earlier: Moment) -> int {
    let (a, b) = (later.secs as int % SECS_PER_DAY as int, earlier.secs as int % SECS_PER_DAY as int);
    if a > b && earlier.nanos >= NANOS_PER_SEC {
        1
    } else if a < b && later.nanos >= NANOS_PER_SEC {
        -1
    } else {
        0
    }
}

/// The nanoseconds from one instant to another.
pub open spec fn nanos_between(later: Moment, earlier: Moment) -> int {
    (later.secs - earlier.secs + leap_between(later, earlier)) * NANOS_PER_SEC + (later.nanos
        - earlier.nanos)
}

/// The whole seconds from one instant to a later one, cut toward zero; negative where
/// it is earlier.
pub open spec fn elapsed_seconds(later: Moment, earlier: Moment) -> int {
    let n = nanos_between(later, earlier);
    if n >= 0 {
        n / (NANOS_PER_SEC as int)
    } else {
        -((-n) / (NANOS_PER_SEC as int))
    }
}

/// `chrono::DateTime::signed_duration_since`, in whole seconds: the difference of the
/// instants, cut toward zero. A leap second is counted where the times of day of the
/// two instants lie on either side of its end, whatever their dates.
#[verifier::external_body]
fn chrono_elapsed_seconds(later: Moment, earlier: Moment) -> (r: i64)
    requires
        later.valid(),
        earlier.valid(),
    ensures
        r == elapsed_seconds(later, earlier),
{
    let a = chrono::DateTime::<chrono::Utc>::from_timestamp(later.secs, later.nanos).unwrap();
    let b = chrono::DateTime::<chrono::Utc>::from_timestamp(earlier.secs, earlier.nanos).unwrap();
    a.signed_duration_since(b).num_seconds()
}

/// The instant that an RFC3339 text stands for.
pub open spec fn parsed_moment(text: Seq<char>) -> Option<Moment> {
    match rfc3339_instant(text) {
        Some((secs, nanos)) => Some(Moment { secs, nanos }),
        None => None,
    }
}

/// The age of `since` at `now` in whole seconds; none where it lies ahead.
pub open spec fn age_at(now: Moment, since: Moment) -> i64 {
    let elapsed = elapsed_seconds(now, since);
    if 0 < elapsed <= i64::MAX {
        elapsed as i64
    } else {
        0
    }
}

/// The later of two instants, where there are two.
pub open spec fn later_of(a: Option<Moment>, b: Option<Moment>) -> Option<Moment> {
    match (a, b) {
        (Some(x), Some(y)) => if y.reached(x) {
            Some(y)
        } else {
            Some(x)
        },
        (Some(x), None) => Some(x),
        (None, y) => y,
    }
}

impl Moment {
    /// Whether the instant can be given as a calendar date and time of day.
    pub open spec fn valid(self) -> bool {
        on_calendar(self.secs as int, self.nanos as int)
    }

    /// Whether this instant is `other` or comes after it.
    pub open spec fn reached(self, other: Moment) -> bool {
        self.secs > other.secs || (self.secs == other.secs && self.nanos >= other.nanos)
    }

    /// Whether the instant can be given as a calendar date and time of day.
    pub fn is_valid(self) -> (r: bool)
        ensures
            r == self.valid(),
    {
        FIRST_SECOND <= self.secs && self.secs <= LAST_SECOND && self.nanos < 2_000_000_000 && (
        self.nanos < NANOS_PER_SEC || self.minute_second() == 59)
    }

    /// The second within the minute.
    fn minute_second(self) -> (r: i64)
        requires
            FIRST_SECOND <= self.secs <= LAST_SECOND,
        ensures
            r == self.secs as int % 60,
    {
        // Counted from a multiple of sixty before the first second, so that
        // no negative number is divided.
        let shifted: i64 = self.secs + 8_334_601_228_800;
        shifted % 60
    }

    /// Whether this instant is `other` or comes after it.
    pub fn has_reached(self, other: Moment) -> (r: bool)
        ensures
            r == self.reached(other),
    {
        self.secs > other.secs || (self.secs == other.secs && self.nanos >= other.nanos)
    }

    /// The age of `since` at this instant in whole seconds; none where it lies
    /// ahead.
    pub fn age_of(self, since: Moment) -> (r: i64)
        requires
            self.valid(),
            since.valid(),
        ensures
            r == age_at(self, since),
    {
        let elapsed: i64 = chrono_elapsed_seconds(self, since);
        if elapsed > 0 {
            elapsed
        } else {
            0
        }
    }

    /// The instant that an RFC3339 text stands for.
    pub fn parse_rfc3339(text: &str) -> (r: Option<Moment>)
        ensures
            r == parsed_moment(text@),
            r matches Some(m) ==> m.valid(),
    {
        match chrono_parse(text) {
            Some((secs, nanos)) => Some(Moment { secs, nanos }),
            None => None,
        }
    }

    /// Whether the instant is read back from its RFC3339 text.
    pub open spec fn reads_back(self) -> bool {
        parsed_moment(rfc3339_text(self.secs, self.nanos)) == Some(self)
    }

    /// The RFC3339 text of the instant, in UTC.
    pub fn to_rfc3339(self) -> (r: String)
        requires
            self.valid(),
        ensures
            r@ == rfc3339_text(self.secs, self.nanos),
            in_rfc3339(self.secs as int) ==> self.reads_back(),
    {
        chrono_to_rfc3339(self.secs, self.nanos)
    }

    /// The RFC3339 text of the instant in UTC, to the second.
    pub fn to_rfc3339_zulu(self) -> (r: String)
        requires
            self.valid(),
        ensures
            r@ == rfc3339_zulu_text(self.secs, self.nanos),
    {
        chrono_to_rfc3339_zulu(self.secs, self.nanos)
    }
}

/// The later of two instants, where there are two.
pub fn later(a: Option<Moment>, b: Option<Moment>) -> (r: Option<Moment>)
    ensures
        r == later_of(a, b),
{
    match (a, b) {
        (Some(x), Some(y)) => if y.has_reached(x) {
            Some(y)
        } else {
            Some(x)
        },
        (Some(x), None) => Some(x),
        (None, y) => y,
    }
}

/// Instants are ordered by their seconds, and within a second by their nanoseconds.
pub proof fn lemma_instants_are_ordered(a: Moment, b: Moment, c: Moment)
    ensures
        a.reached(b) <==> a.secs > b.secs || (a.secs == b.secs && a.nanos >= b.nanos),
        a.reached(b) || b.reached(a),
        a.reached(b) && b.reached(a) ==> a == b,
        a.reached(b) && b.reached(c) ==> a.reached(c),
{
}

/// The later of two instants is one of them, and has reached both; one that is missing
/// leaves the other.
pub proof fn lemma_the_later_one(a: Option<Moment>, b: Option<Moment>)
    ensures
        later_of(a, b) is None <==> a is None && b is None,
        later_of(a, b) == a || later_of(a, b) == b,
        a matches Some(x) ==> (later_of(a, b) matches Some(l) && l.reached(x)),
        b matches Some(y) ==> (later_of(a, b) matches Some(l) && l.reached(y)),
{
}

/// Outside leap seconds an age is the whole seconds that have passed: not more, and less
/// than one less. What lies ahead has none.
pub proof fn lemma_ages_are_whole_seconds(now: Moment, since: Moment)
    requires
        now.valid(),
        since.valid(),
        now.nanos < 1_000_000_000,
        since.nanos < 1_000_000_000,
    ensures
        ({
            let passed = (now.secs - since.secs) * 1_000_000_000 + (now.nanos - since.nanos);
            &&& age_at(now, since) >= 0
            &&& passed >= 0 ==> age_at(now, since) * 1_000_000_000 <= passed < (age_at(now, since) + 1)
                * 1_000_000_000
            &&& passed <= 0 ==> age_at(now, since) == 0
        }),
{
}

/// What was stamped later is never older.
pub proof fn lemma_later_is_younger(now: Moment, a: Moment, b: Moment)
    requires
        now.valid(),
        a.valid(),
        b.valid(),
        now.nanos < 1_000_000_000,
        a.nanos < 1_000_000_000,
        b.nanos < 1_000_000_000,
        b.reached(a),
    ensures
        age_at(now, b) <= age_at(now, a),
{
}

/// What a text stands for is what was read of it.
pub proof fn lemma_parsed(text: Seq<char>)
    ensures
        rfc3339_instant(text) is None <==> parsed_moment(text) is None,
        rfc3339_instant(text) matches Some(p) ==> parsed_moment(text) == Some(
            Moment { secs: p.0, nanos: p.1 },
        ),
{
}

/// Which instants have a date: those between the first and the last day of the calendar,
/// with less than a second of nanoseconds, or less than two in the last second of a minute.
pub proof fn lemma_which_instants_have_a_date(m: Moment)
    ensures
        m.valid() <==> -8_334_601_228_800 <= m.secs <= 8_210_266_876_799 && (m.nanos < 1_000_000_000
            || (m.nanos < 2_000_000_000 && m.secs as int % 60 == 59)),
        in_rfc3339(m.secs as int) <==> -62_167_219_200 <= m.secs <= 253_402_300_799,
        m.reads_back() <==> rfc3339_instant(rfc3339_text(m.secs, m.nanos)) == Some(
            (m.secs, m.nanos),
        ),
{
}

/// A leap second counts where it has passed between the two times of day: one more where
/// the earlier instant lies in it, one less where the later instant does but comes earlier
/// in the day, and none otherwise.
pub proof fn lemma_leap_seconds(later: Moment, earlier: Moment)
    ensures
        earlier.nanos < 1_000_000_000 && later.nanos < 1_000_000_000 ==> leap_between(later, earlier)
            == 0,
        later.secs as int % 86_400 == earlier.secs as int % 86_400 ==> leap_between(later, earlier) == 0,
        later.secs as int % 86_400 > earlier.secs as int % 86_400 && earlier.nanos >= 1_000_000_000
            ==> leap_between(later, earlier) == 1,
        later.secs as int % 86_400 > earlier.secs as int % 86_400 && earlier.nanos < 1_000_000_000
            ==> leap_between(later, earlier) == 0,
        later.secs as int % 86_400 < earlier.secs as int % 86_400 && later.nanos >= 1_000_000_000
            ==> leap_between(later, earlier) == -1,
        later.secs as int % 86_400 < earlier.secs as int % 86_400 && later.nanos < 1_000_000_000
            ==> leap_between(later, earlier) == 0,
        nanos_between(later, earlier) == (later.secs - earlier.secs + leap_between(later, earlier))
            * 1_000_000_000 + (later.nanos - earlier.nanos),
        elapsed_seconds(later, earlier) * 1_000_000_000 <= nanos_between(later, earlier)
            || nanos_between(later, earlier) < 0,
        nanos_between(later, earlier) >= 0 ==> nanos_between(later, earlier) < (elapsed_seconds(
            later,
            earlier,
        ) + 1) * 1_000_000_000,
        nanos_between(later, earlier) < 0 ==> elapsed_seconds(later, earlier) <= 0,
{
}

} // verus!
