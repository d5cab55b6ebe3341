//! Time specs: `now`, `now-15m`, `-24h`, RFC 3339 and naive ISO-8601.

use vstd::prelude::*;
use crate::text::{
    spec_trim, trim, eq_str, has_prefix, starts_with, strip_prefix, spec_parse_i64, parse_i64, push_char,
};

verus! {

/// An instant: seconds since 1970-01-01T00:00:00Z and the nanoseconds past
/// them (at or above one second inside a leap second).
pub struct Timestamp {
    pub secs: i64,
    pub nanos: u32,
}

/// Earliest second that a UTC instant can hold (-262143-01-01T00:00:00Z).
pub open spec fn min_instant_secs() -> int {
    -8334601228800
}

/// Latest second that a UTC instant can hold (262142-12-31T23:59:59Z).
pub open spec fn max_instant_secs() -> int {
    8210266876799
}

/// `secs` and `nanos` name an instant that `DateTime<Utc>` can hold.
pub open spec fn valid_instant(secs: int, nanos: int) -> bool {
    &&& min_instant_secs() <= secs <= max_instant_secs()
    &&& 0 <= nanos
    &&& (nanos < 1_000_000_000 || (nanos < 2_000_000_000 && secs % 60 == 59))
}

impl Timestamp {
    pub open spec fn valid(self) -> bool {
        valid_instant(self.secs as int, self.nanos as int)
    }

    pub open spec fn parts(self) -> (i64, u32) {
        (self.secs, self.nanos)
    }
}

/// Largest span in whole seconds that a `TimeDelta` holds
/// (`i64::MAX` milliseconds, rounded down to seconds).
pub open spec fn max_span_secs() -> int {
    9_223_372_036_854_775
}

/// A span of whole seconds (negative: into the future).
pub struct Duration {
    pub seconds: i64,
}

/// The instant that `DateTime::parse_from_rfc3339` gives for a text, in UTC.
pub uninterp spec fn rfc3339_instant(s: Seq<char>) -> Option<(i64, u32)>;

/// The instant that `NaiveDateTime::parse_from_str(s, "%Y-%m-%dT%H:%M:%S")`
/// gives for a text, read as UTC.
pub uninterp spec fn naive_iso_instant(s: Seq<char>) -> Option<(i64, u32)>;

/// What `DateTime<Utc>::checked_sub_signed` gives for an instant and a
/// span of seconds.
pub uninterp spec fn instant_minus(secs: i64, nanos: u32, span: i64) -> Option<(i64, u32)>;

/// `to_rfc3339_opts(SecondsFormat::Secs, true)` of an instant.
pub uninterp spec fn rfc3339_secs_text(secs: i64, nanos: u32) -> Seq<char>;

/// `(later - earlier)` as `TimeDelta::num_seconds` and `subsec_nanos` give it.
pub uninterp spec fn elapsed_parts(later_secs: i64, later_nanos: u32, earlier_secs: i64, earlier_nanos: u32) -> (i64, i32);

#[verifier::external_type_specification]
#[verifier::external_body]
pub struct ExSystemTime(std::time::SystemTime);

/// `SystemTime::now()`: the system clock's reading. Nothing is said of it.
#[verifier::external_body]
fn system_now() -> (r: std::time::SystemTime) {
    std::time::SystemTime::now()
}

/// `SystemTime::duration_since(UNIX_EPOCH)`, as whole seconds and the
/// nanoseconds past them (`Duration::subsec_nanos`, below a second); `None`
/// when the reading lies before 1970.
#[verifier::external_body]
fn since_epoch(t: &std::time::SystemTime) -> (r: Option<(u64, u32)>)
    ensures
        r matches Some((_, n)) ==> n < 1_000_000_000,
{
    match t.duration_since(std::time::UNIX_EPOCH) {
        Ok(d) => Some((d.as_secs(), d.subsec_nanos())),
        Err(_) => None,
    }
}

/// The clock's current reading as an instant, as `Utc::now()` takes it;
/// `None` where the clock reads before 1970 or past the latest instant that
/// `DateTime<Utc>` holds (where `Utc::now()` would abort).
pub fn utc_now() -> (r: Option<Timestamp>)
    ensures
        r matches Some(t) ==> t.valid() && t.nanos < 1_000_000_000,
{
    let reading = system_now();
    match since_epoch(&reading) {
        Some((secs, nanos)) => timestamp_from_epoch(secs, nanos),
        None => None,
    }
}

/// The instant `secs` seconds and `nanos` nanoseconds after 1970, where
/// `DateTime<Utc>` holds it (up to the end of year 262142).
pub fn timestamp_from_epoch(secs: u64, nanos: u32) -> (r: Option<Timestamp>)
    requires
        nanos < 1_000_000_000,
    ensures
        r is Some <==> secs <= max_instant_secs(),
        r matches Some(t) ==> t.secs == secs && t.nanos == nanos && t.valid(),
{
    if secs <= 8210266876799 {
        Some(Timestamp { secs: secs as i64, nanos })
    } else {
        None
    }
}

/// `DateTime::parse_from_rfc3339(s)` converted to UTC; the instant is
/// `rfc3339_instant(s)`, and it is one that `DateTime<Utc>` holds.
#[verifier::external_body]
pub(crate) fn parse_rfc3339(s: &str) -> (r: Option<Timestamp>)
    ensures
        match r {
            Some(t) => rfc3339_instant(s@) == Some(t.parts()) && t.valid(),
            None => rfc3339_instant(s@) is None,
        },
{
    match chrono::DateTime::parse_from_rfc3339(s) {
        Ok(dt) => {
            let u = dt.with_timezone(&chrono::Utc);
            Some(Timestamp { secs: u.timestamp(), nanos: u.timestamp_subsec_nanos() })
        },
        Err(_) => None,
    }
}

/// `NaiveDateTime::parse_from_str(s, "%Y-%m-%dT%H:%M:%S")` taken as UTC;
/// the instant is `naive_iso_instant(s)`.
#[verifier::external_body]
fn parse_naive_iso(s: &str) -> (r: Option<Timestamp>)
    ensures
        match r {
            Some(t) => naive_iso_instant(s@) == Some(t.parts()) && t.valid(),
            None => naive_iso_instant(s@) is None,
        },
{
    match chrono::NaiveDateTime::parse_from_str(s, "%Y-%m-%dT%H:%M:%S") {
        Ok(ndt) => {
            let u = chrono::DateTime::<chrono::Utc>::from_naive_utc_and_offset(ndt, chrono::Utc);
            Some(Timestamp { secs: u.timestamp(), nanos: u.timestamp_subsec_nanos() })
        },
        Err(_) => None,
    }
}

/// `DateTime<Utc>::checked_sub_signed` with a span of whole seconds: the
/// result is `instant_minus(..)`, `None` when it leaves the range. Off a leap
/// second the instant moves by the span and keeps its nanoseconds; inside
/// one, chrono's leap-second rules decide, and they are not stated here.
#[verifier::external_body]
fn checked_minus(t: &Timestamp, span: i64) -> (r: Option<Timestamp>)
    requires
        t.valid(),
        -max_span_secs() <= span <= max_span_secs(),
    ensures
        match r {
            Some(x) => instant_minus(t.secs, t.nanos, span) == Some(x.parts()) && x.valid(),
            None => instant_minus(t.secs, t.nanos, span) is None,
        },
        t.nanos < 1_000_000_000 ==> match r {
            Some(x) => x.secs == t.secs - span && x.nanos == t.nanos,
            None => !valid_instant(t.secs - span, t.nanos as int),
        },
{
    let dt = chrono::DateTime::from_timestamp(t.secs, t.nanos).unwrap();
    let delta = chrono::TimeDelta::try_seconds(span).unwrap();
    match dt.checked_sub_signed(delta) {
        Some(x) => Some(Timestamp { secs: x.timestamp(), nanos: x.timestamp_subsec_nanos() }),
        None => None,
    }
}

/// `to_rfc3339_opts(SecondsFormat::Secs, true)`; the text is
/// `rfc3339_secs_text(..)`.
#[verifier::external_body]
fn format_rfc3339_secs(t: &Timestamp) -> (r: String)
    requires
        t.valid(),
    ensures
        r@ == rfc3339_secs_text(t.secs, t.nanos),
{
    let dt = chrono::DateTime::from_timestamp(t.secs, t.nanos).unwrap();
    dt.to_rfc3339_opts(chrono::SecondsFormat::Secs, true)
}

/// `later - earlier` as a `TimeDelta`, by `num_seconds` and `subsec_nanos`;
/// the pair is `elapsed_parts(..)`. Off leap seconds it is the exact
/// difference in nanoseconds; inside one, chrono's leap-second rules decide,
/// and they are not stated here.
#[verifier::external_body]
fn elapsed(later: &Timestamp, earlier: &Timestamp) -> (r: (i64, i32))
    requires
        later.valid(),
        earlier.valid(),
    ensures
        r == elapsed_parts(later.secs, later.nanos, earlier.secs, earlier.nanos),
        later.nanos < 1_000_000_000 && earlier.nanos < 1_000_000_000 ==> r.0 * 1_000_000_000 + r.1 == (later.secs
            - earlier.secs) * 1_000_000_000 + later.nanos - earlier.nanos,
{
    let a = chrono::DateTime::from_timestamp(later.secs, later.nanos).unwrap();
    let b = chrono::DateTime::from_timestamp(earlier.secs, earlier.nanos).unwrap();
    let d = a - b;
    (d.num_seconds(), d.subsec_nanos())
}

/// `time::to_iso`: RFC 3339 in UTC with whole seconds and a `Z`.
pub fn to_iso(t: &Timestamp) -> (r: String)
    requires
        t.valid(),
    ensures
        r@ == rfc3339_secs_text(t.secs, t.nanos),
{
    format_rfc3339_secs(t)
}

/// `later - earlier > limit`, as `TimeDelta`s compare.
pub open spec fn spec_elapsed_exceeds(later: Timestamp, earlier: Timestamp, limit: Duration) -> bool {
    let (s, n) = elapsed_parts(later.secs, later.nanos, earlier.secs, earlier.nanos);
    s * 1_000_000_000 + n > limit.seconds * 1_000_000_000
}

pub fn elapsed_exceeds(later: &Timestamp, earlier: &Timestamp, limit: &Duration) -> (b: bool)
    requires
        later.valid(),
        earlier.valid(),
    ensures
        b == spec_elapsed_exceeds(*later, *earlier, *limit),
        later.nanos < 1_000_000_000 && earlier.nanos < 1_000_000_000 ==> (b <==> (later.secs - earlier.secs)
            * 1_000_000_000 + later.nanos - earlier.nanos > limit.seconds * 1_000_000_000),
{
    let (s, n) = elapsed(later, earlier);
    (s as i128) * 1_000_000_000 + (n as i128) > (limit.seconds as i128) * 1_000_000_000
}

/// Seconds per unit letter of a duration.
pub open spec fn unit_seconds(u: char) -> Option<int> {
    if u == 's' {
        Some(1)
    } else if u == 'm' {
        Some(60)
    } else if u == 'h' {
        Some(3600)
    } else if u == 'd' {
        Some(86400)
    } else if u == 'w' {
        Some(604800)
    } else {
        None
    }
}

/// Why a duration did not parse.
pub enum DurationFault {
    Empty,
    BadNumber,
    BadUnit,
}

/// A duration `<integer><unit>`, surrounding whitespace ignored, in seconds.
pub open spec fn duration_value(spec: Seq<char>) -> Result<int, DurationFault> {
    let s = spec_trim(spec);
    if s.len() == 0 {
        Err(DurationFault::Empty)
    } else {
        match spec_parse_i64(s.drop_last()) {
            None => Err(DurationFault::BadNumber),
            Some(n) => match unit_seconds(s.last()) {
                None => Err(DurationFault::BadUnit),
                Some(k) => Ok(n * k),
            },
        }
    }
}

/// `parse_duration` returns on `spec` rather than panicking: its last
/// character is a single byte, and the span fits a `TimeDelta`.
pub open spec fn duration_fits(spec: Seq<char>) -> bool {
    let s = spec_trim(spec);
    &&& (s.len() > 0 ==> (s.last() as int) < 128)
    &&& match duration_value(spec) {
        Ok(v) => -max_span_secs() <= v <= max_span_secs(),
        Err(_) => true,
    }
}

/// Why a time spec or duration was refused.
pub enum TimeError {
    EmptyDuration,
    InvalidDuration { spec: String },
    UnknownUnit { unit: char, spec: String },
    InvalidTimeSpec { spec: String },
    /// The relative spec reaches before the earliest instant.
    OutOfRange { spec: String },
    /// The system clock reads before 1970 or past the latest instant.
    ClockUnavailable,
}

impl TimeError {
    pub open spec fn spec_message(&self) -> Seq<char> {
        match self {
            TimeError::EmptyDuration => "empty duration"@,
            TimeError::InvalidDuration { spec } => "invalid duration: "@ + spec@,
            TimeError::UnknownUnit { unit, spec } => "unknown duration unit '"@ + seq![*unit]
                + "' in '"@ + spec@ + "'"@,
            TimeError::InvalidTimeSpec { spec } => "invalid time spec: "@ + spec@,
            TimeError::OutOfRange { spec } => "time spec out of range: "@ + spec@,
            TimeError::ClockUnavailable => "the system clock reads outside the representable range"@,
        }
    }

    /// The text shown to the user.
    pub fn message(&self) -> (r: String)
        ensures
            r@ == self.spec_message(),
    {
        match self {
            TimeError::EmptyDuration => String::from_str("empty duration"),
            TimeError::InvalidDuration { spec } => {
                let mut r = String::from_str("invalid duration: ");
                r.append(spec.as_str());
                r
            },
            TimeError::UnknownUnit { unit, spec } => {
                let mut r = String::from_str("unknown duration unit '");
                push_char(&mut r, *unit);
                r.append("' in '");
                r.append(spec.as_str());
                r.append("'");
                r
            },
            TimeError::InvalidTimeSpec { spec } => {
                let mut r = String::from_str("invalid time spec: ");
                r.append(spec.as_str());
                r
            },
            TimeError::OutOfRange { spec } => {
                let mut r = String::from_str("time spec out of range: ");
                r.append(spec.as_str());
                r
            },
            TimeError::ClockUnavailable => String::from_str("the system clock reads outside the representable range"),
        }
    }
}

/// The error `parse_duration` reports for a fault.
pub open spec fn duration_error_is(e: TimeError, f: DurationFault, spec: Seq<char>) -> bool {
    match f {
        DurationFault::Empty => e is EmptyDuration,
        DurationFault::BadNumber => e matches TimeError::InvalidDuration { spec: s } && s@ == spec,
        DurationFault::BadUnit => e matches TimeError::UnknownUnit { unit, spec: s } && s@ == spec
            && unit == spec_trim(spec).last(),
    }
}

/// Parses `30s`, `15m`, `1h`, `7d`, `2w` (the number may be signed).
pub fn parse_duration(spec: &str) -> (r: Result<Duration, TimeError>)
    requires
        duration_fits(spec@),
    ensures
        match duration_value(spec@) {
            Ok(v) => (r matches Ok(d) && d.seconds == v),
            Err(f) => (r matches Err(e) && duration_error_is(e, f, spec@)),
        },
{
    let s = trim(spec);
    let n = s.as_str().unicode_len();
    if n == 0 {
        return Err(TimeError::EmptyDuration);
    }
    let num = s.as_str().substring_char(0, n - 1);
    let unit = s.as_str().get_char(n - 1);
    assert(num@ =~= s@.drop_last());
    let v = match parse_i64(num) {
        Some(v) => v,
        None => {
            return Err(TimeError::InvalidDuration { spec: String::from_str(spec) });
        },
    };
    let k: i64 = if unit == 's' {
        1
    } else if unit == 'm' {
        60
    } else if unit == 'h' {
        3600
    } else if unit == 'd' {
        86400
    } else if unit == 'w' {
        604800
    } else {
        return Err(TimeError::UnknownUnit { unit, spec: String::from_str(spec) });
    };
    assert(-max_span_secs() <= v * k <= max_span_secs());
    Ok(Duration { seconds: v * k })
}

/// Whether `parse_duration` returns on `spec` (rather than panicking).
pub fn check_duration(spec: &str) -> (b: bool)
    ensures
        b == duration_fits(spec@),
{
    let s = trim(spec);
    let n = s.as_str().unicode_len();
    if n == 0 {
        return true;
    }
    let unit = s.as_str().get_char(n - 1);
    if (unit as u32) >= 128 {
        return false;
    }
    let num = s.as_str().substring_char(0, n - 1);
    assert(num@ =~= s@.drop_last());
    let v = match parse_i64(num) {
        Some(v) => v,
        None => {
            return true;
        },
    };
    let k: i128 = if unit == 's' {
        1
    } else if unit == 'm' {
        60
    } else if unit == 'h' {
        3600
    } else if unit == 'd' {
        86400
    } else if unit == 'w' {
        604800
    } else {
        return true;
    };
    let total: i128 = (v as i128) * k;
    -9_223_372_036_854_775i128 <= total && total <= 9_223_372_036_854_775i128
}

/// What comes after `now-` or `-` in a relative spec.
pub open spec fn relative_rest(spec: Seq<char>) -> Option<Seq<char>> {
    let s = spec_trim(spec);
    if s == "now"@ {
        None
    } else if has_prefix(s, "now-"@) {
        Some(s.subrange(4, s.len() as int))
    } else if has_prefix(s, "-"@) {
        Some(s.subrange(1, s.len() as int))
    } else {
        None
    }
}

/// `parse` returns on `spec` rather than panicking in `parse_duration`.
pub open spec fn time_spec_fits(spec: Seq<char>) -> bool {
    match relative_rest(spec) {
        Some(rest) => duration_fits(rest),
        None => true,
    }
}

/// A relative spec does not reach outside the representable instants.
pub open spec fn within_range(spec: Seq<char>, now: Timestamp) -> bool {
    match relative_rest(spec) {
        Some(rest) => match duration_value(rest) {
            Ok(v) => instant_minus(now.secs, now.nanos, v as i64) is Some,
            Err(_) => true,
        },
        None => true,
    }
}

/// What a time spec comes to.
pub enum TimeOutcome {
    /// This instant.
    At(i64, u32),
    /// The duration after `now-` or `-` (here `rest`) did not parse.
    BadDuration(DurationFault, Seq<char>),
    /// The reach of a relative spec leaves the representable instants.
    OutOfRange,
    /// Neither relative nor a timestamp.
    Invalid,
}

/// Whether `parse` returns on `spec` (rather than panicking).
pub fn check_time_spec(spec: &str) -> (b: bool)
    ensures
        b == time_spec_fits(spec@),
{
    let s = trim(spec);
    if eq_str(s.as_str(), "now") {
        return true;
    }
    proof {
        reveal_strlit("now-");
        reveal_strlit("-");
    }
    if let Some(rest) = strip_prefix(s.as_str(), "now-") {
        return check_duration(rest.as_str());
    }
    if let Some(rest) = strip_prefix(s.as_str(), "-") {
        return check_duration(rest.as_str());
    }
    true
}

/// How often `tail` polls, in seconds: a negative interval falls back to
/// five seconds, and anything below two seconds is raised to two.
pub open spec fn spec_poll_secs(d: Duration) -> int {
    if d.seconds < 0 {
        5
    } else if d.seconds < 2 {
        2
    } else {
        d.seconds as int
    }
}

pub fn poll_interval_secs(d: &Duration) -> (r: u64)
    ensures
        r == spec_poll_secs(*d),
{
    if d.seconds < 0 {
        5
    } else if d.seconds < 2 {
        2
    } else {
        d.seconds as u64
    }
}

/// The instant a time spec names, with `now` as the clock's reading.
pub open spec fn spec_parse_at(spec: Seq<char>, now: Timestamp) -> TimeOutcome {
    let s = spec_trim(spec);
    match relative_rest(spec) {
        Some(rest) => match duration_value(rest) {
            Ok(v) => match instant_minus(now.secs, now.nanos, v as i64) {
                Some((a, b)) => TimeOutcome::At(a, b),
                None => TimeOutcome::OutOfRange,
            },
            Err(f) => TimeOutcome::BadDuration(f, rest),
        },
        None => if s == "now"@ {
            TimeOutcome::At(now.secs, now.nanos)
        } else {
            spec_parse_absolute(s)
        },
    }
}

/// What an absolute spec (already trimmed) comes to: RFC 3339, else the
/// naive ISO form read as UTC, else nothing.
pub open spec fn spec_parse_absolute(s: Seq<char>) -> TimeOutcome {
    match rfc3339_instant(s) {
        Some((a, b)) => TimeOutcome::At(a, b),
        None => match naive_iso_instant(s) {
            Some((a, b)) => TimeOutcome::At(a, b),
            None => TimeOutcome::Invalid,
        },
    }
}

/// Whether a spec needs the clock: `now`, and the relative specs.
pub open spec fn uses_clock(spec: Seq<char>) -> bool {
    spec_trim(spec) == "now"@ || relative_rest(spec) is Some
}

/// `r` is what `parse` reports for the outcome `o` of `spec`.
pub open spec fn reports(r: Result<Timestamp, TimeError>, o: TimeOutcome, spec: Seq<char>) -> bool {
    match o {
        TimeOutcome::At(a, b) => r matches Ok(t) && t.secs == a && t.nanos == b,
        TimeOutcome::BadDuration(f, rest) => r matches Err(e) && duration_error_is(e, f, rest),
        TimeOutcome::OutOfRange => r matches Err(TimeError::OutOfRange { spec: x }) && x@ == spec,
        TimeOutcome::Invalid => r matches Err(TimeError::InvalidTimeSpec { spec: x }) && x@ == spec,
    }
}

fn relative_duration(spec: &str) -> (r: Option<(Result<Duration, TimeError>, Ghost<Seq<char>>)>)
    requires
        time_spec_fits(spec@),
    ensures
        match relative_rest(spec@) {
            None => r is None,
            Some(rest) => r matches Some((d, g)) && g@ == rest && match duration_value(rest) {
                Ok(v) => (d matches Ok(x) && x.seconds == v),
                Err(f) => (d matches Err(e) && duration_error_is(e, f, rest)),
            },
        },
{
    let s = trim(spec);
    if eq_str(s.as_str(), "now") {
        return None;
    }
    proof {
        reveal_strlit("now-");
        reveal_strlit("-");
    }
    if let Some(rest) = strip_prefix(s.as_str(), "now-") {
        return Some((parse_duration(rest.as_str()), Ghost(rest@)));
    }
    if let Some(rest) = strip_prefix(s.as_str(), "-") {
        return Some((parse_duration(rest.as_str()), Ghost(rest@)));
    }
    None
}

/// Parses an absolute ISO-8601 timestamp or a relative spec like `now`,
/// `now-15m`, `now-1h`, `now-7d`, `-24h`, taking `now` as the current
/// instant.
pub fn parse_at(spec: &str, now: &Timestamp) -> (r: Result<Timestamp, TimeError>)
    requires
        now.valid(),
        time_spec_fits(spec@),
        within_range(spec@, *now),
    ensures
        reports(r, spec_parse_at(spec@, *now), spec@),
        !(spec_parse_at(spec@, *now) is OutOfRange),
        r matches Ok(t) ==> t.valid(),
{
    let s = trim(spec);
    if eq_str(s.as_str(), "now") {
        return Ok(Timestamp { secs: now.secs, nanos: now.nanos });
    }
    match relative_duration(spec) {
        Some((Ok(d), _)) => {
            return match checked_minus(now, d.seconds) {
                Some(t) => Ok(t),
                None => Err(TimeError::OutOfRange { spec: String::from_str(spec) }),
            };
        },
        Some((Err(e), _)) => {
            return Err(e);
        },
        None => {},
    }
    parse_absolute(s.as_str(), spec)
}

/// An absolute spec `s` (trimmed from `spec`): RFC 3339, else naive ISO.
fn parse_absolute(s: &str, spec: &str) -> (r: Result<Timestamp, TimeError>)
    ensures
        reports(r, spec_parse_absolute(s@), spec@),
        r matches Ok(t) ==> t.valid(),
{
    if let Some(t) = parse_rfc3339(s) {
        return Ok(t);
    }
    if let Some(t) = parse_naive_iso(s) {
        return Ok(t);
    }
    Err(TimeError::InvalidTimeSpec { spec: String::from_str(spec) })
}

/// Parses a time spec. An absolute spec is read without the clock; `now`
/// and the relative specs take the clock's current reading, and a clock
/// outside the representable instants is reported as unavailable. A
/// relative spec that reaches outside them is refused as out of range.
pub fn parse(spec: &str) -> (r: Result<Timestamp, TimeError>)
    requires
        time_spec_fits(spec@),
    ensures
        r matches Ok(t) ==> t.valid(),
        !uses_clock(spec@) ==> reports(r, spec_parse_absolute(spec_trim(spec@)), spec@),
        uses_clock(spec@) ==> (r matches Err(TimeError::ClockUnavailable) || exists|now: Timestamp|
            now.valid() && reports(r, spec_parse_at(spec@, now), spec@)),
{
    let s = trim(spec);
    proof {
        reveal_strlit("now-");
        reveal_strlit("-");
    }
    let clock = eq_str(s.as_str(), "now") || starts_with(s.as_str(), "now-") || starts_with(s.as_str(), "-");
    if !clock {
        return parse_absolute(s.as_str(), spec);
    }
    match utc_now() {
        Some(now) => parse_at_checked(spec, &now),
        None => Err(TimeError::ClockUnavailable),
    }
}

/// `parse_at`, or `OutOfRange` where a relative spec reaches outside the
/// representable instants.
pub fn parse_at_checked(spec: &str, now: &Timestamp) -> (r: Result<Timestamp, TimeError>)
    requires
        now.valid(),
        time_spec_fits(spec@),
    ensures
        reports(r, spec_parse_at(spec@, *now), spec@),
        r matches Ok(t) ==> t.valid(),
{
    match relative_duration(spec) {
        Some((Ok(d), _)) => {
            if checked_minus(now, d.seconds).is_none() {
                return Err(TimeError::OutOfRange { spec: String::from_str(spec) });
            }
        },
        _ => {},
    }
    parse_at(spec, now)
}

} // verus!
