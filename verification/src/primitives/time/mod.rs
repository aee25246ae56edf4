//! UTC instants, evaluation times and time-zone names.
use std::time::{Duration, SystemTime, SystemTimeError};
use vstd::prelude::*;

use crate::primitives::calendar::{CalendarMoment, CalendarMomentView};
use crate::text::{chars_of, char_is_alnum, is_alnum, owned, push_text, trim, trimmed};

verus! {

#[verifier::external_type_specification]
#[verifier::external_body]
pub struct ExSystemTime(SystemTime);

#[verifier::external_type_specification]
#[verifier::external_body]
pub struct ExSystemTimeError(SystemTimeError);

/// An instant as milliseconds since the Unix epoch, UTC.
#[derive(Debug, Copy, Clone, Eq, PartialEq, Ord, PartialOrd, Hash)]
pub struct UtcTime {
    unix_millis: i64,
}

impl View for UtcTime {
    type V = int;

    closed spec fn view(&self) -> int {
        self.unix_millis as int
    }
}

impl DeepView for UtcTime {
    type V = int;

    open spec fn deep_view(&self) -> int {
        self@
    }
}

/// What `SystemTime::duration_since(UNIX_EPOCH)` gives for an instant: a
/// function of the instant alone.
pub uninterp spec fn since_epoch_of(system_time: SystemTime) -> Result<Duration, SystemTimeError>;

/// What `SystemTimeError::duration` gives for an error: a function of the
/// error alone.
pub uninterp spec fn error_duration_of(error: SystemTimeError) -> Duration;

/// What `Duration::as_millis` gives for a duration: a function of the
/// duration alone.
pub uninterp spec fn millis_of(duration: Duration) -> u128;

/// `SystemTime::duration_since(UNIX_EPOCH)`: the distance from the epoch
/// when the instant is at or after it, else an error that carries the
/// distance the other way. The result is named, not spelt out: `Duration` is
/// opaque here.
#[verifier::external_body]
fn duration_since_epoch(system_time: &SystemTime) -> (r: Result<Duration, SystemTimeError>)
    ensures
        r == since_epoch_of(*system_time),
{
    system_time.duration_since(std::time::UNIX_EPOCH)
}

/// `SystemTimeError::duration`: how far the instant lies before the epoch.
#[verifier::external_body]
fn error_duration(error: &SystemTimeError) -> (r: Duration)
    ensures
        r == error_duration_of(*error),
{
    error.duration()
}

/// `Duration::as_millis`: the whole milliseconds of a duration.
#[verifier::external_body]
fn duration_as_millis(duration: &Duration) -> (r: u128)
    ensures
        r == millis_of(*duration),
{
    duration.as_millis()
}

/// What `Duration::from_millis` gives for a number of milliseconds: a
/// function of the number alone.
pub uninterp spec fn duration_of_millis(millis: u64) -> Duration;

/// `Duration::from_millis`: the duration of so many milliseconds, whose
/// whole milliseconds (`Duration::as_millis`) are that number again.
#[verifier::external_body]
fn duration_from_millis(millis: u64) -> (r: Duration)
    ensures
        r == duration_of_millis(millis),
        millis_of(r) == millis as u128,
{
    Duration::from_millis(millis)
}

/// `UNIX_EPOCH.checked_add(duration)`: `None` when the platform's
/// `SystemTime` cannot represent the instant, else the epoch moved forward by
/// the duration. For a duration of whole milliseconds, which every platform
/// represents exactly, the instant's distance from the epoch
/// (`duration_since(UNIX_EPOCH)`) is that duration. Which instants the
/// platform represents is not stated.
#[verifier::external_body]
fn epoch_checked_add(duration: Duration) -> (r: Option<SystemTime>)
    ensures
        (exists|m: u64| duration == #[trigger] duration_of_millis(m)) ==> (r matches Some(t) ==> since_epoch_of(t)
            == Ok::<Duration, SystemTimeError>(duration)),
{
    std::time::UNIX_EPOCH.checked_add(duration)
}

/// `UNIX_EPOCH.checked_sub(duration)`: `None` when the platform's
/// `SystemTime` cannot represent the instant, else the epoch moved back by
/// the duration. For a duration of whole milliseconds, the instant is the
/// epoch itself when the duration is zero, and otherwise lies before it by
/// that duration (`duration_since(UNIX_EPOCH)` fails with an error that
/// carries it). Which instants the platform represents is not stated.
#[verifier::external_body]
fn epoch_checked_sub(duration: Duration) -> (r: Option<SystemTime>)
    ensures
        (exists|m: u64| duration == #[trigger] duration_of_millis(m)) ==> (r matches Some(t) ==> {
            ||| since_epoch_of(t) == Ok::<Duration, SystemTimeError>(duration) && millis_of(duration) == 0
            ||| since_epoch_of(t) matches Err(e) && error_duration_of(e) == duration
        }),
{
    std::time::UNIX_EPOCH.checked_sub(duration)
}

/// Milliseconds after the epoch, as an `i64` when they fit.
pub open spec fn spec_positive_millis(millis: int) -> Result<int, TimeErrorView> {
    if millis <= i64::MAX {
        Ok(millis)
    } else {
        Err(TimeErrorView::UnixMillisOverflow)
    }
}

/// Milliseconds before the epoch, negated, as an `i64` when they fit.
pub open spec fn spec_negative_millis(millis: int) -> Result<int, TimeErrorView> {
    if millis <= i64::MAX + 1 {
        Ok(-millis)
    } else {
        Err(TimeErrorView::UnixMillisOverflow)
    }
}

/// The instant, in milliseconds since the epoch, of a distance from the
/// epoch in whole milliseconds: after it (`Ok`) or before it (`Err`).
pub open spec fn spec_from_epoch_distance(d: Result<u128, u128>) -> Result<int, TimeErrorView> {
    match d {
        Ok(m) => spec_positive_millis(m as int),
        Err(m) => spec_negative_millis(m as int),
    }
}

/// The distance from the epoch, in whole milliseconds, that the clock type
/// reports for an instant: after it (`Ok`) or before it (`Err`).
pub open spec fn epoch_distance_of(system_time: SystemTime) -> Result<u128, u128> {
    match since_epoch_of(system_time) {
        Ok(d) => Ok(millis_of(d)),
        Err(e) => Err(millis_of(error_duration_of(e))),
    }
}

/// The distance from the epoch of an instant given in milliseconds since
/// it: after it (`Ok`) or before it (`Err`).
pub open spec fn epoch_distance_view(unix_millis: int) -> Result<u128, u128> {
    if unix_millis >= 0 {
        Ok(unix_millis as u128)
    } else {
        Err((-unix_millis) as u128)
    }
}

/// Converting an instant to a `SystemTime` and back gives the instant again,
/// on either side of the epoch: a `SystemTime` that `to_system_time` returns
/// for `u` lies at `u`'s distance from the epoch, and `from_system_time`
/// reads that distance back as `u`.
pub proof fn lemma_system_time_round_trip(u: UtcTime, t: SystemTime)
    requires
        epoch_distance_of(t) == epoch_distance_view(u@),
    ensures
        spec_from_epoch_distance(epoch_distance_of(t)) == Ok::<int, TimeErrorView>(u@),
{
}

/// The abstract value of a conversion result.
pub open spec fn utc_result_view(r: Result<UtcTime, TimeError>) -> Result<int, TimeErrorView> {
    match r {
        Ok(t) => Ok(t@),
        Err(e) => Err(e@),
    }
}

fn duration_to_positive_millis(millis: u128) -> (r: Result<i64, TimeError>)
    ensures
        match r {
            Ok(v) => spec_positive_millis(millis as int) == Ok::<int, TimeErrorView>(v as int),
            Err(e) => spec_positive_millis(millis as int) == Err::<int, TimeErrorView>(e@),
        },
{
    if millis > i64::MAX as u128 {
        Err(TimeError::UnixMillisOverflow)
    } else {
        Ok(millis as i64)
    }
}

fn duration_to_negative_millis(millis: u128) -> (r: Result<i64, TimeError>)
    ensures
        match r {
            Ok(v) => spec_negative_millis(millis as int) == Ok::<int, TimeErrorView>(v as int),
            Err(e) => spec_negative_millis(millis as int) == Err::<int, TimeErrorView>(e@),
        },
{
    if millis == i64::MAX as u128 + 1 {
        return Ok(i64::MIN);
    }
    if millis > i64::MAX as u128 {
        return Err(TimeError::UnixMillisOverflow);
    }
    let m = millis as i64;
    Ok(-m)
}

impl UtcTime {
    pub fn from_unix_millis(unix_millis: i64) -> (r: Self)
        ensures
            r@ == unix_millis as int,
    {
        UtcTime { unix_millis }
    }

    pub fn unix_millis(self) -> (r: i64)
        ensures
            r as int == self@,
    {
        self.unix_millis
    }

    /// The instant at a distance from the epoch given in whole milliseconds:
    /// after it (`Ok`) or before it (`Err`). A distance beyond the range of
    /// `i64` milliseconds is an overflow error.
    pub fn utc_from_epoch_distance(distance: Result<u128, u128>) -> (r: Result<Self, TimeError>)
        ensures
            utc_result_view(r) == spec_from_epoch_distance(distance),
    {
        match distance {
            Ok(millis) => match duration_to_positive_millis(millis) {
                Ok(m) => Ok(Self::from_unix_millis(m)),
                Err(e) => Err(e),
            },
            Err(millis) => match duration_to_negative_millis(millis) {
                Ok(m) => Ok(Self::from_unix_millis(m)),
                Err(e) => Err(e),
            },
        }
    }

    /// The instant a `SystemTime` denotes: its distance from the epoch in
    /// whole milliseconds, as the clock type reports it, goes to
    /// `utc_from_epoch_distance`.
    pub fn from_system_time(system_time: SystemTime) -> (r: Result<Self, TimeError>)
        ensures
            utc_result_view(r) == spec_from_epoch_distance(epoch_distance_of(system_time)),
    {
        let distance = match duration_since_epoch(&system_time) {
            Ok(duration) => Ok(duration_as_millis(&duration)),
            Err(error) => Err(duration_as_millis(&error_duration(&error))),
        };
        Self::utc_from_epoch_distance(distance)
    }

    /// Which side of the epoch this instant lies on (`true` for at or after
    /// it) and its distance from the epoch in milliseconds.
    pub fn epoch_offset(self) -> (r: (bool, u64))
        ensures
            r.0 == (self@ >= 0),
            r.1 as int == if self@ >= 0 { self@ } else { -self@ },
    {
        if self.unix_millis >= 0 {
            (true, self.unix_millis as u64)
        } else if self.unix_millis == i64::MIN {
            (false, 9_223_372_036_854_775_808u64)
        } else {
            (false, (-self.unix_millis) as u64)
        }
    }

    /// The `SystemTime` of this instant: `epoch_offset` gives the distance,
    /// which is added to or taken from the epoch; an instant the platform
    /// cannot represent is a `SystemTimeOverflow` error. Which instants the
    /// platform represents is not stated.
    pub fn to_system_time(self) -> (r: Result<SystemTime, TimeError>)
        ensures
            r matches Err(e) ==> e@ == TimeErrorView::SystemTimeOverflow,
            r matches Ok(t) ==> epoch_distance_of(t) == epoch_distance_view(self@),
    {
        let (after, millis) = self.epoch_offset();
        let duration = duration_from_millis(millis);
        assert(duration == duration_of_millis(millis));
        let t = if after {
            epoch_checked_add(duration)
        } else {
            epoch_checked_sub(duration)
        };
        match t {
            Some(t) => Ok(t),
            None => Err(TimeError::SystemTimeOverflow),
        }
    }

    pub fn checked_add_millis(self, millis: i64) -> (r: Option<Self>)
        ensures
            r is Some <==> i64::MIN <= self@ + millis <= i64::MAX,
            r matches Some(t) ==> t@ == self@ + millis,
    {
        match self.unix_millis.checked_add(millis) {
            Some(m) => Some(Self::from_unix_millis(m)),
            None => None,
        }
    }

    pub fn checked_sub_millis(self, millis: i64) -> (r: Option<Self>)
        ensures
            r is Some <==> i64::MIN <= self@ - millis <= i64::MAX,
            r matches Some(t) ==> t@ == self@ - millis,
    {
        match self.unix_millis.checked_sub(millis) {
            Some(m) => Some(Self::from_unix_millis(m)),
            None => None,
        }
    }

    /// `self` is strictly earlier than `other`.
    pub(crate) fn is_before(self, other: Self) -> (r: bool)
        ensures
            r == (self@ < other@),
    {
        self.unix_millis < other.unix_millis
    }
}

/// The abstract value of an evaluation time.
pub struct EvaluationTimeView {
    pub utc_time: int,
    pub calendar_moment: CalendarMomentView,
}

/// One instant seen both as UTC and as a local calendar moment.
#[derive(Debug, Eq, PartialEq)]
pub struct EvaluationTime {
    utc_time: UtcTime,
    calendar_moment: CalendarMoment,
}

impl View for EvaluationTime {
    type V = EvaluationTimeView;

    closed spec fn view(&self) -> EvaluationTimeView {
        EvaluationTimeView { utc_time: self.utc_time@, calendar_moment: self.calendar_moment@ }
    }
}

impl DeepView for EvaluationTime {
    type V = EvaluationTimeView;

    open spec fn deep_view(&self) -> EvaluationTimeView {
        self@
    }
}

impl Clone for EvaluationTime {
    fn clone(&self) -> (r: Self)
        ensures
            r@ == self@,
    {
        EvaluationTime { utc_time: self.utc_time, calendar_moment: self.calendar_moment.clone() }
    }
}

impl EvaluationTime {
    pub fn new(utc_time: UtcTime, calendar_moment: CalendarMoment) -> (r: Self)
        ensures
            r@ == (EvaluationTimeView { utc_time: utc_time@, calendar_moment: calendar_moment@ }),
    {
        EvaluationTime { utc_time, calendar_moment }
    }

    pub fn utc_time(&self) -> (r: UtcTime)
        ensures
            r@ == self@.utc_time,
    {
        self.utc_time
    }

    pub fn calendar_moment(&self) -> (r: &CalendarMoment)
        ensures
            r@ == self@.calendar_moment,
    {
        &self.calendar_moment
    }
}

/// A characters allowed in a time-zone name besides letters and digits.
pub open spec fn is_zone_punct(c: char) -> bool {
    c == '/' || c == '_' || c == '-' || c == '+' || c == '.'
}

/// An IANA-shaped zone name: non-empty, no leading, trailing or doubled `/`,
/// and only letters, digits and `/ _ - + .`.
pub open spec fn valid_zone_name(s: Seq<char>) -> bool {
    &&& s.len() > 0
    &&& s[0] != '/'
    &&& s.last() != '/'
    &&& forall|i: int| 0 <= i < s.len() - 1 ==> !(s[i] == '/' && #[trigger] s[i + 1] == '/')
    &&& forall|i: int| 0 <= i < s.len() ==> is_alnum(#[trigger] s[i]) || is_zone_punct(s[i])
}

/// What validating a trimmed zone name gives.
pub open spec fn spec_zone_check(s: Seq<char>) -> Result<(), TimeErrorView> {
    if s.len() == 0 {
        Err(TimeErrorView::EmptyTimeZone)
    } else if !valid_zone_name(s) {
        Err(TimeErrorView::InvalidTimeZone(s))
    } else {
        Ok(())
    }
}

/// A time-zone name, such as `America/Los_Angeles`.
#[derive(Debug, Eq, PartialEq, Ord, PartialOrd, Hash)]
pub struct TimeZone {
    name: String,
}

impl View for TimeZone {
    type V = Seq<char>;

    closed spec fn view(&self) -> Seq<char> {
        self.name@
    }
}

impl DeepView for TimeZone {
    type V = Seq<char>;

    open spec fn deep_view(&self) -> Seq<char> {
        self@
    }
}

impl Clone for TimeZone {
    fn clone(&self) -> (r: Self)
        ensures
            r@ == self@,
    {
        TimeZone { name: self.name.clone() }
    }
}

impl std::str::FromStr for TimeZone {
    type Err = TimeError;

    fn from_str(value: &str) -> Result<Self, Self::Err> {
        Self::parse(value)
    }
}

impl AsRef<str> for TimeZone {
    fn as_ref(&self) -> &str {
        self.name()
    }
}

impl TimeZone {
    pub fn utc() -> (r: Self)
        ensures
            r@ == seq!['U', 'T', 'C'],
    {
        proof {
            reveal_strlit("UTC");
        }
        TimeZone { name: owned("UTC") }
    }

    /// Parses a zone name after trimming surrounding whitespace.
    pub fn parse(value: &str) -> (r: Result<Self, TimeError>)
        ensures
            match r {
                Ok(z) => spec_zone_check(trim(value@)) == Ok::<(), TimeErrorView>(()) && z@ == trim(
                    value@,
                ),
                Err(e) => spec_zone_check(trim(value@)) == Err::<(), TimeErrorView>(e@),
            },
    {
        let name = trimmed(value);
        validate_time_zone_name(&name)?;
        Ok(TimeZone { name })
    }

    pub fn name(&self) -> (r: &str)
        ensures
            r@ == self@,
    {
        self.name.as_str()
    }

    /// Whether the zone is `UTC` or `Etc/UTC`.
    pub fn is_utc(&self) -> (r: bool)
        ensures
            r == (self@ == seq!['U', 'T', 'C'] || self@ == seq!['E', 't', 'c', '/', 'U', 'T', 'C']),
    {
        let v = chars_of(self.name.as_str());
        let r = (v.len() == 3 && v[0] == 'U' && v[1] == 'T' && v[2] == 'C') || (v.len() == 7 && v[0]
            == 'E' && v[1] == 't' && v[2] == 'c' && v[3] == '/' && v[4] == 'U' && v[5] == 'T' && v[6]
            == 'C');
        proof {
            if v.len() == 3 && v@[0] == 'U' && v@[1] == 'T' && v@[2] == 'C' {
                assert(self@ =~= seq!['U', 'T', 'C']);
            }
            if v.len() == 7 && v@[0] == 'E' && v@[1] == 't' && v@[2] == 'c' && v@[3] == '/' && v@[4]
                == 'U' && v@[5] == 'T' && v@[6] == 'C' {
                assert(self@ =~= seq!['E', 't', 'c', '/', 'U', 'T', 'C']);
            }
        }
        r
    }
}

/// The abstract value of a time error.
pub enum TimeErrorView {
    UnixMillisOverflow,
    SystemTimeOverflow,
    EmptyTimeZone,
    InvalidTimeZone(Seq<char>),
}

#[derive(Debug, Eq, PartialEq)]
pub enum TimeError {
    UnixMillisOverflow,
    SystemTimeOverflow,
    EmptyTimeZone,
    InvalidTimeZone(String),
}

impl View for TimeError {
    type V = TimeErrorView;

    open spec fn view(&self) -> TimeErrorView {
        match self {
            TimeError::UnixMillisOverflow => TimeErrorView::UnixMillisOverflow,
            TimeError::SystemTimeOverflow => TimeErrorView::SystemTimeOverflow,
            TimeError::EmptyTimeZone => TimeErrorView::EmptyTimeZone,
            TimeError::InvalidTimeZone(s) => TimeErrorView::InvalidTimeZone(s@),
        }
    }
}

fn validate_time_zone_name(name: &String) -> (r: Result<(), TimeError>)
    ensures
        match r {
            Ok(_) => spec_zone_check(name@) == Ok::<(), TimeErrorView>(()),
            Err(e) => spec_zone_check(name@) == Err::<(), TimeErrorView>(e@),
        },
{
    let v = chars_of(name.as_str());
    if v.len() == 0 {
        return Err(TimeError::EmptyTimeZone);
    }
    if v[0] == '/' || v[v.len() - 1] == '/' {
        return Err(TimeError::InvalidTimeZone(name.clone()));
    }
    let mut i: usize = 0;
    while i < v.len()
        invariant
            v@ == name@,
            v.len() > 0,
            i <= v.len(),
            forall|j: int| 0 <= j < i ==> is_alnum(#[trigger] name@[j]) || is_zone_punct(name@[j]),
            forall|j: int| 0 <= j < i && j < v.len() - 1 ==> !(name@[j] == '/' && #[trigger] name@[j
                + 1] == '/'),
        decreases v.len() - i,
    {
        let c = v[i];
        if i + 1 < v.len() && c == '/' && v[i + 1] == '/' {
            return Err(TimeError::InvalidTimeZone(name.clone()));
        }
        if !(char_is_alnum(c) || c == '/' || c == '_' || c == '-' || c == '+' || c == '.') {
            proof {
                assert(!(is_alnum(name@[i as int]) || is_zone_punct(name@[i as int])));
            }
            return Err(TimeError::InvalidTimeZone(name.clone()));
        }
        i += 1;
    }
    Ok(())
}

/// The text a time error reads as.
pub open spec fn time_error_message(e: TimeErrorView) -> Seq<char> {
    match e {
        TimeErrorView::UnixMillisOverflow => "UTC time exceeds supported Unix millisecond range"@,
        TimeErrorView::SystemTimeOverflow => "UTC time cannot be represented as SystemTime"@,
        TimeErrorView::EmptyTimeZone => "time zone name cannot be empty"@,
        TimeErrorView::InvalidTimeZone(value) => "invalid time zone name `"@ + value + "`"@,
    }
}

impl TimeError {
    /// The error as text.
    pub fn message(&self) -> (r: String)
        ensures
            r@ == time_error_message(self@),
    {
        match self {
            TimeError::UnixMillisOverflow => owned("UTC time exceeds supported Unix millisecond range"),
            TimeError::SystemTimeOverflow => owned("UTC time cannot be represented as SystemTime"),
            TimeError::EmptyTimeZone => owned("time zone name cannot be empty"),
            TimeError::InvalidTimeZone(value) => {
                let mut s = owned("invalid time zone name `");
                push_text(&mut s, value.as_str());
                push_text(&mut s, "`");
                s
            },
        }
    }
}

} // verus!
