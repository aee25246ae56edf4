//! Schedules: a UTC limit, optional local windows, and exclusions.
use vstd::prelude::*;

use crate::primitives::calendar::{
    CalendarMoment, CalendarMomentView, DayOfWeek, DaysOfWeek, LocalTimeRange, LocalTimeRangeView,
    LogicalDateRange, LogicalDateRangeView,
};
use crate::primitives::time::{EvaluationTime, EvaluationTimeView, UtcTime};
use crate::text::{owned, push_signed_decimal, push_text, signed_decimal};

verus! {

/// A half-open UTC range `[starts_at, ends_at)` with `starts_at < ends_at`.
#[derive(Debug, Copy, Clone, Eq, PartialEq)]
pub struct UtcTimeRange {
    starts_at: UtcTime,
    ends_at: UtcTime,
}

pub struct UtcTimeRangeView {
    pub starts_at: int,
    pub ends_at: int,
}

impl View for UtcTimeRange {
    type V = UtcTimeRangeView;

    closed spec fn view(&self) -> UtcTimeRangeView {
        UtcTimeRangeView { starts_at: self.starts_at@, ends_at: self.ends_at@ }
    }
}

impl UtcTimeRangeView {
    pub open spec fn contains(self, t: int) -> bool {
        self.starts_at <= t < self.ends_at
    }
}

impl UtcTimeRange {
    pub fn new(starts_at: UtcTime, ends_at: UtcTime) -> (r: Result<Self, ScheduleError>)
        ensures
            r is Ok <==> starts_at@ < ends_at@,
            r matches Ok(range) ==> range@ == (UtcTimeRangeView {
                starts_at: starts_at@,
                ends_at: ends_at@,
            }),
            r matches Err(e) ==> e == (ScheduleError::InvalidUtcTimeRange { starts_at, ends_at }),
    {
        if !starts_at.is_before(ends_at) {
            return Err(ScheduleError::InvalidUtcTimeRange { starts_at, ends_at });
        }
        Ok(UtcTimeRange { starts_at, ends_at })
    }

    pub fn contains(self, utc_time: UtcTime) -> (r: bool)
        ensures
            r == self@.contains(utc_time@),
    {
        !utc_time.is_before(self.starts_at) && utc_time.is_before(self.ends_at)
    }

    pub fn starts_at(self) -> (r: UtcTime)
        ensures
            r@ == self@.starts_at,
    {
        self.starts_at
    }

    pub fn ends_at(self) -> (r: UtcTime)
        ensures
            r@ == self@.ends_at,
    {
        self.ends_at
    }
}

/// A limit on the UTC instants at which a schedule can apply at all.
#[derive(Debug, Copy, Clone, Eq, PartialEq)]
pub enum ScheduleLimit {
    Always,
    Never,
    Until(UtcTime),
    After(UtcTime),
    Between(UtcTimeRange),
}

impl ScheduleLimit {
    /// Whether the limit lets the instant `t` through.
    pub open spec fn spec_allows(self, t: int) -> bool {
        match self {
            ScheduleLimit::Always => true,
            ScheduleLimit::Never => false,
            ScheduleLimit::Until(ends_at) => t < ends_at@,
            ScheduleLimit::After(starts_at) => starts_at@ <= t,
            ScheduleLimit::Between(range) => range@.contains(t),
        }
    }

    pub fn between(starts_at: UtcTime, ends_at: UtcTime) -> (r: Result<Self, ScheduleError>)
        ensures
            r is Ok <==> starts_at@ < ends_at@,
            r matches Ok(limit) ==> limit matches ScheduleLimit::Between(range) && range@ == (
            UtcTimeRangeView { starts_at: starts_at@, ends_at: ends_at@ }),
            r matches Err(e) ==> e == (ScheduleError::InvalidUtcTimeRange { starts_at, ends_at }),
    {
        Ok(ScheduleLimit::Between(UtcTimeRange::new(starts_at, ends_at)?))
    }

    pub fn allows(&self, utc_time: UtcTime) -> (r: bool)
        ensures
            r == self.spec_allows(utc_time@),
    {
        match self {
            ScheduleLimit::Always => true,
            ScheduleLimit::Never => false,
            ScheduleLimit::Until(ends_at) => utc_time.is_before(*ends_at),
            ScheduleLimit::After(starts_at) => !utc_time.is_before(*starts_at),
            ScheduleLimit::Between(range) => range.contains(utc_time),
        }
    }
}

/// The abstract value of a schedule window.
pub struct ScheduleWindowView {
    pub date_range: Option<LogicalDateRangeView>,
    pub days_of_week: Option<Set<DayOfWeek>>,
    pub time_range: Option<LocalTimeRangeView>,
}

impl ScheduleWindowView {
    /// Every part that the window sets holds of the moment.
    pub open spec fn matches(self, moment: CalendarMomentView) -> bool {
        &&& self.date_range matches Some(r) ==> r.contains(moment.date)
        &&& self.days_of_week matches Some(days) ==> days.contains(moment.day_of_week)
        &&& self.time_range matches Some(r) ==> r.contains(moment.time_of_day)
    }
}

/// A local window: an optional date range, weekday set and time range, all of
/// which must hold.
#[derive(Debug, Eq, PartialEq)]
pub struct ScheduleWindow {
    date_range: Option<LogicalDateRange>,
    days_of_week: Option<DaysOfWeek>,
    time_range: Option<LocalTimeRange>,
}

impl View for ScheduleWindow {
    type V = ScheduleWindowView;

    closed spec fn view(&self) -> ScheduleWindowView {
        ScheduleWindowView {
            date_range: match self.date_range {
                Some(r) => Some(r@),
                None => None,
            },
            days_of_week: match self.days_of_week {
                Some(d) => Some(d@),
                None => None,
            },
            time_range: match self.time_range {
                Some(r) => Some(r@),
                None => None,
            },
        }
    }
}

impl DeepView for ScheduleWindow {
    type V = ScheduleWindowView;

    open spec fn deep_view(&self) -> ScheduleWindowView {
        self@
    }
}

impl Clone for ScheduleWindow {
    fn clone(&self) -> (r: Self)
        ensures
            r@ == self@,
    {
        let days_of_week = match &self.days_of_week {
            Some(d) => Some(d.clone()),
            None => None,
        };
        ScheduleWindow { date_range: self.date_range, days_of_week, time_range: self.time_range }
    }
}

impl Default for ScheduleWindow {
    fn default() -> (r: Self)
        ensures
            r@ == (ScheduleWindowView { date_range: None, days_of_week: None, time_range: None }),
    {
        ScheduleWindow { date_range: None, days_of_week: None, time_range: None }
    }
}

impl ScheduleWindow {
    /// A window with no restriction; it matches every moment.
    pub fn always() -> (r: Self)
        ensures
            r@ == (ScheduleWindowView { date_range: None, days_of_week: None, time_range: None }),
    {
        Self::default()
    }

    pub fn new() -> (r: Self)
        ensures
            r@ == (ScheduleWindowView { date_range: None, days_of_week: None, time_range: None }),
    {
        Self::default()
    }

    pub fn with_date_range(self, date_range: LogicalDateRange) -> (r: Self)
        ensures
            r@ == (ScheduleWindowView { date_range: Some(date_range@), ..self@ }),
    {
        ScheduleWindow { date_range: Some(date_range), ..self }
    }

    pub fn with_days_of_week(self, days_of_week: DaysOfWeek) -> (r: Self)
        ensures
            r@ == (ScheduleWindowView { days_of_week: Some(days_of_week@), ..self@ }),
    {
        ScheduleWindow { days_of_week: Some(days_of_week), ..self }
    }

    pub fn with_time_range(self, time_range: LocalTimeRange) -> (r: Self)
        ensures
            r@ == (ScheduleWindowView { time_range: Some(time_range@), ..self@ }),
    {
        ScheduleWindow { time_range: Some(time_range), ..self }
    }

    pub fn matches(&self, moment: &CalendarMoment) -> (r: bool)
        ensures
            r == self@.matches(moment@),
    {
        if let Some(date_range) = self.date_range {
            if !date_range.contains(moment.date()) {
                return false;
            }
        }
        if let Some(days_of_week) = &self.days_of_week {
            if !days_of_week.contains(moment.day_of_week()) {
                return false;
            }
        }
        if let Some(time_range) = self.time_range {
            if !time_range.contains(moment.time_of_day()) {
                return false;
            }
        }
        true
    }

    pub fn date_range(&self) -> (r: Option<LogicalDateRange>)
        ensures
            match r {
                Some(d) => self@.date_range == Some(d@),
                None => self@.date_range is None,
            },
    {
        self.date_range
    }

    pub fn days_of_week(&self) -> (r: Option<&DaysOfWeek>)
        ensures
            match r {
                Some(d) => self@.days_of_week == Some(d@),
                None => self@.days_of_week is None,
            },
    {
        self.days_of_week.as_ref()
    }

    pub fn time_range(&self) -> (r: Option<LocalTimeRange>)
        ensures
            match r {
                Some(t) => self@.time_range == Some(t@),
                None => self@.time_range is None,
            },
    {
        self.time_range
    }
}

/// The abstract value of a schedule.
pub struct ScheduleView {
    pub limit: ScheduleLimit,
    pub windows: Seq<ScheduleWindowView>,
    pub exclusions: Seq<ScheduleWindowView>,
}

impl ScheduleView {
    /// The limit allows the instant, no exclusion matches the moment, and, when
    /// there are windows, one of them matches.
    pub open spec fn scheduled(self, utc_time: int, moment: CalendarMomentView) -> bool {
        &&& self.limit.spec_allows(utc_time)
        &&& !exists|i: int| 0 <= i < self.exclusions.len() && #[trigger] self.exclusions[i].matches(moment)
        &&& (self.windows.len() == 0 || exists|i: int| 0 <= i < self.windows.len() && #[trigger] self.windows[i].matches(moment))
    }
}

/// When something applies: a UTC limit, optional windows, and exclusions.
#[derive(Debug, Eq, PartialEq)]
pub struct Schedule {
    limit: ScheduleLimit,
    windows: Vec<ScheduleWindow>,
    exclusions: Vec<ScheduleWindow>,
}

impl View for Schedule {
    type V = ScheduleView;

    closed spec fn view(&self) -> ScheduleView {
        ScheduleView {
            limit: self.limit,
            windows: self.windows.deep_view(),
            exclusions: self.exclusions.deep_view(),
        }
    }
}

impl DeepView for Schedule {
    type V = ScheduleView;

    open spec fn deep_view(&self) -> ScheduleView {
        self@
    }
}

impl Clone for Schedule {
    fn clone(&self) -> (r: Self)
        ensures
            r@ == self@,
    {
        let windows = self.windows.clone();
        let exclusions = self.exclusions.clone();
        let r = Schedule { limit: self.limit, windows, exclusions };
        assert(r@.windows =~= self@.windows);
        assert(r@.exclusions =~= self@.exclusions);
        r
    }
}

fn any_window_matches(windows: &Vec<ScheduleWindow>, moment: &CalendarMoment) -> (r: bool)
    ensures
        r == exists|i: int| 0 <= i < windows.deep_view().len() && #[trigger] windows.deep_view()[i].matches(moment@),
{
    let mut i: usize = 0;
    while i < windows.len()
        invariant
            i <= windows.len(),
            forall|j: int| 0 <= j < i ==> !#[trigger] windows.deep_view()[j].matches(moment@),
        decreases windows.len() - i,
    {
        if windows[i].matches(moment) {
            assert(windows.deep_view()[i as int] == windows@[i as int]@);
            return true;
        }
        assert(windows.deep_view()[i as int] == windows@[i as int]@);
        i += 1;
    }
    false
}

impl Schedule {
    pub fn always() -> (r: Self)
        ensures
            r@ == (ScheduleView { limit: ScheduleLimit::Always, windows: Seq::empty(), exclusions: Seq::empty() }),
    {
        let r = Schedule { limit: ScheduleLimit::Always, windows: Vec::new(), exclusions: Vec::new() };
        assert(r@.windows =~= Seq::<ScheduleWindowView>::empty());
        assert(r@.exclusions =~= Seq::<ScheduleWindowView>::empty());
        r
    }

    pub fn never() -> (r: Self)
        ensures
            r@ == (ScheduleView { limit: ScheduleLimit::Never, windows: Seq::empty(), exclusions: Seq::empty() }),
    {
        let r = Schedule { limit: ScheduleLimit::Never, windows: Vec::new(), exclusions: Vec::new() };
        assert(r@.windows =~= Seq::<ScheduleWindowView>::empty());
        assert(r@.exclusions =~= Seq::<ScheduleWindowView>::empty());
        r
    }

    /// A schedule that applies only inside one of the windows; at least one
    /// window is required.
    pub fn with_windows(windows: Vec<ScheduleWindow>) -> (r: Result<Self, ScheduleError>)
        ensures
            r is Ok <==> windows@.len() > 0,
            r matches Ok(s) ==> s@ == (ScheduleView {
                limit: ScheduleLimit::Always,
                windows: windows.deep_view(),
                exclusions: Seq::empty(),
            }),
            r matches Err(e) ==> e == ScheduleError::EmptyWindows,
    {
        if windows.len() == 0 {
            return Err(ScheduleError::EmptyWindows);
        }
        let r = Schedule { limit: ScheduleLimit::Always, windows, exclusions: Vec::new() };
        assert(r@.exclusions =~= Seq::<ScheduleWindowView>::empty());
        Ok(r)
    }

    pub fn with_limit(self, limit: ScheduleLimit) -> (r: Self)
        ensures
            r@ == (ScheduleView { limit, ..self@ }),
    {
        Schedule { limit, ..self }
    }

    pub fn with_exclusion(self, exclusion: ScheduleWindow) -> (r: Self)
        ensures
            r@ == (ScheduleView { exclusions: self@.exclusions.push(exclusion@), ..self@ }),
    {
        let mut s = self;
        s.exclusions.push(exclusion);
        assert(s@.exclusions =~= self@.exclusions.push(exclusion@));
        s
    }

    pub fn with_exclusions(self, exclusions: Vec<ScheduleWindow>) -> (r: Self)
        ensures
            r@ == (ScheduleView { exclusions: exclusions.deep_view(), ..self@ }),
    {
        Schedule { exclusions, ..self }
    }

    pub fn is_scheduled(&self, context: &ScheduleContext) -> (r: bool)
        ensures
            r == self@.scheduled(context@.utc_time, context@.moment),
    {
        if !self.limit.allows(context.utc_time()) {
            return false;
        }
        if any_window_matches(&self.exclusions, context.moment()) {
            proof {
                let i = choose|i: int| 0 <= i < self.exclusions.deep_view().len()
                    && #[trigger] self.exclusions.deep_view()[i].matches(context@.moment);
                assert(self@.exclusions[i].matches(context@.moment));
            }
            return false;
        }
        if self.windows.len() == 0 {
            return true;
        }
        any_window_matches(&self.windows, context.moment())
    }

    pub fn is_scheduled_at(&self, evaluation_time: &EvaluationTime) -> (r: bool)
        ensures
            r == self@.scheduled(evaluation_time@.utc_time, evaluation_time@.calendar_moment),
    {
        self.is_scheduled(&ScheduleContext::from_evaluation_time(evaluation_time))
    }

    pub fn includes(&self, context: &ScheduleContext) -> (r: bool)
        ensures
            r == self@.scheduled(context@.utc_time, context@.moment),
    {
        self.is_scheduled(context)
    }

    pub fn limit(&self) -> (r: &ScheduleLimit)
        ensures
            *r == self@.limit,
    {
        &self.limit
    }

    pub fn windows(&self) -> (r: &[ScheduleWindow])
        ensures
            r.deep_view() == self@.windows,
    {
        self.windows.as_slice()
    }

    pub fn exclusions(&self) -> (r: &[ScheduleWindow])
        ensures
            r.deep_view() == self@.exclusions,
    {
        self.exclusions.as_slice()
    }
}

impl Default for Schedule {
    fn default() -> (r: Self)
        ensures
            r@ == (ScheduleView { limit: ScheduleLimit::Always, windows: Seq::empty(), exclusions: Seq::empty() }),
    {
        Self::always()
    }
}

/// The abstract value of a schedule context.
pub struct ScheduleContextView {
    pub utc_time: int,
    pub moment: CalendarMomentView,
}

/// The instant and local moment a schedule is evaluated at.
#[derive(Debug, Eq, PartialEq)]
pub struct ScheduleContext {
    utc_time: UtcTime,
    moment: CalendarMoment,
}

impl View for ScheduleContext {
    type V = ScheduleContextView;

    closed spec fn view(&self) -> ScheduleContextView {
        ScheduleContextView { utc_time: self.utc_time@, moment: self.moment@ }
    }
}

impl Clone for ScheduleContext {
    fn clone(&self) -> (r: Self)
        ensures
            r@ == self@,
    {
        ScheduleContext { utc_time: self.utc_time, moment: self.moment.clone() }
    }
}

impl ScheduleContext {
    pub fn new(utc_time: UtcTime, moment: CalendarMoment) -> (r: Self)
        ensures
            r@ == (ScheduleContextView { utc_time: utc_time@, moment: moment@ }),
    {
        ScheduleContext { utc_time, moment }
    }

    pub fn from_evaluation_time(evaluation_time: &EvaluationTime) -> (r: Self)
        ensures
            r@ == (ScheduleContextView {
                utc_time: evaluation_time@.utc_time,
                moment: evaluation_time@.calendar_moment,
            }),
    {
        ScheduleContext {
            utc_time: evaluation_time.utc_time(),
            moment: evaluation_time.calendar_moment().clone(),
        }
    }

    pub fn utc_time(&self) -> (r: UtcTime)
        ensures
            r@ == self@.utc_time,
    {
        self.utc_time
    }

    pub fn moment(&self) -> (r: &CalendarMoment)
        ensures
            r@ == self@.moment,
    {
        &self.moment
    }
}

#[derive(Debug, Copy, Clone, Eq, PartialEq)]
pub enum ScheduleError {
    EmptyWindows,
    InvalidUtcTimeRange { starts_at: UtcTime, ends_at: UtcTime },
}

/// An exclusion always wins: adding an exclusion that matches a moment takes
/// the moment out of the schedule, whatever the windows say.
pub proof fn lemma_matching_exclusion_excludes(
    s: ScheduleView,
    exclusion: ScheduleWindowView,
    utc_time: int,
    moment: CalendarMomentView,
)
    requires
        exclusion.matches(moment),
    ensures
        !(ScheduleView { exclusions: s.exclusions.push(exclusion), ..s }).scheduled(utc_time, moment),
{
    let t = ScheduleView { exclusions: s.exclusions.push(exclusion), ..s };
    assert(t.exclusions[s.exclusions.len() as int] == exclusion);
}

/// A never-limited schedule applies at no instant.
pub proof fn lemma_never_excludes_all(s: ScheduleView, utc_time: int, moment: CalendarMomentView)
    requires
        s.limit == ScheduleLimit::Never,
    ensures
        !s.scheduled(utc_time, moment),
{
}

/// The limit gates the whole schedule by the UTC instant alone: a schedule
/// is never scheduled at an instant its limit excludes — before an `After`
/// or `Between` start, at or after an `Until` or `Between` end, or at all
/// under `Never` — and with no windows and no exclusions it is scheduled at
/// exactly the instants its limit lets through.
pub proof fn lemma_limit_gates_instants(s: ScheduleView, utc_time: int, moment: CalendarMomentView)
    ensures
        ({
            let through = match s.limit {
                ScheduleLimit::Always => true,
                ScheduleLimit::Never => false,
                ScheduleLimit::Until(ends_at) => utc_time < ends_at@,
                ScheduleLimit::After(starts_at) => starts_at@ <= utc_time,
                ScheduleLimit::Between(range) => range@.starts_at <= utc_time && utc_time < range@.ends_at,
            };
            &&& s.scheduled(utc_time, moment) ==> through
            &&& s.windows.len() == 0 && s.exclusions.len() == 0 ==> (s.scheduled(utc_time, moment) <==> through)
        }),
{
}

/// The text a schedule error reads as.
pub open spec fn schedule_error_message(e: ScheduleError) -> Seq<char> {
    match e {
        ScheduleError::EmptyWindows => "windowed schedule requires at least one window"@,
        ScheduleError::InvalidUtcTimeRange { starts_at, ends_at } => "invalid UTC time range `"@
            + signed_decimal(starts_at@) + "`..`"@ + signed_decimal(ends_at@) + "`"@,
    }
}

impl ScheduleError {
    /// The error as text.
    pub fn message(&self) -> (r: String)
        ensures
            r@ == schedule_error_message(*self),
    {
        match self {
            ScheduleError::EmptyWindows => owned("windowed schedule requires at least one window"),
            ScheduleError::InvalidUtcTimeRange { starts_at, ends_at } => {
                let mut s = owned("invalid UTC time range `");
                push_signed_decimal(&mut s, starts_at.unix_millis());
                push_text(&mut s, "`..`");
                push_signed_decimal(&mut s, ends_at.unix_millis());
                push_text(&mut s, "`");
                s
            },
        }
    }
}

} // verus!
