use chrono::Datelike;
use vstd::prelude::*;

use crate::model::{Schedule, ScheduleError};

verus! {

/// A calendar date.
#[derive(Clone, Copy, Debug, PartialEq, Eq, Structural)]
pub struct CalendarDate {
    pub year: i32,
    pub month: u32,
    pub day: u32,
}

/// `a` falls strictly later in the calendar than `b`.
pub open spec fn is_later(a: CalendarDate, b: CalendarDate) -> bool {
    ||| a.year > b.year
    ||| a.year == b.year && a.month > b.month
    ||| a.year == b.year && a.month == b.month && a.day > b.day
}

/// Year, month and day that chrono reads from `s` in the `%Y-%m-%d` format,
/// or `None` where it rejects `s`.
pub uninterp spec fn ymd_of(s: Seq<char>) -> Option<(i32, u32, u32)>;

/// The date written in `s`, as the parser reads it.
pub open spec fn parsed_date(s: Seq<char>) -> Option<CalendarDate> {
    match ymd_of(s) {
        Some(t) => Some(CalendarDate { year: t.0, month: t.1, day: t.2 }),
        None => None,
    }
}

/// Relies on chrono's `NaiveDate::parse_from_str` with the `%Y-%m-%d` format,
/// and on `Datelike::{year, month, day}` of the date it returns, whose month
/// lies in 1..=12 and day in 1..=31.
#[verifier::external_body]
fn parse_calendar_date(s: &str) -> (r: Option<CalendarDate>)
    ensures
        r is None <==> ymd_of(s@) is None,
        r matches Some(d) ==> ymd_of(s@) == Some((d.year, d.month, d.day)),
        r matches Some(d) ==> 1 <= d.month <= 12 && 1 <= d.day <= 31,
{
    chrono::NaiveDate::parse_from_str(s, "%Y-%m-%d").ok().map(
        |d| CalendarDate { year: d.year(), month: d.month(), day: d.day() },
    )
}

impl CalendarDate {
    /// Reads a `YYYY-MM-DD` date.
    pub fn parse(s: &str) -> (r: Option<CalendarDate>)
        ensures
            r == parsed_date(s@),
    {
        parse_calendar_date(s)
    }

    /// Whether `self` falls strictly later than `other`.
    pub fn is_later_than(&self, other: &CalendarDate) -> (r: bool)
        ensures
            r == is_later(*self, *other),
    {
        self.year > other.year || (self.year == other.year && self.month > other.month) || (
        self.year == other.year && self.month == other.month && self.day > other.day)
    }
}

/// The outcome of scanning race dates from position `i` on: the first date
/// strictly later than `today`, a failure at the first date that could not
/// be read, or no upcoming race.
pub open spec fn first_upcoming_from(dates: Seq<Option<CalendarDate>>, today: CalendarDate, i: int) -> Result<
    int,
    ScheduleError,
>
    decreases dates.len() - i,
{
    if i < 0 || i >= dates.len() {
        Err(ScheduleError::NoUpcomingRace)
    } else {
        match dates[i] {
            None => Err(ScheduleError::MalformedScheduleData),
            Some(d) => if is_later(d, today) {
                Ok(i)
            } else {
                first_upcoming_from(dates, today, i + 1)
            },
        }
    }
}

pub open spec fn result_index(r: Result<usize, ScheduleError>) -> Result<int, ScheduleError> {
    match r {
        Ok(i) => Ok(i as int),
        Err(e) => Err(e),
    }
}

/// Position of the first race date strictly later than `today`, scanning in
/// round order; `None` stands for a date that could not be read.
pub fn first_upcoming(dates: &Vec<Option<CalendarDate>>, today: CalendarDate) -> (r: Result<
    usize,
    ScheduleError,
>)
    ensures
        result_index(r) == first_upcoming_from(dates@, today, 0),
{
    let mut i: usize = 0;
    while i < dates.len()
        invariant
            i <= dates@.len(),
            first_upcoming_from(dates@, today, 0) == first_upcoming_from(dates@, today, i as int),
        decreases dates@.len() - i,
    {
        match dates[i] {
            None => {
                return Err(ScheduleError::MalformedScheduleData);
            },
            Some(d) => {
                if d.is_later_than(&today) {
                    return Ok(i);
                }
            },
        }
        i = i + 1;
    }
    Err(ScheduleError::NoUpcomingRace)
}

/// The race dates of a schedule as the parser reads them.
pub open spec fn race_dates(s: Schedule) -> Seq<Option<CalendarDate>> {
    s.races@.map_values(|r: crate::model::RaceSchedule| parsed_date(r.race.date@))
}

/// Position of the next race of `schedule` after `today`: the first, in round
/// order, whose race date is strictly later. Fails with `NoUpcomingRace` when
/// every race is on or before `today`, and with `MalformedScheduleData` when a
/// race date met before that cannot be read.
pub fn select_next(schedule: &Schedule, today: CalendarDate) -> (r: Result<usize, ScheduleError>)
    ensures
        result_index(r) == first_upcoming_from(race_dates(*schedule), today, 0),
{
    let mut dates: Vec<Option<CalendarDate>> = Vec::new();
    let mut i: usize = 0;
    while i < schedule.races.len()
        invariant
            i <= schedule.races@.len(),
            dates@ == race_dates(*schedule).take(i as int),
        decreases schedule.races@.len() - i,
    {
        dates.push(CalendarDate::parse(schedule.races[i].race.date.as_str()));
        i = i + 1;
        assert(dates@ =~= race_dates(*schedule).take(i as int));
    }
    assert(dates@ =~= race_dates(*schedule));
    first_upcoming(&dates, today)
}

proof fn lemma_none_upcoming_from(dates: Seq<Option<CalendarDate>>, today: CalendarDate, i: int)
    requires
        0 <= i <= dates.len(),
        forall|j: int| 0 <= j < dates.len() ==> (#[trigger] dates[j] matches Some(d) && !is_later(d, today)),
    ensures
        first_upcoming_from(dates, today, i) == Err::<int, ScheduleError>(ScheduleError::NoUpcomingRace),
    decreases dates.len() - i,
{
    if i < dates.len() {
        lemma_none_upcoming_from(dates, today, i + 1);
    }
}

/// When every race date of a schedule reads as a date on or before `today`,
/// selecting the next race fails with `NoUpcomingRace`.
pub proof fn lemma_no_upcoming_race(schedule: Schedule, today: CalendarDate)
    requires
        forall|j: int|
            0 <= j < schedule.races@.len() ==> (#[trigger] parsed_date(schedule.races@[j].race.date@) matches Some(d)
                && !is_later(d, today)),
    ensures
        first_upcoming_from(race_dates(schedule), today, 0) == Err::<int, ScheduleError>(ScheduleError::NoUpcomingRace),
{
    let dates = race_dates(schedule);
    assert forall|j: int| 0 <= j < dates.len() implies (#[trigger] dates[j] matches Some(d) && !is_later(d, today)) by {
        assert(dates[j] == parsed_date(schedule.races@[j].race.date@));
    }
    lemma_none_upcoming_from(dates, today, 0);
}

} // verus!
