use vstd::prelude::*;

verus! {

/// Time-of-day text stored for a session whose time the source has not announced.
pub open spec fn tba() -> Seq<char> {
    "TBA"@
}

/// Text of an optional value as it reads in a report: the value itself, or
/// `null` where there is none.
pub open spec fn render(v: Option<Seq<char>>) -> Seq<char> {
    match v {
        Some(s) => s,
        None => "null"@,
    }
}

/// Venue of a race.
pub struct Location {
    pub locality: String,
    pub country: String,
}

/// Circuit of a race, as the remote source describes it.
pub struct Circuit {
    pub circuit_name: String,
    pub location: Location,
}

/// A session as the remote source describes it: the time may be missing.
pub struct SessionSchedule {
    pub date: String,
    pub time: Option<String>,
}

/// A race entry of the remote season document.
pub struct Race {
    pub race_name: String,
    pub circuit: Circuit,
    pub round: String,
    pub date: String,
    pub time: Option<String>,
    pub first_practice: SessionSchedule,
    pub second_practice: SessionSchedule,
    pub third_practice: Option<SessionSchedule>,
    pub qualifying: SessionSchedule,
    pub sprint: Option<SessionSchedule>,
}

/// The race table of the remote season document.
pub struct RaceTable {
    pub races: Vec<Race>,
}

/// The `MRData` envelope of the remote season document.
pub struct MRData {
    pub race_table: RaceTable,
}

/// The remote season document, as fetched for one year.
pub struct SeasonByYearResponse {
    pub mr_data: MRData,
}

/// A session of the stored schedule: its time reads `TBA` until announced.
pub struct SessionTime {
    pub date: String,
    pub time: String,
}

/// A race of the stored schedule, with its fields in their committed order.
pub struct RaceSchedule {
    pub race_name: String,
    pub circuit_name: String,
    pub location: Location,
    pub round: String,
    pub free_practice1: SessionTime,
    pub free_practice2: SessionTime,
    pub free_practice3: Option<SessionTime>,
    pub qualy: SessionTime,
    pub sprint: Option<SessionTime>,
    pub race: SessionTime,
}

/// The stored schedule of one season, races in round order.
pub struct Schedule {
    pub races: Vec<RaceSchedule>,
}

/// Number of scalar leaf fields of a race.
pub const LEAF_COUNT: usize = 17;

pub open spec fn session_date(s: Option<SessionTime>) -> Option<Seq<char>> {
    match s {
        Some(t) => Some(t.date@),
        None => None,
    }
}

pub open spec fn session_time(s: Option<SessionTime>) -> Option<Seq<char>> {
    match s {
        Some(t) => Some(t.time@),
        None => None,
    }
}

/// Name of the leaf field at position `k`, in the race's declared order.
pub open spec fn leaf_name(k: int) -> Seq<char> {
    if k == 0 { "raceName"@ }
    else if k == 1 { "circuitName"@ }
    else if k == 2 { "location.locality"@ }
    else if k == 3 { "location.country"@ }
    else if k == 4 { "round"@ }
    else if k == 5 { "freePractice1.date"@ }
    else if k == 6 { "freePractice1.time"@ }
    else if k == 7 { "freePractice2.date"@ }
    else if k == 8 { "freePractice2.time"@ }
    else if k == 9 { "freePractice3.date"@ }
    else if k == 10 { "freePractice3.time"@ }
    else if k == 11 { "qualy.date"@ }
    else if k == 12 { "qualy.time"@ }
    else if k == 13 { "sprint.date"@ }
    else if k == 14 { "sprint.time"@ }
    else if k == 15 { "race.date"@ }
    else { "race.time"@ }
}

impl RaceSchedule {
    /// Value of the leaf field at position `k`; `None` for a field of an
    /// absent optional session.
    pub open spec fn leaf(self, k: int) -> Option<Seq<char>> {
        if k == 0 { Some(self.race_name@) }
        else if k == 1 { Some(self.circuit_name@) }
        else if k == 2 { Some(self.location.locality@) }
        else if k == 3 { Some(self.location.country@) }
        else if k == 4 { Some(self.round@) }
        else if k == 5 { Some(self.free_practice1.date@) }
        else if k == 6 { Some(self.free_practice1.time@) }
        else if k == 7 { Some(self.free_practice2.date@) }
        else if k == 8 { Some(self.free_practice2.time@) }
        else if k == 9 { session_date(self.free_practice3) }
        else if k == 10 { session_time(self.free_practice3) }
        else if k == 11 { Some(self.qualy.date@) }
        else if k == 12 { Some(self.qualy.time@) }
        else if k == 13 { session_date(self.sprint) }
        else if k == 14 { session_time(self.sprint) }
        else if k == 15 { Some(self.race.date@) }
        else { Some(self.race.time@) }
    }
}

impl View for RaceSchedule {
    type V = Seq<Option<Seq<char>>>;

    /// A race is seen as the sequence of its leaf values in declared order.
    open spec fn view(&self) -> Seq<Option<Seq<char>>> {
        Seq::new(LEAF_COUNT as nat, |k: int| self.leaf(k))
    }
}

impl View for Schedule {
    type V = Seq<Seq<Option<Seq<char>>>>;

    open spec fn view(&self) -> Seq<Seq<Option<Seq<char>>>> {
        self.races@.map_values(|r: RaceSchedule| r@)
    }
}

} // verus!

verus! {

/// Failures of the schedule operations.
#[derive(Clone, Copy, Debug, PartialEq, Eq, Structural)]
pub enum ScheduleError {
    /// The request to the remote source could not complete.
    NetworkError,
    /// A remote response or a stored document could not be read as a schedule.
    MalformedScheduleData,
    /// No stored schedule exists for the year.
    NotFound,
    /// Every race of the schedule is on or before the current date.
    NoUpcomingRace,
    /// The stored schedule could not be written.
    IOError,
}

} // verus!
