use vstd::prelude::*;

use crate::document::{lemma_race_tree_members, lemma_session_time_member, member, race_tree, text_member};
use crate::model::{
    Location, Race, RaceSchedule, Schedule, SeasonByYearResponse, SessionSchedule, SessionTime,
    tba,
};

verus! {

/// Stored time of a session: the announced time, or `TBA`.
pub open spec fn stored_time(t: Option<String>) -> Seq<char> {
    match t {
        Some(s) => s@,
        None => tba(),
    }
}

/// `st` is what the store holds for the fetched session `s`.
pub open spec fn stores_session(st: SessionTime, s: SessionSchedule) -> bool {
    st.date@ == s.date@ && st.time@ == stored_time(s.time)
}

pub open spec fn stores_optional(st: Option<SessionTime>, s: Option<SessionSchedule>) -> bool {
    match (st, s) {
        (Some(a), Some(b)) => stores_session(a, b),
        (None, None) => true,
        _ => false,
    }
}

/// `r` is what the store holds for the fetched race `race`: text fields
/// carried verbatim, every missing session time replaced by `TBA`.
pub open spec fn stores_race(r: RaceSchedule, race: Race) -> bool {
    &&& r.race_name@ == race.race_name@
    &&& r.circuit_name@ == race.circuit.circuit_name@
    &&& r.location.locality@ == race.circuit.location.locality@
    &&& r.location.country@ == race.circuit.location.country@
    &&& r.round@ == race.round@
    &&& stores_session(r.free_practice1, race.first_practice)
    &&& stores_session(r.free_practice2, race.second_practice)
    &&& stores_optional(r.free_practice3, race.third_practice)
    &&& stores_session(r.qualy, race.qualifying)
    &&& stores_optional(r.sprint, race.sprint)
    &&& r.race.date@ == race.date@
    &&& r.race.time@ == stored_time(race.time)
}

fn time_or_tba(t: &Option<String>) -> (r: String)
    ensures
        r@ == stored_time(*t),
{
    match t {
        Some(s) => s.clone(),
        None => String::from_str("TBA"),
    }
}

impl SessionTime {
    /// The stored form of a fetched session.
    pub fn from_api(s: &SessionSchedule) -> (r: SessionTime)
        ensures
            stores_session(r, *s),
    {
        SessionTime { date: s.date.clone(), time: time_or_tba(&s.time) }
    }

    fn from_api_optional(s: &Option<SessionSchedule>) -> (r: Option<SessionTime>)
        ensures
            stores_optional(r, *s),
    {
        match s {
            Some(x) => Some(SessionTime::from_api(x)),
            None => None,
        }
    }
}

impl RaceSchedule {
    /// The stored form of a fetched race.
    pub fn from_api(race: &Race) -> (r: RaceSchedule)
        ensures
            stores_race(r, *race),
    {
        RaceSchedule {
            race_name: race.race_name.clone(),
            circuit_name: race.circuit.circuit_name.clone(),
            location: Location {
                locality: race.circuit.location.locality.clone(),
                country: race.circuit.location.country.clone(),
            },
            round: race.round.clone(),
            free_practice1: SessionTime::from_api(&race.first_practice),
            free_practice2: SessionTime::from_api(&race.second_practice),
            free_practice3: SessionTime::from_api_optional(&race.third_practice),
            qualy: SessionTime::from_api(&race.qualifying),
            sprint: SessionTime::from_api_optional(&race.sprint),
            race: SessionTime { date: race.date.clone(), time: time_or_tba(&race.time) },
        }
    }
}

impl Schedule {
    /// The stored schedule for a fetched season: one stored race per fetched
    /// race, in the order the source gave them.
    pub fn from_response(resp: &SeasonByYearResponse) -> (r: Schedule)
        ensures
            r.races@.len() == resp.mr_data.race_table.races@.len(),
            forall|i: int|
                0 <= i < r.races@.len() ==> stores_race(
                    #[trigger] r.races@[i],
                    resp.mr_data.race_table.races@[i],
                ),
    {
        let wire = &resp.mr_data.race_table.races;
        let mut races: Vec<RaceSchedule> = Vec::new();
        let mut i: usize = 0;
        while i < wire.len()
            invariant
                i <= wire@.len(),
                races@.len() == i,
                forall|j: int| 0 <= j < i ==> stores_race(#[trigger] races@[j], wire@[j]),
            decreases wire@.len() - i,
        {
            races.push(RaceSchedule::from_api(&wire[i]));
            i = i + 1;
        }
        Schedule { races }
    }
}

/// A fetched race any of whose sessions carries no time is stored with that
/// session's `time` member reading exactly `TBA`.
pub proof fn lemma_missing_time_stored_as_tba(race: Race, r: RaceSchedule)
    requires
        stores_race(r, race),
    ensures
        race.time is None ==> text_member(member(race_tree(r@), "race"@)->Some_0, "time"@) == Some(tba()),
        race.first_practice.time is None ==> text_member(
            member(race_tree(r@), "freePractice1"@)->Some_0,
            "time"@,
        ) == Some(tba()),
        race.second_practice.time is None ==> text_member(
            member(race_tree(r@), "freePractice2"@)->Some_0,
            "time"@,
        ) == Some(tba()),
        race.qualifying.time is None ==> text_member(member(race_tree(r@), "qualy"@)->Some_0, "time"@)
            == Some(tba()),
        (race.third_practice matches Some(s) && s.time is None) ==> text_member(
            member(race_tree(r@), "freePractice3"@)->Some_0,
            "time"@,
        ) == Some(tba()),
        (race.sprint matches Some(s) && s.time is None) ==> text_member(
            member(race_tree(r@), "sprint"@)->Some_0,
            "time"@,
        ) == Some(tba()),
{
    let v = r@;
    lemma_race_tree_members(v);
    assert(v[5] == Some(r.free_practice1.date@) && v[6] == Some(r.free_practice1.time@));
    assert(v[7] == Some(r.free_practice2.date@) && v[8] == Some(r.free_practice2.time@));
    assert(v[9] == crate::model::session_date(r.free_practice3));
    assert(v[10] == crate::model::session_time(r.free_practice3));
    assert(v[11] == Some(r.qualy.date@) && v[12] == Some(r.qualy.time@));
    assert(v[13] == crate::model::session_date(r.sprint));
    assert(v[14] == crate::model::session_time(r.sprint));
    assert(v[15] == Some(r.race.date@) && v[16] == Some(r.race.time@));
    lemma_session_time_member(v[5], v[6]);
    lemma_session_time_member(v[7], v[8]);
    lemma_session_time_member(v[9], v[10]);
    lemma_session_time_member(v[11], v[12]);
    lemma_session_time_member(v[13], v[14]);
    lemma_session_time_member(v[15], v[16]);
}

} // verus!
