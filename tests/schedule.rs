use remindf1::calendar::{first_upcoming, select_next, CalendarDate};
use remindf1::diff::{diff, ScheduleChange};
use remindf1::document::JsonNode;
use remindf1::model::{
    Circuit, Location, MRData, Race, RaceSchedule, RaceTable, Schedule, ScheduleError,
    SeasonByYearResponse, SessionSchedule, SessionTime,
};
use remindf1::paths::{schedule_api_url, schedule_file_name, StorePaths};
use remindf1::sync::plan_update;

fn session(date: &str, time: &str) -> SessionTime {
    SessionTime { date: date.to_string(), time: time.to_string() }
}

fn race(round: &str, name: &str, date: &str) -> RaceSchedule {
    RaceSchedule {
        race_name: name.to_string(),
        circuit_name: format!("{} Circuit", name),
        location: Location { locality: "Town".to_string(), country: "Land".to_string() },
        round: round.to_string(),
        free_practice1: session("2024-02-29", "11:30:00Z"),
        free_practice2: session("2024-02-29", "15:00:00Z"),
        free_practice3: Some(session("2024-03-01", "12:30:00Z")),
        qualy: session("2024-03-01", "16:00:00Z"),
        sprint: None,
        race: session(date, "15:00:00Z"),
    }
}

fn season(dates: &[&str]) -> Schedule {
    Schedule {
        races: dates
            .iter()
            .enumerate()
            .map(|(i, d)| race(&(i + 1).to_string(), &format!("Grand Prix {}", i + 1), d))
            .collect(),
    }
}

fn date(y: i32, m: u32, d: u32) -> CalendarDate {
    CalendarDate { year: y, month: m, day: d }
}

fn same_race(a: &RaceSchedule, b: &RaceSchedule) -> bool {
    let s = |x: &SessionTime, y: &SessionTime| x.date == y.date && x.time == y.time;
    let o = |x: &Option<SessionTime>, y: &Option<SessionTime>| match (x, y) {
        (Some(x), Some(y)) => s(x, y),
        (None, None) => true,
        _ => false,
    };
    a.race_name == b.race_name
        && a.circuit_name == b.circuit_name
        && a.location.locality == b.location.locality
        && a.location.country == b.location.country
        && a.round == b.round
        && s(&a.free_practice1, &b.free_practice1)
        && s(&a.free_practice2, &b.free_practice2)
        && o(&a.free_practice3, &b.free_practice3)
        && s(&a.qualy, &b.qualy)
        && o(&a.sprint, &b.sprint)
        && s(&a.race, &b.race)
}

fn member<'a>(node: &'a JsonNode, key: &str) -> &'a JsonNode {
    match node {
        JsonNode::Object(fields) => &fields.iter().find(|(k, _)| k == key).unwrap().1,
        _ => panic!("not an object"),
    }
}

fn text(node: &JsonNode) -> String {
    match node {
        JsonNode::Text(s) => s.clone(),
        _ => panic!("not a string"),
    }
}

#[test]
fn next_race_is_first_after_today() {
    let s = season(&["2024-03-02", "2024-03-24", "2024-04-07"]);
    let r = select_next(&s, date(2024, 3, 10));
    assert_eq!(r, Ok(1));
    assert_eq!(s.races[1].race.date, "2024-03-24");
}

#[test]
fn next_race_from_given_dates() {
    let dates = vec![Some(date(2024, 3, 2)), Some(date(2024, 3, 24)), Some(date(2024, 4, 7))];
    assert_eq!(first_upcoming(&dates, date(2024, 3, 10)), Ok(1));
    assert_eq!(first_upcoming(&dates, date(2024, 3, 24)), Ok(2));
    assert_eq!(first_upcoming(&dates, date(2023, 12, 31)), Ok(0));
}

#[test]
fn no_upcoming_race_when_all_dates_passed() {
    let s = season(&["2024-03-02", "2024-03-24", "2024-04-07"]);
    assert_eq!(select_next(&s, date(2024, 4, 7)), Err(ScheduleError::NoUpcomingRace));
    assert_eq!(select_next(&s, date(2025, 1, 1)), Err(ScheduleError::NoUpcomingRace));
    assert_eq!(select_next(&season(&[]), date(2024, 1, 1)), Err(ScheduleError::NoUpcomingRace));
}

#[test]
fn unreadable_race_date_is_malformed() {
    let s = season(&["2024-03-02", "March 24th", "2024-04-07"]);
    assert_eq!(select_next(&s, date(2024, 3, 10)), Err(ScheduleError::MalformedScheduleData));
    assert_eq!(select_next(&s, date(2024, 3, 1)), Ok(0));
    let dates = vec![Some(date(2024, 3, 2)), None];
    assert_eq!(first_upcoming(&dates, date(2024, 3, 10)), Err(ScheduleError::MalformedScheduleData));
}

#[test]
fn calendar_date_parse() {
    assert_eq!(CalendarDate::parse("2024-03-24"), Some(date(2024, 3, 24)));
    assert_eq!(CalendarDate::parse("2024-02-30"), None);
    assert_eq!(CalendarDate::parse("tomorrow"), None);
    assert!(date(2024, 3, 24).is_later_than(&date(2024, 3, 10)));
    assert!(!date(2024, 3, 10).is_later_than(&date(2024, 3, 10)));
    assert!(date(2025, 1, 1).is_later_than(&date(2024, 12, 31)));
}

fn wire_session(date: &str, time: Option<&str>) -> SessionSchedule {
    SessionSchedule { date: date.to_string(), time: time.map(|t| t.to_string()) }
}

fn wire_race() -> Race {
    Race {
        race_name: "Bahrain Grand Prix".to_string(),
        circuit: Circuit {
            circuit_name: "Bahrain International Circuit".to_string(),
            location: Location { locality: "Sakhir".to_string(), country: "Bahrain".to_string() },
        },
        round: "1".to_string(),
        date: "2024-03-02".to_string(),
        time: None,
        first_practice: wire_session("2024-02-29", Some("11:30:00Z")),
        second_practice: wire_session("2024-02-29", None),
        third_practice: Some(wire_session("2024-03-01", None)),
        qualifying: wire_session("2024-03-01", Some("16:00:00Z")),
        sprint: None,
    }
}

#[test]
fn missing_session_time_is_stored_as_tba() {
    let resp = SeasonByYearResponse {
        mr_data: MRData { race_table: RaceTable { races: vec![wire_race()] } },
    };
    let s = Schedule::from_response(&resp);
    assert_eq!(s.races.len(), 1);
    let r = &s.races[0];
    assert_eq!(r.race.time, "TBA");
    assert_eq!(r.race.date, "2024-03-02");
    assert_eq!(r.free_practice2.time, "TBA");
    assert_eq!(r.free_practice3.as_ref().unwrap().time, "TBA");
    assert_eq!(r.free_practice1.time, "11:30:00Z");
    assert_eq!(r.circuit_name, "Bahrain International Circuit");
    assert_eq!(r.location.locality, "Sakhir");
    assert!(r.sprint.is_none());
    let doc = s.to_json();
    let stored = &match member(&doc, "schedule") {
        JsonNode::List(items) => items,
        _ => panic!("schedule is not a list"),
    }[0];
    assert_eq!(text(member(member(stored, "race"), "time")), "TBA");
    assert_eq!(text(member(member(stored, "freePractice2"), "time")), "TBA");
    assert!(matches!(member(stored, "sprint"), JsonNode::Null));
}

#[test]
fn document_round_trip() {
    let mut s = season(&["2024-03-02", "2024-03-24"]);
    s.races[1].sprint = Some(session("2024-03-23", "TBA"));
    s.races[1].free_practice3 = None;
    let back = Schedule::from_json(&s.to_json()).ok().unwrap();
    assert_eq!(back.races.len(), 2);
    assert!(same_race(&back.races[0], &s.races[0]));
    assert!(same_race(&back.races[1], &s.races[1]));
}

#[test]
fn document_ignores_unknown_members() {
    let s = season(&["2024-03-02"]);
    let mut doc = s.to_json();
    if let JsonNode::Object(fields) = &mut doc {
        fields.insert(0, ("version".to_string(), JsonNode::Number("2".to_string())));
        if let JsonNode::List(items) = &mut fields[1].1 {
            if let JsonNode::Object(race) = &mut items[0] {
                race.push(("url".to_string(), JsonNode::Text("http://example.org".to_string())));
                race.push(("raceName".to_string(), JsonNode::Bool(true)));
            }
        }
    }
    let back = Schedule::from_json(&doc).ok().unwrap();
    assert!(same_race(&back.races[0], &s.races[0]));
}

#[test]
fn malformed_document_is_rejected() {
    assert!(matches!(
        Schedule::from_json(&JsonNode::Null),
        Err(ScheduleError::MalformedScheduleData)
    ));
    let mut s = season(&["2024-03-02"]);
    s.races[0].race.date = "soon".to_string();
    assert!(matches!(
        Schedule::from_json(&s.to_json()),
        Err(ScheduleError::MalformedScheduleData)
    ));
    let mut s = season(&["2024-03-02"]);
    s.races[0].round = String::new();
    assert!(matches!(
        Schedule::from_json(&s.to_json()),
        Err(ScheduleError::MalformedScheduleData)
    ));
    let empty = JsonNode::Object(vec![("schedule".to_string(), JsonNode::List(vec![]))]);
    assert_eq!(Schedule::from_json(&empty).ok().unwrap().races.len(), 0);
}

#[test]
fn diff_of_identical_schedules_is_empty() {
    let s = season(&["2024-03-02", "2024-03-24", "2024-04-07"]);
    assert!(diff(&s, &s).is_empty());
}

#[test]
fn diff_reports_single_changed_field() {
    let old = season(&["2024-03-02", "2024-03-24"]);
    let mut new = season(&["2024-03-02", "2024-03-24"]);
    new.races[1].qualy.time = "14:00:00Z".to_string();
    let changes = diff(&old, &new);
    assert_eq!(changes.len(), 1);
    match &changes[0] {
        ScheduleChange::Field(c) => {
            assert_eq!(c.race_round, "2");
            assert_eq!(c.race_name, "Grand Prix 2");
            assert_eq!(c.field_name, "qualy.time");
            assert_eq!(c.old_value, "16:00:00Z");
            assert_eq!(c.new_value, "14:00:00Z");
        }
        _ => panic!("expected a field change"),
    }
}

#[test]
fn diff_reports_optional_session_appearing() {
    let old = season(&["2024-03-02"]);
    let mut new = season(&["2024-03-02"]);
    new.races[0].sprint = Some(session("2024-03-01", "TBA"));
    let changes = diff(&old, &new);
    assert_eq!(changes.len(), 2);
    match (&changes[0], &changes[1]) {
        (ScheduleChange::Field(a), ScheduleChange::Field(b)) => {
            assert_eq!(a.field_name, "sprint.date");
            assert_eq!(a.old_value, "null");
            assert_eq!(a.new_value, "2024-03-01");
            assert_eq!(b.field_name, "sprint.time");
            assert_eq!(b.new_value, "TBA");
        }
        _ => panic!("expected field changes"),
    }
}

#[test]
fn diff_reports_added_race() {
    let old = season(&["2024-03-02"]);
    let mut new = season(&["2024-03-02", "2024-03-24"]);
    new.races[0].location.country = "Elsewhere".to_string();
    let changes = diff(&old, &new);
    assert_eq!(changes.len(), 2);
    match &changes[0] {
        ScheduleChange::Field(c) => {
            assert_eq!(c.field_name, "location.country");
            assert_eq!(c.old_value, "Land");
            assert_eq!(c.new_value, "Elsewhere");
        }
        _ => panic!("expected a field change"),
    }
    match &changes[1] {
        ScheduleChange::Added { round, race_name } => {
            assert_eq!(round, "2");
            assert_eq!(race_name, "Grand Prix 2");
        }
        _ => panic!("expected an added race"),
    }
}

#[test]
fn diff_ignores_removed_races() {
    let old = season(&["2024-03-02", "2024-03-24"]);
    let new = season(&["2024-03-02"]);
    assert!(diff(&old, &new).is_empty());
}

#[test]
fn file_name_and_url_of_year() {
    assert_eq!(schedule_file_name("2024"), "schedule-2024.json");
    assert_eq!(schedule_api_url("2023"), "https://ergast.com/api/f1/2023/races.json");
}

#[test]
fn update_plan_by_stored_state() {
    let fresh = season(&["2024-03-02", "2024-03-24"]);
    assert!(plan_update(&None, &fresh).ok().unwrap().is_empty());
    let stale = Some(Ok(season(&["2024-03-02"])));
    let changes = plan_update(&stale, &fresh).ok().unwrap();
    assert_eq!(changes.len(), 1);
    assert!(matches!(&changes[0], ScheduleChange::Added { round, .. } if round == "2"));
    let broken = Some(Err(ScheduleError::MalformedScheduleData));
    assert!(matches!(plan_update(&broken, &fresh), Err(ScheduleError::MalformedScheduleData)));
}

#[test]
fn standard_store_paths() {
    let paths = StorePaths::standard();
    assert_eq!(paths.config_path, "config.json");
    assert_eq!(paths.recipients_path, "recipients.json");
    assert_eq!(paths.schedule_file("2024"), schedule_file_name("2024"));
}

#[test]
fn validation_of_fetched_schedule() {
    let good = season(&["2024-03-02", "2024-03-24"]);
    assert_eq!(good.validate(), Ok(()));
    let mut no_name = season(&["2024-03-02"]);
    no_name.races[0].race_name = String::new();
    assert_eq!(no_name.validate(), Err(ScheduleError::MalformedScheduleData));
    let mut bad_sprint = season(&["2024-03-02"]);
    bad_sprint.races[0].sprint = Some(session("03/01/2024", "TBA"));
    assert_eq!(bad_sprint.validate(), Err(ScheduleError::MalformedScheduleData));
    assert!(matches!(
        plan_update(&None, &bad_sprint),
        Err(ScheduleError::MalformedScheduleData)
    ));
}
