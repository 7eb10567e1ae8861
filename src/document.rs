use vstd::prelude::*;

use crate::calendar::{CalendarDate, parsed_date};
use crate::model::{
    Location, RaceSchedule, Schedule, ScheduleError, SessionTime, render,
};

verus! {

broadcast use vstd::std_specs::vec::axiom_vec_decreases_to_view, vstd::seq::axiom_seq_index_decreases;

/// A JSON value, as the stored schedule document is made of. Numbers are
/// kept as their text.
pub enum JsonNode {
    Null,
    Bool(bool),
    Number(String),
    Text(String),
    List(Vec<JsonNode>),
    Object(Vec<(String, JsonNode)>),
}

/// Abstract form of a [`JsonNode`].
pub enum JsonTree {
    Null,
    Bool(bool),
    Number(Seq<char>),
    Text(Seq<char>),
    List(Seq<JsonTree>),
    Object(Seq<(Seq<char>, JsonTree)>),
}

pub open spec fn node_view(n: JsonNode) -> JsonTree
    decreases n,
{
    match n {
        JsonNode::Null => JsonTree::Null,
        JsonNode::Bool(b) => JsonTree::Bool(b),
        JsonNode::Number(s) => JsonTree::Number(s@),
        JsonNode::Text(s) => JsonTree::Text(s@),
        JsonNode::List(v) => JsonTree::List(
            Seq::new(
                v@.len(),
                |i: int|
                    if 0 <= i < v@.len() {
                        node_view(v@[i])
                    } else {
                        JsonTree::Null
                    },
            ),
        ),
        JsonNode::Object(v) => JsonTree::Object(
            Seq::new(
                v@.len(),
                |i: int|
                    if 0 <= i < v@.len() {
                        (v@[i].0@, node_view(v@[i].1))
                    } else {
                        (Seq::empty(), JsonTree::Null)
                    },
            ),
        ),
    }
}

impl View for JsonNode {
    type V = JsonTree;

    open spec fn view(&self) -> JsonTree {
        node_view(*self)
    }
}

pub open spec fn text_tree(v: Option<Seq<char>>) -> JsonTree {
    JsonTree::Text(render(v))
}

/// A session object: its date and time.
pub open spec fn session_tree(date: Option<Seq<char>>, time: Option<Seq<char>>) -> JsonTree {
    JsonTree::Object(seq![("date"@, text_tree(date)), ("time"@, text_tree(time))])
}

/// An optional session: `null` where the session is absent.
pub open spec fn optional_session_tree(date: Option<Seq<char>>, time: Option<Seq<char>>) -> JsonTree {
    if date is None {
        JsonTree::Null
    } else {
        session_tree(date, time)
    }
}

/// The stored object of a race, given by its leaf values.
pub open spec fn race_tree(r: Seq<Option<Seq<char>>>) -> JsonTree {
    JsonTree::Object(
        seq![
            ("raceName"@, text_tree(r[0])),
            ("circuitName"@, text_tree(r[1])),
            ("location"@, JsonTree::Object(seq![("locality"@, text_tree(r[2])), ("country"@, text_tree(r[3]))])),
            ("round"@, text_tree(r[4])),
            ("freePractice1"@, session_tree(r[5], r[6])),
            ("freePractice2"@, session_tree(r[7], r[8])),
            ("freePractice3"@, optional_session_tree(r[9], r[10])),
            ("qualy"@, session_tree(r[11], r[12])),
            ("sprint"@, optional_session_tree(r[13], r[14])),
            ("race"@, session_tree(r[15], r[16])),
        ],
    )
}

/// The stored document of a schedule: an object whose `schedule` key holds
/// the races in round order.
pub open spec fn schedule_tree(s: Seq<Seq<Option<Seq<char>>>>) -> JsonTree {
    JsonTree::Object(
        seq![("schedule"@, JsonTree::List(Seq::new(s.len(), |i: int| race_tree(s[i]))))],
    )
}

fn text_node(s: &String) -> (r: JsonNode)
    ensures
        r@ == JsonTree::Text(s@),
{
    JsonNode::Text(s.clone())
}

fn object_node(fields: Vec<(String, JsonNode)>, Ghost(t): Ghost<Seq<(Seq<char>, JsonTree)>>) -> (r: JsonNode)
    requires
        fields@.len() == t.len(),
        forall|i: int| 0 <= i < t.len() ==> (#[trigger] fields@[i]).0@ == t[i].0 && fields@[i].1@ == t[i].1,
    ensures
        r@ == JsonTree::Object(t),
{
    let r = JsonNode::Object(fields);
    assert(r@ == JsonTree::Object(t)) by {
        if let JsonNode::Object(v) = r {
            if let JsonTree::Object(u) = r@ {
                assert(u =~= t);
            }
        }
    }
    r
}

fn session_node(s: &SessionTime) -> (r: JsonNode)
    ensures
        r@ == session_tree(Some(s.date@), Some(s.time@)),
{
    let fields = vec![(String::from_str("date"), text_node(&s.date)), (String::from_str("time"), text_node(&s.time))];
    let ghost t = seq![("date"@, text_tree(Some(s.date@))), ("time"@, text_tree(Some(s.time@)))];
    object_node(fields, Ghost(t))
}

fn optional_session_node(s: &Option<SessionTime>) -> (r: JsonNode)
    ensures
        r@ == optional_session_tree(crate::model::session_date(*s), crate::model::session_time(*s)),
{
    match s {
        Some(t) => session_node(t),
        None => JsonNode::Null,
    }
}

impl RaceSchedule {
    /// The stored object of this race.
    pub fn to_json(&self) -> (r: JsonNode)
        ensures
            r@ == race_tree(self@),
    {
        let loc = vec![
            (String::from_str("locality"), text_node(&self.location.locality)),
            (String::from_str("country"), text_node(&self.location.country)),
        ];
        let ghost lt = seq![("locality"@, text_tree(self@[2])), ("country"@, text_tree(self@[3]))];
        let loc = object_node(loc, Ghost(lt));
        let fields = vec![
            (String::from_str("raceName"), text_node(&self.race_name)),
            (String::from_str("circuitName"), text_node(&self.circuit_name)),
            (String::from_str("location"), loc),
            (String::from_str("round"), text_node(&self.round)),
            (String::from_str("freePractice1"), session_node(&self.free_practice1)),
            (String::from_str("freePractice2"), session_node(&self.free_practice2)),
            (String::from_str("freePractice3"), optional_session_node(&self.free_practice3)),
            (String::from_str("qualy"), session_node(&self.qualy)),
            (String::from_str("sprint"), optional_session_node(&self.sprint)),
            (String::from_str("race"), session_node(&self.race)),
        ];
        let ghost r = self@;
        let ghost t =
            seq![
                ("raceName"@, text_tree(r[0])),
                ("circuitName"@, text_tree(r[1])),
                ("location"@, JsonTree::Object(seq![("locality"@, text_tree(r[2])), ("country"@, text_tree(r[3]))])),
                ("round"@, text_tree(r[4])),
                ("freePractice1"@, session_tree(r[5], r[6])),
                ("freePractice2"@, session_tree(r[7], r[8])),
                ("freePractice3"@, optional_session_tree(r[9], r[10])),
                ("qualy"@, session_tree(r[11], r[12])),
                ("sprint"@, optional_session_tree(r[13], r[14])),
                ("race"@, session_tree(r[15], r[16])),
            ];
        object_node(fields, Ghost(t))
    }
}

impl Schedule {
    /// The stored document of this schedule.
    pub fn to_json(&self) -> (r: JsonNode)
        ensures
            r@ == schedule_tree(self@),
    {
        let mut items: Vec<JsonNode> = Vec::new();
        let mut i: usize = 0;
        while i < self.races.len()
            invariant
                i <= self.races@.len(),
                items@.len() == i,
                forall|j: int| 0 <= j < i ==> (#[trigger] items@[j])@ == race_tree(self@[j]),
            decreases self.races@.len() - i,
        {
            items.push(self.races[i].to_json());
            i = i + 1;
        }
        let list = JsonNode::List(items);
        assert(list@ == JsonTree::List(Seq::new(self@.len(), |i: int| race_tree(self@[i])))) by {
            if let JsonTree::List(u) = list@ {
                assert(u =~= Seq::new(self@.len(), |i: int| race_tree(self@[i])));
            }
        }
        let fields = vec![(String::from_str("schedule"), list)];
        let ghost t = seq![("schedule"@, JsonTree::List(Seq::new(self@.len(), |i: int| race_tree(self@[i]))))];
        object_node(fields, Ghost(t))
    }
}

/// The value under `key` among `fields` from position `i` on: the first
/// match wins, and keys not asked for are passed over.
pub open spec fn lookup_from(fields: Seq<(Seq<char>, JsonTree)>, key: Seq<char>, i: int) -> Option<JsonTree>
    decreases fields.len() - i,
{
    if i < 0 || i >= fields.len() {
        None
    } else if fields[i].0 == key {
        Some(fields[i].1)
    } else {
        lookup_from(fields, key, i + 1)
    }
}

/// The member `key` of an object; `None` for a missing key or a non-object.
pub open spec fn member(obj: JsonTree, key: Seq<char>) -> Option<JsonTree> {
    match obj {
        JsonTree::Object(f) => lookup_from(f, key, 0),
        _ => None,
    }
}

/// The member `key` of an object where it is a string.
pub open spec fn text_member(obj: JsonTree, key: Seq<char>) -> Option<Seq<char>> {
    match member(obj, key) {
        Some(JsonTree::Text(s)) => Some(s),
        _ => None,
    }
}

/// A session object read as its date and time.
pub open spec fn read_session(obj: Option<JsonTree>) -> Option<(Seq<char>, Seq<char>)> {
    match obj {
        Some(o) => match (text_member(o, "date"@), text_member(o, "time"@)) {
            (Some(d), Some(t)) => Some((d, t)),
            _ => None,
        },
        None => None,
    }
}

/// An optional session: a missing member or `null` reads as no session.
pub open spec fn read_optional_session(obj: Option<JsonTree>) -> Option<Option<(Seq<char>, Seq<char>)>> {
    match obj {
        None => Some(None),
        Some(JsonTree::Null) => Some(None),
        Some(o) => match read_session(Some(o)) {
            Some(p) => Some(Some(p)),
            None => None,
        },
    }
}

pub open spec fn session_leaves(p: Option<(Seq<char>, Seq<char>)>) -> Seq<Option<Seq<char>>> {
    match p {
        Some((d, t)) => seq![Some(d), Some(t)],
        None => seq![None, None],
    }
}

/// The date leaves of a race: practices, qualifying, sprint and race.
pub open spec fn is_date_leaf(k: int) -> bool {
    k == 5 || k == 7 || k == 9 || k == 11 || k == 13 || k == 15
}

/// A race whose required text fields are non-empty and whose session dates
/// are calendar dates.
pub open spec fn valid_race(r: Seq<Option<Seq<char>>>) -> bool {
    &&& forall|k: int| 0 <= k < 5 ==> (#[trigger] r[k] matches Some(s) && s.len() > 0)
    &&& forall|k: int| #[trigger] is_date_leaf(k) ==> (r[k] matches Some(s) ==> parsed_date(s) is Some)
}

/// A schedule all of whose races are valid.
pub open spec fn valid_schedule(s: Seq<Seq<Option<Seq<char>>>>) -> bool {
    forall|i: int| 0 <= i < s.len() ==> valid_race(#[trigger] s[i])
}

/// The text members of a race object: name, circuit, locality, country, round.
pub open spec fn race_text_fields(o: JsonTree) -> Seq<Option<Seq<char>>> {
    let loc = member(o, "location"@);
    seq![
        text_member(o, "raceName"@),
        text_member(o, "circuitName"@),
        if loc is Some { text_member(loc->Some_0, "locality"@) } else { None },
        if loc is Some { text_member(loc->Some_0, "country"@) } else { None },
        text_member(o, "round"@),
    ]
}

/// A race object read as the leaf values of a race; `None` where a member
/// is missing or of the wrong kind, or the race is not valid.
pub open spec fn decode_race(o: JsonTree) -> Option<Seq<Option<Seq<char>>>> {
    let fields = race_text_fields(o);
    let fp1 = read_session(member(o, "freePractice1"@));
    let fp2 = read_session(member(o, "freePractice2"@));
    let fp3 = read_optional_session(member(o, "freePractice3"@));
    let q = read_session(member(o, "qualy"@));
    let sp = read_optional_session(member(o, "sprint"@));
    let rc = read_session(member(o, "race"@));
    if (forall|k: int| 0 <= k < 5 ==> #[trigger] fields[k] is Some) && fp1 is Some && fp2 is Some
        && fp3 is Some && q is Some && sp is Some && rc is Some {
        let r = Seq::new(5, |k: int| fields[k]) + session_leaves(fp1) + session_leaves(fp2)
            + session_leaves(fp3->Some_0) + session_leaves(q) + session_leaves(sp->Some_0)
            + session_leaves(rc);
        if valid_race(r) {
            Some(r)
        } else {
            None
        }
    } else {
        None
    }
}

/// The races of a stored document, in order; `None` where the document has
/// no `schedule` list or one of its races cannot be read.
pub open spec fn decode_schedule(doc: JsonTree) -> Option<Seq<Seq<Option<Seq<char>>>>> {
    match member(doc, "schedule"@) {
        Some(JsonTree::List(items)) => if forall|i: int| 0 <= i < items.len() ==> (#[trigger] decode_race(items[i])) is Some {
            Some(Seq::new(items.len(), |i: int| decode_race(items[i])->Some_0))
        } else {
            None
        },
        _ => None,
    }
}

proof fn lemma_lookup_at(f: Seq<(Seq<char>, JsonTree)>, key: Seq<char>, p: int, i: int)
    requires
        0 <= i <= p < f.len(),
        f[p].0 == key,
        forall|q: int| 0 <= q < p ==> (#[trigger] f[q]).0 != key,
    ensures
        lookup_from(f, key, i) == Some(f[p].1),
    decreases p - i,
{
    if i < p {
        lemma_lookup_at(f, key, p, i + 1);
    }
}

proof fn lemma_session_round_trip(d: Seq<char>, t: Seq<char>)
    ensures
        read_session(Some(session_tree(Some(d), Some(t)))) == Some((d, t)),
{
    reveal_strlit("date");
    reveal_strlit("time");
    assert("date"@[0] != "time"@[0]);
    let f = seq![("date"@, text_tree(Some(d))), ("time"@, text_tree(Some(t)))];
    lemma_lookup_at(f, "date"@, 0, 0);
    lemma_lookup_at(f, "time"@, 1, 0);
}

proof fn lemma_optional_session_round_trip(d: Option<Seq<char>>, t: Option<Seq<char>>)
    requires
        d is Some <==> t is Some,
    ensures
        session_leaves(read_optional_session(Some(optional_session_tree(d, t)))->Some_0) == seq![d, t],
        read_optional_session(Some(optional_session_tree(d, t))) is Some,
{
    if d is Some {
        lemma_session_round_trip(d->Some_0, t->Some_0);
    }
}

/// Each member of a race's stored object, found by its key.
pub proof fn lemma_race_tree_members(r: Seq<Option<Seq<char>>>)
    ensures
        member(race_tree(r), "raceName"@) == Some(text_tree(r[0])),
        member(race_tree(r), "circuitName"@) == Some(text_tree(r[1])),
        member(race_tree(r), "location"@) == Some(
            JsonTree::Object(seq![("locality"@, text_tree(r[2])), ("country"@, text_tree(r[3]))]),
        ),
        text_member(member(race_tree(r), "location"@)->Some_0, "locality"@) == Some(render(r[2])),
        text_member(member(race_tree(r), "location"@)->Some_0, "country"@) == Some(render(r[3])),
        member(race_tree(r), "round"@) == Some(text_tree(r[4])),
        member(race_tree(r), "freePractice1"@) == Some(session_tree(r[5], r[6])),
        member(race_tree(r), "freePractice2"@) == Some(session_tree(r[7], r[8])),
        member(race_tree(r), "freePractice3"@) == Some(optional_session_tree(r[9], r[10])),
        member(race_tree(r), "qualy"@) == Some(session_tree(r[11], r[12])),
        member(race_tree(r), "sprint"@) == Some(optional_session_tree(r[13], r[14])),
        member(race_tree(r), "race"@) == Some(session_tree(r[15], r[16])),
{
    reveal_strlit("raceName");
    reveal_strlit("circuitName");
    reveal_strlit("location");
    reveal_strlit("round");
    reveal_strlit("freePractice1");
    reveal_strlit("freePractice2");
    reveal_strlit("freePractice3");
    reveal_strlit("qualy");
    reveal_strlit("sprint");
    reveal_strlit("race");
    reveal_strlit("locality");
    reveal_strlit("country");
    assert("raceName"@.len() == 8 && "circuitName"@.len() == 11 && "location"@.len() == 8);
    assert("round"@.len() == 5 && "freePractice1"@.len() == 13 && "freePractice2"@.len() == 13);
    assert("freePractice3"@.len() == 13 && "qualy"@.len() == 5 && "sprint"@.len() == 6);
    assert("race"@.len() == 4 && "locality"@.len() == 8 && "country"@.len() == 7);
    assert("raceName"@[0] != "location"@[0] && "round"@[0] != "qualy"@[0]);
    assert("freePractice1"@[12] != "freePractice2"@[12] && "freePractice1"@[12] != "freePractice3"@[12]);
    assert("freePractice2"@[12] != "freePractice3"@[12]);
    let o = race_tree(r);
    let f = seq![
        ("raceName"@, text_tree(r[0])),
        ("circuitName"@, text_tree(r[1])),
        ("location"@, JsonTree::Object(seq![("locality"@, text_tree(r[2])), ("country"@, text_tree(r[3]))])),
        ("round"@, text_tree(r[4])),
        ("freePractice1"@, session_tree(r[5], r[6])),
        ("freePractice2"@, session_tree(r[7], r[8])),
        ("freePractice3"@, optional_session_tree(r[9], r[10])),
        ("qualy"@, session_tree(r[11], r[12])),
        ("sprint"@, optional_session_tree(r[13], r[14])),
        ("race"@, session_tree(r[15], r[16])),
    ];
    assert(o == JsonTree::Object(f));
    lemma_lookup_at(f, "raceName"@, 0, 0);
    lemma_lookup_at(f, "circuitName"@, 1, 0);
    lemma_lookup_at(f, "location"@, 2, 0);
    lemma_lookup_at(f, "round"@, 3, 0);
    lemma_lookup_at(f, "freePractice1"@, 4, 0);
    lemma_lookup_at(f, "freePractice2"@, 5, 0);
    lemma_lookup_at(f, "freePractice3"@, 6, 0);
    lemma_lookup_at(f, "qualy"@, 7, 0);
    lemma_lookup_at(f, "sprint"@, 8, 0);
    lemma_lookup_at(f, "race"@, 9, 0);
    let lf = seq![("locality"@, text_tree(r[2])), ("country"@, text_tree(r[3]))];
    lemma_lookup_at(lf, "locality"@, 0, 0);
    lemma_lookup_at(lf, "country"@, 1, 0);
}

/// The `time` member of a session object reads as the session's time text.
pub proof fn lemma_session_time_member(date: Option<Seq<char>>, time: Option<Seq<char>>)
    ensures
        text_member(session_tree(date, time), "time"@) == Some(render(time)),
        text_member(session_tree(date, time), "date"@) == Some(render(date)),
{
    reveal_strlit("date");
    reveal_strlit("time");
    assert("date"@[0] != "time"@[0]);
    let f = seq![("date"@, text_tree(date)), ("time"@, text_tree(time))];
    lemma_lookup_at(f, "date"@, 0, 0);
    lemma_lookup_at(f, "time"@, 1, 0);
}


/// Reading back the stored object of a valid race gives the race.
proof fn lemma_race_round_trip(x: RaceSchedule)
    requires
        valid_race(x@),
    ensures
        decode_race(race_tree(x@)) == Some(x@),
{
    let r = x@;
    lemma_race_tree_members(r);
    let o = race_tree(r);
    assert(r[0] == Some(x.race_name@));
    assert(r[1] == Some(x.circuit_name@));
    assert(r[2] == Some(x.location.locality@));
    assert(r[3] == Some(x.location.country@));
    assert(r[4] == Some(x.round@));
    lemma_session_round_trip(x.free_practice1.date@, x.free_practice1.time@);
    lemma_session_round_trip(x.free_practice2.date@, x.free_practice2.time@);
    lemma_session_round_trip(x.qualy.date@, x.qualy.time@);
    lemma_session_round_trip(x.race.date@, x.race.time@);
    lemma_optional_session_round_trip(r[9], r[10]);
    lemma_optional_session_round_trip(r[13], r[14]);
    let fields = race_text_fields(o);
    assert(forall|k: int| 0 <= k < 5 ==> #[trigger] fields[k] == r[k]);
    let fp3 = read_optional_session(member(o, "freePractice3"@));
    let sp = read_optional_session(member(o, "sprint"@));
    let d = Seq::new(5, |k: int| fields[k]) + session_leaves(read_session(member(o, "freePractice1"@)))
        + session_leaves(read_session(member(o, "freePractice2"@))) + session_leaves(fp3->Some_0)
        + session_leaves(read_session(member(o, "qualy"@))) + session_leaves(sp->Some_0)
        + session_leaves(read_session(member(o, "race"@)));
    assert(d =~= r);
}

/// Reading back the stored document of a valid schedule gives the schedule.
pub proof fn lemma_document_round_trip(s: Schedule)
    requires
        valid_schedule(s@),
    ensures
        decode_schedule(schedule_tree(s@)) == Some(s@),
{
    reveal_strlit("schedule");
    let items = Seq::new(s@.len(), |i: int| race_tree(s@[i]));
    let f = seq![("schedule"@, JsonTree::List(items))];
    lemma_lookup_at(f, "schedule"@, 0, 0);
    assert forall|i: int| 0 <= i < items.len() implies #[trigger] decode_race(items[i]) == Some(s@[i]) by {
        assert(s@[i] == s.races@[i]@);
        lemma_race_round_trip(s.races@[i]);
    }
    assert(Seq::new(items.len(), |i: int| decode_race(items[i])->Some_0) =~= s@);
}

pub open spec fn node_opt(o: Option<&JsonNode>) -> Option<JsonTree> {
    match o {
        Some(n) => Some(n@),
        None => None,
    }
}

/// The member `key` of an object node.
pub fn member_of<'a>(obj: &'a JsonNode, key: &str) -> (r: Option<&'a JsonNode>)
    ensures
        node_opt(r) == member(obj@, key@),
{
    match obj {
        JsonNode::Object(v) => {
            let ghost f = match obj@ {
                JsonTree::Object(f) => f,
                _ => Seq::empty(),
            };
            assert(f.len() == v@.len());
            assert(forall|j: int| 0 <= j < v@.len() ==> #[trigger] f[j] == (v@[j].0@, node_view(v@[j].1)));
            let k = String::from_str(key);
            let mut i: usize = 0;
            while i < v.len()
                invariant
                    i <= v@.len(),
                    f.len() == v@.len(),
                    k@ == key@,
                    forall|j: int| 0 <= j < v@.len() ==> #[trigger] f[j] == (v@[j].0@, node_view(v@[j].1)),
                    lookup_from(f, key@, 0) == lookup_from(f, key@, i as int),
                    obj@ == JsonTree::Object(f),
                decreases v@.len() - i,
            {
                if v[i].0.eq(&k) {
                    return Some(&v[i].1);
                }
                i = i + 1;
            }
            None
        },
        _ => None,
    }
}

/// The member `key` of an object node where it is a string.
pub fn text_member_of(obj: &JsonNode, key: &str) -> (r: Option<String>)
    ensures
        r.deep_view() == text_member(obj@, key@),
{
    match member_of(obj, key) {
        Some(JsonNode::Text(s)) => Some(s.clone()),
        _ => None,
    }
}

fn read_session_of(obj: Option<&JsonNode>) -> (r: Option<SessionTime>)
    ensures
        match r {
            Some(st) => read_session(node_opt(obj)) == Some((st.date@, st.time@)),
            None => read_session(node_opt(obj)) is None,
        },
{
    match obj {
        Some(o) => {
            let d = text_member_of(o, "date");
            let t = text_member_of(o, "time");
            match (d, t) {
                (Some(d), Some(t)) => Some(SessionTime { date: d, time: t }),
                _ => None,
            }
        },
        None => None,
    }
}

fn read_optional_session_of(obj: Option<&JsonNode>) -> (r: Option<Option<SessionTime>>)
    ensures
        match r {
            Some(Some(st)) => read_optional_session(node_opt(obj)) == Some(Some((st.date@, st.time@))),
            Some(None) => read_optional_session(node_opt(obj)) == Some(None::<(Seq<char>, Seq<char>)>),
            None => read_optional_session(node_opt(obj)) is None,
        },
{
    match obj {
        None => Some(None),
        Some(JsonNode::Null) => Some(None),
        Some(o) => {
            assert(o@ != JsonTree::Null);
            match read_session_of(Some(o)) {
                Some(st) => Some(Some(st)),
                None => None,
            }
        },
    }
}

fn text_present(s: &String) -> (r: bool)
    ensures
        r == (s@.len() > 0),
{
    !s.as_str().is_empty()
}

fn date_readable(s: &String) -> (r: bool)
    ensures
        r == (parsed_date(s@) is Some),
{
    CalendarDate::parse(s.as_str()).is_some()
}

fn optional_date_readable(s: &Option<SessionTime>) -> (r: bool)
    ensures
        r == (crate::model::session_date(*s) matches Some(d) ==> parsed_date(d) is Some),
{
    match s {
        Some(t) => date_readable(&t.date),
        None => true,
    }
}

impl RaceSchedule {
    /// Whether the race is valid: required text fields non-empty, session
    /// dates readable as calendar dates.
    pub fn is_valid(&self) -> (r: bool)
        ensures
            r == valid_race(self@),
    {
        let r = text_present(&self.race_name) && text_present(&self.circuit_name) && text_present(
            &self.location.locality,
        ) && text_present(&self.location.country) && text_present(&self.round) && date_readable(
            &self.free_practice1.date,
        ) && date_readable(&self.free_practice2.date) && optional_date_readable(
            &self.free_practice3,
        ) && date_readable(&self.qualy.date) && optional_date_readable(&self.sprint)
            && date_readable(&self.race.date);
        proof {
            let v = self@;
            if r {
                assert forall|k: int| #[trigger] is_date_leaf(k) implies (v[k] matches Some(s)
                    ==> parsed_date(s) is Some) by {}
            } else {
                if (forall|k: int| 0 <= k < 5 ==> (#[trigger] v[k] matches Some(s) && s.len() > 0)) {
                    assert(v[0] matches Some(s) && s.len() > 0);
                    assert(v[1] matches Some(s) && s.len() > 0);
                    assert(v[2] matches Some(s) && s.len() > 0);
                    assert(v[3] matches Some(s) && s.len() > 0);
                    assert(v[4] matches Some(s) && s.len() > 0);
                    assert(is_date_leaf(5) && is_date_leaf(7) && is_date_leaf(9));
                    assert(is_date_leaf(11) && is_date_leaf(13) && is_date_leaf(15));
                }
            }
        }
        r
    }

    /// Reads a race from its stored object; `None` where a member is
    /// missing or of the wrong kind, or the race read is not valid.
    pub fn from_json(o: &JsonNode) -> (r: Option<RaceSchedule>)
        ensures
            match decode_race(o@) {
                Some(v) => (r matches Some(x) && x@ == v),
                None => r is None,
            },
    {
        let loc = member_of(o, "location");
        let locality = match loc {
            Some(l) => text_member_of(l, "locality"),
            None => None,
        };
        let country = match loc {
            Some(l) => text_member_of(l, "country"),
            None => None,
        };
        let name = text_member_of(o, "raceName");
        let circuit = text_member_of(o, "circuitName");
        let round = text_member_of(o, "round");
        let fp1 = read_session_of(member_of(o, "freePractice1"));
        let fp2 = read_session_of(member_of(o, "freePractice2"));
        let fp3 = read_optional_session_of(member_of(o, "freePractice3"));
        let q = read_session_of(member_of(o, "qualy"));
        let sp = read_optional_session_of(member_of(o, "sprint"));
        let rc = read_session_of(member_of(o, "race"));
        let ghost fields = race_text_fields(o@);
        let ghost all_some = name is Some && circuit is Some && locality is Some && country is Some
            && round is Some && fp1 is Some && fp2 is Some && fp3 is Some && q is Some && sp is Some
            && rc is Some;
        proof {
            if decode_race(o@) is Some {
                assert(fields[0] is Some && fields[1] is Some && fields[2] is Some);
                assert(fields[3] is Some && fields[4] is Some);
                assert(all_some);
            }
        }
        match (name, circuit, locality, country, round, fp1, fp2, fp3, q, sp, rc) {
            (
                Some(name),
                Some(circuit),
                Some(locality),
                Some(country),
                Some(round),
                Some(fp1),
                Some(fp2),
                Some(fp3),
                Some(q),
                Some(sp),
                Some(rc),
            ) => {
                let x = RaceSchedule {
                    race_name: name,
                    circuit_name: circuit,
                    location: Location { locality, country },
                    round,
                    free_practice1: fp1,
                    free_practice2: fp2,
                    free_practice3: fp3,
                    qualy: q,
                    sprint: sp,
                    race: rc,
                };
                proof {
                    assert(forall|k: int| 0 <= k < 5 ==> #[trigger] fields[k] is Some);
                    let d = Seq::new(5, |k: int| fields[k]) + session_leaves(
                        read_session(member(o@, "freePractice1"@)),
                    ) + session_leaves(read_session(member(o@, "freePractice2"@)))
                        + session_leaves(read_optional_session(member(o@, "freePractice3"@))->Some_0)
                        + session_leaves(read_session(member(o@, "qualy"@))) + session_leaves(
                        read_optional_session(member(o@, "sprint"@))->Some_0,
                    ) + session_leaves(read_session(member(o@, "race"@)));
                    assert(d =~= x@);
                    assert(decode_race(o@) == (if valid_race(x@) { Some(x@) } else { None }));
                }
                if x.is_valid() {
                    Some(x)
                } else {
                    None
                }
            },
            _ => {
                assert(!all_some);
                None
            },
        }
    }
}

impl Schedule {
    /// Reads a schedule from its stored document. Fails with
    /// `MalformedScheduleData` where the document has no `schedule` list or
    /// one of its races cannot be read; other members are passed over.
    pub fn from_json(doc: &JsonNode) -> (r: Result<Schedule, ScheduleError>)
        ensures
            match decode_schedule(doc@) {
                Some(v) => (r matches Ok(s) && s@ == v),
                None => r == Err::<Schedule, ScheduleError>(ScheduleError::MalformedScheduleData),
            },
    {
        match member_of(doc, "schedule") {
            Some(JsonNode::List(items)) => {
                let ghost t = match member(doc@, "schedule"@) {
                    Some(JsonTree::List(t)) => t,
                    _ => Seq::empty(),
                };
                assert(t.len() == items@.len());
                assert(forall|j: int| 0 <= j < items@.len() ==> #[trigger] t[j] == node_view(items@[j]));
                let mut races: Vec<RaceSchedule> = Vec::new();
                let mut i: usize = 0;
                while i < items.len()
                    invariant
                        i <= items@.len(),
                        t.len() == items@.len(),
                        forall|j: int| 0 <= j < items@.len() ==> #[trigger] t[j] == node_view(items@[j]),
                        member(doc@, "schedule"@) == Some(JsonTree::List(t)),
                        races@.len() == i,
                        forall|j: int| 0 <= j < i ==> (#[trigger] decode_race(t[j])) is Some && races@[j]@ == decode_race(t[j])->Some_0,
                    decreases items@.len() - i,
                {
                    match RaceSchedule::from_json(&items[i]) {
                        Some(x) => {
                            races.push(x);
                        },
                        None => {
                            assert(decode_race(t[i as int]) is None);
                            return Err(ScheduleError::MalformedScheduleData);
                        },
                    }
                    i = i + 1;
                }
                let s = Schedule { races };
                assert(s@ =~= Seq::new(t.len(), |j: int| decode_race(t[j])->Some_0));
                Ok(s)
            },
            _ => Err(ScheduleError::MalformedScheduleData),
        }
    }
}

impl Schedule {
    /// Checks every race: required text fields non-empty, session dates
    /// readable. Fails with `MalformedScheduleData` exactly when some race
    /// is not valid.
    pub fn validate(&self) -> (r: Result<(), ScheduleError>)
        ensures
            valid_schedule(self@) ==> r == Ok::<(), ScheduleError>(()),
            !valid_schedule(self@) ==> r == Err::<(), ScheduleError>(ScheduleError::MalformedScheduleData),
    {
        let mut i: usize = 0;
        while i < self.races.len()
            invariant
                i <= self.races@.len(),
                forall|j: int| 0 <= j < i ==> valid_race(#[trigger] self@[j]),
            decreases self.races@.len() - i,
        {
            if !self.races[i].is_valid() {
                assert(self@[i as int] == self.races@[i as int]@);
                return Err(ScheduleError::MalformedScheduleData);
            }
            assert(self@[i as int] == self.races@[i as int]@);
            i = i + 1;
        }
        Ok(())
    }
}

} // verus!
