use vstd::prelude::*;

use crate::model::{LEAF_COUNT, RaceSchedule, Schedule, SessionTime, leaf_name, render};

verus! {

/// One changed leaf field of one race.
pub struct FieldChange {
    pub race_round: String,
    pub race_name: String,
    pub field_name: String,
    pub old_value: String,
    pub new_value: String,
}

/// One entry of a schedule comparison.
pub enum ScheduleChange {
    /// A race at a position the old schedule does not reach.
    Added { round: String, race_name: String },
    /// A leaf field that differs between the two versions of a race.
    Field(FieldChange),
}

/// Abstract form of a [`ScheduleChange`].
pub enum ChangeView {
    Added { round: Seq<char>, race_name: Seq<char> },
    Field {
        round: Seq<char>,
        race_name: Seq<char>,
        field_name: Seq<char>,
        old_value: Seq<char>,
        new_value: Seq<char>,
    },
}

impl View for ScheduleChange {
    type V = ChangeView;

    open spec fn view(&self) -> ChangeView {
        match self {
            ScheduleChange::Added { round, race_name } => ChangeView::Added {
                round: round@,
                race_name: race_name@,
            },
            ScheduleChange::Field(c) => ChangeView::Field {
                round: c.race_round@,
                race_name: c.race_name@,
                field_name: c.field_name@,
                old_value: c.old_value@,
                new_value: c.new_value@,
            },
        }
    }
}

pub open spec fn changes_view(v: Seq<ScheduleChange>) -> Seq<ChangeView> {
    v.map_values(|c: ScheduleChange| c@)
}

/// The change entry for leaf `k`, named after the newer race.
pub open spec fn field_change(o: Seq<Option<Seq<char>>>, n: Seq<Option<Seq<char>>>, k: int) -> ChangeView {
    ChangeView::Field {
        round: render(n[4]),
        race_name: render(n[0]),
        field_name: leaf_name(k),
        old_value: render(o[k]),
        new_value: render(n[k]),
    }
}

/// Changes among the first `k` leaves of two versions of a race, in leaf order.
pub open spec fn leaf_changes(o: Seq<Option<Seq<char>>>, n: Seq<Option<Seq<char>>>, k: nat) -> Seq<ChangeView>
    decreases k,
{
    if k == 0 {
        Seq::empty()
    } else {
        let prev = leaf_changes(o, n, (k - 1) as nat);
        if o[k - 1] != n[k - 1] {
            prev.push(field_change(o, n, k - 1))
        } else {
            prev
        }
    }
}

/// Entries for the race at position `i` of `new`.
pub open spec fn race_changes(
    old: Seq<Seq<Option<Seq<char>>>>,
    new: Seq<Seq<Option<Seq<char>>>>,
    i: int,
) -> Seq<ChangeView> {
    if i < old.len() {
        leaf_changes(old[i], new[i], LEAF_COUNT as nat)
    } else {
        seq![ChangeView::Added { round: render(new[i][4]), race_name: render(new[i][0]) }]
    }
}

/// Entries for the first `i` races of `new`.
pub open spec fn diff_upto(
    old: Seq<Seq<Option<Seq<char>>>>,
    new: Seq<Seq<Option<Seq<char>>>>,
    i: nat,
) -> Seq<ChangeView>
    decreases i,
{
    if i == 0 {
        Seq::empty()
    } else {
        diff_upto(old, new, (i - 1) as nat) + race_changes(old, new, i - 1)
    }
}

/// The comparison of two schedules: races of `new` by position, each either
/// added or compared leaf by leaf with the race at the same position of `old`.
pub open spec fn diff_spec(old: Seq<Seq<Option<Seq<char>>>>, new: Seq<Seq<Option<Seq<char>>>>) -> Seq<ChangeView> {
    diff_upto(old, new, new.len())
}

fn opt_clone(o: &Option<String>) -> (r: Option<String>)
    ensures
        r.deep_view() == o.deep_view(),
{
    match o {
        Some(s) => Some(s.clone()),
        None => None,
    }
}

fn session_date(s: &Option<SessionTime>) -> (r: Option<String>)
    ensures
        r.deep_view() == crate::model::session_date(*s),
{
    match s {
        Some(t) => Some(t.date.clone()),
        None => None,
    }
}

fn session_time(s: &Option<SessionTime>) -> (r: Option<String>)
    ensures
        r.deep_view() == crate::model::session_time(*s),
{
    match s {
        Some(t) => Some(t.time.clone()),
        None => None,
    }
}

/// The value of leaf `k` of a race.
pub fn leaf_value(r: &RaceSchedule, k: usize) -> (v: Option<String>)
    requires
        k < LEAF_COUNT,
    ensures
        v.deep_view() == r@[k as int],
{
    let v = if k == 0 {
        Some(r.race_name.clone())
    } else if k == 1 {
        Some(r.circuit_name.clone())
    } else if k == 2 {
        Some(r.location.locality.clone())
    } else if k == 3 {
        Some(r.location.country.clone())
    } else if k == 4 {
        Some(r.round.clone())
    } else if k == 5 {
        Some(r.free_practice1.date.clone())
    } else if k == 6 {
        Some(r.free_practice1.time.clone())
    } else if k == 7 {
        Some(r.free_practice2.date.clone())
    } else if k == 8 {
        Some(r.free_practice2.time.clone())
    } else if k == 9 {
        session_date(&r.free_practice3)
    } else if k == 10 {
        session_time(&r.free_practice3)
    } else if k == 11 {
        Some(r.qualy.date.clone())
    } else if k == 12 {
        Some(r.qualy.time.clone())
    } else if k == 13 {
        session_date(&r.sprint)
    } else if k == 14 {
        session_time(&r.sprint)
    } else if k == 15 {
        Some(r.race.date.clone())
    } else {
        Some(r.race.time.clone())
    };
    v
}

/// The name of leaf `k`.
pub fn leaf_field_name(k: usize) -> (s: String)
    requires
        k < LEAF_COUNT,
    ensures
        s@ == leaf_name(k as int),
{
    let n = if k == 0 {
        "raceName"
    } else if k == 1 {
        "circuitName"
    } else if k == 2 {
        "location.locality"
    } else if k == 3 {
        "location.country"
    } else if k == 4 {
        "round"
    } else if k == 5 {
        "freePractice1.date"
    } else if k == 6 {
        "freePractice1.time"
    } else if k == 7 {
        "freePractice2.date"
    } else if k == 8 {
        "freePractice2.time"
    } else if k == 9 {
        "freePractice3.date"
    } else if k == 10 {
        "freePractice3.time"
    } else if k == 11 {
        "qualy.date"
    } else if k == 12 {
        "qualy.time"
    } else if k == 13 {
        "sprint.date"
    } else if k == 14 {
        "sprint.time"
    } else if k == 15 {
        "race.date"
    } else {
        "race.time"
    };
    String::from_str(n)
}

fn render_value(o: &Option<String>) -> (s: String)
    ensures
        s@ == render(o.deep_view()),
{
    match o {
        Some(v) => v.clone(),
        None => String::from_str("null"),
    }
}

fn same_value(a: &Option<String>, b: &Option<String>) -> (r: bool)
    ensures
        r == (a.deep_view() == b.deep_view()),
{
    match (a, b) {
        (Some(x), Some(y)) => x.eq(y),
        (None, None) => true,
        _ => false,
    }
}

proof fn lemma_push_view(v: Seq<ScheduleChange>, c: ScheduleChange)
    ensures
        changes_view(v.push(c)) == changes_view(v).push(c@),
{
    assert(changes_view(v.push(c)) =~= changes_view(v).push(c@));
}

/// Appends to `out` the changed leaves of `new` against `old`.
fn push_leaf_changes(before: &RaceSchedule, after: &RaceSchedule, out: &mut Vec<ScheduleChange>)
    ensures
        changes_view(final(out)@) == changes_view(old(out)@) + leaf_changes(
            before@,
            after@,
            LEAF_COUNT as nat,
        ),
{
    let ghost start = out@;
    let round = after.round.clone();
    let name = after.race_name.clone();
    assert(after@[4] == Some(after.round@));
    assert(after@[0] == Some(after.race_name@));
    let mut k: usize = 0;
    while k < LEAF_COUNT
        invariant
            k <= LEAF_COUNT,
            round@ == render(after@[4]),
            name@ == render(after@[0]),
            changes_view(out@) == changes_view(start) + leaf_changes(before@, after@, k as nat),
        decreases LEAF_COUNT - k,
    {
        let a = leaf_value(before, k);
        let b = leaf_value(after, k);
        if !same_value(&a, &b) {
            let c = ScheduleChange::Field(
                FieldChange {
                    race_round: round.clone(),
                    race_name: name.clone(),
                    field_name: leaf_field_name(k),
                    old_value: render_value(&a),
                    new_value: render_value(&b),
                },
            );
            proof {
                lemma_push_view(out@, c);
            }
            out.push(c);
            assert(changes_view(start) + leaf_changes(before@, after@, (k + 1) as nat) =~= (
            changes_view(start) + leaf_changes(before@, after@, k as nat)).push(c@));
        }
        k = k + 1;
    }
}

/// Compares two schedules. Races of `new` are taken by position: one beyond
/// the end of `old` is reported as added; otherwise each leaf field that
/// differs is reported, in the race's declared field order. Races that only
/// `old` has are not reported.
pub fn diff(old: &Schedule, new: &Schedule) -> (r: Vec<ScheduleChange>)
    ensures
        changes_view(r@) == diff_spec(old@, new@),
{
    let mut out: Vec<ScheduleChange> = Vec::new();
    let mut i: usize = 0;
    while i < new.races.len()
        invariant
            i <= new.races@.len(),
            changes_view(out@) == diff_upto(old@, new@, i as nat),
        decreases new.races@.len() - i,
    {
        let ghost before = out@;
        if i < old.races.len() {
            push_leaf_changes(&old.races[i], &new.races[i], &mut out);
        } else {
            let r = &new.races[i];
            assert(r@[4] == Some(r.round@));
            assert(r@[0] == Some(r.race_name@));
            let c = ScheduleChange::Added { round: r.round.clone(), race_name: r.race_name.clone() };
            proof {
                lemma_push_view(out@, c);
            }
            out.push(c);
            assert(changes_view(before).push(c@) =~= changes_view(before) + race_changes(old@, new@, i as int));
        }
        i = i + 1;
    }
    out
}

proof fn lemma_leaf_changes_same(o: Seq<Option<Seq<char>>>, k: nat)
    ensures
        leaf_changes(o, o, k) == Seq::<ChangeView>::empty(),
    decreases k,
{
    if k > 0 {
        lemma_leaf_changes_same(o, (k - 1) as nat);
    }
}

proof fn lemma_diff_upto_same(s: Seq<Seq<Option<Seq<char>>>>, i: nat)
    requires
        i <= s.len(),
    ensures
        diff_upto(s, s, i) == Seq::<ChangeView>::empty(),
    decreases i,
{
    if i > 0 {
        lemma_diff_upto_same(s, (i - 1) as nat);
        lemma_leaf_changes_same(s[i - 1], LEAF_COUNT as nat);
        assert(diff_upto(s, s, i) =~= Seq::<ChangeView>::empty());
    }
}

/// Comparing a schedule with itself reports nothing.
pub proof fn lemma_diff_self_empty(s: Schedule)
    ensures
        diff_spec(s@, s@) == Seq::<ChangeView>::empty(),
{
    lemma_diff_upto_same(s@, s@.len());
}

proof fn lemma_leaf_changes_one(o: Seq<Option<Seq<char>>>, n: Seq<Option<Seq<char>>>, k: int, m: nat)
    requires
        0 <= k,
        m <= o.len(),
        m <= n.len(),
        forall|j: int| 0 <= j < m && j != k ==> o[j] == n[j],
        k < m ==> o[k] != n[k],
    ensures
        leaf_changes(o, n, m) == (if k < m {
            seq![field_change(o, n, k)]
        } else {
            Seq::<ChangeView>::empty()
        }),
    decreases m,
{
    if m > 0 {
        lemma_leaf_changes_one(o, n, k, (m - 1) as nat);
        assert(leaf_changes(o, n, m) =~= (if k < m {
            seq![field_change(o, n, k)]
        } else {
            Seq::<ChangeView>::empty()
        }));
    }
}

proof fn lemma_diff_upto_one(
    old: Seq<Seq<Option<Seq<char>>>>,
    new: Seq<Seq<Option<Seq<char>>>>,
    i: int,
    k: int,
    m: nat,
)
    requires
        old.len() == new.len(),
        0 <= i < new.len(),
        0 <= k < LEAF_COUNT,
        m <= new.len(),
        old[i].len() == LEAF_COUNT,
        new[i].len() == LEAF_COUNT,
        forall|j: int| 0 <= j < new.len() && j != i ==> old[j] == new[j],
        forall|l: int| 0 <= l < LEAF_COUNT && l != k ==> old[i][l] == new[i][l],
        old[i][k] != new[i][k],
    ensures
        diff_upto(old, new, m) == (if i < m {
            seq![field_change(old[i], new[i], k)]
        } else {
            Seq::<ChangeView>::empty()
        }),
    decreases m,
{
    if m > 0 {
        lemma_diff_upto_one(old, new, i, k, (m - 1) as nat);
        if m - 1 == i {
            lemma_leaf_changes_one(old[i], new[i], k, LEAF_COUNT as nat);
        } else {
            lemma_leaf_changes_same(old[m - 1], LEAF_COUNT as nat);
        }
        assert(diff_upto(old, new, m) =~= (if i < m {
            seq![field_change(old[i], new[i], k)]
        } else {
            Seq::<ChangeView>::empty()
        }));
    }
}

/// Where two schedules of equal length differ in exactly one leaf field `k`
/// of the race at position `i`, the comparison reports exactly one change:
/// that field of that race, with its old and new values.
pub proof fn lemma_diff_single_field(old: Schedule, new: Schedule, i: int, k: int)
    requires
        old@.len() == new@.len(),
        0 <= i < new@.len(),
        0 <= k < LEAF_COUNT,
        forall|j: int| 0 <= j < new@.len() && j != i ==> old@[j] == new@[j],
        forall|l: int| 0 <= l < LEAF_COUNT && l != k ==> old@[i][l] == new@[i][l],
        old@[i][k] != new@[i][k],
    ensures
        diff_spec(old@, new@) == seq![
            ChangeView::Field {
                round: new.races@[i].round@,
                race_name: new.races@[i].race_name@,
                field_name: leaf_name(k),
                old_value: render(old@[i][k]),
                new_value: render(new@[i][k]),
            },
        ],
{
    assert(new@[i] == new.races@[i]@);
    assert(new@[i][4] == Some(new.races@[i].round@));
    assert(new@[i][0] == Some(new.races@[i].race_name@));
    lemma_diff_upto_one(old@, new@, i, k, new@.len());
}

proof fn lemma_diff_upto_prefix(
    old: Seq<Seq<Option<Seq<char>>>>,
    new: Seq<Seq<Option<Seq<char>>>>,
    m: nat,
)
    requires
        m <= old.len() <= new.len(),
    ensures
        diff_upto(old, new, m) == diff_upto(old, new.take(old.len() as int), m),
    decreases m,
{
    if m > 0 {
        lemma_diff_upto_prefix(old, new, (m - 1) as nat);
        assert(new.take(old.len() as int)[m - 1] == new[m - 1]);
        assert(race_changes(old, new, m - 1) == race_changes(old, new.take(old.len() as int), m - 1));
    }
}

proof fn lemma_diff_upto_tail(
    old: Seq<Seq<Option<Seq<char>>>>,
    new: Seq<Seq<Option<Seq<char>>>>,
    m: nat,
)
    requires
        old.len() <= m <= new.len(),
    ensures
        diff_upto(old, new, m) == diff_upto(old, new, old.len()) + added_entries(
            new,
            old.len() as int,
            m as int,
        ),
    decreases m,
{
    if m > old.len() {
        lemma_diff_upto_tail(old, new, (m - 1) as nat);
        assert(diff_upto(old, new, m) =~= diff_upto(old, new, old.len()) + added_entries(
            new,
            old.len() as int,
            m as int,
        ));
    } else {
        assert(diff_upto(old, new, m) =~= diff_upto(old, new, old.len()) + added_entries(
            new,
            old.len() as int,
            m as int,
        ));
    }
}

/// One `Added` entry for each race of `new` from position `lo` up to `hi`.
pub open spec fn added_entries(new: Seq<Seq<Option<Seq<char>>>>, lo: int, hi: int) -> Seq<ChangeView> {
    Seq::new(
        (hi - lo) as nat,
        |j: int| ChangeView::Added { round: render(new[lo + j][4]), race_name: render(new[lo + j][0]) },
    )
}

/// Races of `new` beyond the length of `old` are each reported once, as
/// added, after the changes of the races both schedules hold, and are not
/// compared field by field.
pub proof fn lemma_diff_added_races(old: Schedule, new: Schedule)
    requires
        old@.len() <= new@.len(),
    ensures
        diff_spec(old@, new@) == diff_spec(old@, new@.take(old@.len() as int)) + added_entries(
            new@,
            old@.len() as int,
            new@.len() as int,
        ),
        forall|j: int|
            old@.len() <= j < new@.len() ==> #[trigger] added_entries(
                new@,
                old@.len() as int,
                new@.len() as int,
            )[j - old@.len()] == (ChangeView::Added {
                round: new.races@[j].round@,
                race_name: new.races@[j].race_name@,
            }),
{
    lemma_diff_upto_tail(old@, new@, new@.len());
    lemma_diff_upto_prefix(old@, new@, old@.len());
    assert forall|j: int| old@.len() <= j < new@.len() implies #[trigger] added_entries(
        new@,
        old@.len() as int,
        new@.len() as int,
    )[j - old@.len()] == (ChangeView::Added {
        round: new.races@[j].round@,
        race_name: new.races@[j].race_name@,
    }) by {
        assert(new@[j] == new.races@[j]@);
        assert(new@[j][4] == Some(new.races@[j].round@));
        assert(new@[j][0] == Some(new.races@[j].race_name@));
    }
}

} // verus!
