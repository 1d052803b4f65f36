use vstd::prelude::*;

use crate::clock::stopwatch_reading;
use crate::date::NaiveDate;
use crate::habit_row::circle_state_of;
use crate::text::two_digit;
use crate::date::weekday_number;
use crate::week_summary::{longest_streak, pomodoro_tenths, week_start};
use vstd::arithmetic::div_mod::{lemma_fundamental_div_mod, lemma_fundamental_div_mod_converse};
use crate::popover_menu::day_toggled;
use crate::db::{
    days_up_to, lemma_kept_from,
    drops, ids_on_from, is_on, kept_from, lemma_habit_index, lemma_insert_keeps_ids, lemma_remove_keeps_ids,
    lemma_renumbered_keeps_ids, lemma_renumbered_same, moved, renumbered, seconds_on_from, value_on_from, DbState,
    HabitMode, HabitRecord, HabitType, SessionDrop, SessionRecord,
};

verus! {

// ---------------------------------------------------------------------------
// Helpers on the recursive session summaries.
// ---------------------------------------------------------------------------

/// Nothing that a removal keeps is a session it takes out.
pub proof fn lemma_kept_none_dropped(ss: Seq<SessionRecord>, d: SessionDrop, i: int)
    requires
        0 <= i <= ss.len(),
    ensures
        forall|a: int| 0 <= a < kept_from(ss, d, i).len() ==> !drops(d, #[trigger] kept_from(ss, d, i)[a]),
    decreases ss.len() - i,
{
    if i < ss.len() {
        lemma_kept_none_dropped(ss, d, i + 1);
        let k = kept_from(ss, d, i);
        let rest = kept_from(ss, d, i + 1);
        if !drops(d, ss[i]) {
            assert forall|a: int| 0 <= a < k.len() implies !drops(d, #[trigger] k[a]) by {
                if a > 0 {
                    assert(k[a] == rest[a - 1]);
                }
            }
        }
    }
}

/// With no session of the habit on the date from `i` on, the summaries from
/// `i` on are empty.
pub proof fn lemma_none_on(ss: Seq<SessionRecord>, habit_id: i64, date: NaiveDate, i: int)
    requires
        0 <= i <= ss.len(),
        forall|a: int| i <= a < ss.len() ==> !is_on(#[trigger] ss[a], habit_id, date),
    ensures
        seconds_on_from(ss, habit_id, date, i) == 0,
        ids_on_from(ss, habit_id, date, i) == Seq::<i64>::empty(),
        value_on_from(ss, habit_id, date, i) == None::<u64>,
    decreases ss.len() - i,
{
    if i < ss.len() {
        assert(!is_on(ss[i], habit_id, date));
        lemma_none_on(ss, habit_id, date, i + 1);
    }
}

/// With no value session of the habit on the date from `i` on, there is no
/// value from `i` on.
pub proof fn lemma_no_value_on(ss: Seq<SessionRecord>, habit_id: i64, date: NaiveDate, i: int)
    requires
        0 <= i <= ss.len(),
        forall|a: int| i <= a < ss.len() ==> !(is_on(#[trigger] ss[a], habit_id, date) && ss[a].value is Some),
    ensures
        value_on_from(ss, habit_id, date, i) == None::<u64>,
    decreases ss.len() - i,
{
    if i < ss.len() {
        assert(!(is_on(ss[i], habit_id, date) && ss[i].value is Some));
        lemma_no_value_on(ss, habit_id, date, i + 1);
    }
}

/// A session recorded last adds to the summaries from any `i` on.
pub proof fn lemma_push_on(ss: Seq<SessionRecord>, x: SessionRecord, habit_id: i64, date: NaiveDate, i: int)
    requires
        0 <= i <= ss.len(),
    ensures
        seconds_on_from(ss.push(x), habit_id, date, i) == seconds_on_from(ss, habit_id, date, i) + if is_on(
            x,
            habit_id,
            date,
        ) {
            x.duration_seconds as nat
        } else {
            0
        },
        ids_on_from(ss.push(x), habit_id, date, i) == if is_on(x, habit_id, date) {
            ids_on_from(ss, habit_id, date, i).push(x.id)
        } else {
            ids_on_from(ss, habit_id, date, i)
        },
        value_on_from(ss.push(x), habit_id, date, i) == if value_on_from(ss, habit_id, date, i) is Some {
            value_on_from(ss, habit_id, date, i)
        } else if is_on(x, habit_id, date) && x.value is Some {
            x.value
        } else {
            None
        },
    decreases ss.len() - i,
{
    let t = ss.push(x);
    if i < ss.len() {
        assert(t[i] == ss[i]);
        lemma_push_on(ss, x, habit_id, date, i + 1);
        if is_on(ss[i], habit_id, date) {
            assert(ids_on_from(t, habit_id, date, i) == seq![ss[i].id] + ids_on_from(t, habit_id, date, i + 1));
            assert(ids_on_from(ss, habit_id, date, i) == seq![ss[i].id] + ids_on_from(ss, habit_id, date, i + 1));
            if is_on(x, habit_id, date) {
                assert(seq![ss[i].id] + ids_on_from(ss, habit_id, date, i + 1).push(x.id) =~= (seq![ss[i].id]
                    + ids_on_from(ss, habit_id, date, i + 1)).push(x.id));
            }
        }
    } else {
        assert(t[i] == x);
        assert(seconds_on_from(t, habit_id, date, i + 1) == 0);
        assert(ids_on_from(t, habit_id, date, i + 1) == Seq::<i64>::empty());
        assert(value_on_from(t, habit_id, date, i + 1) == None::<u64>);
        if is_on(x, habit_id, date) {
            assert(seq![x.id] + Seq::<i64>::empty() =~= Seq::<i64>::empty().push(x.id));
        }
    }
}

/// A session of the habit on the date at or after `i` puts an id in the
/// day's ids from `i` on.
pub proof fn lemma_some_on(ss: Seq<SessionRecord>, habit_id: i64, date: NaiveDate, i: int, j: int)
    requires
        0 <= i <= j < ss.len(),
        is_on(ss[j], habit_id, date),
    ensures
        ids_on_from(ss, habit_id, date, i).len() > 0,
    decreases j - i,
{
    if i < j && !is_on(ss[i], habit_id, date) {
        lemma_some_on(ss, habit_id, date, i + 1, j);
    }
}

/// A day with a session of the habit has at least one session id.
pub proof fn lemma_has_session_has_id(s: DbState, habit_id: i64, date: NaiveDate)
    requires
        s.has_session_on(habit_id, date.days as int),
    ensures
        s.session_ids_on(habit_id, date).len() > 0,
{
    let j: int = choose|j: int|
        0 <= j < s.sessions.len() && #[trigger] s.sessions[j].habit_id == habit_id && s.sessions[j].date.days
            == date.days;
    assert(s.sessions[j].date == date);
    lemma_some_on(s.sessions, habit_id, date, 0, j);
}

// ---------------------------------------------------------------------------
// Habits.
// ---------------------------------------------------------------------------

/// A habit just added is read back by its id as it was recorded, and stands
/// last in the display order, with the count of habits before it as its
/// order index.
pub proof fn law_get_after_add(
    s: DbState,
    description: Seq<char>,
    timer_duration_seconds: u32,
    mode: HabitMode,
    habit_type: HabitType,
    min_value: Option<u32>,
)
    requires
        s.valid(),
        s.can_add_habit(),
    ensures
        ({
            let h = s.new_habit(description, timer_duration_seconds, mode, habit_type, min_value);
            let t = s.with_habit_added(h);
            &&& t.valid()
            &&& t.has_habit(h.id)
            &&& t.habit(h.id) == h
            &&& t.habit_index(h.id) == s.habits.len()
            &&& h.order_index == s.habits.len()
        }),
{
    let h = s.new_habit(description, timer_duration_seconds, mode, habit_type, min_value);
    let t = s.with_habit_added(h);
    let n: int = s.habits.len() as int;
    assert(t.habits[n] == h);
    assert forall|i: int, j: int| 0 <= i < j < t.habits.len() implies #[trigger] t.habits[i].id
        != #[trigger] t.habits[j].id by {
        assert(t.habits[i] == s.habits[i]);
        if j < n {
            assert(t.habits[j] == s.habits[j]);
        }
    }
    assert forall|i: int| 0 <= i < t.habits.len() implies #[trigger] t.habits[i].order_index == i by {
        if i < n {
            assert(t.habits[i] == s.habits[i]);
        }
    }
    assert forall|i: int| 0 <= i < t.habits.len() implies #[trigger] t.habits[i].id <= t.last_habit_id by {
        if i < n {
            assert(t.habits[i] == s.habits[i]);
        }
    }
    lemma_habit_index(t, n);
}

/// A habit just updated is read back with its new description, timer and
/// kind, in its old place; the other habits are as they were.
pub proof fn law_get_after_update(
    s: DbState,
    id: i64,
    description: Seq<char>,
    timer_duration_seconds: u32,
    mode: HabitMode,
    habit_type: HabitType,
    min_value: Option<u32>,
)
    requires
        s.valid(),
        s.has_habit(id),
    ensures
        ({
            let t = s.with_habit_updated(id, description, timer_duration_seconds, mode, habit_type, min_value);
            &&& t.valid()
            &&& t.has_habit(id)
            &&& t.habit_index(id) == s.habit_index(id)
            &&& t.habit(id) == (HabitRecord {
                id,
                description,
                order_index: s.habit(id).order_index,
                timer_duration_seconds,
                mode,
                habit_type,
                min_value,
            })
            &&& forall|i: int| 0 <= i < s.habits.len() && i != s.habit_index(id) ==> #[trigger] t.habits[i] == s.habits[i]
        }),
{
    let t = s.with_habit_updated(id, description, timer_duration_seconds, mode, habit_type, min_value);
    let k: int = s.habit_index(id);
    lemma_habit_index(s, k);
    assert forall|i: int| 0 <= i < t.habits.len() implies #[trigger] t.habits[i].id == s.habits[i].id
        && t.habits[i].order_index == s.habits[i].order_index by {
    }
    assert(t.valid()) by {
        assert forall|i: int, j: int| 0 <= i < j < t.habits.len() implies #[trigger] t.habits[i].id
            != #[trigger] t.habits[j].id by {
            assert(s.habits[i].id != s.habits[j].id);
        }
    }
    lemma_habit_index(t, k);
    assert forall|i: int| 0 <= i < s.habits.len() && i != k implies #[trigger] t.habits[i] == s.habits[i] by {
        if s.habits[i].id == id {
            if i < k {
                assert(s.habits[i].id != s.habits[k].id);
            } else {
                assert(s.habits[k].id != s.habits[i].id);
            }
        }
    }
}

/// After a session is deleted, no session has its id.
pub proof fn law_deleted_session_is_gone(s: DbState, session_id: i64)
    requires
        s.valid(),
    ensures
        forall|i: int|
            0 <= i < s.with_sessions_dropped(SessionDrop::Id(session_id)).sessions.len() ==> (#[trigger] s.with_sessions_dropped(
                SessionDrop::Id(session_id),
            ).sessions[i]).id != session_id,
{
    lemma_kept_none_dropped(s.sessions, SessionDrop::Id(session_id), 0);
}

/// After a habit is deleted, no habit has its id, and none of its sessions
/// is left.
pub proof fn law_deleted_habit_is_gone(s: DbState, id: i64)
    requires
        s.valid(),
        s.has_habit(id),
    ensures
        ({
            let t = s.with_habit_deleted(id);
            &&& !t.has_habit(id)
            &&& t.habits.len() == s.habits.len() - 1
            &&& forall|day: int| !t.has_session_on(id, day)
        }),
{
    let t = s.with_habit_deleted(id);
    let k: int = s.habit_index(id);
    lemma_remove_keeps_ids(s.habits, k, s.last_habit_id);
    if t.has_habit(id) {
        let j: int = choose|j: int| 0 <= j < t.habits.len() && t.habits[j].id == id;
        assert(t.habits[j].id == s.habits.remove(k)[j].id);
        assert(false);
    }
    lemma_kept_none_dropped(s.sessions, SessionDrop::Habit(id), 0);
    assert forall|day: int| !t.has_session_on(id, day) by {
        if t.has_session_on(id, day) {
            let a: int = choose|a: int|
                0 <= a < t.sessions.len() && #[trigger] t.sessions[a].habit_id == id && t.sessions[a].date.days == day;
            assert(!drops(SessionDrop::Habit(id), t.sessions[a]));
        }
    }
}

/// The mathematical value of a habit, its place in the order left out.
pub open spec fn unplaced(h: HabitRecord) -> HabitRecord {
    HabitRecord { order_index: 0, ..h }
}

pub open spec fn unplaced_all(hs: Seq<HabitRecord>) -> Seq<HabitRecord> {
    hs.map_values(|h: HabitRecord| unplaced(h))
}

pub proof fn lemma_renumbered_by_unplaced(a: Seq<HabitRecord>, b: Seq<HabitRecord>)
    requires
        unplaced_all(a) == unplaced_all(b),
    ensures
        renumbered(a) == renumbered(b),
{
    assert(a.len() == unplaced_all(a).len());
    assert(b.len() == unplaced_all(b).len());
    assert forall|i: int| 0 <= i < a.len() implies #[trigger] renumbered(a)[i] == renumbered(b)[i] by {
        assert(unplaced_all(a)[i] == unplaced_all(b)[i]);
        assert(unplaced_all(a)[i] == unplaced(a[i]));
        assert(unplaced_all(b)[i] == unplaced(b[i]));
        assert(unplaced(a[i]) == unplaced(b[i]));
    }
    assert(renumbered(a) =~= renumbered(b));
}

pub proof fn lemma_unplaced_renumbered(a: Seq<HabitRecord>)
    ensures
        unplaced_all(renumbered(a)) == unplaced_all(a),
{
    assert(unplaced_all(renumbered(a)) =~= unplaced_all(a));
}

pub proof fn lemma_unplaced_moved(a: Seq<HabitRecord>, from: int, to: int)
    requires
        0 <= from < a.len(),
        0 <= to < a.len(),
    ensures
        unplaced_all(moved(a, from, to)) == moved(unplaced_all(a), from, to),
{
    assert(unplaced_all(a.remove(from)) =~= unplaced_all(a).remove(from));
    assert(unplaced_all(a.remove(from).insert(to, a[from])) =~= unplaced_all(a.remove(from)).insert(
        to,
        unplaced(a[from]),
    ));
}

/// Moving a habit to a position in range puts it at that position; the other
/// habits keep their order among themselves, and the invariant holds.
pub proof fn law_move_places_habit(s: DbState, id: i64, new_index: i32)
    requires
        s.valid(),
        s.has_habit(id),
        0 <= new_index < s.habits.len(),
    ensures
        ({
            let t = s.with_habit_moved(id, new_index);
            &&& t.valid()
            &&& t.habits.len() == s.habits.len()
            &&& t.habits[new_index as int].id == id
            &&& t.habit_index(id) == new_index
            &&& renumbered(t.habits.remove(new_index as int)) == renumbered(s.habits.remove(s.habit_index(id)))
        }),
{
    let k: int = s.habit_index(id);
    let to: int = new_index as int;
    let t = s.with_habit_moved(id, new_index);
    if k == to {
        lemma_habit_index(s, k);
    } else {
        let m = moved(s.habits, k, to);
        lemma_remove_keeps_ids(s.habits, k, s.last_habit_id);
        lemma_insert_keeps_ids(s.habits.remove(k), to, s.habits[k], s.last_habit_id);
        lemma_renumbered_keeps_ids(m, s.last_habit_id);
        assert(t.habits[to].id == m[to].id);
        assert(m[to] == s.habits[k]);
        lemma_habit_index(t, to);
        assert(m.remove(to) =~= s.habits.remove(k));
        lemma_unplaced_renumbered(m);
        assert(unplaced_all(renumbered(m).remove(to)) =~= unplaced_all(renumbered(m)).remove(to));
        assert(unplaced_all(m.remove(to)) =~= unplaced_all(m).remove(to));
        lemma_renumbered_by_unplaced(renumbered(m).remove(to), m.remove(to));
    }
}

/// Moving a habit and then moving it back to where it was restores the store.
pub proof fn law_move_back_restores(s: DbState, id: i64, new_index: i32)
    requires
        s.valid(),
        s.has_habit(id),
        0 <= new_index < s.habits.len(),
    ensures
        s.with_habit_moved(id, new_index).with_habit_moved(id, s.habit_index(id) as i32) == s,
{
    let k: int = s.habit_index(id);
    let to: int = new_index as int;
    let t = s.with_habit_moved(id, new_index);
    law_move_places_habit(s, id, new_index);
    if k == to {
        assert(t == s);
    } else {
        let m = moved(s.habits, k, to);
        assert(t.habit_index(id) == to);
        let u = t.with_habit_moved(id, k as i32);
        assert(u.habits == renumbered(moved(t.habits, to, k)));
        lemma_unplaced_moved(renumbered(m), to, k);
        lemma_unplaced_renumbered(m);
        lemma_unplaced_moved(m, to, k);
        assert(moved(m, to, k) =~= s.habits);
        lemma_renumbered_by_unplaced(moved(t.habits, to, k), s.habits);
        lemma_renumbered_same(s.habits);
        assert(u.habits == s.habits);
    }
}

// ---------------------------------------------------------------------------
// Sessions.
// ---------------------------------------------------------------------------

/// A session just recorded shows on its day: the habit has a session then,
/// its id comes last among the day's ids, and the day's time grows by its
/// duration.
pub proof fn law_recorded_session_counts(
    s: DbState,
    habit_id: i64,
    date: NaiveDate,
    duration_seconds: u32,
    completed_at: Seq<char>,
)
    requires
        s.valid(),
        s.can_add_session(),
    ensures
        ({
            let x = s.new_session(habit_id, date, duration_seconds, completed_at, None);
            let t = s.with_session_added(x);
            &&& t.has_session_on(habit_id, date.days as int)
            &&& t.seconds_on(habit_id, date) == s.seconds_on(habit_id, date) + duration_seconds
            &&& t.session_ids_on(habit_id, date) == s.session_ids_on(habit_id, date).push(x.id)
        }),
{
    let x = s.new_session(habit_id, date, duration_seconds, completed_at, None);
    let t = s.with_session_added(x);
    lemma_push_on(s.sessions, x, habit_id, date, 0);
    assert(t.sessions[s.sessions.len() as int] == x);
}

/// A value set for a day with none yet is read back.
pub proof fn law_value_read_back(s: DbState, habit_id: i64, date: NaiveDate, value: u64)
    requires
        s.valid(),
        s.can_add_session(),
        s.value_on(habit_id, date) is None,
    ensures
        ({
            let t = s.with_session_added(s.new_session(habit_id, date, 0, Seq::empty(), Some(value)));
            &&& t.value_on(habit_id, date) == Some(value)
            &&& t.has_session_on(habit_id, date.days as int)
        }),
{
    let x = s.new_session(habit_id, date, 0, Seq::empty(), Some(value));
    let t = s.with_session_added(x);
    lemma_push_on(s.sessions, x, habit_id, date, 0);
    assert(t.sessions[s.sessions.len() as int] == x);
}

/// After the sessions of a habit on a day are deleted, the day has no
/// session, no time and no value.
pub proof fn law_cleared_day_is_empty(s: DbState, habit_id: i64, date: NaiveDate)
    requires
        s.valid(),
    ensures
        ({
            let t = s.with_sessions_dropped(SessionDrop::HabitOn(habit_id, date));
            &&& !t.has_session_on(habit_id, date.days as int)
            &&& t.seconds_on(habit_id, date) == 0
            &&& t.session_ids_on(habit_id, date) == Seq::<i64>::empty()
            &&& t.value_on(habit_id, date) == None::<u64>
        }),
{
    let d = SessionDrop::HabitOn(habit_id, date);
    let t = s.with_sessions_dropped(d);
    lemma_kept_none_dropped(s.sessions, d, 0);
    assert forall|a: int| 0 <= a < t.sessions.len() implies !is_on(#[trigger] t.sessions[a], habit_id, date) by {
        assert(!drops(d, t.sessions[a]));
    }
    lemma_none_on(t.sessions, habit_id, date, 0);
    if t.has_session_on(habit_id, date.days as int) {
        let a: int = choose|a: int|
            0 <= a < t.sessions.len() && #[trigger] t.sessions[a].habit_id == habit_id && t.sessions[a].date.days
                == date.days;
        assert(!is_on(t.sessions[a], habit_id, date));
        assert(t.sessions[a].date == date);
    }
}

/// After the values of a habit on a day are cleared, the day has no value.
pub proof fn law_cleared_value_is_gone(s: DbState, habit_id: i64, date: NaiveDate)
    requires
        s.valid(),
    ensures
        s.with_sessions_dropped(SessionDrop::ValueOn(habit_id, date)).value_on(habit_id, date) == None::<u64>,
{
    let d = SessionDrop::ValueOn(habit_id, date);
    let t = s.with_sessions_dropped(d);
    lemma_kept_none_dropped(s.sessions, d, 0);
    assert forall|a: int| 0 <= a < t.sessions.len() implies !(is_on(#[trigger] t.sessions[a], habit_id, date)
        && t.sessions[a].value is Some) by {
        assert(!drops(d, t.sessions[a]));
    }
    lemma_no_value_on(t.sessions, habit_id, date, 0);
}

/// Toggling a day flips it: a day with a session has none afterwards, and a
/// day without one has one, where the habit exists and a session id is left
/// to give it. Toggling
/// it again flips it back.
pub proof fn law_toggle_day_flips(
    s: DbState,
    habit_id: i64,
    date: NaiveDate,
    duration_seconds: u32,
    completed_at: Seq<char>,
)
    requires
        s.valid(),
        s.can_record(habit_id),
    ensures
        ({
            let t = day_toggled(s, habit_id, date, duration_seconds, completed_at);
            let u = day_toggled(t, habit_id, date, duration_seconds, completed_at);
            &&& t.valid()
            &&& t.has_session_on(habit_id, date.days as int) == !s.has_session_on(habit_id, date.days as int)
            &&& u.has_session_on(habit_id, date.days as int) == s.has_session_on(habit_id, date.days as int)
        }),
{
    let t = day_toggled(s, habit_id, date, duration_seconds, completed_at);
    let day = date.days as int;
    if s.has_session_on(habit_id, day) {
        law_cleared_day_is_empty(s, habit_id, date);
        lemma_kept_from(s.sessions, SessionDrop::HabitOn(habit_id, date), 0, s.last_session_id);
        assert(t.valid());
        assert(t.can_record(habit_id));
        law_recorded_session_counts(t, habit_id, date, duration_seconds, completed_at);
    } else {
        law_recorded_session_counts(s, habit_id, date, duration_seconds, completed_at);
        assert(t.valid());
        law_cleared_day_is_empty(t, habit_id, date);
    }
}

// ---------------------------------------------------------------------------
// Streaks.
// ---------------------------------------------------------------------------

pub proof fn lemma_streak_from_is_run(s: DbState, habit_id: i64, day: int, limit: nat)
    ensures
        s.streak_from(habit_id, day, limit) <= limit,
        forall|d: int|
            day - s.streak_from(habit_id, day, limit) < d <= day ==> #[trigger] s.has_session_on(habit_id, d),
        s.streak_from(habit_id, day, limit) < limit ==> !s.has_session_on(
            habit_id,
            day - s.streak_from(habit_id, day, limit),
        ),
    decreases limit,
{
    if limit > 0 && s.has_session_on(habit_id, day) {
        lemma_streak_from_is_run(s, habit_id, day - 1, (limit - 1) as nat);
        let r = s.streak_from(habit_id, day, limit);
        assert(r == 1 + s.streak_from(habit_id, day - 1, (limit - 1) as nat));
    }
}

/// The streak ending on a day is the run of days, back from it, that each
/// have a session: every day of the run has one, and the day before the run
/// has none.
pub proof fn law_streak_is_run_of_days(s: DbState, habit_id: i64, today: NaiveDate)
    ensures
        forall|d: int|
            today.days - s.streak_until(habit_id, today) < d <= today.days ==> #[trigger] s.has_session_on(
                habit_id,
                d,
            ),
        !s.has_session_on(habit_id, today.days - s.streak_until(habit_id, today)),
{
    lemma_streak_from_is_run(s, habit_id, today.days as int, days_up_to(today));
}

// ---------------------------------------------------------------------------
// What a removal of sessions keeps.
// ---------------------------------------------------------------------------

/// A removal keeps, in order, the sessions from index `i` on that satisfy
/// `keep`, where `keep` holds of exactly the sessions it does not take out.
pub proof fn lemma_kept_is_filter(
    ss: Seq<SessionRecord>,
    d: SessionDrop,
    keep: spec_fn(SessionRecord) -> bool,
    i: int,
)
    requires
        0 <= i <= ss.len(),
        forall|x: SessionRecord| #[trigger] keep(x) == !drops(d, x),
    ensures
        kept_from(ss, d, i) == ss.subrange(i, ss.len() as int).filter(keep),
    decreases ss.len() - i,
{
    reveal_with_fuel(Seq::filter, 2);
    if i < ss.len() {
        lemma_kept_is_filter(ss, d, keep, i + 1);
        let head = seq![ss[i]];
        let tail = ss.subrange(i + 1, ss.len() as int);
        assert(ss.subrange(i, ss.len() as int) =~= head + tail);
        Seq::filter_distributes_over_add(head, tail, keep);
        assert(head.drop_last() =~= Seq::<SessionRecord>::empty());
        assert(Seq::<SessionRecord>::empty().filter(keep) =~= Seq::<SessionRecord>::empty());
        if keep(ss[i]) {
            assert(head.filter(keep) =~= head);
        } else {
            assert(head.filter(keep) =~= Seq::<SessionRecord>::empty());
        }
        assert(kept_from(ss, d, i) =~= head.filter(keep) + tail.filter(keep));
    } else {
        assert(ss.subrange(i, ss.len() as int) =~= Seq::<SessionRecord>::empty());
    }
}

/// Where `keep` holds of the sessions of a habit on a day, a filter by
/// `keep` leaves that habit's sessions that day as they were: the day has a
/// session after exactly when it had one before.
pub proof fn lemma_filter_keeps_day(
    ss: Seq<SessionRecord>,
    keep: spec_fn(SessionRecord) -> bool,
    habit_id: i64,
    day: int,
)
    requires
        forall|x: SessionRecord| x.habit_id == habit_id && x.date.days == day ==> #[trigger] keep(x),
    ensures
        (exists|a: int| 0 <= a < ss.filter(keep).len() && #[trigger] ss.filter(keep)[a].habit_id == habit_id
            && ss.filter(keep)[a].date.days == day) == (exists|a: int|
            0 <= a < ss.len() && #[trigger] ss[a].habit_id == habit_id && ss[a].date.days == day),
{
    broadcast use vstd::seq_lib::group_filter_ensures;

    let f = ss.filter(keep);
    if exists|a: int| 0 <= a < f.len() && #[trigger] f[a].habit_id == habit_id && f[a].date.days == day {
        let a = choose|a: int| 0 <= a < f.len() && #[trigger] f[a].habit_id == habit_id && f[a].date.days == day;
        assert(f.contains(f[a]));
        ss.lemma_filter_contains_rev(keep, f[a]);
        let b = choose|b: int| 0 <= b < ss.len() && ss[b] == f[a];
        assert(ss[b].habit_id == habit_id);
    }
    if exists|a: int| 0 <= a < ss.len() && #[trigger] ss[a].habit_id == habit_id && ss[a].date.days == day {
        let a = choose|a: int| 0 <= a < ss.len() && #[trigger] ss[a].habit_id == habit_id && ss[a].date.days == day;
        ss.lemma_filter_contains(keep, a);
        let b = choose|b: int| 0 <= b < f.len() && f[b] == ss[a];
        assert(f[b].habit_id == habit_id);
    }
}

/// Deleting a habit keeps exactly the sessions of the other habits, in the
/// order they were recorded; so every other habit has a session on the same
/// days as before.
pub proof fn law_delete_habit_keeps_other_sessions(s: DbState, id: i64)
    requires
        s.valid(),
        s.has_habit(id),
    ensures
        s.with_habit_deleted(id).sessions == s.sessions.filter(|x: SessionRecord| x.habit_id != id),
        forall|g: i64, day: int|
            g != id ==> (#[trigger] s.with_habit_deleted(id).has_session_on(g, day) == s.has_session_on(g, day)),
{
    let keep = |x: SessionRecord| x.habit_id != id;
    lemma_kept_is_filter(s.sessions, SessionDrop::Habit(id), keep, 0);
    assert(s.sessions.subrange(0, s.sessions.len() as int) =~= s.sessions);
    assert forall|g: i64, day: int| g != id implies (#[trigger] s.with_habit_deleted(id).has_session_on(g, day)
        == s.has_session_on(g, day)) by {
        lemma_filter_keeps_day(s.sessions, keep, g, day);
    }
}

/// Clearing a habit's day keeps exactly the sessions on other days or of
/// other habits, in order; so no other habit and no other day gains or
/// loses a session or any time.
pub proof fn law_clear_day_keeps_other_days(s: DbState, habit_id: i64, date: NaiveDate)
    ensures
        s.with_sessions_dropped(SessionDrop::HabitOn(habit_id, date)).sessions == s.sessions.filter(
            |x: SessionRecord| !(x.habit_id == habit_id && x.date == date),
        ),
        forall|g: i64, day: int|
            !(g == habit_id && day == date.days) ==> (#[trigger] s.with_sessions_dropped(
                SessionDrop::HabitOn(habit_id, date),
            ).has_session_on(g, day) == s.has_session_on(g, day)),
        forall|g: i64, other: NaiveDate|
            !(g == habit_id && other == date) ==> (#[trigger] s.with_sessions_dropped(
                SessionDrop::HabitOn(habit_id, date),
            ).seconds_on(g, other) == s.seconds_on(g, other)),
{
    let d = SessionDrop::HabitOn(habit_id, date);
    let keep = |x: SessionRecord| !(x.habit_id == habit_id && x.date == date);
    lemma_kept_is_filter(s.sessions, d, keep, 0);
    assert(s.sessions.subrange(0, s.sessions.len() as int) =~= s.sessions);
    assert forall|g: i64, day: int| !(g == habit_id && day == date.days) implies (
    #[trigger] s.with_sessions_dropped(d).has_session_on(g, day) == s.has_session_on(g, day)) by {
        assert forall|x: SessionRecord| x.habit_id == g && x.date.days == day implies #[trigger] keep(x) by {
            if x.habit_id == habit_id && x.date == date {
                assert(x.date.days == date.days);
            }
        }
        lemma_filter_keeps_day(s.sessions, keep, g, day);
    }
    assert forall|g: i64, other: NaiveDate| !(g == habit_id && other == date) implies (
    #[trigger] s.with_sessions_dropped(d).seconds_on(g, other) == s.seconds_on(g, other)) by {
        lemma_kept_seconds(s.sessions, d, g, other, 0);
    }
}

/// The time of a habit on a day, summed over `seq![x] + r` from index
/// `k + 1` on, is that of `r` from `k` on.
proof fn lemma_seconds_shift(x: SessionRecord, r: Seq<SessionRecord>, habit_id: i64, date: NaiveDate, k: int)
    requires
        0 <= k <= r.len(),
    ensures
        seconds_on_from(seq![x] + r, habit_id, date, k + 1) == seconds_on_from(r, habit_id, date, k),
    decreases r.len() - k,
{
    if k < r.len() {
        assert((seq![x] + r)[k + 1] == r[k]);
        lemma_seconds_shift(x, r, habit_id, date, k + 1);
    }
}

/// Where a removal takes out no session of a habit on a day, what it keeps
/// from index `i` on has the same time that day as the sessions from `i` on.
proof fn lemma_kept_seconds(ss: Seq<SessionRecord>, d: SessionDrop, habit_id: i64, date: NaiveDate, i: int)
    requires
        0 <= i <= ss.len(),
        forall|x: SessionRecord| is_on(x, habit_id, date) ==> !#[trigger] drops(d, x),
    ensures
        seconds_on_from(kept_from(ss, d, i), habit_id, date, 0) == seconds_on_from(ss, habit_id, date, i),
    decreases ss.len() - i,
{
    if i < ss.len() {
        lemma_kept_seconds(ss, d, habit_id, date, i + 1);
        let rest = kept_from(ss, d, i + 1);
        if !drops(d, ss[i]) {
            let k = seq![ss[i]] + rest;
            assert(k[0] == ss[i]);
            lemma_seconds_shift(ss[i], rest, habit_id, date, 0);
        }
    }
}

// ---------------------------------------------------------------------------
// The week's figures, the circles and the clock.
// ---------------------------------------------------------------------------

/// The week's longest streak is the greatest streak among the habits: at
/// least the streak of every habit listed, and that of one of them (0 where
/// none is listed).
pub proof fn law_longest_streak_is_greatest(db: DbState, hs: Seq<HabitRecord>, today: NaiveDate)
    ensures
        forall|i: int| 0 <= i < hs.len() ==> #[trigger] db.streak_until(hs[i].id, today) <= longest_streak(
            db,
            hs,
            today,
        ),
        hs.len() == 0 ==> longest_streak(db, hs, today) == 0,
        hs.len() > 0 ==> exists|i: int|
            0 <= i < hs.len() && longest_streak(db, hs, today) == #[trigger] db.streak_until(hs[i].id, today),
    decreases hs.len(),
{
    if hs.len() > 0 {
        let init = hs.drop_last();
        law_longest_streak_is_greatest(db, init, today);
        assert forall|i: int| 0 <= i < hs.len() implies #[trigger] db.streak_until(hs[i].id, today)
            <= longest_streak(db, hs, today) by {
            if i < hs.len() - 1 {
                assert(hs[i] == init[i]);
                assert(db.streak_until(init[i].id, today) <= longest_streak(db, init, today));
            }
        }
        let last = hs.len() - 1;
        if db.streak_until(hs[last].id, today) > longest_streak(db, init, today) || init.len() == 0 {
            assert(longest_streak(db, hs, today) == db.streak_until(hs[last].id, today));
        } else {
            let i = choose|i: int|
                0 <= i < init.len() && longest_streak(db, init, today) == #[trigger] db.streak_until(
                    init[i].id,
                    today,
                );
            assert(hs[i] == init[i]);
            assert(longest_streak(db, hs, today) == db.streak_until(hs[i].id, today));
        }
    }
}

/// When a day's circle counts as done and when as partly done: a timer habit
/// with a session that day; a boolean habit marked that day; a number habit
/// with a value that day, where it has no minimum or the value reaches it.
/// Partly done is a number habit whose value falls short of its minimum.
pub proof fn law_circle_done(db: DbState, habit: HabitRecord, date: NaiveDate, value_reaches_min: bool)
    ensures
        ({
            let c = circle_state_of(db, habit, date, value_reaches_min);
            let valued = db.value_on(habit.id, date) is Some;
            &&& habit.habit_type == HabitType::Timer ==> c.1 == db.has_session_on(habit.id, date.days as int)
            &&& habit.habit_type == HabitType::Boolean ==> c.1 == valued
            &&& habit.habit_type == HabitType::Number ==> c.1 == (valued && (habit.min_value is None
                || value_reaches_min))
            &&& c.2 == (habit.habit_type == HabitType::Number && valued && habit.min_value is Some
                && !value_reaches_min)
        }),
{
}

/// The stopwatch reading gives the hours, then the minutes, then the seconds
/// of the time: for `h` hours, `m` minutes and `s` seconds (`m` and `s`
/// below 60) it is `HH:MM:SS`, or `MM:SS` with no whole hour.
pub proof fn law_stopwatch_reading_fields(elapsed: nat, h: nat, m: nat, s: nat)
    requires
        m < 60,
        s < 60,
        elapsed == h * 3600 + m * 60 + s,
    ensures
        h > 0 ==> stopwatch_reading(elapsed) == two_digit(h) + ":"@ + two_digit(m) + ":"@ + two_digit(s),
        h == 0 ==> stopwatch_reading(elapsed) == two_digit(m) + ":"@ + two_digit(s),
{
    let e = elapsed as int;
    assert(m * 60 + s < 3600) by (nonlinear_arith)
        requires
            m < 60,
            s < 60,
    ;
    lemma_fundamental_div_mod_converse(e, 3600, h as int, (m * 60 + s) as int);
    lemma_fundamental_div_mod_converse((m * 60 + s) as int, 60, m as int, s as int);
    assert(e == (h * 60 + m) * 60 + s) by (nonlinear_arith)
        requires
            e == h * 3600 + m * 60 + s,
    ;
    lemma_fundamental_div_mod_converse(e, 60, (h * 60 + m) as int, s as int);
}

/// Deleting a session by its id keeps exactly the sessions with other ids,
/// and clearing a habit's values on a day keeps exactly the sessions that
/// are not value sessions of that habit that day; both in order.
pub proof fn law_removals_keep_the_rest(s: DbState, session_id: i64, habit_id: i64, date: NaiveDate)
    ensures
        s.with_sessions_dropped(SessionDrop::Id(session_id)).sessions == s.sessions.filter(
            |x: SessionRecord| x.id != session_id,
        ),
        s.with_sessions_dropped(SessionDrop::ValueOn(habit_id, date)).sessions == s.sessions.filter(
            |x: SessionRecord| !(x.habit_id == habit_id && x.date == date && x.value is Some),
        ),
{
    assert(s.sessions.subrange(0, s.sessions.len() as int) =~= s.sessions);
    lemma_kept_is_filter(s.sessions, SessionDrop::Id(session_id), |x: SessionRecord| x.id != session_id, 0);
    lemma_kept_is_filter(
        s.sessions,
        SessionDrop::ValueOn(habit_id, date),
        |x: SessionRecord| !(x.habit_id == habit_id && x.date == date && x.value is Some),
        0,
    );
}

/// The week holding a day begins on the Monday on or before it: that day is
/// one of the week's seven.
pub proof fn law_week_start_is_monday(today: NaiveDate)
    ensures
        weekday_number(week_start(today)) == 1,
        week_start(today) <= today.days < week_start(today) + 7,
{
    let t = today.days as int;
    let r = (t + 6) % 7;
    assert(0 <= r < 7);
    assert(week_start(today) == t - r);
    assert((t - r + 6) % 7 == 0) by {
        lemma_fundamental_div_mod_converse(t + 6, 7, (t + 6) / 7, r);
        lemma_fundamental_div_mod_converse(t - r + 6, 7, (t + 6) / 7, 0);
    }
}

/// The pomodoros shown are the time divided by the pomodoro length, to the
/// nearest tenth: no tenth lies closer to it (a half rounds up).
pub proof fn law_pomodoro_tenths_nearest(seconds: nat, length: nat)
    requires
        length > 0,
    ensures
        2 * length * pomodoro_tenths(seconds, length) <= 20 * seconds + length,
        20 * seconds + length < 2 * length * (pomodoro_tenths(seconds, length) + 1),
{
    let n = (seconds * 20 + length) as int;
    let d = (2 * length) as int;
    let q = n / d;
    let r = n % d;
    lemma_fundamental_div_mod(n, d);
    assert(0 <= r < d);
    assert(d * q <= n < d * (q + 1)) by (nonlinear_arith)
        requires
            n == d * q + r,
            0 <= r < d,
    ;
}

} // verus!
