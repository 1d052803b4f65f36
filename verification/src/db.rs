use vstd::prelude::*;

use crate::date::{local_today, NaiveDate};

verus! {

/// How a habit's timer runs: counting down from its duration, or counting up.
#[derive(Clone, Copy, Debug, PartialEq, Eq, Structural)]
pub enum HabitMode {
    /// A countdown timer.
    Timed,
    /// An elapsed-time timer.
    Stopwatch,
}

/// What a habit records for a day: time spent, done or not, or a number.
#[derive(Clone, Copy, Debug, PartialEq, Eq, Structural)]
pub enum HabitType {
    Timer,
    Boolean,
    Number,
}

/// Why a store operation was refused.
#[derive(Clone, Copy, Debug, PartialEq, Eq, Structural)]
pub enum DbError {
    /// No habit has the requested id.
    NotFound,
    /// The next id would not fit in an `i64`.
    IdsExhausted,
    /// The store already holds as many habits as it can number.
    TooManyHabits,
    /// A total does not fit in its result type.
    Overflow,
    /// Rows handed to `from_rows` break the store's invariant.
    InvalidRows,
}

/// A habit as the store holds it.
#[derive(Debug)]
pub struct Habit {
    pub id: i64,
    pub description: String,
    pub order_index: i32,
    /// The countdown length; 0 for a habit timed by stopwatch.
    pub timer_duration_seconds: u32,
    pub mode: HabitMode,
    pub habit_type: HabitType,
    pub min_value: Option<u32>,
}

/// The mathematical value of a `Habit`.
pub struct HabitRecord {
    pub id: i64,
    pub description: Seq<char>,
    pub order_index: i32,
    pub timer_duration_seconds: u32,
    pub mode: HabitMode,
    pub habit_type: HabitType,
    pub min_value: Option<u32>,
}

impl View for Habit {
    type V = HabitRecord;

    open spec fn view(&self) -> HabitRecord {
        HabitRecord {
            id: self.id,
            description: self.description@,
            order_index: self.order_index,
            timer_duration_seconds: self.timer_duration_seconds,
            mode: self.mode,
            habit_type: self.habit_type,
            min_value: self.min_value,
        }
    }
}

impl Clone for Habit {
    fn clone(&self) -> (r: Self)
        ensures
            r@ == self@,
    {
        Habit {
            id: self.id,
            description: self.description.clone(),
            order_index: self.order_index,
            timer_duration_seconds: self.timer_duration_seconds,
            mode: self.mode,
            habit_type: self.habit_type,
            min_value: self.min_value,
        }
    }
}

/// A recorded session: time spent on a habit on a date, or a value set for it.
#[derive(Debug)]
pub struct Session {
    pub id: i64,
    pub habit_id: i64,
    pub date: NaiveDate,
    pub duration_seconds: u32,
    pub completed_at: String,
    /// The bit pattern of the IEEE 754 double recorded for the day, if any.
    pub value: Option<u64>,
}

/// The mathematical value of a `Session`.
pub struct SessionRecord {
    pub id: i64,
    pub habit_id: i64,
    pub date: NaiveDate,
    pub duration_seconds: u32,
    pub completed_at: Seq<char>,
    pub value: Option<u64>,
}

impl View for Session {
    type V = SessionRecord;

    open spec fn view(&self) -> SessionRecord {
        SessionRecord {
            id: self.id,
            habit_id: self.habit_id,
            date: self.date,
            duration_seconds: self.duration_seconds,
            completed_at: self.completed_at@,
            value: self.value,
        }
    }
}

impl Clone for Session {
    fn clone(&self) -> (r: Self)
        ensures
            r@ == self@,
    {
        Session {
            id: self.id,
            habit_id: self.habit_id,
            date: self.date,
            duration_seconds: self.duration_seconds,
            completed_at: self.completed_at.clone(),
            value: self.value,
        }
    }
}

pub open spec fn habit_views(v: Seq<Habit>) -> Seq<HabitRecord> {
    v.map_values(|h: Habit| h@)
}

pub open spec fn session_views(v: Seq<Session>) -> Seq<SessionRecord> {
    v.map_values(|s: Session| s@)
}

/// The largest number of habits the store holds: their order indices
/// `0 .. n - 1` must fit in an `i32`.
pub open spec fn habit_capacity() -> int {
    i32::MAX + 1
}

/// The contents of a store: habits in display order, sessions in the order
/// they were recorded, and the last ids handed out.
pub struct DbState {
    pub habits: Seq<HabitRecord>,
    pub sessions: Seq<SessionRecord>,
    pub last_habit_id: i64,
    pub last_session_id: i64,
}

/// Each habit carries its position in the display order as its order index.
pub open spec fn renumbered(hs: Seq<HabitRecord>) -> Seq<HabitRecord> {
    Seq::new(hs.len(), |i: int| HabitRecord { order_index: i as i32, ..hs[i] })
}

/// `hs` with the element at `from` taken out and put back at `to`.
pub open spec fn moved(hs: Seq<HabitRecord>, from: int, to: int) -> Seq<HabitRecord> {
    hs.remove(from).insert(to, hs[from])
}

/// Which sessions a removal takes out.
#[derive(Clone, Copy, Debug, PartialEq, Eq, Structural)]
pub enum SessionDrop {
    /// The session with this id.
    Id(i64),
    /// Every session of this habit.
    Habit(i64),
    /// Every session of this habit on this date.
    HabitOn(i64, NaiveDate),
    /// Every session of this habit on this date that carries a value.
    ValueOn(i64, NaiveDate),
}

pub open spec fn is_on(s: SessionRecord, habit_id: i64, date: NaiveDate) -> bool {
    s.habit_id == habit_id && s.date == date
}

pub open spec fn drops(d: SessionDrop, s: SessionRecord) -> bool {
    match d {
        SessionDrop::Id(id) => s.id == id,
        SessionDrop::Habit(habit_id) => s.habit_id == habit_id,
        SessionDrop::HabitOn(habit_id, date) => is_on(s, habit_id, date),
        SessionDrop::ValueOn(habit_id, date) => is_on(s, habit_id, date) && s.value is Some,
    }
}

/// The sessions from index `i` on that `d` does not take out, in order.
pub open spec fn kept_from(ss: Seq<SessionRecord>, d: SessionDrop, i: int) -> Seq<SessionRecord>
    decreases ss.len() - i,
{
    if i < 0 || i >= ss.len() {
        Seq::empty()
    } else if drops(d, ss[i]) {
        kept_from(ss, d, i + 1)
    } else {
        seq![ss[i]] + kept_from(ss, d, i + 1)
    }
}

pub open spec fn kept(ss: Seq<SessionRecord>, d: SessionDrop) -> Seq<SessionRecord> {
    kept_from(ss, d, 0)
}

/// The ids, in order, of the sessions from index `i` on of a habit on a date.
pub open spec fn ids_on_from(ss: Seq<SessionRecord>, habit_id: i64, date: NaiveDate, i: int) -> Seq<i64>
    decreases ss.len() - i,
{
    if i < 0 || i >= ss.len() {
        Seq::empty()
    } else if is_on(ss[i], habit_id, date) {
        seq![ss[i].id] + ids_on_from(ss, habit_id, date, i + 1)
    } else {
        ids_on_from(ss, habit_id, date, i + 1)
    }
}

/// The summed durations of the sessions from index `i` on of a habit on a date.
pub open spec fn seconds_on_from(ss: Seq<SessionRecord>, habit_id: i64, date: NaiveDate, i: int) -> nat
    decreases ss.len() - i,
{
    if i < 0 || i >= ss.len() {
        0
    } else if is_on(ss[i], habit_id, date) {
        ss[i].duration_seconds as nat + seconds_on_from(ss, habit_id, date, i + 1)
    } else {
        seconds_on_from(ss, habit_id, date, i + 1)
    }
}

/// The value of the first session from index `i` on of a habit on a date
/// that carries one.
pub open spec fn value_on_from(ss: Seq<SessionRecord>, habit_id: i64, date: NaiveDate, i: int) -> Option<u64>
    decreases ss.len() - i,
{
    if i < 0 || i >= ss.len() {
        None
    } else if is_on(ss[i], habit_id, date) && ss[i].value is Some {
        ss[i].value
    } else {
        value_on_from(ss, habit_id, date, i + 1)
    }
}

pub open spec fn in_display_order(hs: Seq<HabitRecord>) -> bool {
    forall|i: int| 0 <= i < hs.len() ==> #[trigger] hs[i].order_index == i
}

pub open spec fn distinct_ids(hs: Seq<HabitRecord>) -> bool {
    forall|i: int, j: int| 0 <= i < j < hs.len() ==> #[trigger] hs[i].id != #[trigger] hs[j].id
}

pub open spec fn habit_ids_up_to(hs: Seq<HabitRecord>, last: i64) -> bool {
    forall|i: int| 0 <= i < hs.len() ==> #[trigger] hs[i].id <= last
}

pub open spec fn rising_ids(ss: Seq<SessionRecord>) -> bool {
    forall|i: int, j: int| 0 <= i < j < ss.len() ==> #[trigger] ss[i].id < #[trigger] ss[j].id
}

pub open spec fn session_ids_up_to(ss: Seq<SessionRecord>, last: i64) -> bool {
    forall|i: int| 0 <= i < ss.len() ==> #[trigger] ss[i].id <= last
}

/// `h` with its description, timer and kind replaced, where it has this id.
pub open spec fn updated_habit(
    h: HabitRecord,
    id: i64,
    description: Seq<char>,
    timer_duration_seconds: u32,
    mode: HabitMode,
    habit_type: HabitType,
    min_value: Option<u32>,
) -> HabitRecord {
    if h.id == id {
        HabitRecord {
            id: h.id,
            description,
            order_index: h.order_index,
            timer_duration_seconds,
            mode,
            habit_type,
            min_value,
        }
    } else {
        h
    }
}

/// `s` with its duration replaced, where it has this id.
pub open spec fn retimed(s: SessionRecord, id: i64, duration_seconds: u32) -> SessionRecord {
    if s.id == id {
        SessionRecord { duration_seconds, ..s }
    } else {
        s
    }
}

/// Rows that a store can be built from: few enough habits, with distinct
/// bounded ids, and sessions with rising bounded ids.
pub open spec fn rows_acceptable(
    habits: Seq<HabitRecord>,
    sessions: Seq<SessionRecord>,
    last_habit_id: i64,
    last_session_id: i64,
) -> bool {
    &&& habits.len() <= habit_capacity()
    &&& distinct_ids(habits)
    &&& habit_ids_up_to(habits, last_habit_id)
    &&& rising_ids(sessions)
    &&& session_ids_up_to(sessions, last_session_id)
}

impl DbState {
    /// The store's invariant: order indices are the display positions, habit
    /// ids are distinct, session ids rise in recording order, and no id
    /// exceeds the last one handed out.
    pub open spec fn valid(self) -> bool {
        &&& self.habits.len() <= habit_capacity()
        &&& in_display_order(self.habits)
        &&& distinct_ids(self.habits)
        &&& habit_ids_up_to(self.habits, self.last_habit_id)
        &&& rising_ids(self.sessions)
        &&& session_ids_up_to(self.sessions, self.last_session_id)
    }

    pub open spec fn has_habit(self, id: i64) -> bool {
        exists|i: int| 0 <= i < self.habits.len() && self.habits[i].id == id
    }

    /// The position of the habit with this id, where there is one.
    pub open spec fn habit_index(self, id: i64) -> int {
        choose|i: int| 0 <= i < self.habits.len() && self.habits[i].id == id
    }

    pub open spec fn habit(self, id: i64) -> HabitRecord {
        self.habits[self.habit_index(id)]
    }

    pub open spec fn can_add_habit(self) -> bool {
        self.habits.len() < habit_capacity() && self.last_habit_id < i64::MAX
    }

    /// The habit that an addition records: the next id, placed last.
    pub open spec fn new_habit(
        self,
        description: Seq<char>,
        timer_duration_seconds: u32,
        mode: HabitMode,
        habit_type: HabitType,
        min_value: Option<u32>,
    ) -> HabitRecord {
        HabitRecord {
            id: (self.last_habit_id + 1) as i64,
            description,
            order_index: self.habits.len() as i32,
            timer_duration_seconds,
            mode,
            habit_type,
            min_value,
        }
    }

    pub open spec fn with_habit_added(self, h: HabitRecord) -> DbState {
        DbState { habits: self.habits.push(h), last_habit_id: h.id, ..self }
    }

    pub open spec fn with_habit_updated(
        self,
        id: i64,
        description: Seq<char>,
        timer_duration_seconds: u32,
        mode: HabitMode,
        habit_type: HabitType,
        min_value: Option<u32>,
    ) -> DbState {
        DbState {
            habits: self.habits.map_values(
                |h: HabitRecord|
                    updated_habit(h, id, description, timer_duration_seconds, mode, habit_type, min_value),
            ),
            ..self
        }
    }

    /// Deleting a habit takes out its sessions too, and closes the gap in
    /// the display order.
    pub open spec fn with_habit_deleted(self, id: i64) -> DbState {
        if self.has_habit(id) {
            DbState {
                habits: renumbered(self.habits.remove(self.habit_index(id))),
                sessions: kept(self.sessions, SessionDrop::Habit(id)),
                ..self
            }
        } else {
            self
        }
    }

    /// Moving a habit to a position in range puts it there, the habits in
    /// between shifting by one; any other request leaves the store as it is.
    pub open spec fn with_habit_moved(self, id: i64, new_index: i32) -> DbState {
        if 0 <= new_index < self.habits.len() && self.habit_index(id) != new_index {
            DbState {
                habits: renumbered(moved(self.habits, self.habit_index(id), new_index as int)),
                ..self
            }
        } else {
            self
        }
    }

    pub open spec fn can_add_session(self) -> bool {
        self.last_session_id < i64::MAX
    }

    /// A session can be recorded for the habit: it exists, and a session id
    /// is left to give.
    pub open spec fn can_record(self, habit_id: i64) -> bool {
        self.has_habit(habit_id) && self.can_add_session()
    }

    pub open spec fn new_session(
        self,
        habit_id: i64,
        date: NaiveDate,
        duration_seconds: u32,
        completed_at: Seq<char>,
        value: Option<u64>,
    ) -> SessionRecord {
        SessionRecord {
            id: (self.last_session_id + 1) as i64,
            habit_id,
            date,
            duration_seconds,
            completed_at,
            value,
        }
    }

    pub open spec fn with_session_added(self, s: SessionRecord) -> DbState {
        DbState { sessions: self.sessions.push(s), last_session_id: s.id, ..self }
    }

    pub open spec fn with_sessions_dropped(self, d: SessionDrop) -> DbState {
        DbState { sessions: kept(self.sessions, d), ..self }
    }

    pub open spec fn with_duration_set(self, id: i64, duration_seconds: u32) -> DbState {
        DbState {
            sessions: self.sessions.map_values(|s: SessionRecord| retimed(s, id, duration_seconds)),
            ..self
        }
    }

    pub open spec fn session_ids_on(self, habit_id: i64, date: NaiveDate) -> Seq<i64> {
        ids_on_from(self.sessions, habit_id, date, 0)
    }

    pub open spec fn has_session_on(self, habit_id: i64, day: int) -> bool {
        exists|i: int|
            0 <= i < self.sessions.len() && #[trigger] self.sessions[i].habit_id == habit_id
                && self.sessions[i].date.days == day
    }

    pub open spec fn seconds_on(self, habit_id: i64, date: NaiveDate) -> nat {
        seconds_on_from(self.sessions, habit_id, date, 0)
    }

    pub open spec fn value_on(self, habit_id: i64, date: NaiveDate) -> Option<u64> {
        value_on_from(self.sessions, habit_id, date, 0)
    }

    /// The number of consecutive days, going back from `day` and looking at
    /// no more than `limit` days, on which the habit has a session.
    pub open spec fn streak_from(self, habit_id: i64, day: int, limit: nat) -> nat
        decreases limit,
    {
        if limit == 0 {
            0
        } else if self.has_session_on(habit_id, day) {
            1 + self.streak_from(habit_id, day - 1, (limit - 1) as nat)
        } else {
            0
        }
    }

    /// The number of consecutive days ending with `today` on which the habit
    /// has a session. A date's day number is an `i32`, so the days from the
    /// first one an `i32` holds up to `today` are every day that can have one.
    pub open spec fn streak_until(self, habit_id: i64, today: NaiveDate) -> nat {
        self.streak_from(habit_id, today.days as int, days_up_to(today))
    }
}

/// How many day numbers an `i32` holds from its least up to `today`.
pub open spec fn days_up_to(today: NaiveDate) -> nat {
    (today.days - i32::MIN + 1) as nat
}

/// The streak ending on `today` as `get_streak_days_on` reports it: the
/// number of days, or `Overflow` where it does not fit in a `u32`.
pub open spec fn streak_result(s: DbState, habit_id: i64, today: NaiveDate) -> Result<u32, DbError> {
    if s.streak_until(habit_id, today) > u32::MAX {
        Err(DbError::Overflow)
    } else {
        Ok(s.streak_until(habit_id, today) as u32)
    }
}

/// A habit store: habits with their display order, and the sessions
/// recorded for them.
pub struct Database {
    habits: Vec<Habit>,
    sessions: Vec<Session>,
    last_habit_id: i64,
    last_session_id: i64,
}

impl View for Database {
    type V = DbState;

    closed spec fn view(&self) -> DbState {
        DbState {
            habits: habit_views(self.habits@),
            sessions: session_views(self.sessions@),
            last_habit_id: self.last_habit_id,
            last_session_id: self.last_session_id,
        }
    }
}

/// With distinct ids, the habit found at `i` is the one `habit_index` names.
pub proof fn lemma_habit_index(s: DbState, i: int)
    requires
        s.valid(),
        0 <= i < s.habits.len(),
    ensures
        s.has_habit(s.habits[i].id),
        s.habit_index(s.habits[i].id) == i,
        s.habit(s.habits[i].id) == s.habits[i],
{
    let id: i64 = s.habits[i].id;
    assert(s.habits[i].id == id);
    let k: int = s.habit_index(id);
    if k != i {
        if k < i {
            assert(s.habits[k].id != s.habits[i].id);
        } else {
            assert(s.habits[i].id != s.habits[k].id);
        }
    }
}

/// Taking a habit out keeps the ids distinct and bounded.
pub proof fn lemma_remove_keeps_ids(hs: Seq<HabitRecord>, k: int, last: i64)
    requires
        distinct_ids(hs),
        habit_ids_up_to(hs, last),
        0 <= k < hs.len(),
    ensures
        distinct_ids(hs.remove(k)),
        habit_ids_up_to(hs.remove(k), last),
        forall|t: int| 0 <= t < hs.len() - 1 ==> #[trigger] hs.remove(k)[t].id != hs[k].id,
{
    let r = hs.remove(k);
    assert forall|i: int, j: int| 0 <= i < j < r.len() implies #[trigger] r[i].id != #[trigger] r[j].id by {
        let i2 = if i < k { i } else { i + 1 };
        let j2 = if j < k { j } else { j + 1 };
        assert(r[i] == hs[i2]);
        assert(r[j] == hs[j2]);
        assert(hs[i2].id != hs[j2].id);
    }
    assert forall|i: int| 0 <= i < r.len() implies #[trigger] r[i].id <= last by {
        let i2 = if i < k { i } else { i + 1 };
        assert(r[i] == hs[i2]);
    }
    assert forall|t: int| 0 <= t < hs.len() - 1 implies #[trigger] hs.remove(k)[t].id != hs[k].id by {
        let t2 = if t < k { t } else { t + 1 };
        assert(r[t] == hs[t2]);
        if t2 < k {
            assert(hs[t2].id != hs[k].id);
        } else {
            assert(hs[k].id != hs[t2].id);
        }
    }
}

/// Putting in a habit whose id no other has keeps the ids distinct and bounded.
pub proof fn lemma_insert_keeps_ids(hs: Seq<HabitRecord>, p: int, e: HabitRecord, last: i64)
    requires
        distinct_ids(hs),
        habit_ids_up_to(hs, last),
        e.id <= last,
        0 <= p <= hs.len(),
        forall|t: int| 0 <= t < hs.len() ==> #[trigger] hs[t].id != e.id,
    ensures
        distinct_ids(hs.insert(p, e)),
        habit_ids_up_to(hs.insert(p, e), last),
{
    let r = hs.insert(p, e);
    assert forall|i: int, j: int| 0 <= i < j < r.len() implies #[trigger] r[i].id != #[trigger] r[j].id by {
        if i == p {
            assert(r[j] == hs[j - 1]);
        } else if j == p {
            assert(r[i] == hs[i]);
        } else {
            let i2 = if i < p { i } else { i - 1 };
            let j2 = if j < p { j } else { j - 1 };
            assert(r[i] == hs[i2]);
            assert(r[j] == hs[j2]);
            assert(hs[i2].id != hs[j2].id);
        }
    }
    assert forall|i: int| 0 <= i < r.len() implies #[trigger] r[i].id <= last by {
        if i != p {
            let i2 = if i < p { i } else { i - 1 };
            assert(r[i] == hs[i2]);
        }
    }
}

/// Renumbering changes no id, and puts the order indices in display order.
pub proof fn lemma_renumbered_keeps_ids(hs: Seq<HabitRecord>, last: i64)
    requires
        distinct_ids(hs),
        habit_ids_up_to(hs, last),
        hs.len() <= habit_capacity(),
    ensures
        distinct_ids(renumbered(hs)),
        habit_ids_up_to(renumbered(hs), last),
        in_display_order(renumbered(hs)),
        renumbered(hs).len() == hs.len(),
{
    let r = renumbered(hs);
    assert forall|i: int, j: int| 0 <= i < j < r.len() implies #[trigger] r[i].id != #[trigger] r[j].id by {
        assert(hs[i].id != hs[j].id);
    }
    assert forall|i: int| 0 <= i < r.len() implies #[trigger] r[i].id <= last by {
        assert(r[i].id == hs[i].id);
    }
}

/// A sequence already in display order is its own renumbering.
pub proof fn lemma_renumbered_same(hs: Seq<HabitRecord>)
    requires
        in_display_order(hs),
        hs.len() <= habit_capacity(),
    ensures
        renumbered(hs) == hs,
{
    assert forall|i: int| 0 <= i < hs.len() implies #[trigger] renumbered(hs)[i] == hs[i] by {
        assert(hs[i].order_index == i);
    }
    assert(renumbered(hs) =~= hs);
}

/// What a removal keeps of sessions with rising ids still has rising,
/// bounded ids.
pub proof fn lemma_kept_from(ss: Seq<SessionRecord>, d: SessionDrop, i: int, last: i64)
    requires
        rising_ids(ss),
        session_ids_up_to(ss, last),
        0 <= i <= ss.len(),
    ensures
        rising_ids(kept_from(ss, d, i)),
        session_ids_up_to(kept_from(ss, d, i), last),
        i < ss.len() ==> forall|a: int|
            0 <= a < kept_from(ss, d, i).len() ==> ss[i].id <= #[trigger] kept_from(ss, d, i)[a].id,
    decreases ss.len() - i,
{
    if i < ss.len() {
        lemma_kept_from(ss, d, i + 1, last);
        let k = kept_from(ss, d, i);
        let rest = kept_from(ss, d, i + 1);
        if i + 1 < ss.len() {
            assert(ss[i].id < ss[i + 1].id);
        }
        if !drops(d, ss[i]) {
            assert(k == seq![ss[i]] + rest);
            assert forall|a: int, b: int| 0 <= a < b < k.len() implies #[trigger] k[a].id < #[trigger] k[b].id by {
                assert(k[b] == rest[b - 1]);
                if a > 0 {
                    assert(k[a] == rest[a - 1]);
                }
            }
            assert forall|a: int| 0 <= a < k.len() implies #[trigger] k[a].id <= last by {
                if a > 0 {
                    assert(k[a] == rest[a - 1]);
                }
            }
            assert forall|a: int| 0 <= a < k.len() implies ss[i].id <= #[trigger] k[a].id by {
                if a > 0 {
                    assert(k[a] == rest[a - 1]);
                }
            }
        }
    }
}

impl Database {
    pub open spec fn wf(&self) -> bool {
        self@.valid()
    }

    /// An empty store.
    pub fn new() -> (db: Database)
        ensures
            db.wf(),
            db@.habits == Seq::<HabitRecord>::empty(),
            db@.sessions == Seq::<SessionRecord>::empty(),
            db@.last_habit_id == 0,
            db@.last_session_id == 0,
    {
        let db = Database { habits: Vec::new(), sessions: Vec::new(), last_habit_id: 0, last_session_id: 0 };
        assert(db@.habits =~= Seq::<HabitRecord>::empty());
        assert(db@.sessions =~= Seq::<SessionRecord>::empty());
        db
    }

    /// The habit with this id.
    pub fn get_habit(&self, id: i64) -> (r: Result<Habit, DbError>)
        requires
            self.wf(),
        ensures
            match r {
                Ok(h) => self@.has_habit(id) && h@ == self@.habit(id),
                Err(e) => e == DbError::NotFound && !self@.has_habit(id),
            },
    {
        let n: usize = self.habits.len();
        let mut i: usize = 0;
        while i < n
            invariant
                self.wf(),
                n == self.habits@.len(),
                i <= n,
                forall|j: int| 0 <= j < i ==> self@.habits[j].id != id,
            decreases n - i,
        {
            if self.habits[i].id == id {
                let h = self.habits[i].clone();
                proof {
                    lemma_habit_index(self@, i as int);
                }
                return Ok(h);
            }
            i += 1;
        }
        Err(DbError::NotFound)
    }

    /// Every habit, in display order.
    pub fn get_all_habits(&self) -> (r: Result<Vec<Habit>, DbError>)
        requires
            self.wf(),
        ensures
            r matches Ok(v) && habit_views(v@) == self@.habits,
    {
        let n: usize = self.habits.len();
        let mut out: Vec<Habit> = Vec::new();
        let mut i: usize = 0;
        while i < n
            invariant
                n == self.habits@.len(),
                i <= n,
                habit_views(out@) =~= self@.habits.take(i as int),
            decreases n - i,
        {
            let h = self.habits[i].clone();
            let ghost prev = out@;
            out.push(h);
            assert(out@ == prev.push(h));
            assert(habit_views(out@) =~= habit_views(prev).push(h@));
            assert(self@.habits.take(i + 1) =~= self@.habits.take(i as int).push(self@.habits[i as int]));
            i += 1;
        }
        assert(self@.habits.take(n as int) =~= self@.habits);
        Ok(out)
    }

    /// Adds a habit at the end of the display order, with the next id.
    pub fn add_habit(
        &mut self,
        description: &str,
        timer_duration_seconds: u32,
        mode: HabitMode,
        habit_type: HabitType,
        min_value: Option<u32>,
    ) -> (r: Result<Habit, DbError>)
        requires
            old(self).wf(),
        ensures
            final(self).wf(),
            match r {
                Ok(h) => {
                    &&& old(self)@.can_add_habit()
                    &&& h@ == old(self)@.new_habit(description@, timer_duration_seconds, mode, habit_type, min_value)
                    &&& final(self)@ == old(self)@.with_habit_added(h@)
                },
                Err(e) => {
                    &&& !old(self)@.can_add_habit()
                    &&& final(self)@ == old(self)@
                    &&& e == if old(self)@.habits.len() >= habit_capacity() {
                        DbError::TooManyHabits
                    } else {
                        DbError::IdsExhausted
                    }
                },
            },
    {
        if self.habits.len() >= 2147483648usize {
            return Err(DbError::TooManyHabits);
        }
        if self.last_habit_id == i64::MAX {
            return Err(DbError::IdsExhausted);
        }
        let id: i64 = self.last_habit_id + 1;
        let h = Habit {
            id,
            description: description.to_owned(),
            order_index: self.habits.len() as i32,
            timer_duration_seconds,
            mode,
            habit_type,
            min_value,
        };
        let ghost pre = self@;
        self.habits.push(h.clone());
        self.last_habit_id = id;
        assert(self@.habits =~= pre.habits.push(h@));
        assert(self@ == pre.with_habit_added(h@));
        Ok(h)
    }

    /// Sets the description, timer and kind of the habit with this id; the
    /// store is left as it is where no habit has it.
    pub fn update_habit(
        &mut self,
        id: i64,
        description: &str,
        timer_duration_seconds: u32,
        mode: HabitMode,
        habit_type: HabitType,
        min_value: Option<u32>,
    ) -> (r: Result<(), DbError>)
        requires
            old(self).wf(),
        ensures
            final(self).wf(),
            r is Ok,
            final(self)@ == old(self)@.with_habit_updated(
                id,
                description@,
                timer_duration_seconds,
                mode,
                habit_type,
                min_value,
            ),
    {
        let ghost pre = self@;
        let ghost target = pre.with_habit_updated(
            id,
            description@,
            timer_duration_seconds,
            mode,
            habit_type,
            min_value,
        );
        let n: usize = self.habits.len();
        let mut i: usize = 0;
        while i < n
            invariant
                n == self.habits@.len(),
                n == pre.habits.len(),
                i <= n,
                self.sessions@ == old(self).sessions@,
                self.last_habit_id == pre.last_habit_id,
                self.last_session_id == pre.last_session_id,
                target == pre.with_habit_updated(
                    id,
                    description@,
                    timer_duration_seconds,
                    mode,
                    habit_type,
                    min_value,
                ),
                pre.valid(),
                target.habits.len() == n,
                forall|j: int| 0 <= j < i ==> #[trigger] self.habits@[j]@ == target.habits[j],
                forall|j: int| i <= j < n ==> #[trigger] self.habits@[j]@ == pre.habits[j],
            decreases n - i,
        {
            assert(self.habits@[i as int]@ == pre.habits[i as int]);
            assert(target.habits[i as int] == updated_habit(
                pre.habits[i as int],
                id,
                description@,
                timer_duration_seconds,
                mode,
                habit_type,
                min_value,
            ));
            if self.habits[i].id == id {
                let old_order: i32 = self.habits[i].order_index;
                let h = Habit {
                    id,
                    description: description.to_owned(),
                    order_index: old_order,
                    timer_duration_seconds,
                    mode,
                    habit_type,
                    min_value,
                };
                self.habits.set(i, h);
            }
            i += 1;
        }
        assert(self@.habits =~= target.habits);
        assert(self@.sessions == pre.sessions);
        assert(self@ == target);
        Ok(())
    }

    fn renumber_from(&mut self, start: usize)
        requires
            start <= old(self).habits@.len(),
            old(self).habits@.len() <= habit_capacity(),
            forall|t: int| 0 <= t < start ==> #[trigger] old(self).habits@[t].order_index == t,
        ensures
            habit_views(final(self).habits@) == renumbered(habit_views(old(self).habits@)),
            final(self).sessions@ == old(self).sessions@,
            final(self).last_habit_id == old(self).last_habit_id,
            final(self).last_session_id == old(self).last_session_id,
    {
        let ghost pre = habit_views(self.habits@);
        let n: usize = self.habits.len();
        assert forall|t: int| 0 <= t < start implies #[trigger] self.habits@[t]@ == renumbered(pre)[t] by {
            assert(pre[t] == self.habits@[t]@);
        }
        let mut j: usize = start;
        while j < n
            invariant
                n == self.habits@.len(),
                n == pre.len(),
                start <= j <= n,
                n <= habit_capacity(),
                forall|t: int| 0 <= t < j ==> #[trigger] self.habits@[t]@ == renumbered(pre)[t],
                forall|t: int| j <= t < n ==> #[trigger] self.habits@[t]@ == pre[t],
                self.sessions@ == old(self).sessions@,
                self.last_habit_id == old(self).last_habit_id,
                self.last_session_id == old(self).last_session_id,
            decreases n - j,
        {
            let mut h = self.habits[j].clone();
            h.order_index = j as i32;
            self.habits.set(j, h);
            j += 1;
        }
        assert(habit_views(self.habits@) =~= renumbered(pre));
    }

    fn drops_session(d: SessionDrop, s: &Session) -> (b: bool)
        ensures
            b == drops(d, s@),
    {
        match d {
            SessionDrop::Id(id) => s.id == id,
            SessionDrop::Habit(habit_id) => s.habit_id == habit_id,
            SessionDrop::HabitOn(habit_id, date) => s.habit_id == habit_id && s.date == date,
            SessionDrop::ValueOn(habit_id, date) => s.habit_id == habit_id && s.date == date
                && s.value.is_some(),
        }
    }

    fn drop_sessions(&mut self, d: SessionDrop)
        requires
            old(self).wf(),
        ensures
            final(self).wf(),
            final(self)@ == old(self)@.with_sessions_dropped(d),
    {
        let ghost pre = self@;
        let n: usize = self.sessions.len();
        let mut out: Vec<Session> = Vec::new();
        let mut i: usize = 0;
        while i < n
            invariant
                self@ == pre,
                n == pre.sessions.len(),
                i <= n,
                session_views(out@) + kept_from(pre.sessions, d, i as int) == kept(pre.sessions, d),
            decreases n - i,
        {
            let ghost prev = session_views(out@);
            assert(pre.sessions[i as int] == self.sessions@[i as int]@);
            if !Self::drops_session(d, &self.sessions[i]) {
                let c = self.sessions[i].clone();
                out.push(c);
                assert(session_views(out@) =~= prev.push(c@));
                assert(kept_from(pre.sessions, d, i as int) == seq![pre.sessions[i as int]] + kept_from(pre.sessions, d, i + 1));
                assert(session_views(out@) + kept_from(pre.sessions, d, i + 1) =~= prev + kept_from(pre.sessions, d, i as int));
            }
            i += 1;
        }
        assert(kept_from(pre.sessions, d, n as int) == Seq::<SessionRecord>::empty());
        assert(session_views(out@) =~= kept(pre.sessions, d));
        self.sessions = out;
        proof {
            lemma_kept_from(pre.sessions, d, 0, pre.last_session_id);
        }
    }

    fn find_habit(&self, id: i64) -> (k: Option<usize>)
        requires
            self.wf(),
        ensures
            match k {
                Some(k) => self@.has_habit(id) && k == self@.habit_index(id) && k < self@.habits.len(),
                None => !self@.has_habit(id),
            },
    {
        let n: usize = self.habits.len();
        let mut i: usize = 0;
        while i < n
            invariant
                self.wf(),
                n == self.habits@.len(),
                i <= n,
                forall|j: int| 0 <= j < i ==> self@.habits[j].id != id,
            decreases n - i,
        {
            if self.habits[i].id == id {
                proof {
                    lemma_habit_index(self@, i as int);
                }
                return Some(i);
            }
            i += 1;
        }
        None
    }

    /// Deletes the habit with this id and, with it, its sessions; the habits
    /// after it move up one place in the display order.
    pub fn delete_habit(&mut self, id: i64) -> (r: Result<(), DbError>)
        requires
            old(self).wf(),
        ensures
            final(self).wf(),
            r is Ok,
            final(self)@ == old(self)@.with_habit_deleted(id),
    {
        let ghost pre = self@;
        match self.find_habit(id) {
            None => Ok(()),
            Some(k) => {
                self.habits.remove(k);
                assert(habit_views(self.habits@) =~= pre.habits.remove(k as int));
                proof {
                    lemma_remove_keeps_ids(pre.habits, k as int, pre.last_habit_id);
                    assert forall|t: int| 0 <= t < k implies #[trigger] self.habits@[t].order_index == t by {
                        assert(habit_views(self.habits@)[t] == self.habits@[t]@);
                        assert(pre.habits.remove(k as int)[t] == pre.habits[t]);
                        assert(pre.habits[t].order_index == t);
                    }
                }
                self.renumber_from(k);
                proof {
                    lemma_renumbered_keeps_ids(pre.habits.remove(k as int), pre.last_habit_id);
                }
                self.drop_sessions(SessionDrop::Habit(id));
                Ok(())
            },
        }
    }

    /// Sets each habit's order index to its position in the display order.
    /// The store keeps them so, so this changes nothing.
    pub fn reorder_habits(&mut self) -> (r: Result<(), DbError>)
        requires
            old(self).wf(),
        ensures
            final(self).wf(),
            r is Ok,
            final(self)@ == old(self)@,
    {
        let ghost pre = self@;
        self.renumber_from(0);
        proof {
            lemma_renumbered_same(pre.habits);
        }
        assert(self@.habits == pre.habits);
        Ok(())
    }

    /// Moves the habit with this id to position `new_index` of the display
    /// order, shifting the habits in between by one. A position out of range
    /// leaves the store as it is.
    pub fn move_habit(&mut self, id: i64, new_index: i32) -> (r: Result<(), DbError>)
        requires
            old(self).wf(),
            0 <= new_index < old(self)@.habits.len() ==> old(self)@.has_habit(id),
        ensures
            final(self).wf(),
            r is Ok,
            final(self)@ == old(self)@.with_habit_moved(id, new_index),
    {
        let ghost pre = self@;
        let n: usize = self.habits.len();
        if new_index < 0 || new_index as usize >= n {
            return Ok(());
        }
        let k: usize = match self.find_habit(id) {
            Some(k) => k,
            None => {
                return Ok(());
            },
        };
        let to: usize = new_index as usize;
        if k == to {
            return Ok(());
        }
        let h = self.habits.remove(k);
        self.habits.insert(to, h);
        assert(habit_views(self.habits@) =~= moved(pre.habits, k as int, to as int));
        let start: usize = if k < to { k } else { to };
        proof {
            lemma_remove_keeps_ids(pre.habits, k as int, pre.last_habit_id);
            lemma_insert_keeps_ids(pre.habits.remove(k as int), to as int, pre.habits[k as int], pre.last_habit_id);
            assert forall|t: int| 0 <= t < start implies #[trigger] self.habits@[t].order_index == t by {
                assert(habit_views(self.habits@)[t] == self.habits@[t]@);
                assert(moved(pre.habits, k as int, to as int)[t] == pre.habits[t]);
                assert(pre.habits[t].order_index == t);
            }
        }
        self.renumber_from(start);
        proof {
            lemma_renumbered_keeps_ids(moved(pre.habits, k as int, to as int), pre.last_habit_id);
        }
        Ok(())
    }

    fn push_session(
        &mut self,
        habit_id: i64,
        date: NaiveDate,
        duration_seconds: u32,
        completed_at: String,
        value: Option<u64>,
    ) -> (r: Result<(), DbError>)
        requires
            old(self).wf(),
        ensures
            final(self).wf(),
            match r {
                Ok(()) => {
                    &&& old(self)@.can_record(habit_id)
                    &&& final(self)@ == old(self)@.with_session_added(
                        old(self)@.new_session(habit_id, date, duration_seconds, completed_at@, value),
                    )
                },
                Err(e) => {
                    &&& !old(self)@.can_record(habit_id)
                    &&& final(self)@ == old(self)@
                    &&& e == if !old(self)@.has_habit(habit_id) {
                        DbError::NotFound
                    } else {
                        DbError::IdsExhausted
                    }
                },
            },
    {
        if self.find_habit(habit_id).is_none() {
            return Err(DbError::NotFound);
        }
        if self.last_session_id == i64::MAX {
            return Err(DbError::IdsExhausted);
        }
        let ghost pre = self@;
        let id: i64 = self.last_session_id + 1;
        let s = Session { id, habit_id, date, duration_seconds, completed_at, value };
        self.sessions.push(s);
        self.last_session_id = id;
        assert(self@.sessions =~= pre.sessions.push(s@));
        Ok(())
    }

    /// Records a session of `duration_seconds` for the habit on `date`, with
    /// the next session id. A habit id that no habit has is refused.
    pub fn insert_session(
        &mut self,
        habit_id: i64,
        date: NaiveDate,
        duration_seconds: u32,
        completed_at: &str,
    ) -> (r: Result<(), DbError>)
        requires
            old(self).wf(),
        ensures
            final(self).wf(),
            match r {
                Ok(()) => {
                    &&& old(self)@.can_record(habit_id)
                    &&& final(self)@ == old(self)@.with_session_added(
                        old(self)@.new_session(habit_id, date, duration_seconds, completed_at@, None),
                    )
                },
                Err(e) => {
                    &&& !old(self)@.can_record(habit_id)
                    &&& final(self)@ == old(self)@
                    &&& e == if !old(self)@.has_habit(habit_id) {
                        DbError::NotFound
                    } else {
                        DbError::IdsExhausted
                    }
                },
            },
    {
        self.push_session(habit_id, date, duration_seconds, completed_at.to_owned(), None)
    }

    /// The ids of the habit's sessions on `date`, in the order they were recorded.
    pub fn get_sessions_for_habit_date(&self, habit_id: i64, date: NaiveDate) -> (r: Result<Vec<i64>, DbError>)
        requires
            self.wf(),
        ensures
            r matches Ok(v) && v@ == self@.session_ids_on(habit_id, date),
    {
        let ghost ss = self@.sessions;
        let n: usize = self.sessions.len();
        let mut out: Vec<i64> = Vec::new();
        let mut i: usize = 0;
        while i < n
            invariant
                ss == self@.sessions,
                n == ss.len(),
                i <= n,
                out@ + ids_on_from(ss, habit_id, date, i as int) == ids_on_from(ss, habit_id, date, 0),
            decreases n - i,
        {
            let ghost prev = out@;
            assert(ss[i as int] == self.sessions@[i as int]@);
            if self.sessions[i].habit_id == habit_id && self.sessions[i].date == date {
                out.push(self.sessions[i].id);
                assert(out@ + ids_on_from(ss, habit_id, date, i + 1) =~= prev + ids_on_from(ss, habit_id, date, i as int));
            }
            i += 1;
        }
        assert(out@ =~= ids_on_from(ss, habit_id, date, 0));
        Ok(out)
    }

    /// Whether the habit has a session on `date`.
    pub fn has_session_for_date(&self, habit_id: i64, date: NaiveDate) -> (r: Result<bool, DbError>)
        requires
            self.wf(),
        ensures
            r matches Ok(b) && b == self@.has_session_on(habit_id, date.days as int),
    {
        let n: usize = self.sessions.len();
        let mut i: usize = 0;
        while i < n
            invariant
                n == self@.sessions.len(),
                i <= n,
                forall|j: int|
                    0 <= j < i ==> !(#[trigger] self@.sessions[j].habit_id == habit_id
                        && self@.sessions[j].date.days == date.days),
            decreases n - i,
        {
            assert(self@.sessions[i as int] == self.sessions@[i as int]@);
            if self.sessions[i].habit_id == habit_id && self.sessions[i].date.days == date.days {
                assert(self@.sessions[i as int].habit_id == habit_id && self@.sessions[i as int].date.days
                    == date.days);
                return Ok(true);
            }
            i += 1;
        }
        Ok(false)
    }

    /// Deletes the session with this id; the store is left as it is where no
    /// session has it.
    pub fn delete_session(&mut self, session_id: i64) -> (r: Result<(), DbError>)
        requires
            old(self).wf(),
        ensures
            final(self).wf(),
            r is Ok,
            final(self)@ == old(self)@.with_sessions_dropped(SessionDrop::Id(session_id)),
    {
        self.drop_sessions(SessionDrop::Id(session_id));
        Ok(())
    }

    /// Deletes every session of the habit on `date`.
    pub fn delete_sessions_for_habit_date(&mut self, habit_id: i64, date: NaiveDate) -> (r: Result<(), DbError>)
        requires
            old(self).wf(),
        ensures
            final(self).wf(),
            r is Ok,
            final(self)@ == old(self)@.with_sessions_dropped(SessionDrop::HabitOn(habit_id, date)),
    {
        self.drop_sessions(SessionDrop::HabitOn(habit_id, date));
        Ok(())
    }

    /// Sets the duration of the session with this id.
    pub fn update_session_duration(&mut self, session_id: i64, duration_seconds: u32) -> (r: Result<(), DbError>)
        requires
            old(self).wf(),
        ensures
            final(self).wf(),
            r is Ok,
            final(self)@ == old(self)@.with_duration_set(session_id, duration_seconds),
    {
        let ghost pre = self@;
        let ghost target = pre.with_duration_set(session_id, duration_seconds);
        let n: usize = self.sessions.len();
        let mut i: usize = 0;
        while i < n
            invariant
                n == self.sessions@.len(),
                n == pre.sessions.len(),
                i <= n,
                target == pre.with_duration_set(session_id, duration_seconds),
                target.sessions.len() == n,
                self.habits@ == old(self).habits@,
                self.last_habit_id == pre.last_habit_id,
                self.last_session_id == pre.last_session_id,
                forall|j: int| 0 <= j < i ==> #[trigger] self.sessions@[j]@ == target.sessions[j],
                forall|j: int| i <= j < n ==> #[trigger] self.sessions@[j]@ == pre.sessions[j],
            decreases n - i,
        {
            assert(target.sessions[i as int] == retimed(pre.sessions[i as int], session_id, duration_seconds));
            if self.sessions[i].id == session_id {
                let mut s = self.sessions[i].clone();
                s.duration_seconds = duration_seconds;
                self.sessions.set(i, s);
            }
            i += 1;
        }
        assert(self@.sessions =~= target.sessions);
        assert(self@.habits == pre.habits);
        Ok(())
    }

    /// The habit's time on `date` in whole minutes: the summed durations of
    /// its sessions that day, divided by 60 and rounded down. A total that
    /// does not fit in a `u32` is refused.
    pub fn get_total_minutes_for_habit_date(&self, habit_id: i64, date: NaiveDate) -> (r: Result<u32, DbError>)
        requires
            self.wf(),
        ensures
            match r {
                Ok(m) => m == self@.seconds_on(habit_id, date) / 60,
                Err(e) => e == DbError::Overflow && self@.seconds_on(habit_id, date) / 60 > u32::MAX,
            },
    {
        let ghost ss = self@.sessions;
        let n: usize = self.sessions.len();
        let mut acc: u64 = 0;
        let mut i: usize = 0;
        while i < n
            invariant
                ss == self@.sessions,
                n == ss.len(),
                i <= n,
                acc <= 257698037759u64,
                acc + seconds_on_from(ss, habit_id, date, i as int) == seconds_on_from(ss, habit_id, date, 0),
            decreases n - i,
        {
            assert(ss[i as int] == self.sessions@[i as int]@);
            if self.sessions[i].habit_id == habit_id && self.sessions[i].date == date {
                acc = acc + self.sessions[i].duration_seconds as u64;
                if acc > 257698037759u64 {
                    return Err(DbError::Overflow);
                }
            }
            i += 1;
        }
        Ok((acc / 60) as u32)
    }

    /// Records `value` (the bit pattern of a double) for the habit on `date`,
    /// as a session with no duration. A habit id that no habit has is refused.
    pub fn set_value_for_habit_date(&mut self, habit_id: i64, date: NaiveDate, value: u64) -> (r: Result<(), DbError>)
        requires
            old(self).wf(),
        ensures
            final(self).wf(),
            match r {
                Ok(()) => {
                    &&& old(self)@.can_record(habit_id)
                    &&& final(self)@ == old(self)@.with_session_added(
                        old(self)@.new_session(habit_id, date, 0, Seq::empty(), Some(value)),
                    )
                },
                Err(e) => {
                    &&& !old(self)@.can_record(habit_id)
                    &&& final(self)@ == old(self)@
                    &&& e == if !old(self)@.has_habit(habit_id) {
                        DbError::NotFound
                    } else {
                        DbError::IdsExhausted
                    }
                },
            },
    {
        let empty = String::new();
        self.push_session(habit_id, date, 0, empty, Some(value))
    }

    /// The value first recorded for the habit on `date`, if any.
    pub fn get_value_for_habit_date(&self, habit_id: i64, date: NaiveDate) -> (r: Result<Option<u64>, DbError>)
        requires
            self.wf(),
        ensures
            r matches Ok(v) && v == self@.value_on(habit_id, date),
    {
        let ghost ss = self@.sessions;
        let n: usize = self.sessions.len();
        let mut i: usize = 0;
        while i < n
            invariant
                ss == self@.sessions,
                n == ss.len(),
                i <= n,
                value_on_from(ss, habit_id, date, i as int) == value_on_from(ss, habit_id, date, 0),
            decreases n - i,
        {
            assert(ss[i as int] == self.sessions@[i as int]@);
            if self.sessions[i].habit_id == habit_id && self.sessions[i].date == date && self.sessions[i].value.is_some() {
                return Ok(self.sessions[i].value);
            }
            i += 1;
        }
        Ok(None)
    }

    /// Deletes the value sessions of the habit on `date`.
    pub fn clear_value_for_habit_date(&mut self, habit_id: i64, date: NaiveDate) -> (r: Result<(), DbError>)
        requires
            old(self).wf(),
        ensures
            final(self).wf(),
            r is Ok,
            final(self)@ == old(self)@.with_sessions_dropped(SessionDrop::ValueOn(habit_id, date)),
    {
        self.drop_sessions(SessionDrop::ValueOn(habit_id, date));
        Ok(())
    }

    /// The number of consecutive days ending with `today` on which the habit
    /// has a session.
    pub fn streak_days_until(&self, habit_id: i64, today: NaiveDate) -> (n: u64)
        requires
            self.wf(),
        ensures
            n == self@.streak_until(habit_id, today),
    {
        let ghost limit = days_up_to(today);
        let mut i: u64 = 0;
        while (today.days as i64) - (i as i64) >= i32::MIN as i64
            invariant
                self.wf(),
                limit == days_up_to(today),
                i <= limit,
                self@.streak_until(habit_id, today) == i + self@.streak_from(
                    habit_id,
                    today.days - i,
                    (limit - i) as nat,
                ),
            decreases limit - i,
        {
            let day: i64 = today.days as i64 - i as i64;
            let has = self.has_session_for_date(habit_id, NaiveDate { days: day as i32 });
            match has {
                Ok(true) => {},
                _ => {
                    return i;
                },
            }
            i += 1;
        }
        i
    }

    /// The streak of the habit ending today, by the local clock; a streak
    /// beyond a `u32` is refused.
    pub fn get_streak_days(&self, habit_id: i64) -> (r: Result<u32, DbError>)
        requires
            self.wf(),
        ensures
            exists|today: NaiveDate| r == #[trigger] streak_result(self@, habit_id, today),
    {
        let today = local_today();
        self.get_streak_days_on(habit_id, today)
    }

    /// The streak of the habit ending on `today`; a streak beyond a `u32` is
    /// refused.
    pub fn get_streak_days_on(&self, habit_id: i64, today: NaiveDate) -> (r: Result<u32, DbError>)
        requires
            self.wf(),
        ensures
            r == streak_result(self@, habit_id, today),
    {
        let n: u64 = self.streak_days_until(habit_id, today);
        if n > u32::MAX as u64 {
            Err(DbError::Overflow)
        } else {
            Ok(n as u32)
        }
    }

    /// Every session, in the order they were recorded.
    pub fn sessions(&self) -> (v: Vec<Session>)
        requires
            self.wf(),
        ensures
            session_views(v@) == self@.sessions,
    {
        let n: usize = self.sessions.len();
        let mut out: Vec<Session> = Vec::new();
        let mut i: usize = 0;
        while i < n
            invariant
                n == self.sessions@.len(),
                i <= n,
                session_views(out@) =~= self@.sessions.take(i as int),
            decreases n - i,
        {
            let s = self.sessions[i].clone();
            let ghost prev = out@;
            out.push(s);
            assert(session_views(out@) =~= session_views(prev).push(s@));
            assert(self@.sessions.take(i + 1) =~= self@.sessions.take(i as int).push(self@.sessions[i as int]));
            i += 1;
        }
        assert(self@.sessions.take(n as int) =~= self@.sessions);
        out
    }

    /// The last habit id handed out.
    pub fn last_habit_id(&self) -> (id: i64)
        ensures
            id == self@.last_habit_id,
    {
        self.last_habit_id
    }

    /// The last session id handed out.
    pub fn last_session_id(&self) -> (id: i64)
        ensures
            id == self@.last_session_id,
    {
        self.last_session_id
    }

    fn habit_rows_acceptable(habits: &Vec<Habit>, last_habit_id: i64) -> (ok: bool)
        ensures
            ok == (habits@.len() <= habit_capacity() && distinct_ids(habit_views(habits@))
                && habit_ids_up_to(habit_views(habits@), last_habit_id)),
    {
        let ghost hs = habit_views(habits@);
        let n: usize = habits.len();
        if n > 2147483648usize {
            return false;
        }
        let mut i: usize = 0;
        while i < n
            invariant
                n == hs.len(),
                hs == habit_views(habits@),
                i <= n,
                forall|a: int, b: int| 0 <= a < i && a < b < n ==> #[trigger] hs[a].id != #[trigger] hs[b].id,
                forall|a: int| 0 <= a < i ==> #[trigger] hs[a].id <= last_habit_id,
            decreases n - i,
        {
            if habits[i].id > last_habit_id {
                assert(hs[i as int].id > last_habit_id);
                return false;
            }
            let mut j: usize = i + 1;
            while j < n
                invariant
                    n == hs.len(),
                    hs == habit_views(habits@),
                    i < n,
                    i + 1 <= j <= n,
                    forall|b: int| i < b < j ==> hs[i as int].id != #[trigger] hs[b].id,
                decreases n - j,
            {
                if habits[i].id == habits[j].id {
                    assert(hs[i as int].id == hs[j as int].id);
                    return false;
                }
                j += 1;
            }
            i += 1;
        }
        true
    }

    fn session_rows_acceptable(sessions: &Vec<Session>, last_session_id: i64) -> (ok: bool)
        ensures
            ok == (rising_ids(session_views(sessions@)) && session_ids_up_to(session_views(sessions@), last_session_id)),
    {
        let ghost ss = session_views(sessions@);
        let n: usize = sessions.len();
        let mut i: usize = 0;
        while i < n
            invariant
                n == ss.len(),
                ss == session_views(sessions@),
                i <= n,
                forall|a: int, b: int| 0 <= a < b < i ==> #[trigger] ss[a].id < #[trigger] ss[b].id,
                forall|a: int| 0 <= a < i ==> #[trigger] ss[a].id <= last_session_id,
            decreases n - i,
        {
            if sessions[i].id > last_session_id {
                assert(ss[i as int].id > last_session_id);
                return false;
            }
            if i > 0 {
                if sessions[i - 1].id >= sessions[i].id {
                    assert(ss[i - 1].id >= ss[i as int].id);
                    return false;
                }
                assert forall|a: int, b: int| 0 <= a < b < i + 1 implies #[trigger] ss[a].id < #[trigger] ss[b].id by {
                    if b == i && a < i - 1 {
                        assert(ss[a].id < ss[i - 1].id);
                    }
                }
            }
            i += 1;
        }
        true
    }

    /// Builds a store from rows read back from storage: habits in display
    /// order, each then given its position as order index, and sessions in
    /// the order they were recorded. Rows that break the store's invariant
    /// are refused.
    pub fn from_rows(
        habits: Vec<Habit>,
        sessions: Vec<Session>,
        last_habit_id: i64,
        last_session_id: i64,
    ) -> (r: Result<Database, DbError>)
        ensures
            match r {
                Ok(db) => {
                    &&& rows_acceptable(habit_views(habits@), session_views(sessions@), last_habit_id, last_session_id)
                    &&& db.wf()
                    &&& db@ == (DbState {
                        habits: renumbered(habit_views(habits@)),
                        sessions: session_views(sessions@),
                        last_habit_id,
                        last_session_id,
                    })
                },
                Err(e) => e == DbError::InvalidRows && !rows_acceptable(
                    habit_views(habits@),
                    session_views(sessions@),
                    last_habit_id,
                    last_session_id,
                ),
            },
    {
        if !Self::habit_rows_acceptable(&habits, last_habit_id) {
            return Err(DbError::InvalidRows);
        }
        if !Self::session_rows_acceptable(&sessions, last_session_id) {
            return Err(DbError::InvalidRows);
        }
        let ghost hs = habit_views(habits@);
        let mut db = Database { habits, sessions, last_habit_id, last_session_id };
        db.renumber_from(0);
        proof {
            lemma_renumbered_keeps_ids(hs, last_habit_id);
        }
        Ok(db)
    }

    /// The mode written in storage as `timed` is `Timed`; any other text is
    /// `Stopwatch`.
    pub fn parse_mode(s: String) -> (mode: HabitMode)
        ensures
            mode == (if s@ == "timed"@ { HabitMode::Timed } else { HabitMode::Stopwatch }),
    {
        let timed = String::from_str("timed");
        if s == timed {
            HabitMode::Timed
        } else {
            HabitMode::Stopwatch
        }
    }
}

impl HabitMode {
    /// The text that storage holds for this mode.
    pub fn as_text(&self) -> (t: &'static str)
        ensures
            t@ == (if *self == HabitMode::Timed { "timed"@ } else { "stopwatch"@ }),
    {
        match self {
            HabitMode::Timed => "timed",
            HabitMode::Stopwatch => "stopwatch",
        }
    }

    /// The other mode: the timer's mode button switches between the two.
    pub fn toggled(&self) -> (m: HabitMode)
        ensures
            m != *self,
    {
        match self {
            HabitMode::Timed => HabitMode::Stopwatch,
            HabitMode::Stopwatch => HabitMode::Timed,
        }
    }
}

impl HabitType {
    /// The text that storage holds for this kind of habit.
    pub fn as_text(&self) -> (t: &'static str)
        ensures
            t@ == (match *self {
                HabitType::Timer => "timer"@,
                HabitType::Boolean => "boolean"@,
                HabitType::Number => "number"@,
            }),
    {
        match self {
            HabitType::Timer => "timer",
            HabitType::Boolean => "boolean",
            HabitType::Number => "number",
        }
    }

    /// The kind that storage writes as `boolean` or `number`; any other text
    /// is `Timer`.
    pub fn parse(s: String) -> (t: HabitType)
        ensures
            t == (if s@ == "boolean"@ {
                HabitType::Boolean
            } else if s@ == "number"@ {
                HabitType::Number
            } else {
                HabitType::Timer
            }),
    {
        let boolean = String::from_str("boolean");
        let number = String::from_str("number");
        if s == boolean {
            HabitType::Boolean
        } else if s == number {
            HabitType::Number
        } else {
            HabitType::Timer
        }
    }
}

} // verus!
