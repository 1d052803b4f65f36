use vstd::prelude::*;

use crate::date::{local_today, weekday_number, NaiveDate};
use crate::db::{habit_views, session_views, Database, DbState, Habit, HabitRecord, SessionRecord};
use crate::settings::Settings;
use crate::text::{decimal, digit_char, push_decimal};

verus! {

/// The day number of the first day (Monday) of the week holding `today`.
pub open spec fn week_start(today: NaiveDate) -> int {
    today.days - (weekday_number(today.days as int) - 1)
}

/// The seven dates of the week holding `today`, Monday first, with the
/// position of `today` among them. The whole week's day numbers must fit in
/// an `i32`.
pub fn week_dates(today: NaiveDate) -> (r: (Vec<NaiveDate>, usize))
    requires
        i32::MIN <= week_start(today),
        week_start(today) + 6 <= i32::MAX,
    ensures
        r.0@.len() == 7,
        forall|i: int| 0 <= i < 7 ==> #[trigger] r.0@[i].days == week_start(today) + i,
        r.1 == weekday_number(today.days as int) - 1,
        r.0@[r.1 as int] == today,
{
    let dow: u32 = today.weekday_from_monday();
    let start: i32 = (today.days as i64 - (dow as i64 - 1)) as i32;
    let mut dates: Vec<NaiveDate> = Vec::new();
    let mut i: i32 = 0;
    while i < 7
        invariant
            start == week_start(today),
            start + 6 <= i32::MAX,
            0 <= i <= 7,
            dates@.len() == i,
            forall|k: int| 0 <= k < i ==> #[trigger] dates@[k].days == start + k,
        decreases 7 - i,
    {
        dates.push(NaiveDate { days: start + i });
        i += 1;
    }
    let pos: usize = (dow - 1) as usize;
    assert(dates@[pos as int].days == today.days);
    (dates, pos)
}

/// Whether one of the habits has this id.
pub open spec fn lists_habit(hs: Seq<HabitRecord>, id: i64) -> bool {
    exists|j: int| 0 <= j < hs.len() && #[trigger] hs[j].id == id
}

/// Whether a session counts toward the week beginning on day `start`: it
/// falls on one of the week's seven days and belongs to one of the habits.
pub open spec fn in_week(s: SessionRecord, hs: Seq<HabitRecord>, start: int) -> bool {
    start <= s.date.days < start + 7 && lists_habit(hs, s.habit_id)
}

/// How many of the sessions count toward the week.
pub open spec fn week_sessions(ss: Seq<SessionRecord>, hs: Seq<HabitRecord>, start: int) -> nat
    decreases ss.len(),
{
    if ss.len() == 0 {
        0
    } else {
        week_sessions(ss.drop_last(), hs, start) + if in_week(ss.last(), hs, start) {
            1nat
        } else {
            0nat
        }
    }
}

/// The summed durations of the sessions that count toward the week.
pub open spec fn week_seconds(ss: Seq<SessionRecord>, hs: Seq<HabitRecord>, start: int) -> nat
    decreases ss.len(),
{
    if ss.len() == 0 {
        0
    } else {
        week_seconds(ss.drop_last(), hs, start) + if in_week(ss.last(), hs, start) {
            ss.last().duration_seconds as nat
        } else {
            0nat
        }
    }
}

/// `seconds` counted in pomodoros of `length` seconds, in tenths, rounded to
/// the nearest tenth (a half rounds up).
pub open spec fn pomodoro_tenths(seconds: nat, length: nat) -> nat {
    (seconds * 20 + length) / (2 * length)
}

/// The longest streak ending on `today` among the habits, 0 for none.
pub open spec fn longest_streak(db: DbState, hs: Seq<HabitRecord>, today: NaiveDate) -> nat
    decreases hs.len(),
{
    if hs.len() == 0 {
        0
    } else {
        let rest = longest_streak(db, hs.drop_last(), today);
        let s = db.streak_until(hs.last().id, today);
        if s > rest {
            s
        } else {
            rest
        }
    }
}

/// The figures of the week holding a day, for some habits: the sessions
/// recorded that week, their total time in seconds, that time in pomodoros
/// (in tenths), and the longest streak ending on the day.
#[derive(Clone, Copy, Debug, PartialEq, Eq, Structural)]
pub struct WeekSummary {
    pub total_sessions: u64,
    pub total_seconds: u128,
    pub pomodoro_tenths: u128,
    pub max_streak: u64,
}

/// The figures of the week holding `today` for the habits `hs`, with
/// pomodoros of `length` seconds.
pub open spec fn summary_of(db: DbState, hs: Seq<HabitRecord>, today: NaiveDate, length: nat) -> (
    nat,
    nat,
    nat,
    nat,
) {
    let seconds = week_seconds(db.sessions, hs, week_start(today));
    (
        week_sessions(db.sessions, hs, week_start(today)),
        seconds,
        pomodoro_tenths(seconds, length),
        longest_streak(db, hs, today),
    )
}

/// The line that shows a week's figures: the time in whole minutes, the
/// pomodoros with one decimal.
pub open spec fn summary_line(sessions: nat, seconds: nat, tenths: nat, streak: nat) -> Seq<char> {
    "📊 Week: "@ + decimal(sessions) + " sessions, "@ + decimal(seconds / 60) + "m, "@ + decimal(tenths / 10)
        + seq!['.', digit_char((tenths % 10) as int)] + " pomodoros, 🔥 "@ + decimal(streak) + " day streak"@
}

/// Whether one of `habits` has this id.
fn lists_habit_id(habits: &Vec<Habit>, id: i64) -> (b: bool)
    ensures
        b == lists_habit(habit_views(habits@), id),
{
    let ghost hs = habit_views(habits@);
    let mut j: usize = 0;
    while j < habits.len()
        invariant
            hs == habit_views(habits@),
            j <= habits@.len(),
            forall|k: int| 0 <= k < j ==> #[trigger] hs[k].id != id,
        decreases habits@.len() - j,
    {
        assert(hs[j as int].id == habits@[j as int].id);
        if habits[j].id == id {
            return true;
        }
        j += 1;
    }
    false
}

proof fn lemma_week_bounds(ss: Seq<SessionRecord>, hs: Seq<HabitRecord>, start: int)
    ensures
        week_sessions(ss, hs, start) <= ss.len(),
        week_seconds(ss, hs, start) <= ss.len() * (u32::MAX as nat),
    decreases ss.len(),
{
    if ss.len() > 0 {
        lemma_week_bounds(ss.drop_last(), hs, start);
        assert(ss.len() * (u32::MAX as nat) == (ss.len() - 1) * (u32::MAX as nat) + u32::MAX) by (nonlinear_arith);
    }
}

impl WeekSummary {
    /// The week's figures for `habits`, on `today`, with pomodoros of
    /// `pomodoro_seconds` seconds.
    pub fn for_week(db: &Database, habits: &Vec<Habit>, today: NaiveDate, pomodoro_seconds: u32) -> (w: WeekSummary)
        requires
            db.wf(),
            pomodoro_seconds > 0,
        ensures
            (w.total_sessions as nat, w.total_seconds as nat, w.pomodoro_tenths as nat, w.max_streak as nat)
                == summary_of(db@, habit_views(habits@), today, pomodoro_seconds as nat),
    {
        let ghost hs = habit_views(habits@);
        let dow: u32 = today.weekday_from_monday();
        let start: i64 = today.days as i64 - (dow as i64 - 1);
        let sessions = db.sessions();
        let ghost ss = db@.sessions;
        let m: usize = sessions.len();
        let mut total_sessions: u64 = 0;
        let mut total_seconds: u128 = 0;
        let mut k: usize = 0;
        while k < m
            invariant
                hs == habit_views(habits@),
                ss == db@.sessions,
                session_views(sessions@) == ss,
                m == ss.len(),
                k <= m,
                start == week_start(today),
                total_sessions == week_sessions(ss.take(k as int), hs, start as int),
                total_seconds == week_seconds(ss.take(k as int), hs, start as int),
            decreases m - k,
        {
            assert(ss.take(k + 1).drop_last() =~= ss.take(k as int));
            assert(ss.take(k + 1).last() == ss[k as int]);
            assert(ss[k as int] == sessions@[k as int]@);
            proof {
                lemma_week_bounds(ss.take(k as int), hs, start as int);
                assert(k * (u32::MAX as nat) <= (u64::MAX as nat) * (u32::MAX as nat)) by (nonlinear_arith)
                    requires k <= u64::MAX;
            }
            let day: i64 = sessions[k].date.days as i64;
            if start <= day && day < start + 7 && lists_habit_id(habits, sessions[k].habit_id) {
                total_sessions = total_sessions + 1;
                total_seconds = total_seconds + sessions[k].duration_seconds as u128;
            }
            k += 1;
        }
        assert(ss.take(m as int) =~= ss);
        proof {
            lemma_week_bounds(ss, hs, start as int);
            assert(m * (u32::MAX as nat) <= (u64::MAX as nat) * (u32::MAX as nat)) by (nonlinear_arith)
                requires m <= u64::MAX;
        }
        let len: u128 = pomodoro_seconds as u128;
        let pomodoro_tenths: u128 = (total_seconds * 20 + len) / (2 * len);
        let n: usize = habits.len();
        let mut max_streak: u64 = 0;
        let mut i: usize = 0;
        while i < n
            invariant
                db.wf(),
                hs == habit_views(habits@),
                n == hs.len(),
                i <= n,
                max_streak == longest_streak(db@, hs.take(i as int), today),
            decreases n - i,
        {
            assert(hs.take(i + 1).drop_last() =~= hs.take(i as int));
            assert(hs.take(i + 1).last() == hs[i as int]);
            assert(hs[i as int].id == habits@[i as int].id);
            let streak: u64 = db.streak_days_until(habits[i].id, today);
            if streak > max_streak {
                max_streak = streak;
            }
            i = i + 1;
        }
        assert(hs.take(n as int) =~= hs);
        WeekSummary { total_sessions, total_seconds, pomodoro_tenths, max_streak }
    }

    /// The line showing these figures.
    pub fn label(&self) -> (s: String)
        ensures
            s@ == summary_line(
                self.total_sessions as nat,
                self.total_seconds as nat,
                self.pomodoro_tenths as nat,
                self.max_streak as nat,
            ),
    {
        let mut s = String::from_str("📊 Week: ");
        push_decimal(&mut s, self.total_sessions as u128);
        s.append(" sessions, ");
        push_decimal(&mut s, self.total_seconds / 60);
        s.append("m, ");
        push_decimal(&mut s, self.pomodoro_tenths / 10);
        s.append(".");
        push_decimal(&mut s, self.pomodoro_tenths % 10);
        s.append(" pomodoros, 🔥 ");
        push_decimal(&mut s, self.max_streak as u128);
        s.append(" day streak");
        proof {
            reveal_strlit(".");
        }
        assert(decimal((self.pomodoro_tenths % 10) as nat) == seq![digit_char((self.pomodoro_tenths % 10) as int)]);
        assert(s@ =~= summary_line(
            self.total_sessions as nat,
            self.total_seconds as nat,
            self.pomodoro_tenths as nat,
            self.max_streak as nat,
        ));
        s
    }
}

/// The week line for `habits` today, by the local clock, with the pomodoro
/// length of `settings`.
pub fn update(db: &Database, habits: &Vec<Habit>, settings: &Settings) -> (s: String)
    requires
        db.wf(),
        settings.wf(),
    ensures
        exists|today: NaiveDate|
            {
                let f = #[trigger] summary_of(db@, habit_views(habits@), today, settings@.work_duration_seconds as nat);
                s@ == summary_line(f.0, f.1, f.2, f.3)
            },
{
    let today = local_today();
    let w = WeekSummary::for_week(db, habits, today, settings.work_duration_seconds());
    let s = w.label();
    assert(s@ == summary_line(
        summary_of(db@, habit_views(habits@), today, settings@.work_duration_seconds as nat).0,
        summary_of(db@, habit_views(habits@), today, settings@.work_duration_seconds as nat).1,
        summary_of(db@, habit_views(habits@), today, settings@.work_duration_seconds as nat).2,
        summary_of(db@, habit_views(habits@), today, settings@.work_duration_seconds as nat).3,
    ));
    s
}

} // verus!
