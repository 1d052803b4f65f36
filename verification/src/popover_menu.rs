use vstd::prelude::*;

use crate::date::{utc_now_text, NaiveDate};
use crate::db::{Database, DbState, SessionDrop};

verus! {

/// The store with the habit's day toggled: a day with sessions loses all of
/// them; a day without gets one of `duration_seconds`, stamped
/// `completed_at`, where the habit exists and a session id is left to give
/// it.
pub open spec fn day_toggled(
    s: DbState,
    habit_id: i64,
    date: NaiveDate,
    duration_seconds: u32,
    completed_at: Seq<char>,
) -> DbState {
    if s.has_session_on(habit_id, date.days as int) {
        s.with_sessions_dropped(SessionDrop::HabitOn(habit_id, date))
    } else if s.can_record(habit_id) {
        s.with_session_added(s.new_session(habit_id, date, duration_seconds, completed_at, None))
    } else {
        s
    }
}

/// Toggles the habit's day, as `day_toggled` says.
pub fn toggle_day(db: &mut Database, habit_id: i64, date: NaiveDate, duration_seconds: u32, completed_at: &str)
    requires
        old(db).wf(),
    ensures
        final(db).wf(),
        final(db)@ == day_toggled(old(db)@, habit_id, date, duration_seconds, completed_at@),
{
    let has = match db.has_session_for_date(habit_id, date) {
        Ok(b) => b,
        Err(_) => false,
    };
    if has {
        let _ = db.delete_sessions_for_habit_date(habit_id, date);
    } else {
        let _ = db.insert_session(habit_id, date, duration_seconds, completed_at);
    }
}

/// The "toggle manual" entry of a circle's menu: toggles the habit's day as
/// `toggle_day` does, a new session being stamped with the current UTC time.
pub fn toggle_manual(db: &mut Database, habit_id: i64, date: NaiveDate, duration_seconds: u32)
    requires
        old(db).wf(),
    ensures
        final(db).wf(),
        exists|stamp: Seq<char>| final(db)@ == #[trigger] day_toggled(old(db)@, habit_id, date, duration_seconds, stamp),
{
    let now = utc_now_text();
    toggle_day(db, habit_id, date, duration_seconds, now.as_str());
}

} // verus!
