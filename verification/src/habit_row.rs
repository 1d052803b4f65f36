use vstd::prelude::*;

use crate::date::{weekday_number, NaiveDate};
use crate::db::{Database, DbState, Habit, HabitRecord, HabitType, SessionDrop};
use crate::service::{day_letter, day_letter_text, shown_minutes, CircleLabel, CircleText};
use crate::text::{decimal, u64_to_decimal};

verus! {

/// How a day's circle in a habit's row is drawn.
pub struct CircleState {
    pub label: CircleLabel,
    /// The day counts as done.
    pub completed: bool,
    /// A number was recorded that day, short of the habit's minimum.
    pub partial: bool,
    /// Something is recorded that day (always so for a boolean habit, whose
    /// menu offers both answers).
    pub has_data: bool,
}

/// The circle of `habit` on `date`. For a number habit with a minimum and a
/// value that day, `value_reaches_min` says whether the value, taken down to
/// a whole number, reaches the minimum.
pub open spec fn circle_state_of(
    db: DbState,
    habit: HabitRecord,
    date: NaiveDate,
    value_reaches_min: bool,
) -> (CircleText, bool, bool, bool) {
    let letter = CircleText::Text(day_letter_text(weekday_number(date.days as int)));
    match habit.habit_type {
        HabitType::Timer => {
            let has = db.has_session_on(habit.id, date.days as int);
            let label = if has {
                CircleText::Text(decimal(shown_minutes(db, habit.id, date) as nat) + "m"@)
            } else {
                letter
            };
            (label, has, false, has)
        },
        HabitType::Boolean => (CircleText::Text("✓"@), db.value_on(habit.id, date) is Some, false, true),
        HabitType::Number => {
            match (db.value_on(habit.id, date), habit.min_value) {
                (Some(v), Some(_)) => (CircleText::Value(v), value_reaches_min, !value_reaches_min, true),
                (Some(v), None) => (CircleText::Value(v), true, false, true),
                (None, _) => (letter, false, false, false),
            }
        },
    }
}

/// Works out how `habit`'s circle on `date` is drawn.
pub fn circle_state(db: &Database, habit: &Habit, date: NaiveDate, value_reaches_min: bool) -> (c: CircleState)
    requires
        db.wf(),
    ensures
        (c.label@, c.completed, c.partial, c.has_data) == circle_state_of(db@, habit@, date, value_reaches_min),
{
    let dow: u32 = date.weekday_from_monday();
    match habit.habit_type {
        HabitType::Timer => {
            let has = match db.has_session_for_date(habit.id, date) {
                Ok(b) => b,
                Err(_) => false,
            };
            let mins: u32 = match db.get_total_minutes_for_habit_date(habit.id, date) {
                Ok(m) => m,
                Err(_) => 0,
            };
            let label = if has {
                let mut s = u64_to_decimal(mins as u64);
                s.append("m");
                CircleLabel::Text(s)
            } else {
                CircleLabel::Text(day_letter(dow as i64))
            };
            CircleState { label, completed: has, partial: false, has_data: has }
        },
        HabitType::Boolean => {
            let val = match db.get_value_for_habit_date(habit.id, date) {
                Ok(v) => v,
                Err(_) => None,
            };
            CircleState {
                label: CircleLabel::Text(String::from_str("✓")),
                completed: val.is_some(),
                partial: false,
                has_data: true,
            }
        },
        HabitType::Number => {
            let val = match db.get_value_for_habit_date(habit.id, date) {
                Ok(v) => v,
                Err(_) => None,
            };
            match val {
                Some(v) => {
                    if habit.min_value.is_some() {
                        CircleState {
                            label: CircleLabel::Value(v),
                            completed: value_reaches_min,
                            partial: !value_reaches_min,
                            has_data: true,
                        }
                    } else {
                        CircleState { label: CircleLabel::Value(v), completed: true, partial: false, has_data: true }
                    }
                },
                None => CircleState {
                    label: CircleLabel::Text(day_letter(dow as i64)),
                    completed: false,
                    partial: false,
                    has_data: false,
                },
            }
        },
    }
}

/// What a click on a timer habit's circle does.
#[derive(Clone, Copy, Debug, PartialEq, Eq, Structural)]
pub enum CircleClick {
    /// Stop the timer running for this habit.
    StopTimer,
    /// Start timing this habit, stopping first the habit being timed, if any.
    StartTimer { stop_current: bool },
    /// Toggle the day: clear its sessions where it has any, else record a
    /// session of the habit's duration.
    ToggleDay,
}

/// The action of a click on a timer habit's circle: today's circle stops
/// the habit's running timer; a day already complete is toggled off; today's
/// circle otherwise starts the timer; a past day without a session is
/// toggled on.
pub fn timer_circle_click(habit_id: i64, is_today: bool, active_habit_id: Option<i64>, has_session: bool) -> (a:
    CircleClick)
    ensures
        a == if is_today && active_habit_id == Some(habit_id) {
            CircleClick::StopTimer
        } else if has_session || !is_today {
            CircleClick::ToggleDay
        } else {
            CircleClick::StartTimer { stop_current: active_habit_id is Some }
        },
{
    if is_today && active_habit_id == Some(habit_id) {
        CircleClick::StopTimer
    } else if has_session || !is_today {
        CircleClick::ToggleDay
    } else {
        CircleClick::StartTimer { stop_current: active_habit_id.is_some() }
    }
}

/// The bit pattern of the double 1.0, recorded for a boolean habit done.
pub open spec fn one_bits() -> u64 {
    0x3FF0_0000_0000_0000u64
}

/// A click on a boolean habit's circle: a day marked done is cleared, any
/// other is marked done with the value 1.0.
pub fn toggle_boolean_day(db: &mut Database, habit_id: i64, date: NaiveDate)
    requires
        old(db).wf(),
    ensures
        final(db).wf(),
        final(db)@ == if old(db)@.value_on(habit_id, date) is Some {
            old(db)@.with_sessions_dropped(SessionDrop::ValueOn(habit_id, date))
        } else if old(db)@.can_record(habit_id) {
            old(db)@.with_session_added(old(db)@.new_session(habit_id, date, 0, Seq::empty(), Some(one_bits())))
        } else {
            old(db)@
        },
{
    let current = match db.get_value_for_habit_date(habit_id, date) {
        Ok(v) => v,
        Err(_) => None,
    };
    if current.is_some() {
        let _ = db.clear_value_for_habit_date(habit_id, date);
    } else {
        let _ = db.set_value_for_habit_date(habit_id, date, 0x3FF0_0000_0000_0000u64);
    }
}

} // verus!
