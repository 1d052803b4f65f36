use vstd::prelude::*;

use crate::date::{utc_now_text, weekday_number, NaiveDate};
use crate::db::{habit_views, Database, DbState, Habit, HabitMode, HabitRecord, HabitType, SessionDrop};
use crate::text::{decimal, u64_to_decimal};

verus! {

/// The letter shown for a weekday numbered from Monday as 1; `?` for any
/// other number.
pub open spec fn day_letter_text(dow: int) -> Seq<char> {
    if dow == 1 {
        "M"@
    } else if dow == 2 {
        "T"@
    } else if dow == 3 {
        "W"@
    } else if dow == 4 {
        "T"@
    } else if dow == 5 {
        "F"@
    } else if dow == 6 {
        "S"@
    } else if dow == 7 {
        "S"@
    } else {
        "?"@
    }
}

/// The letter shown for a weekday numbered from Monday as 1.
pub fn day_letter(dow: i64) -> (s: String)
    ensures
        s@ == day_letter_text(dow as int),
{
    let lit = if dow == 1 {
        "M"
    } else if dow == 2 {
        "T"
    } else if dow == 3 {
        "W"
    } else if dow == 4 {
        "T"
    } else if dow == 5 {
        "F"
    } else if dow == 6 {
        "S"
    } else if dow == 7 {
        "S"
    } else {
        "?"
    };
    String::from_str(lit)
}

/// What a day's circle shows: a text, or a recorded number given as the bit
/// pattern of a double, which the caller writes out.
pub enum CircleLabel {
    Text(String),
    Value(u64),
}

/// The mathematical value of a `CircleLabel`.
pub enum CircleText {
    Text(Seq<char>),
    Value(u64),
}

impl View for CircleLabel {
    type V = CircleText;

    open spec fn view(&self) -> CircleText {
        match self {
            CircleLabel::Text(s) => CircleText::Text(s@),
            CircleLabel::Value(v) => CircleText::Value(*v),
        }
    }
}

/// The minutes shown for a habit on a day: the total, or 0 where it does not
/// fit in a `u32`.
pub open spec fn shown_minutes(db: DbState, habit_id: i64, date: NaiveDate) -> int {
    if db.seconds_on(habit_id, date) / 60 <= u32::MAX {
        (db.seconds_on(habit_id, date) / 60) as int
    } else {
        0
    }
}

/// The label of a day's circle: minutes for a timer habit with time that day,
/// a check mark for a boolean habit done that day, the value of a number
/// habit, and otherwise the weekday's letter.
pub open spec fn circle_text(db: DbState, habit: HabitRecord, date: NaiveDate) -> CircleText {
    let letter = CircleText::Text(day_letter_text(weekday_number(date.days as int)));
    match habit.habit_type {
        HabitType::Timer => {
            let mins: int = shown_minutes(db, habit.id, date);
            if mins > 0 {
                CircleText::Text(decimal(mins as nat) + "m"@)
            } else {
                letter
            }
        },
        HabitType::Boolean => {
            if db.value_on(habit.id, date) is Some {
                CircleText::Text("✓"@)
            } else {
                letter
            }
        },
        HabitType::Number => {
            match db.value_on(habit.id, date) {
                Some(v) => CircleText::Value(v),
                None => letter,
            }
        },
    }
}

/// The application's state: the habit store and the habits as last read from it.
pub struct AppState {
    pub db: Database,
    pub habits: Vec<Habit>,
}

impl AppState {
    /// The store keeps its invariant and the habit list is what it holds.
    pub open spec fn wf(&self) -> bool {
        &&& self.db.wf()
        &&& habit_views(self.habits@) == self.db@.habits
    }

    /// The state over a store, with its habits read.
    pub fn new(db: Database) -> (st: AppState)
        requires
            db.wf(),
        ensures
            st.wf(),
            st.db@ == db@,
    {
        let habits = match db.get_all_habits() {
            Ok(v) => v,
            Err(_) => Vec::new(),
        };
        AppState { db, habits }
    }

    /// Reads the habits again from the store.
    pub fn reload_habits(&mut self)
        requires
            old(self).db.wf(),
        ensures
            final(self).wf(),
            final(self).db@ == old(self).db@,
    {
        self.habits = match self.db.get_all_habits() {
            Ok(v) => v,
            Err(_) => Vec::new(),
        };
    }

    /// Adds a habit, where the store has room for it, and reads the habits again.
    pub fn add_habit(
        &mut self,
        description: &str,
        timer_duration_seconds: u32,
        mode: HabitMode,
        habit_type: HabitType,
        min_value: Option<u32>,
    )
        requires
            old(self).wf(),
        ensures
            final(self).wf(),
            final(self).db@ == if old(self).db@.can_add_habit() {
                old(self).db@.with_habit_added(
                    old(self).db@.new_habit(description@, timer_duration_seconds, mode, habit_type, min_value),
                )
            } else {
                old(self).db@
            },
    {
        let _ = self.db.add_habit(description, timer_duration_seconds, mode, habit_type, min_value);
        self.reload_habits();
    }

    /// Sets the description, timer and kind of `habit` and reads the habits again.
    pub fn update_habit(
        &mut self,
        habit: &Habit,
        new_description: &str,
        new_timer_duration: u32,
        new_mode: HabitMode,
        new_habit_type: HabitType,
        new_min_value: Option<u32>,
    )
        requires
            old(self).wf(),
        ensures
            final(self).wf(),
            final(self).db@ == old(self).db@.with_habit_updated(
                habit.id,
                new_description@,
                new_timer_duration,
                new_mode,
                new_habit_type,
                new_min_value,
            ),
    {
        let _ = self.db.update_habit(
            habit.id,
            new_description,
            new_timer_duration,
            new_mode,
            new_habit_type,
            new_min_value,
        );
        self.reload_habits();
    }

    /// Deletes a habit with its sessions and reads the habits again.
    pub fn delete_habit(&mut self, id: i64)
        requires
            old(self).wf(),
        ensures
            final(self).wf(),
            final(self).db@ == old(self).db@.with_habit_deleted(id),
    {
        let _ = self.db.delete_habit(id);
        self.reload_habits();
    }

    /// Records a session for the habit on `date`, stamped with the current
    /// UTC time.
    pub fn add_session_for_date(&mut self, habit_id: i64, date: NaiveDate, duration_seconds: u32)
        requires
            old(self).wf(),
        ensures
            final(self).wf(),
            old(self).db@.can_record(habit_id) ==> exists|stamp: Seq<char>|
                final(self).db@ == old(self).db@.with_session_added(
                    #[trigger] old(self).db@.new_session(habit_id, date, duration_seconds, stamp, None),
                ),
            !old(self).db@.can_record(habit_id) ==> final(self).db@ == old(self).db@,
    {
        let now = utc_now_text();
        let _ = self.db.insert_session(habit_id, date, duration_seconds, now.as_str());
    }

    /// Replaces the habit's sessions on `date` by one of `minutes` minutes,
    /// or by none for 0 minutes.
    pub fn set_session_minutes_for_date(&mut self, habit_id: i64, date: NaiveDate, minutes: u32)
        requires
            old(self).wf(),
            minutes * 60 <= u32::MAX,
        ensures
            final(self).wf(),
            ({
                let cleared = old(self).db@.with_sessions_dropped(SessionDrop::HabitOn(habit_id, date));
                if minutes > 0 && cleared.can_record(habit_id) {
                    exists|stamp: Seq<char>|
                        final(self).db@ == cleared.with_session_added(
                            #[trigger] cleared.new_session(habit_id, date, (minutes * 60) as u32, stamp, None),
                        )
                } else {
                    final(self).db@ == cleared
                }
            }),
    {
        let seconds: u32 = minutes * 60;
        let _ = self.db.delete_sessions_for_habit_date(habit_id, date);
        if seconds > 0 {
            let now = utc_now_text();
            let _ = self.db.insert_session(habit_id, date, seconds, now.as_str());
        }
    }

    /// Deletes the habit's sessions on `date`.
    pub fn remove_session_for_date(&mut self, habit_id: i64, date: NaiveDate)
        requires
            old(self).wf(),
        ensures
            final(self).wf(),
            final(self).db@ == old(self).db@.with_sessions_dropped(SessionDrop::HabitOn(habit_id, date)),
    {
        let _ = self.db.delete_sessions_for_habit_date(habit_id, date);
    }

    /// The habit's minutes on `date`, or 0 where the total does not fit.
    pub fn get_total_minutes(&self, habit_id: i64, date: NaiveDate) -> (m: u32)
        requires
            self.wf(),
        ensures
            m == shown_minutes(self.db@, habit_id, date),
    {
        match self.db.get_total_minutes_for_habit_date(habit_id, date) {
            Ok(m) => m,
            Err(_) => 0,
        }
    }

    /// Whether the habit has a session on `date`.
    pub fn has_session(&self, habit_id: i64, date: NaiveDate) -> (b: bool)
        requires
            self.wf(),
        ensures
            b == self.db@.has_session_on(habit_id, date.days as int),
    {
        match self.db.has_session_for_date(habit_id, date) {
            Ok(b) => b,
            Err(_) => false,
        }
    }

    /// Replaces the habit's sessions on `date` by the value `value` (the bit
    /// pattern of a double).
    pub fn set_number_value(&mut self, habit_id: i64, date: NaiveDate, value: u64)
        requires
            old(self).wf(),
        ensures
            final(self).wf(),
            ({
                let cleared = old(self).db@.with_sessions_dropped(SessionDrop::HabitOn(habit_id, date));
                final(self).db@ == if cleared.can_record(habit_id) {
                    cleared.with_session_added(cleared.new_session(habit_id, date, 0, Seq::empty(), Some(value)))
                } else {
                    cleared
                }
            }),
    {
        let _ = self.db.delete_sessions_for_habit_date(habit_id, date);
        let _ = self.db.set_value_for_habit_date(habit_id, date, value);
    }

    /// The value recorded for the habit on `date`, if any.
    pub fn get_number_value(&self, habit_id: i64, date: NaiveDate) -> (v: Option<u64>)
        requires
            self.wf(),
        ensures
            v == self.db@.value_on(habit_id, date),
    {
        match self.db.get_value_for_habit_date(habit_id, date) {
            Ok(v) => v,
            Err(_) => None,
        }
    }

    /// Deletes the values recorded for the habit on `date`.
    pub fn clear_number_value(&mut self, habit_id: i64, date: NaiveDate)
        requires
            old(self).wf(),
        ensures
            final(self).wf(),
            final(self).db@ == old(self).db@.with_sessions_dropped(SessionDrop::ValueOn(habit_id, date)),
    {
        let _ = self.db.clear_value_for_habit_date(habit_id, date);
    }

    /// The label of `habit`'s circle for `date`.
    pub fn get_circle_label(&self, habit: &Habit, date: NaiveDate) -> (l: CircleLabel)
        requires
            self.wf(),
        ensures
            l@ == circle_text(self.db@, habit@, date),
    {
        let dow: u32 = date.weekday_from_monday();
        match habit.habit_type {
            HabitType::Timer => {
                let mins: u32 = self.get_total_minutes(habit.id, date);
                if mins > 0 {
                    let mut s = u64_to_decimal(mins as u64);
                    s.append("m");
                    CircleLabel::Text(s)
                } else {
                    CircleLabel::Text(day_letter(dow as i64))
                }
            },
            HabitType::Boolean => {
                let val = match self.db.get_value_for_habit_date(habit.id, date) {
                    Ok(v) => v,
                    Err(_) => None,
                };
                if val.is_some() {
                    CircleLabel::Text(String::from_str("✓"))
                } else {
                    CircleLabel::Text(day_letter(dow as i64))
                }
            },
            HabitType::Number => {
                match self.get_number_value(habit.id, date) {
                    Some(v) => CircleLabel::Value(v),
                    None => CircleLabel::Text(day_letter(dow as i64)),
                }
            },
        }
    }
}

} // verus!
