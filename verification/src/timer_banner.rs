use vstd::prelude::*;

use crate::date::{local_today, utc_now_text, NaiveDate};
use crate::db::{Database, DbState, Habit, HabitMode};
use crate::settings::{Settings, SettingsView};
use crate::text::signed_decimal;

verus! {

/// The timer's own state: the habit being timed, if any, and the seconds
/// counted before the current run.
#[derive(Clone, Copy, Debug, PartialEq, Eq, Structural)]
pub struct TimerState {
    pub active_habit_id: Option<i64>,
    pub elapsed_before: u32,
}

/// What a tick of the clock asks for.
#[derive(Clone, Copy, Debug, PartialEq, Eq, Structural)]
pub enum TickAction {
    /// No habit is being timed.
    Idle,
    /// The countdown has run out: stop the timer and record the session.
    Finish,
    /// Show a countdown with this much time counted and this much left.
    Countdown { elapsed: u32, remaining: u32 },
    /// Show a stopwatch with this much time counted.
    Stopwatch { elapsed: u32 },
}

/// The seconds counted: those before the current run, plus those of the run.
pub open spec fn counted(before: u32, running_secs: Option<u32>) -> int {
    match running_secs {
        Some(r) => before + r,
        None => before as int,
    }
}

/// The store after stopping a timer that was timing `active` for `elapsed`
/// seconds: the habit's session recorded on `today`, stamped `stamp`, where
/// it can be; the store as it was where no habit was timed.
pub open spec fn stop_recorded(
    db: DbState,
    active: Option<i64>,
    elapsed: int,
    today: NaiveDate,
    stamp: Seq<char>,
) -> DbState {
    match active {
        Some(id) => if db.can_record(id) {
            db.with_session_added(db.new_session(id, today, elapsed as u32, stamp, None))
        } else {
            db
        },
        None => db,
    }
}

impl TimerState {
    /// A timer timing nothing.
    pub fn new() -> (t: TimerState)
        ensures
            t.active_habit_id is None,
            t.elapsed_before == 0,
    {
        TimerState { active_habit_id: None, elapsed_before: 0 }
    }

    /// Starts timing `habit` from zero and remembers it in `settings`;
    /// returns the text for the settings file then: the habit's id.
    pub fn start(&mut self, habit: &Habit, settings: &mut Settings) -> (contents: String)
        ensures
            final(self).active_habit_id == Some(habit.id),
            final(self).elapsed_before == 0,
            final(settings)@ == (SettingsView { last_active_habit_id: habit.id, ..old(settings)@ }),
            contents@ == signed_decimal(habit.id as int),
    {
        self.active_habit_id = Some(habit.id);
        self.elapsed_before = 0;
        settings.save_active_habit(Some(habit.clone()))
    }

    /// Stops the timer. Where a habit was being timed, returns it with the
    /// seconds counted, to be recorded as a session.
    pub fn stop(&mut self, running_secs: Option<u32>) -> (r: Option<(i64, u32)>)
        requires
            old(self).active_habit_id is Some ==> counted(old(self).elapsed_before, running_secs) <= u32::MAX,
        ensures
            final(self).active_habit_id is None,
            final(self).elapsed_before == 0,
            r == match old(self).active_habit_id {
                Some(id) => Some((id, counted(old(self).elapsed_before, running_secs) as u32)),
                None => None,
            },
    {
        let id = self.active_habit_id;
        let before: u32 = self.elapsed_before;
        self.active_habit_id = None;
        self.elapsed_before = 0;
        match id {
            Some(id) => {
                let elapsed: u32 = match running_secs {
                    Some(r) => before + r,
                    None => before,
                };
                Some((id, elapsed))
            },
            None => None,
        }
    }

    /// Pauses the timer: the seconds of the current run join those counted
    /// before, and the habit stays the one being timed. Returns whether a
    /// habit was being timed; where none was, nothing changes.
    pub fn pause(&mut self, running_secs: Option<u32>) -> (paused: bool)
        requires
            old(self).active_habit_id is Some ==> counted(old(self).elapsed_before, running_secs) <= u32::MAX,
        ensures
            paused == old(self).active_habit_id is Some,
            final(self).active_habit_id == old(self).active_habit_id,
            final(self).elapsed_before == if paused {
                counted(old(self).elapsed_before, running_secs) as u32
            } else {
                old(self).elapsed_before
            },
    {
        if self.active_habit_id.is_none() {
            return false;
        }
        if let Some(r) = running_secs {
            self.elapsed_before = self.elapsed_before + r;
        }
        true
    }

    /// What to do at a tick, timing `habit`: a countdown (a timed habit with
    /// a duration; a duration of 0 means a stopwatch) that has reached the
    /// habit's duration finishes; otherwise the time is shown.
    pub fn update_tick(&self, habit: &Habit, running_secs: Option<u32>) -> (a: TickAction)
        requires
            self.active_habit_id is Some ==> counted(self.elapsed_before, running_secs) <= u32::MAX,
        ensures
            a == if self.active_habit_id is None {
                TickAction::Idle
            } else if habit.mode == HabitMode::Timed && habit.timer_duration_seconds > 0 {
                if counted(self.elapsed_before, running_secs) >= habit.timer_duration_seconds {
                    TickAction::Finish
                } else {
                    TickAction::Countdown {
                        elapsed: counted(self.elapsed_before, running_secs) as u32,
                        remaining: (habit.timer_duration_seconds - counted(self.elapsed_before, running_secs)) as u32,
                    }
                }
            } else {
                TickAction::Stopwatch { elapsed: counted(self.elapsed_before, running_secs) as u32 }
            },
    {
        if self.active_habit_id.is_none() {
            return TickAction::Idle;
        }
        let elapsed: u32 = match running_secs {
            Some(r) => self.elapsed_before + r,
            None => self.elapsed_before,
        };
        if habit.mode == HabitMode::Timed && habit.timer_duration_seconds > 0 {
            if elapsed >= habit.timer_duration_seconds {
                TickAction::Finish
            } else {
                TickAction::Countdown { elapsed, remaining: habit.timer_duration_seconds - elapsed }
            }
        } else {
            TickAction::Stopwatch { elapsed }
        }
    }

    /// Stops the timer and, where a habit was being timed, records the
    /// counted seconds as its session on `today`, stamped `completed_at`, and
    /// forgets the active habit; returns the text for the settings file then.
    pub fn stop_and_record_on(
        &mut self,
        db: &mut Database,
        settings: &mut Settings,
        running_secs: Option<u32>,
        today: NaiveDate,
        completed_at: &str,
    ) -> (contents: Option<String>)
        requires
            old(db).wf(),
            old(self).active_habit_id is Some ==> counted(old(self).elapsed_before, running_secs) <= u32::MAX,
        ensures
            final(db).wf(),
            final(self).active_habit_id is None,
            final(self).elapsed_before == 0,
            final(db)@ == stop_recorded(
                old(db)@,
                old(self).active_habit_id,
                counted(old(self).elapsed_before, running_secs),
                today,
                completed_at@,
            ),
            match old(self).active_habit_id {
                Some(id) => {
                    &&& final(settings)@ == (SettingsView { last_active_habit_id: -1i64, ..old(settings)@ })
                    &&& contents matches Some(c) && c@ == Seq::<char>::empty()
                },
                None => {
                    &&& contents is None
                    &&& final(settings)@ == old(settings)@
                },
            },
    {
        match self.stop(running_secs) {
            Some((id, elapsed)) => {
                let _ = db.insert_session(id, today, elapsed, completed_at);
                Some(settings.save_active_habit(None))
            },
            None => None,
        }
    }

    /// Stops the timer and, where a habit was being timed, records the
    /// counted seconds as its session today, by the local clock, stamped with
    /// the current UTC time, as `stop_and_record_on` does.
    pub fn stop_and_record(
        &mut self,
        db: &mut Database,
        settings: &mut Settings,
        running_secs: Option<u32>,
    ) -> (contents: Option<String>)
        requires
            old(db).wf(),
            old(self).active_habit_id is Some ==> counted(old(self).elapsed_before, running_secs) <= u32::MAX,
        ensures
            final(db).wf(),
            final(self).active_habit_id is None,
            final(self).elapsed_before == 0,
            exists|today: NaiveDate, stamp: Seq<char>|
                final(db)@ == #[trigger] stop_recorded(
                    old(db)@,
                    old(self).active_habit_id,
                    counted(old(self).elapsed_before, running_secs),
                    today,
                    stamp,
                ),
            match old(self).active_habit_id {
                Some(id) => {
                    &&& final(settings)@ == (SettingsView { last_active_habit_id: -1i64, ..old(settings)@ })
                    &&& contents matches Some(c) && c@ == Seq::<char>::empty()
                },
                None => {
                    &&& contents is None
                    &&& final(settings)@ == old(settings)@
                },
            },
    {
        let today = local_today();
        let now = utc_now_text();
        self.stop_and_record_on(db, settings, running_secs, today, now.as_str())
    }

    /// Switches the timer to `habit`: the habit being timed, if any, is
    /// stopped and its session recorded on `today`, stamped `completed_at`;
    /// then `habit` is timed from zero and remembered. Returns the text for
    /// the settings file then: the habit's id.
    pub fn switch_to_on(
        &mut self,
        db: &mut Database,
        settings: &mut Settings,
        habit: &Habit,
        running_secs: Option<u32>,
        today: NaiveDate,
        completed_at: &str,
    ) -> (contents: String)
        requires
            old(db).wf(),
            old(self).active_habit_id is Some ==> counted(old(self).elapsed_before, running_secs) <= u32::MAX,
        ensures
            final(db).wf(),
            final(db)@ == stop_recorded(
                old(db)@,
                old(self).active_habit_id,
                counted(old(self).elapsed_before, running_secs),
                today,
                completed_at@,
            ),
            final(self).active_habit_id == Some(habit.id),
            final(self).elapsed_before == 0,
            final(settings)@ == (SettingsView { last_active_habit_id: habit.id, ..old(settings)@ }),
            contents@ == signed_decimal(habit.id as int),
    {
        let _ = self.stop_and_record_on(db, settings, running_secs, today, completed_at);
        self.start(habit, settings)
    }

    /// Switches the timer to `habit` as `switch_to_on` does, the session of
    /// the habit stopped being recorded today, by the local clock, stamped
    /// with the current UTC time.
    pub fn switch_to(
        &mut self,
        db: &mut Database,
        settings: &mut Settings,
        habit: &Habit,
        running_secs: Option<u32>,
    ) -> (contents: String)
        requires
            old(db).wf(),
            old(self).active_habit_id is Some ==> counted(old(self).elapsed_before, running_secs) <= u32::MAX,
        ensures
            final(db).wf(),
            exists|today: NaiveDate, stamp: Seq<char>|
                final(db)@ == #[trigger] stop_recorded(
                    old(db)@,
                    old(self).active_habit_id,
                    counted(old(self).elapsed_before, running_secs),
                    today,
                    stamp,
                ),
            final(self).active_habit_id == Some(habit.id),
            final(self).elapsed_before == 0,
            final(settings)@ == (SettingsView { last_active_habit_id: habit.id, ..old(settings)@ }),
            contents@ == signed_decimal(habit.id as int),
    {
        let today = local_today();
        let now = utc_now_text();
        self.switch_to_on(db, settings, habit, running_secs, today, now.as_str())
    }
}

} // verus!
