use vstd::prelude::*;

use crate::db::{Habit, HabitMode, HabitType};
use crate::service::AppState;
use crate::text::{is_blank, trimmed};
use crate::timer_banner::TimerState;

verus! {

/// The minutes that the edit dialog starts from: the habit's duration
/// rounded up to whole minutes.
pub fn duration_minutes(seconds: u32) -> (m: u32)
    ensures
        m == (seconds + 59) / 60,
{
    seconds / 60 + if seconds % 60 == 0 { 0 } else { 1 }
}

/// The mode the dialogs' check buttons choose.
pub fn chosen_mode(timed: bool) -> (m: HabitMode)
    ensures
        m == if timed { HabitMode::Timed } else { HabitMode::Stopwatch },
{
    if timed {
        HabitMode::Timed
    } else {
        HabitMode::Stopwatch
    }
}

/// The "Add" button of the add dialog: a blank description is refused;
/// otherwise a timer habit of `minutes` minutes is added. Returns whether the
/// dialog is done.
pub fn submit_add(state: &mut AppState, description: &str, minutes: u32, timed: bool) -> (done: bool)
    requires
        old(state).wf(),
        minutes * 60 <= u32::MAX,
    ensures
        final(state).wf(),
        done == (trimmed(description@).len() != 0),
        !done ==> final(state).db@ == old(state).db@,
        done ==> final(state).db@ == if old(state).db@.can_add_habit() {
            old(state).db@.with_habit_added(
                old(state).db@.new_habit(
                    description@,
                    (minutes * 60) as u32,
                    if timed { HabitMode::Timed } else { HabitMode::Stopwatch },
                    HabitType::Timer,
                    None,
                ),
            )
        } else {
            old(state).db@
        },
{
    if is_blank(description) {
        return false;
    }
    let mode = chosen_mode(timed);
    state.add_habit(description, minutes * 60, mode, HabitType::Timer, None);
    true
}

/// The "Save" button of the edit dialog: a blank description is refused;
/// otherwise the habit takes the description, `minutes` minutes and the mode,
/// keeping its kind. Returns whether the dialog is done.
pub fn submit_edit(state: &mut AppState, habit: &Habit, description: &str, minutes: u32, timed: bool) -> (done:
    bool)
    requires
        old(state).wf(),
        minutes * 60 <= u32::MAX,
    ensures
        final(state).wf(),
        done == (trimmed(description@).len() != 0),
        !done ==> final(state).db@ == old(state).db@,
        done ==> final(state).db@ == old(state).db@.with_habit_updated(
            habit.id,
            description@,
            (minutes * 60) as u32,
            if timed { HabitMode::Timed } else { HabitMode::Stopwatch },
            habit.habit_type,
            habit.min_value,
        ),
{
    if is_blank(description) {
        return false;
    }
    let mode = chosen_mode(timed);
    state.update_habit(habit, description, minutes * 60, mode, habit.habit_type, habit.min_value);
    true
}

/// The "Yes" button of the delete confirmation: deletes the habit, and stops
/// timing it where it was being timed.
pub fn confirm_delete(state: &mut AppState, timer: &mut TimerState, id: i64)
    requires
        old(state).wf(),
    ensures
        final(state).wf(),
        final(state).db@ == old(state).db@.with_habit_deleted(id),
        final(timer).active_habit_id == if old(timer).active_habit_id == Some(id) {
            None
        } else {
            old(timer).active_habit_id
        },
        final(timer).elapsed_before == old(timer).elapsed_before,
{
    state.delete_habit(id);
    if timer.active_habit_id == Some(id) {
        timer.active_habit_id = None;
    }
}

} // verus!
