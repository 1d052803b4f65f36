// Full workflows through the public API: add habits, record sessions, read
// streaks and totals, on a store held in memory.

use chrono::Datelike;
use pomotasker::db::{Database, HabitMode, HabitType};
use pomotasker::NaiveDate;

// -- Helpers --

fn test_db() -> Database {
    Database::new()
}

fn chrono_today() -> chrono::NaiveDate {
    chrono::Local::now().date_naive()
}

fn day(d: chrono::NaiveDate) -> NaiveDate {
    NaiveDate::from_num_days_from_ce(d.num_days_from_ce())
}

fn today() -> NaiveDate {
    day(chrono_today())
}

fn days_ago(i: i64) -> NaiveDate {
    day(chrono_today() - chrono::Duration::days(i))
}

fn value(v: Option<u64>) -> Option<f64> {
    v.map(f64::from_bits)
}

// -- Habit CRUD workflow --

#[test]
fn workflow_create_and_view_habits() {
    let mut db = test_db();

    let h1 = db.add_habit("Morning Reading", 900, HabitMode::Timed, HabitType::Timer, None).unwrap();
    let h2 = db.add_habit("Push-ups", 0, HabitMode::Stopwatch, HabitType::Number, Some(20)).unwrap();
    let h3 = db.add_habit("Meditate", 600, HabitMode::Timed, HabitType::Boolean, None).unwrap();

    let habits = db.get_all_habits().unwrap();
    assert_eq!(habits.len(), 3);
    assert_eq!(habits[0].description, "Morning Reading");
    assert_eq!(habits[0].mode, HabitMode::Timed);
    assert_eq!(habits[0].timer_duration_seconds, 900);
    assert_eq!(habits[1].description, "Push-ups");
    assert_eq!(habits[1].mode, HabitMode::Stopwatch);
    assert_eq!(habits[1].habit_type, HabitType::Number);
    assert_eq!(habits[1].min_value, Some(20));
    assert_eq!(habits[2].description, "Meditate");
    assert_eq!(habits[2].habit_type, HabitType::Boolean);

    assert_eq!(db.get_habit(h1.id).unwrap().description, "Morning Reading");
    assert_eq!(db.get_habit(h2.id).unwrap().description, "Push-ups");
    assert_eq!(db.get_habit(h3.id).unwrap().description, "Meditate");
}

#[test]
fn workflow_edit_habit() {
    let mut db = test_db();
    let h = db.add_habit("Old Name", 600, HabitMode::Timed, HabitType::Timer, None).unwrap();

    db.update_habit(h.id, "New Name", 1500, HabitMode::Stopwatch, HabitType::Timer, None).unwrap();

    let updated = db.get_habit(h.id).unwrap();
    assert_eq!(updated.description, "New Name");
    assert_eq!(updated.timer_duration_seconds, 1500);
    assert_eq!(updated.mode, HabitMode::Stopwatch);
}

#[test]
fn workflow_delete_habit_and_reorder() {
    let mut db = test_db();
    let _h1 = db.add_habit("A", 600, HabitMode::Timed, HabitType::Timer, None).unwrap();
    let h2 = db.add_habit("B", 600, HabitMode::Timed, HabitType::Timer, None).unwrap();
    let _h3 = db.add_habit("C", 600, HabitMode::Timed, HabitType::Timer, None).unwrap();
    let _h4 = db.add_habit("D", 600, HabitMode::Timed, HabitType::Timer, None).unwrap();

    db.delete_habit(h2.id).unwrap();

    let remaining = db.get_all_habits().unwrap();
    assert_eq!(remaining.len(), 3);
    assert_eq!(remaining[0].description, "A");
    assert_eq!(remaining[0].order_index, 0);
    assert_eq!(remaining[1].description, "C");
    assert_eq!(remaining[1].order_index, 1);
    assert_eq!(remaining[2].description, "D");
    assert_eq!(remaining[2].order_index, 2);

    assert!(db.get_habit(h2.id).is_err());
}

// -- Timer session workflow --

#[test]
fn workflow_timed_pomodoro_session() {
    let mut db = test_db();
    let h = db.add_habit("Coding", 1500, HabitMode::Timed, HabitType::Timer, None).unwrap();
    let date = today();

    db.insert_session(h.id, date, 1500, "2025-01-15 10:00:00").unwrap();

    assert!(db.has_session_for_date(h.id, date).unwrap());
    let sessions = db.get_sessions_for_habit_date(h.id, date).unwrap();
    assert_eq!(sessions.len(), 1);

    let total = db.get_total_minutes_for_habit_date(h.id, date).unwrap();
    assert_eq!(total, 25);
}

#[test]
fn workflow_multiple_sessions_same_day() {
    let mut db = test_db();
    let h = db.add_habit("Study", 900, HabitMode::Timed, HabitType::Timer, None).unwrap();
    let date = today();

    db.insert_session(h.id, date, 900, "2025-01-15 09:00:00").unwrap();
    db.insert_session(h.id, date, 900, "2025-01-15 11:00:00").unwrap();
    db.insert_session(h.id, date, 900, "2025-01-15 14:00:00").unwrap();

    let total = db.get_total_minutes_for_habit_date(h.id, date).unwrap();
    assert_eq!(total, 45);

    let sessions = db.get_sessions_for_habit_date(h.id, date).unwrap();
    assert_eq!(sessions.len(), 3);
}

#[test]
fn workflow_stopwatch_session() {
    let mut db = test_db();
    let h = db.add_habit("Gym", 0, HabitMode::Stopwatch, HabitType::Timer, None).unwrap();
    let date = today();

    db.insert_session(h.id, date, 3600, "2025-01-15 07:00:00").unwrap();

    let total = db.get_total_minutes_for_habit_date(h.id, date).unwrap();
    assert_eq!(total, 60);
}

#[test]
fn workflow_delete_session() {
    let mut db = test_db();
    let h = db.add_habit("Task", 900, HabitMode::Timed, HabitType::Timer, None).unwrap();
    let date = today();

    db.insert_session(h.id, date, 900, "2025-01-15 09:00:00").unwrap();
    db.insert_session(h.id, date, 900, "2025-01-15 11:00:00").unwrap();

    let ids = db.get_sessions_for_habit_date(h.id, date).unwrap();
    db.delete_session(ids[0]).unwrap();

    assert_eq!(db.get_sessions_for_habit_date(h.id, date).unwrap().len(), 1);
}

#[test]
fn workflow_clear_all_sessions_for_date() {
    let mut db = test_db();
    let h = db.add_habit("Task", 900, HabitMode::Timed, HabitType::Timer, None).unwrap();
    let date = today();

    db.insert_session(h.id, date, 900, "2025-01-15 09:00:00").unwrap();
    db.insert_session(h.id, date, 900, "2025-01-15 11:00:00").unwrap();

    db.delete_sessions_for_habit_date(h.id, date).unwrap();

    assert!(!db.has_session_for_date(h.id, date).unwrap());
    assert_eq!(db.get_total_minutes_for_habit_date(h.id, date).unwrap(), 0);
}

#[test]
fn workflow_update_session_duration() {
    let mut db = test_db();
    let h = db.add_habit("Task", 900, HabitMode::Timed, HabitType::Timer, None).unwrap();
    let date = today();

    db.insert_session(h.id, date, 600, "2025-01-15 09:00:00").unwrap();
    let ids = db.get_sessions_for_habit_date(h.id, date).unwrap();

    db.update_session_duration(ids[0], 1200).unwrap();

    let total = db.get_total_minutes_for_habit_date(h.id, date).unwrap();
    assert_eq!(total, 20);
}

// -- Boolean habit workflow --

#[test]
fn workflow_boolean_habit_toggle() {
    let mut db = test_db();
    let h = db.add_habit("Drink Water", 0, HabitMode::Stopwatch, HabitType::Boolean, None).unwrap();
    let date = today();

    db.set_value_for_habit_date(h.id, date, 1.0f64.to_bits()).unwrap();

    let v = db.get_value_for_habit_date(h.id, date).unwrap();
    assert_eq!(value(v), Some(1.0));
    assert!(db.has_session_for_date(h.id, date).unwrap());

    db.clear_value_for_habit_date(h.id, date).unwrap();

    assert!(db.get_value_for_habit_date(h.id, date).unwrap().is_none());
    assert!(!db.has_session_for_date(h.id, date).unwrap());
}

// -- Number habit workflow --

#[test]
fn workflow_number_habit_with_value() {
    let mut db = test_db();
    let h = db.add_habit("Squats", 0, HabitMode::Stopwatch, HabitType::Number, Some(50)).unwrap();
    let date = today();

    db.set_value_for_habit_date(h.id, date, 65.0f64.to_bits()).unwrap();

    let v = db.get_value_for_habit_date(h.id, date).unwrap();
    assert_eq!(value(v), Some(65.0));
    assert_eq!(h.min_value, Some(50));

    db.clear_value_for_habit_date(h.id, date).unwrap();
    db.set_value_for_habit_date(h.id, date, 80.0f64.to_bits()).unwrap();

    let v = db.get_value_for_habit_date(h.id, date).unwrap();
    assert_eq!(value(v), Some(80.0));
}

// -- Streak workflow --

#[test]
fn workflow_streak_builds_over_days() {
    let mut db = test_db();
    let h = db.add_habit("Daily Habit", 600, HabitMode::Timed, HabitType::Timer, None).unwrap();

    for i in 0..5 {
        db.insert_session(h.id, days_ago(i as i64), 600, "now").unwrap();
    }

    assert_eq!(db.get_streak_days(h.id).unwrap(), 5);
}

#[test]
fn workflow_streak_breaks_on_missing_day() {
    let mut db = test_db();
    let h = db.add_habit("Daily Habit", 600, HabitMode::Timed, HabitType::Timer, None).unwrap();

    db.insert_session(h.id, today(), 600, "now").unwrap();
    db.insert_session(h.id, days_ago(1), 600, "now").unwrap();
    db.insert_session(h.id, days_ago(4), 600, "now").unwrap();

    assert_eq!(db.get_streak_days(h.id).unwrap(), 2);
}

#[test]
fn workflow_streak_zero_when_no_today() {
    let mut db = test_db();
    let h = db.add_habit("Daily Habit", 600, HabitMode::Timed, HabitType::Timer, None).unwrap();

    db.insert_session(h.id, days_ago(1), 600, "now").unwrap();

    assert_eq!(db.get_streak_days(h.id).unwrap(), 0);
}

#[test]
fn workflow_streak_includes_boolean_habits() {
    let mut db = test_db();
    let h = db.add_habit("Meditate", 0, HabitMode::Stopwatch, HabitType::Boolean, None).unwrap();

    for i in 0..3 {
        db.set_value_for_habit_date(h.id, days_ago(i as i64), 1.0f64.to_bits()).unwrap();
    }

    assert_eq!(db.get_streak_days(h.id).unwrap(), 3);
}

// -- Reorder / move workflow --

#[test]
fn workflow_reorder_habits_via_move() {
    let mut db = test_db();
    let _h0 = db.add_habit("A", 600, HabitMode::Timed, HabitType::Timer, None).unwrap();
    let h1 = db.add_habit("B", 600, HabitMode::Timed, HabitType::Timer, None).unwrap();
    let _h2 = db.add_habit("C", 600, HabitMode::Timed, HabitType::Timer, None).unwrap();
    let _h3 = db.add_habit("D", 600, HabitMode::Timed, HabitType::Timer, None).unwrap();

    db.move_habit(h1.id, 3).unwrap();

    let habits = db.get_all_habits().unwrap();
    assert_eq!(habits[0].description, "A");
    assert_eq!(habits[1].description, "C");
    assert_eq!(habits[2].description, "D");
    assert_eq!(habits[3].description, "B");
}

#[test]
fn workflow_move_up() {
    let mut db = test_db();
    let _h0 = db.add_habit("A", 600, HabitMode::Timed, HabitType::Timer, None).unwrap();
    let _h1 = db.add_habit("B", 600, HabitMode::Timed, HabitType::Timer, None).unwrap();
    let _h2 = db.add_habit("C", 600, HabitMode::Timed, HabitType::Timer, None).unwrap();
    let h3 = db.add_habit("D", 600, HabitMode::Timed, HabitType::Timer, None).unwrap();

    db.move_habit(h3.id, 0).unwrap();

    let habits = db.get_all_habits().unwrap();
    assert_eq!(habits[0].description, "D");
    assert_eq!(habits[1].description, "A");
    assert_eq!(habits[2].description, "B");
    assert_eq!(habits[3].description, "C");
}

// -- Cross-habit workflow (delete cascades sessions) --

#[test]
fn workflow_delete_habit_cascades_sessions() {
    let mut db = test_db();
    let h = db.add_habit("Temp", 600, HabitMode::Timed, HabitType::Timer, None).unwrap();
    let date = today();

    db.insert_session(h.id, date, 600, "now").unwrap();
    assert!(db.has_session_for_date(h.id, date).unwrap());

    db.delete_habit(h.id).unwrap();

    let sessions = db.get_sessions_for_habit_date(h.id, date);
    if let Ok(s) = sessions {
        assert_eq!(s.len() as usize, 0);
    }
}

// -- A fresh store takes habits at once --

#[test]
fn workflow_schema_init_idempotent() {
    let mut db = test_db();
    let h = db.add_habit("X", 600, HabitMode::Timed, HabitType::Timer, None).unwrap();
    assert_eq!(h.description, "X");
}
