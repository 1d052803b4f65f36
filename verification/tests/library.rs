// Checks of the library's laws and formulas on concrete values.

use chrono::Datelike;
use pomotasker::clock::stopwatch_text;
use pomotasker::db::{Database, DbError, Habit, HabitMode, HabitType, Session};
use pomotasker::dialogs::{duration_minutes, submit_add, submit_edit, confirm_delete};
use pomotasker::habit_row::{circle_state, timer_circle_click, toggle_boolean_day, CircleClick};
use pomotasker::popover_menu::{toggle_day, toggle_manual};
use pomotasker::service::{day_letter, AppState, CircleLabel};
use pomotasker::settings::Settings;
use pomotasker::text::{i64_to_decimal, is_blank, u64_to_decimal};
use pomotasker::timer_banner::{TickAction, TimerState};
use pomotasker::week_summary::{week_dates, WeekSummary};
use pomotasker::NaiveDate;

fn ymd(y: i32, m: u32, d: u32) -> NaiveDate {
    NaiveDate::from_num_days_from_ce(chrono::NaiveDate::from_ymd_opt(y, m, d).unwrap().num_days_from_ce())
}

/// A store holding `n` habits, with the ids 1 to `n`.
fn store_with_habits(n: usize) -> Database {
    let mut db = Database::new();
    for _ in 0..n {
        db.add_habit("h", 1500, HabitMode::Timed, HabitType::Timer, None).unwrap();
    }
    db
}

fn text(l: &CircleLabel) -> String {
    match l {
        CircleLabel::Text(s) => s.clone(),
        CircleLabel::Value(v) => f64::from_bits(*v).to_string(),
    }
}

fn four_habits() -> (Database, Vec<Habit>) {
    let mut db = Database::new();
    let mut hs = Vec::new();
    for name in ["A", "B", "C", "D"] {
        hs.push(db.add_habit(name, 600, HabitMode::Timed, HabitType::Timer, None).unwrap());
    }
    (db, hs)
}

fn names(db: &Database) -> Vec<String> {
    db.get_all_habits().unwrap().into_iter().map(|h| h.description).collect()
}

#[test]
fn weekday_agrees_with_chrono() {
    let mut d = chrono::NaiveDate::from_ymd_opt(1899, 12, 25).unwrap();
    for _ in 0..800 {
        let ours = NaiveDate::from_num_days_from_ce(d.num_days_from_ce());
        assert_eq!(ours.weekday_from_monday(), d.weekday().number_from_monday());
        d = d + chrono::Duration::days(37);
    }
    let first = NaiveDate::from_num_days_from_ce(1);
    assert_eq!(first.weekday_from_monday(), 1);
    assert_eq!(ymd(2025, 1, 15).weekday_from_monday(), 3);
}

#[test]
fn date_arithmetic_edges() {
    let d = NaiveDate::from_num_days_from_ce(10);
    assert_eq!(d.checked_sub_days(3), Some(NaiveDate::from_num_days_from_ce(7)));
    assert_eq!(d.checked_add_days(5), Some(NaiveDate::from_num_days_from_ce(15)));
    assert_eq!(NaiveDate::from_num_days_from_ce(i32::MIN).checked_sub_days(1), None);
    assert_eq!(NaiveDate::from_num_days_from_ce(i32::MAX).checked_add_days(1), None);
}

#[test]
fn decimal_writing() {
    assert_eq!(u64_to_decimal(0), "0");
    assert_eq!(u64_to_decimal(1500), "1500");
    assert_eq!(u64_to_decimal(u64::MAX), "18446744073709551615");
    assert_eq!(i64_to_decimal(-42), "-42");
    assert_eq!(i64_to_decimal(i64::MIN), "-9223372036854775808");
    assert!(is_blank("  \t "));
    assert!(!is_blank(" x "));
}

#[test]
fn law_read_after_add() {
    let mut db = Database::new();
    let h = db.add_habit("Read", 1500, HabitMode::Timed, HabitType::Timer, None).unwrap();
    assert_eq!(h.id, 1);
    let again = db.get_habit(h.id).unwrap();
    assert_eq!(again.description, "Read");
    assert_eq!(again.order_index, 0);
    let h2 = db.add_habit("Code", 0, HabitMode::Stopwatch, HabitType::Number, Some(3)).unwrap();
    assert_eq!(h2.id, 2);
    assert_eq!(h2.order_index, 1);
    assert_eq!(db.get_habit(2).unwrap().min_value, Some(3));
}

#[test]
fn law_deleted_habit_is_gone() {
    let (mut db, hs) = four_habits();
    let date = ymd(2025, 1, 15);
    db.insert_session(hs[1].id, date, 60, "x").unwrap();
    db.delete_habit(hs[1].id).unwrap();
    assert_eq!(db.get_habit(hs[1].id).unwrap_err(), DbError::NotFound);
    assert!(!db.has_session_for_date(hs[1].id, date).unwrap());
    assert!(db.sessions().is_empty());
    // Ids are not reused after a delete.
    let e = db.add_habit("E", 0, HabitMode::Stopwatch, HabitType::Timer, None).unwrap();
    assert_eq!(e.id, 5);
}

#[test]
fn law_move_keeps_others_in_order_and_move_back_restores() {
    let (mut db, hs) = four_habits();
    db.move_habit(hs[0].id, 2).unwrap();
    assert_eq!(names(&db), vec!["B", "C", "A", "D"]);
    let all = db.get_all_habits().unwrap();
    for (i, h) in all.iter().enumerate() {
        assert_eq!(h.order_index, i as i32);
    }
    db.move_habit(hs[0].id, 0).unwrap();
    assert_eq!(names(&db), vec!["A", "B", "C", "D"]);
    db.move_habit(hs[0].id, -1).unwrap();
    assert_eq!(names(&db), vec!["A", "B", "C", "D"]);
}

#[test]
fn law_recorded_session_counts() {
    let mut db = Database::new();
    let h = db.add_habit("Read", 1500, HabitMode::Timed, HabitType::Timer, None).unwrap();
    let date = ymd(2025, 1, 15);
    db.insert_session(h.id, date, 90, "a").unwrap();
    db.insert_session(h.id, date, 95, "b").unwrap();
    db.insert_session(h.id, ymd(2025, 1, 16), 600, "c").unwrap();
    assert_eq!(db.get_sessions_for_habit_date(h.id, date).unwrap(), vec![1, 2]);
    assert_eq!(db.get_total_minutes_for_habit_date(h.id, date).unwrap(), 3);
    assert_eq!(db.last_session_id(), 3);
}

#[test]
fn total_minutes_overflow_is_refused() {
    let mut db = store_with_habits(7);
    let date = ymd(2025, 1, 15);
    for _ in 0..61 {
        db.insert_session(7, date, u32::MAX, "x").unwrap();
    }
    assert_eq!(db.get_total_minutes_for_habit_date(7, date), Err(DbError::Overflow));
}

#[test]
fn law_value_read_back_and_cleared() {
    let mut db = store_with_habits(1);
    let date = ymd(2025, 1, 15);
    db.insert_session(1, date, 600, "t").unwrap();
    assert_eq!(db.get_value_for_habit_date(1, date).unwrap(), None);
    db.set_value_for_habit_date(1, date, 2.5f64.to_bits()).unwrap();
    assert_eq!(db.get_value_for_habit_date(1, date).unwrap(), Some(2.5f64.to_bits()));
    db.clear_value_for_habit_date(1, date).unwrap();
    assert_eq!(db.get_value_for_habit_date(1, date).unwrap(), None);
    // The timed session stays.
    assert!(db.has_session_for_date(1, date).unwrap());
    assert_eq!(db.get_total_minutes_for_habit_date(1, date).unwrap(), 10);
}

#[test]
fn law_streak_is_run_of_days() {
    let mut db = store_with_habits(1);
    let today = ymd(2025, 3, 10);
    for back in [0u32, 1, 2, 4] {
        db.insert_session(1, today.checked_sub_days(back).unwrap(), 60, "x").unwrap();
    }
    assert_eq!(db.streak_days_until(1, today), 3);
    assert_eq!(db.streak_days_until(1, today.checked_sub_days(3).unwrap()), 0);
    let mut long = store_with_habits(1);
    for back in 0..400u32 {
        long.insert_session(1, today.checked_sub_days(back).unwrap(), 60, "x").unwrap();
    }
    assert_eq!(long.streak_days_until(1, today), 400);
    assert_eq!(long.get_streak_days_on(1, today), Ok(400));
}

#[test]
fn from_rows_refuses_bad_rows() {
    let h = |id: i64| Habit {
        id,
        description: "x".to_string(),
        order_index: 0,
        timer_duration_seconds: 0,
        mode: HabitMode::Stopwatch,
        habit_type: HabitType::Timer,
        min_value: None,
    };
    let s = |id: i64| Session {
        id,
        habit_id: 1,
        date: ymd(2025, 1, 1),
        duration_seconds: 1,
        completed_at: String::new(),
        value: None,
    };
    assert_eq!(Database::from_rows(vec![h(1), h(1)], vec![], 5, 0).err(), Some(DbError::InvalidRows));
    assert_eq!(Database::from_rows(vec![h(6)], vec![], 5, 0).err(), Some(DbError::InvalidRows));
    assert_eq!(Database::from_rows(vec![], vec![s(2), s(1)], 0, 5).err(), Some(DbError::InvalidRows));
    let db = Database::from_rows(vec![h(3), h(1)], vec![s(1), s(4)], 5, 4).unwrap();
    let all = db.get_all_habits().unwrap();
    assert_eq!((all[0].id, all[0].order_index, all[1].id, all[1].order_index), (3, 0, 1, 1));
}

#[test]
fn ids_exhausted_is_refused() {
    let one = Habit {
        id: 1,
        description: "x".to_string(),
        order_index: 0,
        timer_duration_seconds: 0,
        mode: HabitMode::Stopwatch,
        habit_type: HabitType::Timer,
        min_value: None,
    };
    let mut db = Database::from_rows(vec![one], vec![], i64::MAX, i64::MAX).unwrap();
    assert_eq!(db.add_habit("x", 0, HabitMode::Timed, HabitType::Timer, None).err(), Some(DbError::IdsExhausted));
    assert_eq!(db.insert_session(1, ymd(2025, 1, 1), 1, "x"), Err(DbError::IdsExhausted));
    assert_eq!(db.get_all_habits().unwrap().len(), 1);
    assert!(db.sessions().is_empty());
}

#[test]
fn session_of_missing_habit_is_refused() {
    let mut db = store_with_habits(1);
    let date = ymd(2025, 1, 1);
    assert_eq!(db.insert_session(2, date, 60, "x"), Err(DbError::NotFound));
    assert_eq!(db.set_value_for_habit_date(2, date, 1.0f64.to_bits()), Err(DbError::NotFound));
    assert!(db.sessions().is_empty());
    assert_eq!(db.last_session_id(), 0);
    db.delete_habit(1).unwrap();
    assert_eq!(db.insert_session(1, date, 60, "x"), Err(DbError::NotFound));
    toggle_manual(&mut db, 1, date, 1500);
    assert!(db.sessions().is_empty());
}

#[test]
fn mode_and_type_texts() {
    assert_eq!(HabitMode::Timed.as_text(), "timed");
    assert_eq!(HabitMode::Stopwatch.as_text(), "stopwatch");
    assert_eq!(HabitMode::Timed.toggled(), HabitMode::Stopwatch);
    assert_eq!(HabitType::parse(HabitType::Number.as_text().to_string()), HabitType::Number);
    assert_eq!(HabitType::parse(HabitType::Boolean.as_text().to_string()), HabitType::Boolean);
    assert_eq!(HabitType::parse("other".to_string()), HabitType::Timer);
}

#[test]
fn day_letters() {
    let letters: Vec<String> = (0..9).map(day_letter).collect();
    assert_eq!(letters, vec!["?", "M", "T", "W", "T", "F", "S", "S", "?"]);
}

#[test]
fn circle_labels() {
    let mut db = Database::new();
    let timer = db.add_habit("T", 1500, HabitMode::Timed, HabitType::Timer, None).unwrap();
    let boolean = db.add_habit("B", 0, HabitMode::Stopwatch, HabitType::Boolean, None).unwrap();
    let number = db.add_habit("N", 0, HabitMode::Stopwatch, HabitType::Number, Some(50)).unwrap();
    let date = ymd(2025, 1, 15); // a Wednesday
    let mut st = AppState::new(db);
    assert_eq!(text(&st.get_circle_label(&timer, date)), "W");
    st.add_session_for_date(timer.id, date, 1500);
    assert_eq!(text(&st.get_circle_label(&timer, date)), "25m");
    st.set_session_minutes_for_date(timer.id, date, 7);
    assert_eq!(st.get_total_minutes(timer.id, date), 7);
    st.set_session_minutes_for_date(timer.id, date, 0);
    assert!(!st.has_session(timer.id, date));
    assert_eq!(text(&st.get_circle_label(&boolean, date)), "W");
    toggle_boolean_day(&mut st.db, boolean.id, date);
    assert_eq!(text(&st.get_circle_label(&boolean, date)), "✓");
    toggle_boolean_day(&mut st.db, boolean.id, date);
    assert_eq!(text(&st.get_circle_label(&boolean, date)), "W");
    st.set_number_value(number.id, date, 65.0f64.to_bits());
    assert_eq!(text(&st.get_circle_label(&number, date)), "65");
    assert_eq!(st.get_number_value(number.id, date), Some(65.0f64.to_bits()));
    st.clear_number_value(number.id, date);
    assert_eq!(st.get_number_value(number.id, date), None);
}

#[test]
fn circle_states() {
    let mut db = Database::new();
    let timer = db.add_habit("T", 1500, HabitMode::Timed, HabitType::Timer, None).unwrap();
    let number = db.add_habit("N", 0, HabitMode::Stopwatch, HabitType::Number, Some(50)).unwrap();
    let date = ymd(2025, 1, 13); // a Monday
    let c = circle_state(&db, &timer, date, false);
    assert_eq!((text(&c.label).as_str(), c.completed, c.partial, c.has_data), ("M", false, false, false));
    db.insert_session(timer.id, date, 30, "x").unwrap();
    let c = circle_state(&db, &timer, date, false);
    assert_eq!((text(&c.label).as_str(), c.completed, c.has_data), ("0m", true, true));
    db.set_value_for_habit_date(number.id, date, 40.0f64.to_bits()).unwrap();
    let c = circle_state(&db, &number, date, false);
    assert_eq!((c.completed, c.partial, c.has_data), (false, true, true));
}

#[test]
fn timer_clicks() {
    assert_eq!(timer_circle_click(1, true, Some(1), false), CircleClick::StopTimer);
    assert_eq!(timer_circle_click(1, true, Some(1), true), CircleClick::StopTimer);
    assert_eq!(timer_circle_click(1, true, Some(2), false), CircleClick::StartTimer { stop_current: true });
    assert_eq!(timer_circle_click(1, true, None, false), CircleClick::StartTimer { stop_current: false });
    // Today's circle, already complete, is toggled off.
    assert_eq!(timer_circle_click(1, true, None, true), CircleClick::ToggleDay);
    assert_eq!(timer_circle_click(1, true, Some(2), true), CircleClick::ToggleDay);
    // A past day's circle toggles complete and incomplete.
    assert_eq!(timer_circle_click(1, false, None, true), CircleClick::ToggleDay);
    assert_eq!(timer_circle_click(1, false, Some(1), false), CircleClick::ToggleDay);
}

#[test]
fn manual_toggle() {
    let mut db = store_with_habits(1);
    let date = ymd(2025, 1, 15);
    toggle_manual(&mut db, 1, date, 1500);
    assert_eq!(db.get_total_minutes_for_habit_date(1, date).unwrap(), 25);
    db.insert_session(1, date, 60, "x").unwrap();
    assert_eq!(db.get_sessions_for_habit_date(1, date).unwrap(), vec![1, 2]);
    toggle_manual(&mut db, 1, date, 1500);
    assert!(!db.has_session_for_date(1, date).unwrap());
    assert!(db.get_sessions_for_habit_date(1, date).unwrap().is_empty());
}

#[test]
fn law_toggle_day_flips() {
    let mut db = store_with_habits(2);
    let date = ymd(2025, 1, 15);
    db.insert_session(2, date, 60, "x").unwrap();
    toggle_day(&mut db, 1, date, 1500, "2025-01-15 10:00:00");
    assert!(db.has_session_for_date(1, date).unwrap());
    let s = &db.sessions()[1];
    assert_eq!((s.id, s.habit_id, s.date, s.duration_seconds), (2, 1, date, 1500));
    assert_eq!(s.completed_at, "2025-01-15 10:00:00");
    toggle_day(&mut db, 1, date, 1500, "y");
    assert!(!db.has_session_for_date(1, date).unwrap());
    assert!(db.has_session_for_date(2, date).unwrap());
}

#[test]
fn timer_ticks_and_stop() {
    let mut db = Database::new();
    let h = db.add_habit("T", 100, HabitMode::Timed, HabitType::Timer, None).unwrap();
    let sw = db.add_habit("S", 0, HabitMode::Stopwatch, HabitType::Timer, None).unwrap();
    let mut t = TimerState::new();
    assert_eq!(t.update_tick(&h, Some(5)), TickAction::Idle);
    let mut remembered = Settings::default();
    assert_eq!(t.start(&h, &mut remembered), h.id.to_string());
    assert_eq!(remembered.last_active_habit_id(), h.id);
    assert_eq!(t.update_tick(&h, Some(40)), TickAction::Countdown { elapsed: 40, remaining: 60 });
    assert_eq!(t.update_tick(&h, Some(100)), TickAction::Finish);
    assert_eq!(t.update_tick(&sw, Some(100)), TickAction::Stopwatch { elapsed: 100 });
    let mut settings = Settings::default();
    let _ = settings.save_active_habit(Some(h.clone()));
    assert_eq!(settings.last_active_habit_id(), h.id);
    let out = t.stop_and_record(&mut db, &mut settings, Some(42));
    assert_eq!(out, Some(String::new()));
    assert_eq!(settings.last_active_habit_id(), -1);
    assert_eq!(t.active_habit_id, None);
    assert_eq!(db.sessions()[0].duration_seconds, 42);
    assert_eq!(t.stop(Some(3)), None);
    // With no habit timed, nothing is added up, whatever the clock reads.
    t.elapsed_before = u32::MAX;
    assert_eq!(t.update_tick(&h, Some(u32::MAX)), TickAction::Idle);
    assert_eq!(t.stop_and_record(&mut db, &mut settings, Some(u32::MAX)), None);
    assert_eq!(db.sessions().len(), 1);
}

#[test]
fn timed_habit_without_duration_is_a_stopwatch() {
    let mut db = Database::new();
    let h = db.add_habit("Z", 0, HabitMode::Timed, HabitType::Timer, None).unwrap();
    let mut t = TimerState::new();
    t.start(&h, &mut Settings::default());
    assert_eq!(t.update_tick(&h, Some(0)), TickAction::Stopwatch { elapsed: 0 });
    assert_eq!(t.update_tick(&h, Some(30)), TickAction::Stopwatch { elapsed: 30 });
}

#[test]
fn pause_keeps_counted_time() {
    let mut db = Database::new();
    let h = db.add_habit("T", 100, HabitMode::Timed, HabitType::Timer, None).unwrap();
    let mut t = TimerState::new();
    assert!(!t.pause(Some(5)));
    assert_eq!(t.elapsed_before, 0);
    t.start(&h, &mut Settings::default());
    assert!(t.pause(Some(30)));
    assert_eq!((t.active_habit_id, t.elapsed_before), (Some(h.id), 30));
    // Paused: no run is counted.
    assert_eq!(t.update_tick(&h, None), TickAction::Countdown { elapsed: 30, remaining: 70 });
    // Resumed: the new run adds to what was counted.
    assert_eq!(t.update_tick(&h, Some(20)), TickAction::Countdown { elapsed: 50, remaining: 50 });
    assert!(t.pause(Some(20)));
    assert_eq!(t.stop(None), Some((h.id, 50)));
}

#[test]
fn switch_records_the_running_habit() {
    let mut db = Database::new();
    let a = db.add_habit("A", 100, HabitMode::Timed, HabitType::Timer, None).unwrap();
    let b = db.add_habit("B", 100, HabitMode::Timed, HabitType::Timer, None).unwrap();
    let mut settings = Settings::default();
    let mut t = TimerState::new();
    let day = ymd(2025, 2, 3);
    assert_eq!(t.switch_to_on(&mut db, &mut settings, &a, None, day, "s"), a.id.to_string());
    assert!(db.sessions().is_empty());
    assert_eq!(t.switch_to_on(&mut db, &mut settings, &b, Some(12), day, "t"), b.id.to_string());
    let s = &db.sessions()[0];
    assert_eq!((s.habit_id, s.date, s.duration_seconds), (a.id, day, 12));
    assert_eq!(s.completed_at, "t");
    assert_eq!((t.active_habit_id, t.elapsed_before), (Some(b.id), 0));
    assert_eq!(settings.last_active_habit_id(), b.id);
}

#[test]
fn stop_records_on_the_day() {
    let mut db = Database::new();
    let h = db.add_habit("T", 100, HabitMode::Timed, HabitType::Timer, None).unwrap();
    let mut settings = Settings::default();
    let mut t = TimerState::new();
    t.start(&h, &mut settings);
    t.elapsed_before = 10;
    let day = ymd(2025, 2, 3);
    let out = t.stop_and_record_on(&mut db, &mut settings, Some(5), day, "2025-02-03 09:00:00");
    assert_eq!(out, Some(String::new()));
    assert_eq!(settings.last_active_habit_id(), -1);
    let s = &db.sessions()[0];
    assert_eq!((s.habit_id, s.date, s.duration_seconds), (h.id, day, 15));
    assert_eq!(s.completed_at, "2025-02-03 09:00:00");
    assert_eq!(t.stop_and_record_on(&mut db, &mut settings, None, day, "z"), None);
    assert_eq!(db.sessions().len(), 1);
}

#[test]
fn stopwatch_readings() {
    assert_eq!(stopwatch_text(0), "00:00");
    assert_eq!(stopwatch_text(65), "01:05");
    assert_eq!(stopwatch_text(3599), "59:59");
    assert_eq!(stopwatch_text(3661), "01:01:01");
    assert_eq!(stopwatch_text(360000), "100:00:00");
}

#[test]
fn settings_round_trip() {
    let mut s = Settings::default();
    assert_eq!(s.last_active_habit_id(), -1);
    let h = Habit {
        id: 42,
        description: "x".to_string(),
        order_index: 0,
        timer_duration_seconds: 0,
        mode: HabitMode::Timed,
        habit_type: HabitType::Timer,
        min_value: None,
    };
    let text = s.save_active_habit(Some(h));
    assert_eq!(text, "42");
    assert_eq!(Settings::from_contents(&text).last_active_habit_id(), 42);
    assert_eq!(Settings::from_contents(" -7\n").last_active_habit_id(), -7);
    assert_eq!(Settings::from_contents("").last_active_habit_id(), -1);
    assert_eq!(Settings::from_contents("\u{a0}5\u{3000}").last_active_habit_id(), 5);
    assert_eq!(Settings::from_contents("\u{200b}5").last_active_habit_id(), -1);
    assert_eq!(Settings::from_contents("abc").last_active_habit_id(), -1);
    let none = s.save_active_habit(None);
    assert_eq!(none, "");
    assert_eq!(s.last_active_habit_id(), -1);
    assert_eq!(Settings::from_contents(&none).last_active_habit_id(), -1);
}

#[test]
fn settings_durations() {
    let mut s = Settings::default();
    assert_eq!((s.work_duration_seconds(), s.break_duration_seconds()), (1500, 300));
    assert!(!s.set_durations(0, 60));
    assert_eq!((s.work_duration_seconds(), s.break_duration_seconds()), (1500, 300));
    assert!(s.set_durations(3000, 600));
    assert_eq!((s.work_duration_seconds(), s.break_duration_seconds()), (3000, 600));
    let from_file = Settings::from_contents("3");
    assert_eq!((from_file.work_duration_seconds(), from_file.break_duration_seconds()), (1500, 300));
}

#[test]
fn week_summary_figures() {
    let mut db = Database::new();
    let timed = db.add_habit("T", 1500, HabitMode::Timed, HabitType::Timer, None).unwrap();
    let free = db.add_habit("F", 0, HabitMode::Stopwatch, HabitType::Timer, None).unwrap();
    let today = ymd(2025, 1, 15); // Wednesday; the week starts Monday the 13th
    db.insert_session(timed.id, ymd(2025, 1, 13), 60, "x").unwrap();
    db.insert_session(timed.id, ymd(2025, 1, 14), 60, "x").unwrap();
    db.insert_session(timed.id, ymd(2025, 1, 14), 60, "x").unwrap();
    db.insert_session(timed.id, ymd(2025, 1, 15), 60, "x").unwrap();
    db.insert_session(timed.id, ymd(2025, 1, 12), 60, "x").unwrap();
    db.insert_session(free.id, ymd(2025, 1, 19), 60, "x").unwrap();
    let habits = db.get_all_habits().unwrap();
    let w = WeekSummary::for_week(&db, &habits, today, 1500);
    assert_eq!(w, WeekSummary { total_sessions: 5, total_seconds: 300, pomodoro_tenths: 2, max_streak: 4 });
    assert_eq!(w.label(), "📊 Week: 5 sessions, 5m, 0.2 pomodoros, 🔥 4 day streak");
    db.insert_session(free.id, ymd(2025, 1, 16), 2700, "x").unwrap();
    let w = WeekSummary::for_week(&db, &habits, today, 1500);
    assert_eq!(w, WeekSummary { total_sessions: 6, total_seconds: 3000, pomodoro_tenths: 20, max_streak: 4 });
    assert_eq!(w.label(), "📊 Week: 6 sessions, 50m, 2.0 pomodoros, 🔥 4 day streak");
    // Only the habits listed count.
    let only_free = vec![habits[1].clone()];
    let w = WeekSummary::for_week(&db, &only_free, today, 1500);
    assert_eq!((w.total_sessions, w.total_seconds, w.max_streak), (2, 2760, 0));
    // A half tenth rounds up: 75 s of a 1500 s pomodoro is 0.05.
    let mut small = Database::new();
    let a = small.add_habit("A", 1500, HabitMode::Timed, HabitType::Timer, None).unwrap();
    small.insert_session(a.id, today, 75, "x").unwrap();
    let w = WeekSummary::for_week(&small, &small.get_all_habits().unwrap(), today, 1500);
    assert_eq!(w.pomodoro_tenths, 1);
}

#[test]
fn week_dates_of_today() {
    let today = ymd(2025, 1, 15);
    let (dates, pos) = week_dates(today);
    assert_eq!(pos, 2);
    assert_eq!(dates[pos], today);
    assert_eq!(dates[0], ymd(2025, 1, 13));
    assert_eq!(dates[6], ymd(2025, 1, 19));
    let (dates, pos) = week_dates(ymd(2025, 1, 19));
    assert_eq!((pos, dates[0]), (6, ymd(2025, 1, 13)));
}

#[test]
fn dialogs_submit() {
    let mut st = AppState::new(Database::new());
    assert!(!submit_add(&mut st, "   ", 25, true));
    assert!(st.habits.is_empty());
    assert!(submit_add(&mut st, "Read", 25, true));
    let h = st.habits[0].clone();
    assert_eq!((h.timer_duration_seconds, h.mode), (1500, HabitMode::Timed));
    assert_eq!(duration_minutes(h.timer_duration_seconds), 25);
    assert_eq!(duration_minutes(61), 2);
    assert!(submit_edit(&mut st, &h, "Reading", 10, false));
    assert_eq!(st.habits[0].description, "Reading");
    assert_eq!(st.habits[0].mode, HabitMode::Stopwatch);
    let mut t = TimerState::new();
    t.start(&h, &mut Settings::default());
    confirm_delete(&mut st, &mut t, h.id);
    assert!(st.habits.is_empty());
    assert_eq!(t.active_habit_id, None);
}
