//! Habit and pomodoro tracking: the habit store with its sessions, the week
//! and streak figures drawn from it, the timer's decisions and the settings
//! that remember the active habit.

pub mod clock;
pub mod date;
pub mod dialogs;
pub mod db;
pub mod habit_row;
pub mod laws;
pub mod popover_menu;
pub mod service;
pub mod settings;
pub mod timer_banner;
pub mod week_summary;
pub mod text;

pub use date::NaiveDate;
