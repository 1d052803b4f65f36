# pomotasker

A habit and pomodoro tracker: habits shown in a narrow vertical window, each
with the seven circles of the current week, a countdown or stopwatch timer,
streaks and a week summary, kept in an SQLite file.

## Layout

- `src/` is the library, verified with Verus:
  - `db.rs`: the habit store (habits in display order, sessions in recording
    order) with its invariant and the mathematical state each operation
    produces;
  - `laws.rs`: properties across operations (read after write, deletion,
    moving and moving back, clearing and toggling a day, streaks);
  - `service.rs`: the application state over the store and the circle labels;
  - `habit_row.rs`, `popover_menu.rs`, `dialogs.rs`, `timer_banner.rs`,
    `week_summary.rs`, `clock.rs`: what the window's rows, menus, dialogs,
    timer, week line and clock decide and show;
  - `settings.rs`: the remembered active habit and its file text, and the
    lengths of a pomodoro and a break;
  - `date.rs`, `text.rs`: day numbers, weekdays, decimal writing.
- `app/` is the GTK program: the window, the SQLite file (`store.rs`), the
  settings file, and the floating-point displays.
- `tests/` runs the library on concrete values.
