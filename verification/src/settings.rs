use vstd::prelude::*;

use crate::db::Habit;
use crate::text::{
    decimal, digit_char, i64_to_decimal, is_sign_or_digit, lemma_trimmed_whole, signed_decimal, trim_text, trimmed,
};

verus! {

/// The number that a run of decimal digits writes.
pub open spec fn digits_value(s: Seq<char>) -> int
    decreases s.len(),
{
    if s.len() == 0 {
        0
    } else {
        digits_value(s.drop_last()) * 10 + (s.last() as int - '0' as int)
    }
}

pub open spec fn all_digits(s: Seq<char>) -> bool {
    forall|i: int| 0 <= i < s.len() ==> '0' <= #[trigger] s[i] && s[i] <= '9'
}

/// What `i64::from_str` makes of a text: an optional `+` or `-`, then one or
/// more decimal digits, whose value must fit in an `i64`.
pub open spec fn parsed_i64(s: Seq<char>) -> Option<i64> {
    let negative = s.len() > 0 && s[0] == '-';
    let body = if s.len() > 0 && (s[0] == '-' || s[0] == '+') {
        s.drop_first()
    } else {
        s
    };
    let v: int = if negative {
        -digits_value(body)
    } else {
        digits_value(body)
    };
    if body.len() > 0 && all_digits(body) && i64::MIN <= v <= i64::MAX {
        Some(v as i64)
    } else {
        None
    }
}

/// Calls `str::parse::<i64>`, as its documentation states it: an optional
/// sign, then decimal digits, in range.
#[verifier::external_body]
fn parse_i64(s: &str) -> (r: Option<i64>)
    ensures
        r == parsed_i64(s@),
{
    s.parse::<i64>().ok()
}

/// The length of a pomodoro of work, in seconds, unless configured otherwise.
pub const DEFAULT_WORK_SECONDS: u32 = 1500;

/// The length of a break, in seconds, unless configured otherwise.
pub const DEFAULT_BREAK_SECONDS: u32 = 300;

/// The settings: the habit last timed, remembered between runs (-1 for
/// none), and the configured lengths of a pomodoro of work and of a break.
#[derive(Clone, Copy, Debug)]
pub struct Settings {
    last_active_habit_id: i64,
    work_duration_seconds: u32,
    break_duration_seconds: u32,
}

/// The mathematical value of `Settings`.
pub struct SettingsView {
    pub last_active_habit_id: i64,
    pub work_duration_seconds: u32,
    pub break_duration_seconds: u32,
}

impl View for Settings {
    type V = SettingsView;

    closed spec fn view(&self) -> SettingsView {
        SettingsView {
            last_active_habit_id: self.last_active_habit_id,
            work_duration_seconds: self.work_duration_seconds,
            break_duration_seconds: self.break_duration_seconds,
        }
    }
}

/// The id that a settings file's text gives: the trimmed text read as an
/// `i64`, or -1 where it is not one.
pub open spec fn id_from_text(contents: Seq<char>) -> i64 {
    match parsed_i64(trimmed(contents)) {
        Some(v) => v,
        None => -1i64,
    }
}

/// Settings with the default lengths and this remembered id.
pub open spec fn defaults_with(id: i64) -> SettingsView {
    SettingsView {
        last_active_habit_id: id,
        work_duration_seconds: DEFAULT_WORK_SECONDS,
        break_duration_seconds: DEFAULT_BREAK_SECONDS,
    }
}

impl Default for Settings {
    fn default() -> (s: Self)
        ensures
            s@ == defaults_with(-1i64),
    {
        Settings {
            last_active_habit_id: -1,
            work_duration_seconds: DEFAULT_WORK_SECONDS,
            break_duration_seconds: DEFAULT_BREAK_SECONDS,
        }
    }
}

impl Settings {
    /// Both lengths are at least a second.
    pub open spec fn wf(&self) -> bool {
        self@.work_duration_seconds > 0 && self@.break_duration_seconds > 0
    }

    /// The remembered habit id, -1 for none.
    pub fn last_active_habit_id(&self) -> (id: i64)
        ensures
            id == self@.last_active_habit_id,
    {
        self.last_active_habit_id
    }

    /// The length of a pomodoro of work, in seconds.
    pub fn work_duration_seconds(&self) -> (n: u32)
        ensures
            n == self@.work_duration_seconds,
    {
        self.work_duration_seconds
    }

    /// The length of a break, in seconds.
    pub fn break_duration_seconds(&self) -> (n: u32)
        ensures
            n == self@.break_duration_seconds,
    {
        self.break_duration_seconds
    }

    /// Configures the lengths of a pomodoro of work and of a break; a length
    /// of zero is refused, and the settings are left as they were.
    pub fn set_durations(&mut self, work_seconds: u32, break_seconds: u32) -> (ok: bool)
        ensures
            ok == (work_seconds > 0 && break_seconds > 0),
            final(self)@ == (if ok {
                SettingsView {
                    last_active_habit_id: old(self)@.last_active_habit_id,
                    work_duration_seconds: work_seconds,
                    break_duration_seconds: break_seconds,
                }
            } else {
                old(self)@
            }),
    {
        if work_seconds == 0 || break_seconds == 0 {
            return false;
        }
        self.work_duration_seconds = work_seconds;
        self.break_duration_seconds = break_seconds;
        true
    }

    /// The settings that a parsed settings file gives: its id, or -1 where it
    /// held none, with the default lengths.
    pub fn from_parsed(parsed: Option<i64>) -> (s: Settings)
        ensures
            s@ == defaults_with(
                match parsed {
                    Some(v) => v,
                    None => -1i64,
                },
            ),
            s.wf(),
    {
        let id: i64 = match parsed {
            Some(v) => v,
            None => -1,
        };
        Settings {
            last_active_habit_id: id,
            work_duration_seconds: DEFAULT_WORK_SECONDS,
            break_duration_seconds: DEFAULT_BREAK_SECONDS,
        }
    }

    /// The settings that the text of a settings file gives.
    /// A text that `save_active_habit` wrote gives back what it remembered:
    /// the habit's id, or -1 for the empty text written for none.
    pub fn from_contents(contents: &str) -> (s: Settings)
        ensures
            s@ == defaults_with(id_from_text(contents@)),
            s.wf(),
            forall|id: i64| #[trigger] signed_decimal(id as int) == contents@ ==> s@.last_active_habit_id == id,
            contents@.len() == 0 ==> s@.last_active_habit_id == -1,
    {
        let t = trim_text(contents);
        let s = Self::from_parsed(parse_i64(t));
        assert forall|id: i64| #[trigger] signed_decimal(id as int) == contents@ implies s@.last_active_habit_id
            == id by {
            law_decimal_parses_back(id);
            lemma_trimmed_whole(contents@);
        }
        s
    }

    /// Remembers `habit` as the active one, or none; returns the text for
    /// the settings file: the habit's id in decimal, or nothing.
    pub fn save_active_habit(&mut self, habit: Option<Habit>) -> (contents: String)
        ensures
            final(self)@ == (SettingsView {
                last_active_habit_id: match habit {
                    Some(h) => h.id,
                    None => -1i64,
                },
                ..old(self)@
            }),
            contents@ == match habit {
                Some(h) => signed_decimal(h.id as int),
                None => Seq::<char>::empty(),
            },
    {
        match habit {
            Some(h) => {
                self.last_active_habit_id = h.id;
                i64_to_decimal(h.id)
            },
            None => {
                self.last_active_habit_id = -1;
                String::new()
            },
        }
    }
}

pub proof fn lemma_digit_char(d: int)
    requires
        0 <= d < 10,
    ensures
        digit_char(d) as int - '0' as int == d,
        '0' <= digit_char(d) && digit_char(d) <= '9',
{
}

pub proof fn lemma_decimal_digits(n: nat)
    ensures
        decimal(n).len() > 0,
        all_digits(decimal(n)),
        digits_value(decimal(n)) == n,
    decreases n,
{
    if n >= 10 {
        lemma_decimal_digits(n / 10);
        lemma_digit_char((n % 10) as int);
        let d = decimal(n);
        assert(d.drop_last() == decimal(n / 10));
        assert(d.last() == digit_char((n % 10) as int));
        assert(digits_value(d) == digits_value(decimal(n / 10)) * 10 + (n % 10));
        assert(n == (n / 10) * 10 + n % 10);
        assert(digits_value(d) == n);
        assert forall|i: int| 0 <= i < d.len() implies '0' <= #[trigger] d[i] && d[i] <= '9' by {
            if i < d.len() - 1 {
                assert(d[i] == decimal(n / 10)[i]);
            }
        }
    } else {
        lemma_digit_char(n as int);
        let d = decimal(n);
        assert(d.drop_last() =~= Seq::<char>::empty());
        assert(d.last() == digit_char(n as int));
        assert(digits_value(d) == digits_value(d.drop_last()) * 10 + (d.last() as int - '0' as int));
        assert(digits_value(d) == n);
    }
}

/// The decimal writing of an `i64` reads back as that number, and begins and
/// ends with a sign or a digit.
pub proof fn law_decimal_parses_back(id: i64)
    ensures
        parsed_i64(signed_decimal(id as int)) == Some(id),
        signed_decimal(id as int).len() > 0,
        is_sign_or_digit(signed_decimal(id as int)[0]),
        is_sign_or_digit(signed_decimal(id as int).last()),
{
    let m: nat = if id < 0 { (-id) as nat } else { id as nat };
    lemma_decimal_digits(m);
    let s = signed_decimal(id as int);
    let d = decimal(m);
    assert(d[0] == d[0]);
    assert(d.last() == d[d.len() - 1]);
    if id < 0 {
        assert(s == seq!['-'] + d);
        assert(s.drop_first() =~= d);
        assert(s[s.len() - 1] == d[d.len() - 1]);
    } else {
        assert(s == d);
        assert(s[0] == d[0]);
        assert(s[0] != '-' && s[0] != '+');
    }
}

} // verus!
