use vstd::prelude::*;

verus! {

/// A calendar date without a time zone, held as its day number in the
/// proleptic Gregorian calendar: 1 January of year 1 is day 1, the day before
/// it is day 0, and so on (the numbering of chrono's `num_days_from_ce`).
#[derive(Clone, Copy, Debug, PartialEq, Eq, Structural)]
pub struct NaiveDate {
    pub days: i32,
}

/// The weekday of a day number, counted from Monday as 1 to Sunday as 7.
/// Day 1 (1 January of year 1) is a Monday.
pub open spec fn weekday_number(days: int) -> int {
    (days + 6) % 7 + 1
}

impl NaiveDate {
    /// The date with the given day number.
    pub fn from_num_days_from_ce(days: i32) -> (d: NaiveDate)
        ensures
            d.days == days,
    {
        NaiveDate { days }
    }

    /// The day number of this date.
    pub fn num_days_from_ce(&self) -> (n: i32)
        ensures
            n == self.days,
    {
        self.days
    }

    /// The weekday, Monday being 1 and Sunday 7.
    pub fn weekday_from_monday(&self) -> (w: u32)
        ensures
            w as int == weekday_number(self.days as int),
            1 <= w <= 7,
    {
        let shifted: i64 = self.days as i64 + 6;
        let r: i64 = shifted % 7;
        let r: i64 = if r < 0 { r + 7 } else { r };
        assert(r == (self.days as int + 6) % 7) by {
            assert(shifted == self.days as int + 6);
        }
        (r + 1) as u32
    }

    /// The date `n` days earlier, or `None` where its day number does not
    /// fit in an `i32`.
    pub fn checked_sub_days(&self, n: u32) -> (d: Option<NaiveDate>)
        ensures
            self.days - n >= i32::MIN ==> d == Some(NaiveDate { days: (self.days - n) as i32 }),
            self.days - n < i32::MIN ==> d is None,
    {
        let v: i64 = self.days as i64 - n as i64;
        if v < i32::MIN as i64 {
            None
        } else {
            Some(NaiveDate { days: v as i32 })
        }
    }

    /// The date `n` days later, or `None` where its day number does not fit
    /// in an `i32`.
    pub fn checked_add_days(&self, n: u32) -> (d: Option<NaiveDate>)
        ensures
            self.days + n <= i32::MAX ==> d == Some(NaiveDate { days: (self.days + n) as i32 }),
            self.days + n > i32::MAX ==> d is None,
    {
        let v: i64 = self.days as i64 + n as i64;
        if v > i32::MAX as i64 {
            None
        } else {
            Some(NaiveDate { days: v as i32 })
        }
    }
}

/// Today's date in the local time zone, from `chrono::Local::now()`.
/// Nothing is stated of it: it is whatever the clock and the time zone give.
#[verifier::external_body]
pub(crate) fn local_today() -> (today: NaiveDate) {
    NaiveDate { days: chrono::Datelike::num_days_from_ce(&chrono::Local::now().date_naive()) }
}

/// The current UTC time written as `YYYY-MM-DD HH:MM:SS`, from
/// `chrono::Utc::now()` and its `format`. Nothing is stated of it: it is
/// whatever the clock gives.
#[verifier::external_body]
pub(crate) fn utc_now_text() -> (text: String) {
    chrono::Utc::now().format("%Y-%m-%d %H:%M:%S").to_string()
}

} // verus!
