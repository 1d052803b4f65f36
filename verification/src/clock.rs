use vstd::prelude::*;

use crate::text::{push_two_digit, two_digit};

verus! {

/// The stopwatch reading of `elapsed` seconds: `HH:MM:SS` from an hour on,
/// `MM:SS` below, each part at least two digits.
pub open spec fn stopwatch_reading(elapsed: nat) -> Seq<char> {
    let hrs: nat = elapsed / 3600;
    let mins: nat = (elapsed % 3600) / 60;
    let secs: nat = elapsed % 60;
    if hrs > 0 {
        two_digit(hrs) + ":"@ + two_digit(mins) + ":"@ + two_digit(secs)
    } else {
        two_digit(mins) + ":"@ + two_digit(secs)
    }
}

/// The text at the centre of the clock in stopwatch mode.
pub fn stopwatch_text(elapsed: u32) -> (s: String)
    ensures
        s@ == stopwatch_reading(elapsed as nat),
{
    let hrs: u32 = elapsed / 3600;
    let mins: u32 = (elapsed % 3600) / 60;
    let secs: u32 = elapsed % 60;
    let mut s = String::new();
    if hrs > 0 {
        push_two_digit(&mut s, hrs as u64);
        s.append(":");
    }
    push_two_digit(&mut s, mins as u64);
    s.append(":");
    push_two_digit(&mut s, secs as u64);
    assert(s@ =~= stopwatch_reading(elapsed as nat));
    s
}

} // verus!
