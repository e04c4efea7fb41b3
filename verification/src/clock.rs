//! Readings of the local clock.

use crate::text::{push_two_digits, two_digit_text};
use chrono::{Datelike, Local, Timelike};
use vstd::prelude::*;
use vstd::string::*;

verus! {

/// A reading of the local clock, as calendar fields.
#[derive(Clone, Copy, Debug, PartialEq, Eq, Structural)]
pub struct Timestamp {
    pub year: i32,
    pub month: u32,
    pub day: u32,
    pub hour: u32,
    pub minute: u32,
    pub second: u32,
    pub nanosecond: u32,
}

/// The time of day of a reading as `HH:MM:SS`: of each field its last two
/// decimal digits.
pub open spec fn time_of_day_text(t: Timestamp) -> Seq<char> {
    two_digit_text(t.hour as nat) + seq![':'] + two_digit_text(t.minute as nat) + seq![':']
        + two_digit_text(t.second as nat)
}

impl Timestamp {
    /// Writes the time of day of the reading as `HH:MM:SS`.
    pub fn time_of_day(&self) -> (text: String)
        ensures
            text@ == time_of_day_text(*self),
            text@.len() == 8,
    {
        proof {
            reveal_strlit(":");
        }
        let mut text = String::new();
        push_two_digits(&mut text, self.hour);
        text.append(":");
        push_two_digits(&mut text, self.minute);
        text.append(":");
        push_two_digits(&mut text, self.second);
        assert(text@ =~= time_of_day_text(*self));
        text
    }
}

/// Reads the local clock with `chrono::Local::now` and takes the calendar
/// fields of the reading. Not verified; nothing is claimed of the reading.
#[verifier::external_body]
pub(crate) fn local_now() -> (now: Timestamp) {
    let now = Local::now();
    Timestamp {
        year: now.year(),
        month: now.month(),
        day: now.day(),
        hour: now.hour(),
        minute: now.minute(),
        second: now.second(),
        nanosecond: now.nanosecond(),
    }
}

} // verus!
