//! Readings of the local clock as the tool prints them: the timestamp of a
//! log line and the one in a snapshot's name.

use vstd::prelude::*;
use crate::text::{push_str, push_zero_padded, zero_padded};
use crate::year_end::{iso_date_text, CalendarDate};

verus! {

/// A reading of the local clock.
#[derive(Debug, Clone, Copy, PartialEq, Eq, Structural)]
pub struct LocalTime {
    pub date: CalendarDate,
    pub hour: u32,
    pub minute: u32,
    pub second: u32,
}

/// Hour, minute and second with two digits each, joined by `sep`.
pub open spec fn clock_text(t: LocalTime, sep: Seq<char>) -> Seq<char> {
    zero_padded(t.hour as nat, 2) + sep + zero_padded(t.minute as nat, 2) + sep + zero_padded(t.second as nat, 2)
}

fn push_clock(s: &mut String, t: &LocalTime, sep: &str)
    ensures
        final(s)@ == old(s)@ + clock_text(*t, sep@),
{
    push_zero_padded(s, t.hour as u64, 2);
    push_str(s, sep);
    push_zero_padded(s, t.minute as u64, 2);
    push_str(s, sep);
    push_zero_padded(s, t.second as u64, 2);
}

/// `%Y-%m-%d %H:%M:%S`: the timestamp of a log line.
pub fn log_timestamp(t: &LocalTime) -> (r: String)
    ensures
        r@ == iso_date_text(t.date) + " "@ + clock_text(*t, ":"@),
{
    let mut r = t.date.iso_string();
    push_str(&mut r, " ");
    push_clock(&mut r, t, ":");
    r
}

/// `%Y-%m-%d_%H%M%S`: the timestamp in a snapshot's name.
pub fn snapshot_stamp(t: &LocalTime) -> (r: String)
    ensures
        r@ == iso_date_text(t.date) + "_"@ + clock_text(*t, ""@),
{
    let mut r = t.date.iso_string();
    push_str(&mut r, "_");
    push_clock(&mut r, t, "");
    r
}

} // verus!
