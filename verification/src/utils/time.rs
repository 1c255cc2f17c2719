//! The time of day from a count of seconds.

use crate::utils::decimal::{append_decimal, decimal};
use vstd::prelude::*;
use vstd::string::StringExecFns;

verus! {

/// The hour of the day, the minute of the hour and the second of the
/// minute at `total_time` seconds.
pub open spec fn clock(total_time: nat) -> (nat, nat, nat) {
    ((total_time / 3600) % 24, (total_time / 60) % 60, total_time % 60)
}

/// The time of day as hours, minutes and seconds in decimal, with colons
/// between them and no padding.
pub open spec fn clock_text(total_time: nat) -> Seq<char> {
    let (hours, mins, secs) = clock(total_time);
    decimal(hours) + seq![':'] + decimal(mins) + seq![':'] + decimal(secs)
}

/// Writes the time of day at `total_time` seconds since the start of a
/// day, such as the seconds since the epoch.
pub fn get_time(total_time: u64) -> (text: String)
    ensures
        text@ == clock_text(total_time as nat),
{
    let mins_tot: u64 = total_time / 60;
    let hours_tot: u64 = mins_tot / 60;
    let secs: u64 = total_time - mins_tot * 60;
    let mins: u64 = mins_tot - hours_tot * 60;
    let hours: u64 = hours_tot - (hours_tot / 24) * 24;
    assert(hours == (total_time as nat / 3600) % 24 && mins == (total_time as nat / 60) % 60
        && secs == total_time as nat % 60) by (nonlinear_arith)
        requires
            mins_tot == total_time / 60,
            hours_tot == mins_tot / 60,
            secs == total_time - mins_tot * 60,
            mins == mins_tot - hours_tot * 60,
            hours == hours_tot - (hours_tot / 24) * 24,
    ;
    proof {
        reveal_strlit(":");
    }
    let mut text = String::new();
    append_decimal(&mut text, hours);
    text.append(":");
    append_decimal(&mut text, mins);
    text.append(":");
    append_decimal(&mut text, secs);
    assert(text@ =~= clock_text(total_time as nat));
    text
}

} // verus!
