//! How an elapsed time is shown to the user.

use vstd::prelude::*;
use crate::text::{decimal, digit, digit_char, push_decimal};

verus! {

/// Number of nanoseconds in one millisecond.
pub const NANOS_PER_MILLI: u32 = 1_000_000;

/// Number of nanoseconds in one hundredth of a second.
pub const NANOS_PER_CENTI: u32 = 10_000_000;

/// Number of nanoseconds in one second.
pub const NANOS_PER_SEC: u32 = 1_000_000_000;

/// The elapsed time in hundredths of a second, rounded half up.
pub open spec fn centis(secs: nat, subsec_nanos: nat) -> nat {
    secs * 100 + (subsec_nanos + 5_000_000) / 10_000_000
}

/// Under one second: whole milliseconds followed by `ms`.
/// Otherwise: seconds with two decimals followed by `s`.
pub open spec fn time_text(secs: nat, subsec_nanos: nat) -> Seq<char> {
    if secs == 0 {
        decimal(subsec_nanos / NANOS_PER_MILLI as nat) + seq!['m', 's']
    } else {
        let c = centis(secs, subsec_nanos);
        decimal(c / 100) + seq!['.', digit_char((c % 100) / 10), digit_char(c % 10), 's']
    }
}

/// Formats a duration given as whole seconds plus the nanoseconds of the last,
/// unfinished second.
pub fn get_time(secs: u64, subsec_nanos: u32) -> (r: String)
    requires
        subsec_nanos < NANOS_PER_SEC,
    ensures
        r@ == time_text(secs as nat, subsec_nanos as nat),
{
    let mut r = String::new();
    if secs == 0 {
        push_decimal(&mut r, (subsec_nanos / NANOS_PER_MILLI) as u128);
        r.push('m');
        r.push('s');
    } else {
        let c: u128 = secs as u128 * 100 + ((subsec_nanos + NANOS_PER_CENTI / 2) / NANOS_PER_CENTI) as u128;
        push_decimal(&mut r, c / 100);
        r.push('.');
        r.push(digit(((c % 100) / 10) as u8));
        r.push(digit((c % 10) as u8));
        r.push('s');
    }
    assert(r@ =~= time_text(secs as nat, subsec_nanos as nat));
    r
}

} // verus!
