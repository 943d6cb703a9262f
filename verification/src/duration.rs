//! Human-readable durations for the usage list.
use vstd::prelude::*;
use crate::text::{decimal, decimal_pad2, push_char, push_decimal, push_decimal_pad2};

verus! {

/// How `secs` seconds are shown: `"1h 05m"`, `"7m"`, `"0m"`, or with
/// seconds `"1h 05m 09s"`, `"7m 03s"`, `"12s"`.
pub open spec fn spec_fmt_duration(secs: nat, show_seconds: bool) -> Seq<char> {
    let h = secs / 3600;
    let m = (secs % 3600) / 60;
    let s = secs % 60;
    if h > 0 {
        if show_seconds {
            decimal(h) + seq!['h', ' '] + decimal_pad2(m) + seq!['m', ' '] + decimal_pad2(s) + seq!['s']
        } else {
            decimal(h) + seq!['h', ' '] + decimal_pad2(m) + seq!['m']
        }
    } else if m > 0 {
        if show_seconds {
            decimal(m) + seq!['m', ' '] + decimal_pad2(s) + seq!['s']
        } else {
            decimal(m) + seq!['m']
        }
    } else if show_seconds {
        decimal(s) + seq!['s']
    } else {
        seq!['0', 'm']
    }
}

/// Formats a duration given in seconds.
pub fn fmt_duration(secs: u64, show_seconds: bool) -> (r: String)
    ensures
        r@ == spec_fmt_duration(secs as nat, show_seconds),
{
    let h = secs / 3600;
    let m = (secs % 3600) / 60;
    let s = secs % 60;
    let mut out = String::new();
    if h > 0 {
        push_decimal(&mut out, h);
        push_char(&mut out, 'h');
        push_char(&mut out, ' ');
        push_decimal_pad2(&mut out, m);
        push_char(&mut out, 'm');
        if show_seconds {
            push_char(&mut out, ' ');
            push_decimal_pad2(&mut out, s);
            push_char(&mut out, 's');
        }
    } else if m > 0 {
        push_decimal(&mut out, m);
        push_char(&mut out, 'm');
        if show_seconds {
            push_char(&mut out, ' ');
            push_decimal_pad2(&mut out, s);
            push_char(&mut out, 's');
        }
    } else if show_seconds {
        push_decimal(&mut out, s);
        push_char(&mut out, 's');
    } else {
        push_char(&mut out, '0');
        push_char(&mut out, 'm');
    }
    assert(out@ =~= spec_fmt_duration(secs as nat, show_seconds));
    out
}

} // verus!
