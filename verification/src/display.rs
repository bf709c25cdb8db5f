//! How the operator tools show durations and lists.

use vstd::prelude::*;
use crate::text::{append_chars, decimal, join_strings, joined, push_decimal, string_of, strs};

verus! {

/// A duration in its two largest units: days and hours, hours and minutes,
/// minutes, or seconds. A second unit of zero is left out.
pub open spec fn duration_text(secs: u64) -> Seq<char> {
    if secs >= 86400 {
        if (secs % 86400) / 3600 > 0 {
            decimal((secs / 86400) as nat) + "d "@ + decimal(((secs % 86400) / 3600) as nat) + "h"@
        } else {
            decimal((secs / 86400) as nat) + "d"@
        }
    } else if secs >= 3600 {
        if (secs % 3600) / 60 > 0 {
            decimal((secs / 3600) as nat) + "h "@ + decimal(((secs % 3600) / 60) as nat) + "m"@
        } else {
            decimal((secs / 3600) as nat) + "h"@
        }
    } else if secs >= 60 {
        decimal((secs / 60) as nat) + "m"@
    } else {
        decimal(secs as nat) + "s"@
    }
}

fn one_unit(n: u64, unit: &str) -> (out: String)
    ensures
        out@ == decimal(n as nat) + unit@,
{
    let mut buf: Vec<char> = Vec::new();
    push_decimal(&mut buf, n);
    append_chars(&mut buf, unit);
    assert(buf@ =~= decimal(n as nat) + unit@);
    string_of(&buf)
}

fn two_units(a: u64, first: &str, b: u64, second: &str) -> (out: String)
    ensures
        out@ == decimal(a as nat) + first@ + decimal(b as nat) + second@,
{
    let mut buf: Vec<char> = Vec::new();
    push_decimal(&mut buf, a);
    append_chars(&mut buf, first);
    push_decimal(&mut buf, b);
    append_chars(&mut buf, second);
    assert(buf@ =~= decimal(a as nat) + first@ + decimal(b as nat) + second@);
    string_of(&buf)
}

/// A duration for people to read, such as `2d 3h`, `1h 5m`, `7m` or `42s`.
pub fn humanize_duration(secs: u64) -> (out: String)
    ensures
        out@ == duration_text(secs),
{
    if secs >= 86400 {
        let days = secs / 86400;
        let hours = (secs % 86400) / 3600;
        if hours > 0 {
            two_units(days, "d ", hours, "h")
        } else {
            one_unit(days, "d")
        }
    } else if secs >= 3600 {
        let hours = secs / 3600;
        let mins = (secs % 3600) / 60;
        if mins > 0 {
            two_units(hours, "h ", mins, "m")
        } else {
            one_unit(hours, "h")
        }
    } else if secs >= 60 {
        one_unit(secs / 60, "m")
    } else {
        one_unit(secs, "s")
    }
}

/// A list for people to read: the items with `, ` between them, or `(none)`.
pub fn format_list(items: &Vec<String>) -> (out: String)
    ensures
        out@ == (if items@.len() == 0 { "(none)"@ } else { joined(strs(items@), ", "@) }),
{
    if items.len() == 0 {
        "(none)".to_string()
    } else {
        join_strings(items, ", ")
    }
}

} // verus!
