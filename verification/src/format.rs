//! Human-readable sizes and times shown in the user interface.

use vstd::prelude::*;
use crate::text::{dec, decimal_string, digit_char, push_char, push_decimal};

verus! {

/// `1024^i`.
pub open spec fn pow1024(i: nat) -> nat
    decreases i,
{
    if i == 0 {
        1
    } else {
        1024 * pow1024((i - 1) as nat)
    }
}

/// The unit a size is shown in: the largest of B, KB, MB, GB, TB (index 0
/// to 4) whose size does not exceed the number of bytes.
pub open spec fn unit_index(bytes: nat) -> nat {
    if bytes >= pow1024(4) {
        4
    } else if bytes >= pow1024(3) {
        3
    } else if bytes >= pow1024(2) {
        2
    } else if bytes >= pow1024(1) {
        1
    } else {
        0
    }
}

/// The name of unit `i`.
pub open spec fn unit_name(i: nat) -> Seq<char> {
    if i == 0 {
        "B"@
    } else if i == 1 {
        "KB"@
    } else if i == 2 {
        "MB"@
    } else if i == 3 {
        "GB"@
    } else {
        "TB"@
    }
}

/// `bytes / unit` in tenths, rounded to the nearest tenth with ties going to
/// the even tenth.
pub open spec fn rounded_tenths(bytes: nat, unit: nat) -> nat
    recommends
        unit > 0,
{
    let q = (bytes * 10) / unit;
    let r = (bytes * 10) % unit;
    if 2 * r > unit {
        q + 1
    } else if 2 * r == unit && q % 2 == 1 {
        q + 1
    } else {
        q
    }
}

/// The size text: `"0 B"` for zero, otherwise the amount in its unit with
/// one decimal, a space and the unit.
pub open spec fn file_size_text(bytes: nat) -> Seq<char> {
    if bytes == 0 {
        "0 B"@
    } else {
        let i = unit_index(bytes);
        let t = rounded_tenths(bytes, pow1024(i));
        dec(t / 10) + seq!['.', digit_char((t % 10) as int), ' '] + unit_name(i)
    }
}

proof fn lemma_pow1024_values()
    ensures
        pow1024(0) == 1,
        pow1024(1) == 1024,
        pow1024(2) == 1048576,
        pow1024(3) == 1073741824,
        pow1024(4) == 1099511627776,
{
    reveal_with_fuel(pow1024, 5);
}

/// A byte count in the largest fitting unit, e.g. `1536` is `"1.5 KB"`.
pub fn format_file_size(bytes: u64) -> (s: String)
    ensures
        s@ == file_size_text(bytes as nat),
{
    if bytes == 0 {
        return String::from_str("0 B");
    }
    proof {
        lemma_pow1024_values();
    }
    let (i, unit): (u64, u64) = if bytes >= 1099511627776 {
        (4, 1099511627776)
    } else if bytes >= 1073741824 {
        (3, 1073741824)
    } else if bytes >= 1048576 {
        (2, 1048576)
    } else if bytes >= 1024 {
        (1, 1024)
    } else {
        (0, 1)
    };
    assert(i == unit_index(bytes as nat) && unit == pow1024(i as nat));
    let n: u128 = bytes as u128 * 10;
    let q: u128 = n / unit as u128;
    let r: u128 = n % unit as u128;
    let t: u128 = if 2 * r > unit as u128 {
        q + 1
    } else if 2 * r == unit as u128 && q % 2 == 1 {
        q + 1
    } else {
        q
    };
    assert(t == rounded_tenths(bytes as nat, unit as nat));
    assert(t / 10 <= u64::MAX) by (nonlinear_arith)
        requires
            q == (bytes * 10) / (unit as int),
            r == (bytes * 10) % (unit as int),
            t <= q + 1,
            unit == 1 ==> r == 0 && t == q,
            unit >= 1,
            unit == 1 || unit >= 1024,
            bytes <= u64::MAX,
    ;
    let whole = (t / 10) as u64;
    let tenth = (t % 10) as u64;
    let mut s = decimal_string(whole);
    s.append(".");
    let c = crate::text::digit_to_char(tenth);
    push_char(&mut s, c);
    s.append(" ");
    let name = if i == 0 {
        "B"
    } else if i == 1 {
        "KB"
    } else if i == 2 {
        "MB"
    } else if i == 3 {
        "GB"
    } else {
        "TB"
    };
    s.append(name);
    proof {
        reveal_strlit(".");
        reveal_strlit(" ");
        assert(s@ =~= file_size_text(bytes as nat));
    }
    s
}

/// How a moment `ts` (milliseconds since the epoch) is described at `now`:
/// relative within a week ("Just now", "5m ago", "3h ago", "2d ago"), and
/// as a rough month/day/two-digit-year date (months of 30 days, years of
/// 365 days) beyond that. A moment in the future counts as now.
pub open spec fn timestamp_text(ts: nat, now: nat) -> Seq<char> {
    let diff: nat = (if now >= ts {
        (now - ts) as nat
    } else {
        0nat
    }) / 1000;
    if diff < 60 {
        "Just now"@
    } else if diff < 3600 {
        dec(diff / 60) + "m ago"@
    } else if diff < 86400 {
        dec(diff / 3600) + "h ago"@
    } else if diff < 604800 {
        dec(diff / 86400) + "d ago"@
    } else {
        let days = ts / 1000 / 86400;
        let years = 1970 + days / 365;
        let remaining = days % 365;
        dec(remaining / 30 + 1) + "/"@ + dec(remaining % 30 + 1) + "/"@ + dec(years % 100)
    }
}

/// Within a week a moment is described relative to now, by whole elapsed
/// seconds `d` (a moment in the future counting as zero): under a minute
/// it is "Just now", under an hour whole minutes ("5m ago"), under a day
/// whole hours ("5h ago"), under a week whole days ("2d ago").
pub proof fn lemma_relative_time_bands(ts: nat, now: nat)
    ensures
        ({
            let d: int = (if now >= ts { now - ts } else { 0int }) / 1000;
            let t = timestamp_text(ts, now);
            &&& d < 60 ==> t == "Just now"@
            &&& 60 <= d < 3600 ==> t == dec((d / 60) as nat) + "m ago"@
            &&& 3600 <= d < 86400 ==> t == dec((d / 3600) as nat) + "h ago"@
            &&& 86400 <= d < 604800 ==> t == dec((d / 86400) as nat) + "d ago"@
        }),
{
}

/// Describes the moment `ts` as seen at `now` (both milliseconds since the
/// epoch).
pub fn format_timestamp(ts: u64, now: u64) -> (s: String)
    ensures
        s@ == timestamp_text(ts as nat, now as nat),
        ({
            let d: int = (if now >= ts { now - ts } else { 0int }) / 1000;
            &&& d < 60 ==> s@ == "Just now"@
            &&& 60 <= d < 3600 ==> s@ == dec((d / 60) as nat) + "m ago"@
            &&& 3600 <= d < 86400 ==> s@ == dec((d / 3600) as nat) + "h ago"@
            &&& 86400 <= d < 604800 ==> s@ == dec((d / 86400) as nat) + "d ago"@
        }),
{
    let diff = now.saturating_sub(ts) / 1000;
    if diff < 60 {
        String::from_str("Just now")
    } else if diff < 3600 {
        let mut s = decimal_string(diff / 60);
        s.append("m ago");
        s
    } else if diff < 86400 {
        let mut s = decimal_string(diff / 3600);
        s.append("h ago");
        s
    } else if diff < 604800 {
        let mut s = decimal_string(diff / 86400);
        s.append("d ago");
        s
    } else {
        let days = ts / 1000 / 86400;
        let years = 1970 + days / 365;
        let remaining = days % 365;
        let mut s = decimal_string(remaining / 30 + 1);
        s.append("/");
        push_decimal(&mut s, remaining % 30 + 1);
        s.append("/");
        push_decimal(&mut s, years % 100);
        s
    }
}

} // verus!
