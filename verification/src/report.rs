//! Text shown in benchmark reports: byte sizes with binary units, and the
//! report timestamp.
//!
//! A size of `b` bytes at or above 1 KiB is shown as `b / unit` with one
//! fractional digit, as `{:.1}` writes the `f64` quotient: the integer is
//! first converted to the nearest `f64` (ties to an even mantissa, which
//! changes nothing below 2^53), the division by a power of two is exact,
//! and the quotient is rounded to tenths, ties to an even last digit.

use vstd::prelude::*;
use crate::text::{decimal, one_decimal, push_decimal, push_decimal_padded, push_one_decimal, zero_pad};

verus! {

/// Output format of a benchmark report.
#[derive(Debug, Clone, Copy, PartialEq, Eq, Structural)]
pub enum ReportFormat {
    /// Plain text tables.
    Text,
    /// JSON format.
    Json,
    /// Markdown format.
    Markdown,
    /// CSV format.
    Csv,
}

/// Bytes in a KiB, MiB and GiB.
pub const KB: u64 = 1024;
pub const MB: u64 = 1048576;
pub const GB: u64 = 1073741824;

/// The largest integer every smaller one of which an `f64` holds exactly.
pub const F64_EXACT: u64 = 9007199254740992;

/// `2^n`.
pub open spec fn two_to(n: nat) -> nat
    decreases n,
{
    if n == 0 {
        1
    } else {
        2 * two_to((n - 1) as nat)
    }
}

/// `x / u` rounded to the nearest integer, ties to the even one.
pub open spec fn div_round_even(x: nat, u: nat) -> nat {
    let q = x / u;
    let r = x % u;
    if r * 2 > u || (r * 2 == u && q % 2 == 1) {
        q + 1
    } else {
        q
    }
}

/// The number of low bits an `f64` drops from `b`: the least `n` with
/// `b / 2^n < 2^53` (at most 11 for a 64-bit integer).
pub open spec fn f64_shift(b: nat, n: nat) -> nat
    decreases 11 - n,
{
    if n >= 11 || b / two_to(n) < F64_EXACT {
        n
    } else {
        f64_shift(b, n + 1)
    }
}

/// The value of `b as f64`: `b` rounded to the nearest multiple of the
/// spacing of `f64` values around it, ties to an even multiple.
pub open spec fn f64_value(b: nat) -> nat {
    let u = two_to(f64_shift(b, 0));
    div_round_even(b, u) * u
}

/// `b` bytes in a unit, rounded to tenths as `{:.1}` rounds the `f64`
/// quotient.
pub open spec fn size_tenths(b: nat, unit: nat) -> nat {
    div_round_even(f64_value(b) * 10, unit)
}

/// The text of a byte size: "1.5 GB", "12.0 MB", "1.0 KB" or "512 B".
pub open spec fn size_text(b: nat) -> Seq<char> {
    if b >= GB {
        one_decimal(size_tenths(b, GB as nat)) + " GB"@
    } else if b >= MB {
        one_decimal(size_tenths(b, MB as nat)) + " MB"@
    } else if b >= KB {
        one_decimal(size_tenths(b, KB as nat)) + " KB"@
    } else {
        decimal(b) + " B"@
    }
}

proof fn lemma_two_to_pos(n: nat)
    ensures
        two_to(n) >= 1,
    decreases n,
{
    if n > 0 {
        lemma_two_to_pos((n - 1) as nat);
    }
}

proof fn lemma_two_to_bound(n: nat)
    requires
        n <= 11,
    ensures
        two_to(n) <= 2048,
    decreases 11 - n,
{
    if n < 11 {
        lemma_two_to_bound(n + 1);
    } else {
        reveal_with_fuel(two_to, 12);
    }
}

/// `x / u` rounded to the nearest integer, ties to the even one.
fn div_round_even_exec(x: u128, u: u128) -> (r: u128)
    requires
        1 <= u <= 1073741824,
        x < 0x1_0000_0000_0000_0000_0000,
    ensures
        r == div_round_even(x as nat, u as nat),
{
    let q = x / u;
    let r = x % u;
    assert(q <= x) by (nonlinear_arith)
        requires
            q == x / u,
            u >= 1,
    {
        vstd::arithmetic::div_mod::lemma_div_is_ordered_by_denominator(x as int, 1, u as int);
    }
    if r * 2 > u || (r * 2 == u && q % 2 == 1) {
        q + 1
    } else {
        q
    }
}

/// The value of `b as f64`, as an integer.
fn f64_value_exec(b: u64) -> (r: u128)
    ensures
        r == f64_value(b as nat),
        r <= b as nat + 2048,
{
    let mut n: u64 = 0;
    let mut u: u64 = 1;
    while n < 11 && b / u >= F64_EXACT
        invariant
            n <= 11,
            u >= 1,
            u == two_to(n as nat),
            f64_shift(b as nat, n as nat) == f64_shift(b as nat, 0),
        decreases 11 - n,
    {
        proof {
            lemma_two_to_bound((n + 1) as nat);
        }
        u = u * 2;
        n = n + 1;
    }
    proof {
        lemma_two_to_pos(n as nat);
        lemma_two_to_bound(n as nat);
    }
    let q = div_round_even_exec(b as u128, u as u128);
    assert(q * u <= b + u) by (nonlinear_arith)
        requires
            u >= 1,
            q <= b / u + 1,
    {
        vstd::arithmetic::div_mod::lemma_fundamental_div_mod(b as int, u as int);
    }
    q * (u as u128)
}

/// Render a byte size with binary units: "1.5 GB", "1.0 MB", "2.5 KB",
/// "512 B".
pub fn format_size(bytes: u64) -> (r: String)
    ensures
        r@ == size_text(bytes as nat),
{
    let mut s = String::new();
    if bytes >= GB {
        let v = f64_value_exec(bytes);
        let t = div_round_even_exec(v * 10, GB as u128);
        proof {
            vstd::arithmetic::div_mod::lemma_fundamental_div_mod((v * 10) as int, GB as int);
        }
        push_one_decimal(&mut s, t as u64);
        proof {
            reveal_strlit(" GB");
        }
        s.append(" GB");
    } else if bytes >= MB {
        let v = f64_value_exec(bytes);
        let t = div_round_even_exec(v * 10, MB as u128);
        push_one_decimal(&mut s, t as u64);
        proof {
            reveal_strlit(" MB");
        }
        s.append(" MB");
    } else if bytes >= KB {
        let v = f64_value_exec(bytes);
        let t = div_round_even_exec(v * 10, KB as u128);
        push_one_decimal(&mut s, t as u64);
        proof {
            reveal_strlit(" KB");
        }
        s.append(" KB");
    } else {
        push_decimal(&mut s, bytes);
        proof {
            reveal_strlit(" B");
        }
        s.append(" B");
    }
    s
}

/// The fields of a report timestamp taken `secs` seconds after the Unix
/// epoch: an approximate year (365-day years), the day within it, hours,
/// minutes and seconds.
pub open spec fn timestamp_text(secs: nat) -> Seq<char> {
    let days = secs / 86400;
    let hours = (secs % 86400) / 3600;
    let mins = (secs % 3600) / 60;
    let sec = secs % 60;
    decimal(1970 + days / 365) + "-"@ + zero_pad(decimal(days % 365), 3) + " "@ + zero_pad(
        decimal(hours),
        2,
    ) + ":"@ + zero_pad(decimal(mins), 2) + ":"@ + zero_pad(decimal(sec), 2) + " UTC"@
}

/// Timestamp text for a report, `secs` seconds after the Unix epoch:
/// "year-day hh:mm:ss UTC" with an approximate year and a zero-padded day
/// of the year.
pub fn chrono_lite(secs: u64) -> (r: String)
    ensures
        r@ == timestamp_text(secs as nat),
{
    let days = secs / 86400;
    let hours = (secs % 86400) / 3600;
    let mins = (secs % 3600) / 60;
    let sec = secs % 60;
    let year = 1970 + days / 365;
    let day_of_year = days % 365;
    let mut s = String::new();
    push_decimal(&mut s, year);
    proof {
        reveal_strlit("-");
        reveal_strlit(" ");
        reveal_strlit(":");
        reveal_strlit(" UTC");
    }
    s.append("-");
    push_decimal_padded(&mut s, day_of_year, 3);
    s.append(" ");
    push_decimal_padded(&mut s, hours, 2);
    s.append(":");
    push_decimal_padded(&mut s, mins, 2);
    s.append(":");
    push_decimal_padded(&mut s, sec, 2);
    s.append(" UTC");
    s
}

} // verus!
