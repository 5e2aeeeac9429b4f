//! Text rendering of numbers: decimal, zero-padded hexadecimal, and decimal
//! with one fractional digit. Every function states the exact characters it
//! produces.

use vstd::prelude::*;

verus! {

/// The character of a digit in base 16 (lower case), `d < 16`.
pub open spec fn digit_char(d: nat) -> char {
    if d == 0 { '0' }
    else if d == 1 { '1' }
    else if d == 2 { '2' }
    else if d == 3 { '3' }
    else if d == 4 { '4' }
    else if d == 5 { '5' }
    else if d == 6 { '6' }
    else if d == 7 { '7' }
    else if d == 8 { '8' }
    else if d == 9 { '9' }
    else if d == 10 { 'a' }
    else if d == 11 { 'b' }
    else if d == 12 { 'c' }
    else if d == 13 { 'd' }
    else if d == 14 { 'e' }
    else { 'f' }
}

/// The digits of `n` in base `b` (2 <= b <= 16), most significant first,
/// without leading zeros ("0" for zero).
pub open spec fn digits(n: nat, b: nat) -> Seq<char>
    decreases n,
{
    if b < 2 || n < b {
        seq![digit_char(n % 16)]
    } else {
        proof {
            lemma_div_smaller(n, b);
        }
        digits(n / b, b).push(digit_char(n % b))
    }
}

/// Decimal rendering of `n`, as `{}` writes an unsigned integer.
pub open spec fn decimal(n: nat) -> Seq<char> {
    digits(n, 10)
}

/// Lower-case hexadecimal rendering of `n`, as `{:x}` writes it.
pub open spec fn hex(n: nat) -> Seq<char> {
    digits(n, 16)
}

/// `s` with zeros in front up to `width` characters, as `{:0w}` pads.
pub open spec fn zero_pad(s: Seq<char>, width: nat) -> Seq<char> {
    if s.len() >= width {
        s
    } else {
        Seq::new((width - s.len()) as nat, |i: int| '0') + s
    }
}

/// A decimal number given in tenths, written with one fractional digit:
/// `tenths = 125` renders as "12.5".
pub open spec fn one_decimal(tenths: nat) -> Seq<char> {
    decimal(tenths / 10).push('.').push(digit_char(tenths % 10))
}

/// Number of digits of `n` in base `b`.
pub open spec fn num_digits(n: nat, b: nat) -> nat
    decreases n,
{
    if b < 2 || n < b {
        1
    } else {
        proof {
            lemma_div_smaller(n, b);
        }
        1 + num_digits(n / b, b)
    }
}

proof fn lemma_digits_len(n: nat, b: nat)
    ensures
        digits(n, b).len() == num_digits(n, b),
    decreases n,
{
    if b < 2 || n < b {
    } else {
        lemma_div_smaller(n, b);
        lemma_digits_len(n / b, b);
    }
}

/// The one-character string of digit `d`.
fn digit_str(d: u64) -> (r: &'static str)
    requires
        d < 16,
    ensures
        r@ == seq![digit_char(d as nat)],
{
    match d {
        0 => { proof { reveal_strlit("0"); } "0" },
        1 => { proof { reveal_strlit("1"); } "1" },
        2 => { proof { reveal_strlit("2"); } "2" },
        3 => { proof { reveal_strlit("3"); } "3" },
        4 => { proof { reveal_strlit("4"); } "4" },
        5 => { proof { reveal_strlit("5"); } "5" },
        6 => { proof { reveal_strlit("6"); } "6" },
        7 => { proof { reveal_strlit("7"); } "7" },
        8 => { proof { reveal_strlit("8"); } "8" },
        9 => { proof { reveal_strlit("9"); } "9" },
        10 => { proof { reveal_strlit("a"); } "a" },
        11 => { proof { reveal_strlit("b"); } "b" },
        12 => { proof { reveal_strlit("c"); } "c" },
        13 => { proof { reveal_strlit("d"); } "d" },
        14 => { proof { reveal_strlit("e"); } "e" },
        _ => { proof { reveal_strlit("f"); } "f" },
    }
}

/// Append the digits of `n` in base `b` to `s`.
pub fn push_digits(s: &mut String, n: u64, b: u64)
    requires
        2 <= b <= 16,
    ensures
        final(s)@ == old(s)@ + digits(n as nat, b as nat),
    decreases n,
{
    if n >= b {
        proof {
            lemma_div_smaller(n as nat, b as nat);
        }
        push_digits(s, n / b, b);
        s.append(digit_str(n % b));
        proof {
            assert(digits(n as nat, b as nat) == digits((n / b) as nat, b as nat).push(
                digit_char((n % b) as nat),
            ));
        }
    } else {
        s.append(digit_str(n));
        assert(n as nat % 16 == n as nat);
    }
}

/// Append the decimal rendering of `n` to `s`.
pub fn push_decimal(s: &mut String, n: u64)
    ensures
        final(s)@ == old(s)@ + decimal(n as nat),
{
    push_digits(s, n, 10);
}

/// The decimal rendering of `n`, as `n.to_string()` gives it.
pub fn decimal_string(n: u64) -> (r: String)
    ensures
        r@ == decimal(n as nat),
{
    let mut s = String::new();
    push_decimal(&mut s, n);
    assert(s@ =~= decimal(n as nat));
    s
}

/// `n / b` is smaller than `n` and at most half of it.
pub proof fn lemma_div_smaller(n: nat, b: nat)
    requires
        2 <= b,
        b <= n,
    ensures
        n / b < n,
        n / b <= n / 2,
        n / b >= 1,
{
    assert(n / b <= n / 2) by (nonlinear_arith)
        requires
            2 <= b,
            b <= n,
    {
        vstd::arithmetic::div_mod::lemma_div_is_ordered_by_denominator(n as int, 2, b as int);
    }
    assert(n / b >= 1) by (nonlinear_arith)
        requires
            2 <= b,
            b <= n,
    {
        vstd::arithmetic::div_mod::lemma_div_is_ordered(b as int, n as int, b as int);
        vstd::arithmetic::div_mod::lemma_div_by_self(b as int);
    }
}

/// A number has at most as many digits as its value (and one for zero).
proof fn lemma_num_digits_small(n: nat, b: nat)
    requires
        2 <= b,
    ensures
        num_digits(n, b) <= if n == 0 { 1 } else { n },
    decreases n,
{
    if n >= b {
        lemma_div_smaller(n, b);
        lemma_num_digits_small(n / b, b);
    }
}

/// Number of digits of `n` in base `b`, computed.
fn count_digits(n: u64, b: u64) -> (r: u64)
    requires
        2 <= b <= 16,
    ensures
        r == num_digits(n as nat, b as nat),
    decreases n,
{
    if n >= b {
        proof {
            lemma_div_smaller(n as nat, b as nat);
            lemma_num_digits_small((n / b) as nat, b as nat);
        }
        let k = count_digits(n / b, b);
        k + 1
    } else {
        1
    }
}

/// Append the digits of `n` in base `b`, zero-padded to `width` digits.
pub fn push_padded(s: &mut String, n: u64, b: u64, width: u64)
    requires
        2 <= b <= 16,
        width <= 64,
    ensures
        final(s)@ == old(s)@ + zero_pad(digits(n as nat, b as nat), width as nat),
{
    let len = count_digits(n, b);
    proof {
        lemma_digits_len(n as nat, b as nat);
    }
    let ghost start = s@;
    let mut i: u64 = len;
    while i < width
        invariant
            len <= i,
            i == len || i <= width,
            len == num_digits(n as nat, b as nat),
            width <= 64,
            s@ == start + Seq::new((i - len) as nat, |j: int| '0'),
        decreases width - i,
    {
        proof {
            reveal_strlit("0");
        }
        s.append("0");
        assert(s@ =~= start + Seq::new((i + 1 - len) as nat, |j: int| '0'));
        i = i + 1;
    }
    let ghost mid = s@;
    push_digits(s, n, b);
    proof {
        let h = digits(n as nat, b as nat);
        if h.len() >= width {
            assert(i == len);
            assert(mid =~= start);
            assert(zero_pad(h, width as nat) == h);
        } else {
            assert(i == width);
            assert(s@ =~= start + zero_pad(h, width as nat));
        }
    }
}

/// Append `n` in lower-case hexadecimal, zero-padded to `width` digits.
pub fn push_hex_padded(s: &mut String, n: u64, width: u64)
    requires
        width <= 64,
    ensures
        final(s)@ == old(s)@ + zero_pad(hex(n as nat), width as nat),
{
    push_padded(s, n, 16, width);
}

/// Append `n` in decimal, zero-padded to `width` digits.
pub fn push_decimal_padded(s: &mut String, n: u64, width: u64)
    requires
        width <= 64,
    ensures
        final(s)@ == old(s)@ + zero_pad(decimal(n as nat), width as nat),
{
    push_padded(s, n, 10, width);
}

/// Append a value given in tenths with one fractional digit ("12.5").
pub fn push_one_decimal(s: &mut String, tenths: u64)
    ensures
        final(s)@ == old(s)@ + one_decimal(tenths as nat),
{
    push_decimal(s, tenths / 10);
    proof {
        reveal_strlit(".");
    }
    s.append(".");
    s.append(digit_str(tenths % 10));
    assert(s@ =~= old(s)@ + one_decimal(tenths as nat));
}

/// Decimal text of a signed integer, as `{}` writes it.
pub open spec fn signed_decimal(n: int) -> Seq<char> {
    if n < 0 {
        "-"@ + decimal((-n) as nat)
    } else {
        decimal(n as nat)
    }
}

/// Append a signed integer in decimal.
pub fn push_signed(s: &mut String, n: i32)
    ensures
        final(s)@ == old(s)@ + signed_decimal(n as int),
{
    if n < 0 {
        proof {
            reveal_strlit("-");
        }
        s.append("-");
        let magnitude: u64 = (0i64 - (n as i64)) as u64;
        push_decimal(s, magnitude);
        assert(s@ =~= old(s)@ + signed_decimal(n as int));
    } else {
        push_decimal(s, n as u64);
    }
}


/// The items of a list of unsigned integers, in decimal, separated by ", ".
pub open spec fn list_items(items: Seq<usize>) -> Seq<char>
    decreases items.len(),
{
    if items.len() == 0 {
        Seq::empty()
    } else if items.len() == 1 {
        decimal(items[0] as nat)
    } else {
        list_items(items.drop_last()) + ", "@ + decimal(items.last() as nat)
    }
}

/// A list of unsigned integers as `{:?}` writes it: "[1, 2, 3]".
pub open spec fn debug_list(items: Seq<usize>) -> Seq<char> {
    "["@ + list_items(items) + "]"@
}

/// Append a list of unsigned integers as `{:?}` writes it.
pub fn push_debug_list(s: &mut String, items: &[usize])
    ensures
        final(s)@ == old(s)@ + debug_list(items@),
{
    proof {
        reveal_strlit("[");
        reveal_strlit("]");
        reveal_strlit(", ");
    }
    s.append("[");
    let mut i: usize = 0;
    while i < items.len()
        invariant
            i <= items.len(),
            s@ == old(s)@ + "["@ + list_items(items@.take(i as int)),
        decreases items.len() - i,
    {
        assert(items@.take(i as int + 1).drop_last() =~= items@.take(i as int));
        if i > 0 {
            s.append(", ");
        }
        push_decimal(s, items[i] as u64);
        assert(s@ =~= old(s)@ + "["@ + list_items(items@.take(i as int + 1)));
        i = i + 1;
    }
    assert(items@.take(i as int) =~= items@);
    s.append("]");
    assert(s@ =~= old(s)@ + debug_list(items@));
}

} // verus!
