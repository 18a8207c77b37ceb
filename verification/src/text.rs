use vstd::prelude::*;
use vstd::string::StringExecFns;

verus! {

/// The single character naming a decimal digit.
pub open spec fn spec_digit_str(d: int) -> Seq<char>
    recommends
        0 <= d <= 9,
{
    if d == 0 {
        "0"@
    } else if d == 1 {
        "1"@
    } else if d == 2 {
        "2"@
    } else if d == 3 {
        "3"@
    } else if d == 4 {
        "4"@
    } else if d == 5 {
        "5"@
    } else if d == 6 {
        "6"@
    } else if d == 7 {
        "7"@
    } else if d == 8 {
        "8"@
    } else {
        "9"@
    }
}

/// The canonical decimal rendering of `n`: most significant digit first, no
/// leading zeroes (a lone zero for 0).
pub open spec fn spec_decimal_digits(n: nat) -> Seq<char>
    decreases n,
{
    if n < 10 {
        spec_digit_str(n as int)
    } else {
        spec_decimal_digits(n / 10) + spec_digit_str((n % 10) as int)
    }
}

/// The canonical decimal rendering of a signed value: a minus sign before
/// the magnitude for negative values.
pub open spec fn spec_signed_decimal(v: int) -> Seq<char> {
    if v < 0 {
        "-"@ + spec_decimal_digits((-v) as nat)
    } else {
        spec_decimal_digits(v as nat)
    }
}

/// Appends the character of one decimal digit.
fn append_digit(s: &mut String, d: u128)
    requires
        d < 10,
    ensures
        final(s)@ == old(s)@ + spec_digit_str(d as int),
{
    if d == 0 {
        s.append("0");
    } else if d == 1 {
        s.append("1");
    } else if d == 2 {
        s.append("2");
    } else if d == 3 {
        s.append("3");
    } else if d == 4 {
        s.append("4");
    } else if d == 5 {
        s.append("5");
    } else if d == 6 {
        s.append("6");
    } else if d == 7 {
        s.append("7");
    } else if d == 8 {
        s.append("8");
    } else {
        s.append("9");
    }
}

/// Appends the canonical decimal rendering of `n`.
pub(crate) fn append_decimal(s: &mut String, n: u128)
    ensures
        final(s)@ == old(s)@ + spec_decimal_digits(n as nat),
    decreases n,
{
    if n < 10 {
        append_digit(s, n);
    } else {
        append_decimal(s, n / 10);
        append_digit(s, n % 10);
        proof {
            assert(s@ =~= old(s)@ + spec_decimal_digits(n as nat));
        }
    }
}

/// Appends the canonical decimal rendering of a signed 128-bit value.
pub(crate) fn append_signed_decimal(s: &mut String, v: i128)
    ensures
        final(s)@ == old(s)@ + spec_signed_decimal(v as int),
{
    if v >= 0 {
        append_decimal(s, v as u128);
    } else {
        s.append("-");
        let magnitude: u128 = if v == i128::MIN {
            170141183460469231731687303715884105728u128
        } else {
            (-v) as u128
        };
        append_decimal(s, magnitude);
        proof {
            assert(s@ =~= old(s)@ + spec_signed_decimal(v as int));
        }
    }
}

} // verus!
