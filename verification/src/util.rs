//! The text of a file size.

use vstd::prelude::*;
use crate::text::{append_digit, append_digits, decimal, digit_char, digits};

verus! {

/// Sizes from here on have more significant bits than the 53 that are kept.
pub const PRECISE_BELOW: u64 = 9007199254740992;

/// Two to the power `k`.
pub open spec fn two_to(k: nat) -> nat
    decreases k,
{
    if k == 0 {
        1
    } else {
        2 * two_to((k - 1) as nat)
    }
}

/// 1024 to the power `k`.
pub open spec fn kilo_to(k: nat) -> nat
    decreases k,
{
    if k == 0 {
        1
    } else {
        1024 * kilo_to((k - 1) as nat)
    }
}

/// `n / d` rounded to the nearest whole number, a tie going to the even one.
pub open spec fn round_half_even(n: nat, d: nat) -> nat {
    let q = n / d;
    let r = n % d;
    if 2 * r > d || (2 * r == d && q % 2 == 1) {
        q + 1
    } else {
        q
    }
}

/// How many low bits of `size` are rounded away: the least `s`, counting up
/// from `from`, with `size` below `PRECISE_BELOW` times two to the `s`.
pub open spec fn dropped_bits(size: nat, from: nat) -> nat
    decreases 11 - from,
{
    if from >= 11 || size < PRECISE_BELOW * two_to(from) {
        from
    } else {
        dropped_bits(size, from + 1)
    }
}

/// `size` kept to 53 significant bits, rounded to nearest, a tie going to
/// the even neighbour. Sizes below `PRECISE_BELOW` are kept as they are.
pub open spec fn kept_value(size: nat) -> nat {
    let s = dropped_bits(size, 0);
    round_half_even(size, two_to(s)) * two_to(s)
}

/// The unit that a value of at least 1024 is shown in: the least `k`,
/// counting up from `from`, with the value below 1024 to the `k + 2`; at
/// most 5.
pub open spec fn unit_index(value: nat, from: nat) -> nat
    decreases 5 - from,
{
    if from >= 5 || value < kilo_to(from + 2) {
        from
    } else {
        unit_index(value, from + 1)
    }
}

/// The name of a unit.
pub open spec fn unit_name(k: nat) -> Seq<char> {
    if k == 0 {
        seq!['K', 'B']
    } else if k == 1 {
        seq!['M', 'B']
    } else if k == 2 {
        seq!['G', 'B']
    } else if k == 3 {
        seq!['T', 'B']
    } else if k == 4 {
        seq!['P', 'B']
    } else {
        seq!['E', 'B']
    }
}

/// The text of a size in bytes. Below 1024 it is the number and ` B`. From
/// there on the size, kept to 53 significant bits, is shown in the largest
/// unit of KB, MB, GB, TB, PB, EB (steps of 1024) that leaves it at least
/// one, with one decimal, rounded to nearest, a tie going to the even digit.
pub open spec fn size_text(size: nat) -> Seq<char> {
    if size < 1024 {
        decimal(size as int) + seq![' ', 'B']
    } else {
        let value = kept_value(size);
        let k = unit_index(value, 0);
        let tenths = round_half_even(value * 10, kilo_to(k + 1));
        digits(tenths / 10, 10) + seq!['.', digit_char((tenths % 10) as int), ' '] + unit_name(k)
    }
}

/// `n / d` rounded to nearest, a tie going to the even number.
fn rounded_quotient(n: u128, d: u128) -> (q: u128)
    requires
        d > 0,
        n < u128::MAX,
    ensures
        q == round_half_even(n as nat, d as nat),
        q <= n / d + 1,
{
    let q: u128 = n / d;
    let r: u128 = n % d;
    let rest: u128 = d - r;
    if r > rest || (r == rest && q % 2 == 1) {
        q + 1
    } else {
        q
    }
}

/// Appends the name of unit `k`.
fn append_unit(out: &mut String, k: usize)
    ensures
        final(out)@ == old(out)@ + unit_name(k as nat),
{
    proof {
        reveal_strlit("KB");
        reveal_strlit("MB");
        reveal_strlit("GB");
        reveal_strlit("TB");
        reveal_strlit("PB");
        reveal_strlit("EB");
    }
    let name: &str = if k == 0 {
        "KB"
    } else if k == 1 {
        "MB"
    } else if k == 2 {
        "GB"
    } else if k == 3 {
        "TB"
    } else if k == 4 {
        "PB"
    } else {
        "EB"
    };
    assert(name@ =~= unit_name(k as nat));
    out.append(name);
}

/// The text of a size in bytes.
pub fn format_file_size(size: u64) -> (text: String)
    ensures
        text@ == size_text(size as nat),
{
    let mut text = String::new();
    if size < 1024 {
        append_digits(&mut text, size, 10);
        proof {
            reveal_strlit(" B");
        }
        text.append(" B");
        assert(text@ =~= size_text(size as nat));
        return text;
    }
    let mut s: usize = 0;
    let mut step: u128 = 1;
    let mut bound: u128 = PRECISE_BELOW as u128;
    while s < 11 && size as u128 >= bound
        invariant
            s <= 11,
            step == two_to(s as nat),
            bound == PRECISE_BELOW * two_to(s as nat),
            1 <= step <= 2048,
            s < 11 ==> step <= 1024,
            dropped_bits(size as nat, 0) == dropped_bits(size as nat, s as nat),
        decreases 11 - s,
    {
        s = s + 1;
        step = step * 2;
        bound = bound * 2;
        assert(step <= 2048) by {
            reveal_with_fuel(two_to, 13);
        }
        assert(s < 11 ==> step <= 1024) by {
            reveal_with_fuel(two_to, 13);
        }
    }
    let whole: u128 = rounded_quotient(size as u128, step);
    assert(whole * step <= 18446744073709551616 + 2048) by (nonlinear_arith)
        requires
            whole <= (size as u128) / step + 1,
            size <= u64::MAX,
            0 < step <= 2048,
    ;
    let value: u128 = whole * step;
    assert(value == kept_value(size as nat));
    let mut k: usize = 0;
    let mut unit: u128 = 1024;
    let mut limit: u128 = 1048576;
    assert(kilo_to(1) == 1024 && kilo_to(2) == 1048576) by {
        reveal_with_fuel(kilo_to, 3);
    }
    while k < 5 && value >= limit
        invariant
            k <= 5,
            unit == kilo_to((k + 1) as nat),
            limit == kilo_to((k + 2) as nat),
            limit == 1024 * unit,
            1024 <= unit <= 1152921504606846976,
            value <= 18446744073709551616 + 2048,
            unit_index(value as nat, 0) == unit_index(value as nat, k as nat),
        decreases 5 - k,
    {
        k = k + 1;
        unit = limit;
        assert(unit <= 1152921504606846976) by {
            reveal_with_fuel(kilo_to, 8);
        }
        limit = limit * 1024;
    }
    let tenths: u128 = rounded_quotient(value * 10, unit);
    assert(tenths <= 18446744073709551615) by (nonlinear_arith)
        requires
            tenths <= (value * 10) / (unit as int) + 1,
            value <= 18446744073709551616 + 2048,
            unit >= 1024,
    ;
    append_digits(&mut text, (tenths / 10) as u64, 10);
    proof {
        reveal_strlit(".");
        reveal_strlit(" ");
    }
    text.append(".");
    append_digit(&mut text, (tenths % 10) as u8);
    text.append(" ");
    append_unit(&mut text, k);
    assert(text@ =~= size_text(size as nat));
    text
}

} // verus!
