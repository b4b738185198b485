//! Fixed-point money: an amount is a signed 64-bit count of ten-thousandths
//! of one unit of currency.

use vstd::prelude::*;
use vstd::string::StringExecFns;

verus! {

/// How many units of the stored integer make one unit of currency.
pub const MONEY_SHIFT: i64 = 10000;

/// The 64-bit signed value that `x` wraps around to: the one integer between
/// `i64::MIN` and `i64::MAX` that differs from `x` by a multiple of 2^64.
/// Balances are kept in 64 bits, and sums and differences of them that leave
/// that range wrap around in this way.
pub open spec fn wrap(x: int) -> i64 {
    let r = x % 0x1_0000_0000_0000_0000;
    if r > i64::MAX {
        (r - 0x1_0000_0000_0000_0000) as i64
    } else {
        r as i64
    }
}

/// A value inside the 64-bit range wraps to itself.
pub proof fn lemma_wrap_within_range(x: int)
    requires
        i64::MIN <= x <= i64::MAX,
    ensures
        wrap(x) == x,
{
}

/// Wrapping an operand of a sum before the sum is wrapped changes nothing.
pub proof fn lemma_wrap_of_sum(x: int, y: int)
    ensures
        wrap(wrap(x) + y) == wrap(x + y),
        wrap(x + wrap(y)) == wrap(x + y),
{
}

/// Wrapping the left side of a difference before the difference is wrapped
/// changes nothing.
pub proof fn lemma_wrap_of_difference(x: int, y: int)
    ensures
        wrap(wrap(x) - y) == wrap(x - y),
{
}

/// The character that stands for the digit `d`.
pub open spec fn digit(d: int) -> char
    recommends
        0 <= d <= 9,
{
    if d == 0 {
        '0'
    } else if d == 1 {
        '1'
    } else if d == 2 {
        '2'
    } else if d == 3 {
        '3'
    } else if d == 4 {
        '4'
    } else if d == 5 {
        '5'
    } else if d == 6 {
        '6'
    } else if d == 7 {
        '7'
    } else if d == 8 {
        '8'
    } else {
        '9'
    }
}

/// A natural number in decimal: most significant digit first, no leading
/// zero, and `0` for zero.
pub open spec fn decimal(n: nat) -> Seq<char>
    decreases n,
{
    if n < 10 {
        seq![digit(n as int)]
    } else {
        decimal(n / 10).push(digit((n % 10) as int))
    }
}

/// The four decimal places of `f` ten-thousandths, for `f` below one unit.
pub open spec fn places(f: nat) -> Seq<char>
    recommends
        f < 10000,
{
    seq![
        digit((f / 1000) as int),
        digit((f / 100 % 10) as int),
        digit((f / 10 % 10) as int),
        digit((f % 10) as int),
    ]
}

/// `s` without the zeros at its end.
pub open spec fn without_trailing_zeros(s: Seq<char>) -> Seq<char>
    decreases s.len(),
{
    if s.len() > 0 && s.last() == '0' {
        without_trailing_zeros(s.drop_last())
    } else {
        s
    }
}

/// An amount of ten-thousandths written as units of currency: a minus sign
/// where the amount is negative, the whole units in decimal, and, where the
/// amount is not whole, a point and the decimal places without the zeros at
/// their end. So 21200 is `2.12`, 1390000 is `139`, -5000 is `-0.5`.
pub open spec fn money_text(amount: i64) -> Seq<char> {
    let magnitude: nat = vstd::math::abs(amount as int);
    let sign: Seq<char> = if amount < 0 {
        seq!['-']
    } else {
        Seq::empty()
    };
    let whole: nat = magnitude / (MONEY_SHIFT as nat);
    let fraction: nat = magnitude % (MONEY_SHIFT as nat);
    if fraction == 0 {
        sign + decimal(whole)
    } else {
        sign + decimal(whole) + seq!['.'] + without_trailing_zeros(places(fraction))
    }
}

/// The one-character string of a digit.
fn digit_str(d: u64) -> (s: &'static str)
    requires
        d < 10,
    ensures
        s@ == seq![digit(d as int)],
{
    proof {
        reveal_strlit("0");
        reveal_strlit("1");
        reveal_strlit("2");
        reveal_strlit("3");
        reveal_strlit("4");
        reveal_strlit("5");
        reveal_strlit("6");
        reveal_strlit("7");
        reveal_strlit("8");
        reveal_strlit("9");
    }
    let s: &'static str = if d == 0 {
        "0"
    } else if d == 1 {
        "1"
    } else if d == 2 {
        "2"
    } else if d == 3 {
        "3"
    } else if d == 4 {
        "4"
    } else if d == 5 {
        "5"
    } else if d == 6 {
        "6"
    } else if d == 7 {
        "7"
    } else if d == 8 {
        "8"
    } else {
        "9"
    };
    assert(s@ =~= seq![digit(d as int)]);
    s
}

/// Writes `n` in decimal at the end of `out`.
pub fn push_decimal(out: &mut String, n: u64)
    ensures
        final(out)@ == old(out)@ + decimal(n as nat),
    decreases n,
{
    if n >= 10 {
        push_decimal(out, n / 10);
    }
    out.append(digit_str(n % 10));
    assert(out@ =~= old(out)@ + decimal(n as nat));
}

/// Writes the decimal places of `f` ten-thousandths at the end of `out`,
/// leaving out the zeros at their end.
fn push_places(out: &mut String, f: u64)
    requires
        0 < f < 10000,
    ensures
        final(out)@ == old(out)@ + without_trailing_zeros(places(f as nat)),
{
    let ghost all = places(f as nat);
    proof {
        reveal_with_fuel(without_trailing_zeros, 5);
    }
    out.append(digit_str(f / 1000));
    if f % 1000 != 0 {
        out.append(digit_str(f / 100 % 10));
        if f % 100 != 0 {
            out.append(digit_str(f / 10 % 10));
            if f % 10 != 0 {
                out.append(digit_str(f % 10));
                assert(without_trailing_zeros(all) == all);
                assert(out@ =~= old(out)@ + all);
            } else {
                assert(all.drop_last() =~= seq![all[0], all[1], all[2]]);
                assert(without_trailing_zeros(all) == all.drop_last());
                assert(out@ =~= old(out)@ + all.drop_last());
            }
        } else {
            assert(all.drop_last() =~= seq![all[0], all[1], all[2]]);
            assert(all.drop_last().drop_last() =~= seq![all[0], all[1]]);
            assert(without_trailing_zeros(all) == all.drop_last().drop_last());
            assert(out@ =~= old(out)@ + all.drop_last().drop_last());
        }
    } else {
        assert(all.drop_last() =~= seq![all[0], all[1], all[2]]);
        assert(all.drop_last().drop_last() =~= seq![all[0], all[1]]);
        assert(all.drop_last().drop_last().drop_last() =~= seq![all[0]]);
        assert(without_trailing_zeros(all) == seq![all[0]]);
        assert(out@ =~= old(out)@ + seq![all[0]]);
    }
}

/// Writes `amount` at the end of `out`, in units of currency.
pub fn push_money(out: &mut String, amount: i64)
    ensures
        final(out)@ == old(out)@ + money_text(amount),
{
    let magnitude: u64 = if amount < 0 {
        out.append("-");
        (-(amount + 1)) as u64 + 1
    } else {
        amount as u64
    };
    proof {
        reveal_strlit("-");
        reveal_strlit(".");
        assert(magnitude == vstd::math::abs(amount as int));
    }
    push_decimal(out, magnitude / (MONEY_SHIFT as u64));
    let fraction: u64 = magnitude % (MONEY_SHIFT as u64);
    if fraction != 0 {
        out.append(".");
        push_places(out, fraction);
    }
    assert(out@ =~= old(out)@ + money_text(amount));
}

/// `amount` written in units of currency.
pub fn money_to_string(amount: i64) -> (text: String)
    ensures
        text@ == money_text(amount),
{
    let mut text: String = String::new();
    push_money(&mut text, amount);
    assert(text@ =~= money_text(amount));
    text
}

} // verus!
