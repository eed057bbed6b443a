use vstd::prelude::*;
use vstd::string::*;

verus! {

/// The character of a decimal digit.
pub open spec fn digit_char(d: nat) -> char {
    if d == 0 { '0' }
    else if d == 1 { '1' }
    else if d == 2 { '2' }
    else if d == 3 { '3' }
    else if d == 4 { '4' }
    else if d == 5 { '5' }
    else if d == 6 { '6' }
    else if d == 7 { '7' }
    else if d == 8 { '8' }
    else { '9' }
}

/// The decimal representation of a natural number, without leading zeros.
pub open spec fn decimal(n: nat) -> Seq<char>
    decreases n,
{
    if n < 10 {
        seq![digit_char(n)]
    } else {
        decimal(n / 10).push(digit_char(n % 10))
    }
}

/// The decimal representation of an integer, with a leading '-' when negative.
pub open spec fn signed_decimal(n: int) -> Seq<char> {
    if n < 0 {
        seq!['-'] + decimal((-n) as nat)
    } else {
        decimal(n as nat)
    }
}

/// The digits of a fraction `frac / (10 * divisor)`, most significant first,
/// stopping as soon as the remaining fraction is zero.
pub open spec fn fraction_digits(frac: nat, divisor: nat) -> Seq<char>
    decreases divisor,
{
    if frac == 0 || divisor == 0 {
        Seq::empty()
    } else {
        seq![digit_char(frac / divisor)] + fraction_digits(frac % divisor, divisor / 10)
    }
}

/// Whether `d` is a power of ten (1, 10, 100, ...).
pub open spec fn is_pow10(d: nat) -> bool
    decreases d,
{
    if d == 1 {
        true
    } else if d >= 10 && d % 10 == 0 {
        is_pow10(d / 10)
    } else {
        false
    }
}

/// The one-character string of a decimal digit.
fn digit_str(d: u8) -> (s: &'static str)
    requires
        d < 10,
    ensures
        s@ == seq![digit_char(d as nat)],
{
    proof {
        reveal_strlit("0");
        reveal_strlit("1");
        reveal_strlit("2");
        reveal_strlit("3");
        reveal_strlit("4");
        reveal_strlit("5");
        reveal_strlit("6");
        reveal_strlit("7");
        reveal_strlit("8");
        reveal_strlit("9");
    }
    if d == 0 { "0" }
    else if d == 1 { "1" }
    else if d == 2 { "2" }
    else if d == 3 { "3" }
    else if d == 4 { "4" }
    else if d == 5 { "5" }
    else if d == 6 { "6" }
    else if d == 7 { "7" }
    else if d == 8 { "8" }
    else { "9" }
}

/// Appends the decimal representation of `n` to `out`.
pub fn push_decimal(out: &mut String, n: u128)
    ensures
        final(out)@ == old(out)@ + decimal(n as nat),
    decreases n,
{
    if n < 10 {
        out.append(digit_str(n as u8));
    } else {
        push_decimal(out, n / 10);
        out.append(digit_str((n % 10) as u8));
        assert(decimal(n as nat) == decimal((n / 10) as nat).push(digit_char((n % 10) as nat)));
        assert(final(out)@ =~= old(out)@ + decimal(n as nat));
    }
}

/// Appends the decimal representation of `n`, with a '-' when negative.
pub fn push_signed_decimal(out: &mut String, n: i128)
    requires
        n > i128::MIN,
    ensures
        final(out)@ == old(out)@ + signed_decimal(n as int),
{
    if n < 0 {
        proof {
            reveal_strlit("-");
        }
        out.append("-");
        push_decimal(out, (-n) as u128);
        assert(final(out)@ =~= old(out)@ + signed_decimal(n as int));
    } else {
        push_decimal(out, n as u128);
    }
}

/// Appends the digits of the fraction `frac / (10 * divisor)`.
pub fn push_fraction_digits(out: &mut String, frac: u128, divisor: u128)
    requires
        divisor == 0 || (is_pow10(divisor as nat) && frac < 10 * divisor),
    ensures
        final(out)@ == old(out)@ + fraction_digits(frac as nat, divisor as nat),
    decreases divisor,
{
    if frac == 0 || divisor == 0 {
        assert(final(out)@ =~= old(out)@ + fraction_digits(frac as nat, divisor as nat));
    } else {
        assert(frac / divisor < 10) by (nonlinear_arith)
            requires
                frac < 10 * divisor,
                divisor > 0,
        {
        }
        let rest = frac % divisor;
        let next = divisor / 10;
        assert(next == 0 || (is_pow10(next as nat) && rest < 10 * next)) by {
            if divisor != 1 {
                assert(divisor == 10 * next);
            }
        }
        out.append(digit_str((frac / divisor) as u8));
        push_fraction_digits(out, rest, next);
        assert(final(out)@ =~= old(out)@ + fraction_digits(frac as nat, divisor as nat));
    }
}

/// The decimal representation of `n` as a new string.
pub fn decimal_string(n: u128) -> (s: String)
    ensures
        s@ == decimal(n as nat),
{
    let mut s = String::new();
    push_decimal(&mut s, n);
    assert(s@ =~= decimal(n as nat));
    s
}

} // verus!
