use vstd::prelude::*;
use vstd::string::*;
use crate::text::{decimal, fraction_digits, push_decimal, push_fraction_digits};

verus! {

/// Nanoseconds in one second.
pub const NANOS_PER_SEC: u128 = 1_000_000_000;

/// Nanoseconds in one millisecond.
pub const NANOS_PER_MILLI: u128 = 1_000_000;

/// Nanoseconds in one microsecond.
pub const NANOS_PER_MICRO: u128 = 1_000;

/// The longest span a `Duration` can hold: `u64::MAX` seconds and
/// 999_999_999 nanoseconds, counted in nanoseconds.
pub const MAX_NANOS: u128 = 18_446_744_073_709_551_615_999_999_999;

/// A '.' and the fraction digits, or nothing when the fraction is zero.
pub open spec fn fraction_part(frac: nat, divisor: nat) -> Seq<char> {
    if frac == 0 {
        Seq::empty()
    } else {
        seq!['.'] + fraction_digits(frac, divisor)
    }
}

/// How a span of `n` nanoseconds is written for debugging: in the largest of
/// seconds, milliseconds, microseconds and nanoseconds that it reaches, with
/// the exact fraction and no trailing zeros (for example `1.5s` or `100ms`).
pub open spec fn duration_text(n: nat) -> Seq<char> {
    let secs = n / NANOS_PER_SEC as nat;
    let sub = n % NANOS_PER_SEC as nat;
    if secs > 0 {
        decimal(secs) + fraction_part(sub, 100_000_000) + seq!['s']
    } else if sub >= NANOS_PER_MILLI {
        decimal(sub / NANOS_PER_MILLI as nat) + fraction_part(sub % NANOS_PER_MILLI as nat, 100_000)
            + seq!['m', 's']
    } else if sub >= NANOS_PER_MICRO {
        decimal(sub / NANOS_PER_MICRO as nat) + fraction_part(sub % NANOS_PER_MICRO as nat, 100)
            + seq!['\u{b5}', 's']
    } else {
        decimal(sub) + seq!['n', 's']
    }
}

/// Appends a '.' and the fraction digits when the fraction is not zero.
fn push_fraction_part(out: &mut String, frac: u128, divisor: u128)
    requires
        crate::text::is_pow10(divisor as nat),
        frac < 10 * divisor,
    ensures
        final(out)@ == old(out)@ + fraction_part(frac as nat, divisor as nat),
{
    if frac == 0 {
        assert(final(out)@ =~= old(out)@ + fraction_part(frac as nat, divisor as nat));
    } else {
        proof {
            reveal_strlit(".");
        }
        out.append(".");
        push_fraction_digits(out, frac, divisor);
        assert(final(out)@ =~= old(out)@ + fraction_part(frac as nat, divisor as nat));
    }
}

/// A span of time with nanosecond precision.
///
/// It holds as many whole seconds as fit in a `u64`, like the standard
/// library's duration, and is counted here as one number of nanoseconds.
#[derive(Clone, Copy, Debug, PartialEq, Eq, PartialOrd, Ord, Hash, Structural)]
pub struct Duration {
    nanos: u128,
}

impl Duration {
    #[verifier::type_invariant]
    spec fn fits(self) -> bool {
        self.nanos <= MAX_NANOS
    }

    /// The length of the span in nanoseconds.
    pub closed spec fn nanos(self) -> nat {
        self.nanos as nat
    }

    /// A span of `nanos` nanoseconds.
    pub fn from_nanos(nanos: u64) -> (d: Duration)
        ensures
            d.nanos() == nanos,
    {
        Duration { nanos: nanos as u128 }
    }

    /// A span of `micros` microseconds.
    pub fn from_micros(micros: u64) -> (d: Duration)
        ensures
            d.nanos() == micros * NANOS_PER_MICRO,
    {
        Duration { nanos: micros as u128 * NANOS_PER_MICRO }
    }

    /// A span of `millis` milliseconds.
    pub fn from_millis(millis: u64) -> (d: Duration)
        ensures
            d.nanos() == millis * NANOS_PER_MILLI,
    {
        Duration { nanos: millis as u128 * NANOS_PER_MILLI }
    }

    /// A span of `secs` seconds.
    pub fn from_secs(secs: u64) -> (d: Duration)
        ensures
            d.nanos() == secs * NANOS_PER_SEC,
    {
        Duration { nanos: secs as u128 * NANOS_PER_SEC }
    }

    /// The zero-length span.
    pub fn zero() -> (d: Duration)
        ensures
            d.nanos() == 0,
    {
        Duration { nanos: 0 }
    }

    /// Whether the span has length zero.
    pub fn is_zero(&self) -> (b: bool)
        ensures
            b == (self.nanos() == 0),
    {
        self.nanos == 0
    }

    /// The whole number of nanoseconds in the span.
    pub fn as_nanos(&self) -> (n: u128)
        ensures
            n == self.nanos(),
    {
        self.nanos
    }

    /// The whole number of milliseconds in the span.
    pub fn as_millis(&self) -> (n: u128)
        ensures
            n == self.nanos() / NANOS_PER_MILLI as nat,
    {
        self.nanos / NANOS_PER_MILLI
    }

    /// The whole number of seconds in the span.
    pub fn as_secs(&self) -> (n: u64)
        ensures
            n == self.nanos() / NANOS_PER_SEC as nat,
    {
        proof {
            use_type_invariant(*self);
        }
        (self.nanos / NANOS_PER_SEC) as u64
    }

    /// The nanoseconds past the last whole second.
    pub fn subsec_nanos(&self) -> (n: u32)
        ensures
            n == self.nanos() % NANOS_PER_SEC as nat,
    {
        (self.nanos % NANOS_PER_SEC) as u32
    }

    /// The span multiplied by `factor`; the product must still fit.
    pub fn mul_u32(&self, factor: u32) -> (d: Duration)
        requires
            self.nanos() * factor <= MAX_NANOS,
        ensures
            d.nanos() == self.nanos() * factor,
    {
        proof {
            use_type_invariant(*self);
        }
        Duration { nanos: self.nanos * factor as u128 }
    }

    /// The difference `self - other`, or zero when `other` is longer.
    pub fn saturating_sub(&self, other: Duration) -> (d: Duration)
        ensures
            d.nanos() == if self.nanos() >= other.nanos() {
                self.nanos() - other.nanos()
            } else {
                0
            },
    {
        proof {
            use_type_invariant(*self);
        }
        if self.nanos >= other.nanos {
            Duration { nanos: self.nanos - other.nanos }
        } else {
            Duration { nanos: 0 }
        }
    }

    /// The span written for debugging, such as `1.5s`, `100ms`, `3µs` or `7ns`.
    pub fn debug_text(&self) -> (s: String)
        ensures
            s@ == duration_text(self.nanos()),
    {
        let secs = self.nanos / NANOS_PER_SEC;
        let sub = self.nanos % NANOS_PER_SEC;
        let mut s = String::new();
        proof {
            reveal_strlit("s");
            reveal_strlit("ms");
            reveal_strlit("\u{b5}s");
            reveal_strlit("ns");
            reveal_with_fuel(crate::text::is_pow10, 10);
            assert(crate::text::is_pow10(100_000_000nat));
            assert(crate::text::is_pow10(100_000nat));
            assert(crate::text::is_pow10(100nat));
        }
        if secs > 0 {
            push_decimal(&mut s, secs);
            push_fraction_part(&mut s, sub, 100_000_000);
            s.append("s");
        } else if sub >= NANOS_PER_MILLI {
            push_decimal(&mut s, sub / NANOS_PER_MILLI);
            push_fraction_part(&mut s, sub % NANOS_PER_MILLI, 100_000);
            s.append("ms");
        } else if sub >= NANOS_PER_MICRO {
            push_decimal(&mut s, sub / NANOS_PER_MICRO);
            push_fraction_part(&mut s, sub % NANOS_PER_MICRO, 100);
            s.append("\u{b5}s");
        } else {
            push_decimal(&mut s, sub);
            s.append("ns");
        }
        assert(s@ =~= duration_text(self.nanos()));
        s
    }

    /// Whether this span is strictly longer than `other`.
    pub fn longer_than(&self, other: &Duration) -> (b: bool)
        ensures
            b == (self.nanos() > other.nanos()),
    {
        self.nanos > other.nanos
    }
}

} // verus!
