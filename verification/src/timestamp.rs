//! Instants on the UTC time line and the whole-second arithmetic that the
//! insertion of points needs.

use vstd::prelude::*;

verus! {

/// Nanoseconds in one second.
pub const NANOS_PER_SECOND: u32 = 1_000_000_000;

/// `a / b` with the fraction dropped, that is rounded toward zero. Meant for
/// `b > 0`.
pub open spec fn quotient_toward_zero(a: int, b: int) -> int {
    if a >= 0 {
        a / b
    } else {
        -((-a) / b)
    }
}

/// The whole seconds that lie between the instants `start` and `end`, both
/// given in nanoseconds. Negative when `end` is the earlier one.
pub open spec fn whole_seconds_between(start: int, end: int) -> int {
    quotient_toward_zero(end - start, NANOS_PER_SECOND as int)
}

/// The whole seconds after the start of an interval of `total` seconds at
/// which point `step` of `count` evenly spaced inner points lies:
/// `total * step / (count + 1)` with the fraction dropped.
pub open spec fn step_seconds(total: int, step: int, count: int) -> int {
    quotient_toward_zero(total * step, count + 1)
}

/// The instant, in nanoseconds, of inner point `step` of `count` between the
/// instants `start` and `end`: `start` moved by a whole number of seconds.
pub open spec fn instant_at_step(start: int, end: int, step: int, count: int) -> int {
    start + step_seconds(whole_seconds_between(start, end), step, count) * NANOS_PER_SECOND
}

/// An instant on the UTC time line, kept as the whole seconds since the Unix
/// epoch and the nanoseconds past that second. The nanoseconds stay below one
/// second, so a leap second has no value of its own.
///
/// The view of a timestamp is its distance from the epoch in nanoseconds.
#[derive(Clone, Copy, Debug, PartialEq, Eq)]
pub struct Timestamp {
    seconds: i64,
    nanos: u32,
}

impl View for Timestamp {
    type V = int;

    closed spec fn view(&self) -> int {
        self.seconds * NANOS_PER_SECOND + self.nanos
    }
}

impl Timestamp {
    #[verifier::type_invariant]
    spec fn nanos_below_one_second(self) -> bool {
        self.nanos < NANOS_PER_SECOND
    }

    /// Whether the value is one that [`Timestamp::new`] can have made. Every
    /// timestamp that a program holds is; a timestamp that only a proof speaks
    /// of has to be assumed so.
    pub closed spec fn is_valid(self) -> bool {
        self.nanos < NANOS_PER_SECOND
    }

    /// The timestamp `seconds` whole seconds and `nanos` nanoseconds after the
    /// epoch, or `None` when `nanos` does not stay below one second.
    pub fn new(seconds: i64, nanos: u32) -> (made: Option<Timestamp>)
        ensures
            made is Some <==> nanos < NANOS_PER_SECOND,
            made is Some ==> made.unwrap().is_valid(),
            made is Some ==> made.unwrap()@ == seconds * NANOS_PER_SECOND + nanos,
    {
        if nanos < NANOS_PER_SECOND {
            Some(Timestamp { seconds, nanos })
        } else {
            None
        }
    }

    /// The whole seconds since the epoch, rounded down.
    pub fn seconds(&self) -> (s: i64)
        ensures
            s == self@ / (NANOS_PER_SECOND as int),
    {
        proof {
            use_type_invariant(self);
            lemma_split_instant(self.seconds as int, self.nanos as int);
        }
        self.seconds
    }

    /// The nanoseconds past the last whole second.
    pub fn subsec_nanos(&self) -> (n: u32)
        ensures
            n == self@ % (NANOS_PER_SECOND as int),
    {
        proof {
            use_type_invariant(self);
            lemma_split_instant(self.seconds as int, self.nanos as int);
        }
        self.nanos
    }

    /// The time of inner point `step` of `count` evenly spaced points between
    /// `self` and `end`: `self` moved by `total * step / (count + 1)` whole
    /// seconds, the fraction dropped, where `total` is the whole seconds from
    /// `self` to `end`. The nanoseconds of `self` are kept. With `end` before
    /// `self` the result lies before `self`.
    ///
    /// Step `0` is `self`, and step `count + 1` is `self` moved by all whole
    /// seconds of the interval.
    pub fn at_step(&self, end: &Timestamp, step: i32, count: i32) -> (at: Timestamp)
        requires
            0 <= count,
            0 <= step <= count + 1,
        ensures
            at.is_valid(),
            at@ == instant_at_step(self@, end@, step as int, count as int),
    {
        proof {
            use_type_invariant(self);
            use_type_invariant(end);
        }
        let unit: i128 = NANOS_PER_SECOND as i128;
        let parts: i128 = count as i128 + 1;
        let apart: i128 = (end.seconds as i128 - self.seconds as i128) * unit + (end.nanos as i128
            - self.nanos as i128);
        let moved: i128 = if apart >= 0 {
            let total: i128 = apart / unit;
            proof {
                lemma_step_within(apart as int, total as int, step as int, count as int);
                lemma_product_fits(apart as int, total as int, step as int);
            }
            (total * step as i128) / parts
        } else {
            let total: i128 = (-apart) / unit;
            proof {
                lemma_step_within(-apart as int, total as int, step as int, count as int);
                lemma_product_fits(-apart as int, total as int, step as int);
            }
            -((total * step as i128) / parts)
        };
        assert(moved == step_seconds(
            whole_seconds_between(self@, end@),
            step as int,
            count as int,
        )) by {
            lemma_negated_product(
                quotient_toward_zero(-apart as int, NANOS_PER_SECOND as int),
                step as int,
            );
        }
        let seconds: i64 = (self.seconds as i128 + moved) as i64;
        Timestamp { seconds, nanos: self.nanos }
    }
}

/// Two valid timestamps at the same distance from the epoch are the same
/// timestamp.
pub proof fn lemma_instant_fixes_timestamp(a: Timestamp, b: Timestamp)
    requires
        a.is_valid(),
        b.is_valid(),
        a@ == b@,
    ensures
        a == b,
{
    lemma_split_instant(a.seconds as int, a.nanos as int);
    lemma_split_instant(b.seconds as int, b.nanos as int);
}

/// Dropping the fraction of a quotient moves it toward zero and by less than
/// one: the result times the divisor lies between zero and the dividend, and
/// is less than one divisor away from it.
pub proof fn lemma_quotient_toward_zero(a: int, b: int)
    requires
        b > 0,
    ensures
        a >= 0 ==> 0 <= quotient_toward_zero(a, b) * b <= a < quotient_toward_zero(a, b) * b + b,
        a <= 0 ==> a <= quotient_toward_zero(a, b) * b <= 0 && quotient_toward_zero(a, b) * b - b
            < a,
        a >= 0 ==> quotient_toward_zero(a, b) >= 0,
        a <= 0 ==> quotient_toward_zero(a, b) <= 0,
{
    let size = if a >= 0 {
        a
    } else {
        -a
    };
    vstd::arithmetic::div_mod::lemma_fundamental_div_mod(size, b);
    vstd::arithmetic::div_mod::lemma_mod_bound(size, b);
    let q = size / b;
    if a < 0 {
        assert((-q) * b == -(q * b)) by (nonlinear_arith);
    }
}

/// An inserted time never leaves the interval: it lies between the time of
/// the start and the time of the end, whichever of the two is the earlier.
pub proof fn lemma_step_stays_in_interval(start: int, end: int, step: int, count: int)
    requires
        0 <= count,
        0 <= step <= count + 1,
    ensures
        start <= end ==> start <= instant_at_step(start, end, step, count) <= end,
        end <= start ==> end <= instant_at_step(start, end, step, count) <= start,
{
    let unit = NANOS_PER_SECOND as int;
    let parts = count + 1;
    let total = whole_seconds_between(start, end);
    let moved = step_seconds(total, step, count);
    lemma_quotient_toward_zero(end - start, unit);
    lemma_quotient_toward_zero(total * step, parts);
    if start <= end {
        assert(0 <= total * step <= total * parts) by (nonlinear_arith)
            requires
                0 <= total,
                0 <= step <= parts,
        ;
        assert(0 <= moved <= total) by (nonlinear_arith)
            requires
                0 <= moved * parts <= total * step,
                total * step <= total * parts,
                parts > 0,
        ;
    } else {
        assert(total * parts <= total * step <= 0) by (nonlinear_arith)
            requires
                total <= 0,
                0 <= step <= parts,
        ;
        assert(total <= moved <= 0) by (nonlinear_arith)
            requires
                total * step <= moved * parts <= 0,
                total * parts <= total * step,
                parts > 0,
        ;
    }
}

/// Where the whole seconds of the interval divide evenly among the steps, the
/// inserted times are evenly spaced: each step adds the same number of
/// seconds.
pub proof fn lemma_even_steps(start: int, end: int, step: int, count: int, each: int)
    requires
        0 <= step,
        0 <= count,
        whole_seconds_between(start, end) == each * (count + 1),
    ensures
        instant_at_step(start, end, step, count) == start + each * step * NANOS_PER_SECOND,
{
    let parts = count + 1;
    let total = whole_seconds_between(start, end);
    if total * step >= 0 {
        assert(total * step == parts * (each * step)) by (nonlinear_arith)
            requires
                total == each * parts,
        ;
        vstd::arithmetic::div_mod::lemma_div_multiples_vanish(each * step, parts);
    } else {
        assert(-(total * step) == parts * (-(each * step))) by (nonlinear_arith)
            requires
                total == each * parts,
        ;
        vstd::arithmetic::div_mod::lemma_div_multiples_vanish(-(each * step), parts);
    }
}

/// Seconds and nanoseconds are recovered from their sum by division.
proof fn lemma_split_instant(seconds: int, nanos: int)
    requires
        0 <= nanos < NANOS_PER_SECOND,
    ensures
        (seconds * NANOS_PER_SECOND + nanos) / (NANOS_PER_SECOND as int) == seconds,
        (seconds * NANOS_PER_SECOND + nanos) % (NANOS_PER_SECOND as int) == nanos,
{
    vstd::arithmetic::div_mod::lemma_fundamental_div_mod_converse(
        seconds * NANOS_PER_SECOND + nanos,
        NANOS_PER_SECOND as int,
        seconds,
        nanos,
    );
}

/// For an interval of `apart >= 0` nanoseconds that holds `total` whole
/// seconds, the seconds of any step stay between zero and `total`, and so
/// within the interval.
proof fn lemma_step_within(apart: int, total: int, step: int, count: int)
    requires
        apart >= 0,
        total == apart / (NANOS_PER_SECOND as int),
        0 <= count,
        0 <= step <= count + 1,
    ensures
        0 <= total,
        total * NANOS_PER_SECOND <= apart,
        0 <= total * step,
        0 <= (total * step) / (count + 1) <= total,
        ((total * step) / (count + 1)) * NANOS_PER_SECOND <= apart,
{
    let unit = NANOS_PER_SECOND as int;
    vstd::arithmetic::div_mod::lemma_fundamental_div_mod(apart, unit);
    vstd::arithmetic::div_mod::lemma_mod_bound(apart, unit);
    let scaled = total * step;
    let parts = count + 1;
    assert(0 <= scaled <= total * parts) by (nonlinear_arith)
        requires
            scaled == total * step,
            0 <= total,
            0 <= step <= parts,
    ;
    vstd::arithmetic::div_mod::lemma_fundamental_div_mod(scaled, parts);
    vstd::arithmetic::div_mod::lemma_mod_bound(scaled, parts);
    let moved = scaled / parts;
    assert(0 <= moved <= total) by (nonlinear_arith)
        requires
            scaled == parts * moved + scaled % parts,
            0 <= scaled % parts < parts,
            0 <= scaled <= total * parts,
            parts > 0,
    ;
}

/// The product of the whole seconds of an interval and a step number stays
/// far below the largest 128-bit number.
proof fn lemma_product_fits(apart: int, total: int, step: int)
    requires
        0 <= apart <= 0x1_0000_0000_0000_0000 * NANOS_PER_SECOND,
        0 <= total,
        total * NANOS_PER_SECOND <= apart,
        0 <= step <= i32::MAX,
    ensures
        0 <= total * step <= 0x1_0000_0000_0000_0000 * 0x8000_0000,
{
    assert(0 <= total * step <= 0x1_0000_0000_0000_0000 * 0x8000_0000) by (nonlinear_arith)
        requires
            0 <= total,
            total * 1_000_000_000 <= 0x1_0000_0000_0000_0000 * 1_000_000_000,
            0 <= step <= 0x7fff_ffff,
    ;
}

/// Negating one factor negates the product.
proof fn lemma_negated_product(a: int, b: int)
    ensures
        (-a) * b == -(a * b),
{
    assert((-a) * b == -(a * b)) by (nonlinear_arith);
}

} // verus!
