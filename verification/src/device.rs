//! Brightness arithmetic and the text format of the device nodes.
//!
//! Illuminance is carried as an integer number of thousandths of a lux, and
//! the position inside a transition as a step index out of a step count, so
//! that every quantity here is an exact integer.

use crate::error::{LumdError, ParseFailure};
use crate::text::{trim, trimmed};
use vstd::arithmetic::div_mod::{
    lemma_div_is_ordered, lemma_div_pos_is_pos, lemma_fundamental_div_mod_converse,
};
use vstd::prelude::*;
use vstd::string::StringExecFns;

verus! {

/// The illuminance that calls for full brightness, a thousand lux, in
/// thousandths of a lux.
pub const FULL_SCALE: i64 = 1_000_000;

/// `x` limited from below by `lo`, and otherwise from above by `hi`.
pub open spec fn clamp(x: int, lo: int, hi: int) -> int {
    if x < lo {
        lo
    } else if x > hi {
        hi
    } else {
        x
    }
}

/// The brightness that an illuminance calls for: the share of `max` that
/// the illuminance is of a thousand lux, without its fraction, kept within
/// `1..=max`.
pub open spec fn lux_brightness(millilux: int, max: int) -> int {
    clamp((millilux * max) / (FULL_SCALE as int), 1, max)
}

/// The nearest integer to `n / d`, a tie going away from zero.
pub open spec fn round_div(n: int, d: int) -> int
    recommends
        d > 0,
{
    if n >= 0 {
        (2 * n + d) / (2 * d)
    } else {
        -((d - 2 * n) / (2 * d))
    }
}

/// The fraction `step / steps` limited to the unit interval, as a numerator
/// over `steps`.
pub open spec fn unit_step(step: int, steps: int) -> int {
    clamp(step, 0, steps)
}

/// Linear interpolation from `a` to `b` at `step / steps`, rounded to the
/// nearest integer.
pub open spec fn lerp_spec(a: int, b: int, step: int, steps: int) -> int
    recommends
        steps > 0,
{
    round_div(a * steps + (b - a) * unit_step(step, steps), steps)
}

/// Rounding a whole quotient gives that quotient.
pub proof fn lemma_round_div_exact(q: int, d: int)
    requires
        d > 0,
    ensures
        round_div(q * d, d) == q,
{
    if q >= 0 {
        assert(q * d >= 0) by (nonlinear_arith)
            requires
                q >= 0,
                d > 0,
        ;
        assert(2 * (q * d) + d == q * (2 * d) + d) by (nonlinear_arith);
        lemma_fundamental_div_mod_converse(2 * (q * d) + d, 2 * d, q, d);
    } else {
        assert(q * d < 0) by (nonlinear_arith)
            requires
                q < 0,
                d > 0,
        ;
        assert(d - 2 * (q * d) == (-q) * (2 * d) + d) by (nonlinear_arith);
        lemma_fundamental_div_mod_converse(d - 2 * (q * d), 2 * d, -q, d);
    }
}

/// Rounding keeps the order of the numerators.
pub proof fn lemma_round_div_ordered(n1: int, n2: int, d: int)
    requires
        d > 0,
        n1 <= n2,
    ensures
        round_div(n1, d) <= round_div(n2, d),
{
    if n1 >= 0 {
        lemma_div_is_ordered(2 * n1 + d, 2 * n2 + d, 2 * d);
    } else if n2 < 0 {
        lemma_div_is_ordered(d - 2 * n2, d - 2 * n1, 2 * d);
    } else {
        lemma_div_pos_is_pos(d - 2 * n1, 2 * d);
        lemma_div_pos_is_pos(2 * n2 + d, 2 * d);
    }
}

/// Interpolation starts at `a` and ends at `b`.
pub proof fn lemma_lerp_endpoints(a: int, b: int, steps: int)
    requires
        steps > 0,
    ensures
        lerp_spec(a, b, 0, steps) == a,
        lerp_spec(a, b, steps, steps) == b,
{
    assert((b - a) * 0 == 0);
    assert(a * steps + (b - a) * steps == b * steps) by (nonlinear_arith);
    lemma_round_div_exact(a, steps);
    lemma_round_div_exact(b, steps);
}

/// Interpolation from a lower to a higher value never falls as the step grows.
pub proof fn lemma_lerp_monotonic(a: int, b: int, s1: int, s2: int, steps: int)
    requires
        steps > 0,
        a <= b,
        s1 <= s2,
    ensures
        lerp_spec(a, b, s1, steps) <= lerp_spec(a, b, s2, steps),
{
    let t1 = unit_step(s1, steps);
    let t2 = unit_step(s2, steps);
    assert((b - a) * t1 <= (b - a) * t2) by (nonlinear_arith)
        requires
            a <= b,
            t1 <= t2,
    ;
    lemma_round_div_ordered(a * steps + (b - a) * t1, a * steps + (b - a) * t2, steps);
}

/// Interpolation from a higher to a lower value never rises as the step grows.
pub proof fn lemma_lerp_antitonic(a: int, b: int, s1: int, s2: int, steps: int)
    requires
        steps > 0,
        a >= b,
        s1 <= s2,
    ensures
        lerp_spec(a, b, s1, steps) >= lerp_spec(a, b, s2, steps),
{
    let t1 = unit_step(s1, steps);
    let t2 = unit_step(s2, steps);
    assert((b - a) * t1 >= (b - a) * t2) by (nonlinear_arith)
        requires
            a >= b,
            t1 <= t2,
    ;
    lemma_round_div_ordered(a * steps + (b - a) * t2, a * steps + (b - a) * t1, steps);
}

/// Every interpolated value lies between the two ends.
pub proof fn lemma_lerp_between(a: int, b: int, step: int, steps: int)
    requires
        steps > 0,
    ensures
        a <= b ==> a <= lerp_spec(a, b, step, steps) <= b,
        b <= a ==> b <= lerp_spec(a, b, step, steps) <= a,
{
    let t = unit_step(step, steps);
    assert(lerp_spec(a, b, step, steps) == lerp_spec(a, b, t, steps));
    lemma_lerp_endpoints(a, b, steps);
    if a <= b {
        lemma_lerp_monotonic(a, b, 0, t, steps);
        lemma_lerp_monotonic(a, b, t, steps, steps);
    }
    if b <= a {
        lemma_lerp_antitonic(a, b, 0, t, steps);
        lemma_lerp_antitonic(a, b, t, steps, steps);
    }
}

/// Converts an illuminance, in thousandths of a lux, to a brightness level.
pub fn lux_to_brightness(millilux: i64, max_brightness: i32) -> (brightness: i32)
    requires
        max_brightness >= 1,
    ensures
        brightness == lux_brightness(millilux as int, max_brightness as int),
        1 <= brightness <= max_brightness,
{
    if millilux <= 0 {
        proof {
            assert(millilux * max_brightness <= 0) by (nonlinear_arith)
                requires
                    millilux <= 0,
                    max_brightness >= 1,
            ;
            lemma_div_is_ordered(millilux * max_brightness, 0, FULL_SCALE as int);
        }
        return 1;
    }
    assert(0 <= millilux * max_brightness <= 0x7fff_ffff_ffff_ffff * 0x7fff_ffff)
        by (nonlinear_arith)
        requires
            0 < millilux <= 0x7fff_ffff_ffff_ffff,
            1 <= max_brightness <= 0x7fff_ffff,
    ;
    let scaled: i128 = (millilux as i128) * (max_brightness as i128) / (FULL_SCALE as i128);
    if scaled < 1 {
        1
    } else if scaled > max_brightness as i128 {
        max_brightness
    } else {
        scaled as i32
    }
}

/// Interpolates from `a` to `b` at `step` out of `steps`, rounding to the
/// nearest level; a step beyond `steps` counts as the last.
pub fn lerp(a: i32, b: i32, step: u32, steps: u32) -> (value: i32)
    requires
        steps > 0,
    ensures
        value == lerp_spec(a as int, b as int, step as int, steps as int),
        a <= b ==> a <= value <= b,
        b <= a ==> b <= value <= a,
{
    let t: i128 = if step > steps {
        steps as i128
    } else {
        step as i128
    };
    let d: i128 = steps as i128;
    assert(-0x8000_0000 * 0x1_0000_0000 <= a * d <= 0x8000_0000 * 0x1_0000_0000)
        by (nonlinear_arith)
        requires
            -0x8000_0000 <= a <= 0x8000_0000,
            0 < d <= 0x1_0000_0000,
    ;
    assert(-0x1_0000_0000 * 0x1_0000_0000 <= (b - a) * t <= 0x1_0000_0000 * 0x1_0000_0000)
        by (nonlinear_arith)
        requires
            -0x1_0000_0000 <= b - a <= 0x1_0000_0000,
            0 <= t <= 0x1_0000_0000,
    ;
    let n: i128 = (a as i128) * d + ((b as i128) - (a as i128)) * t;
    let rounded: i128 = if n >= 0 {
        (2 * n + d) / (2 * d)
    } else {
        -((d - 2 * n) / (2 * d))
    };
    proof {
        lemma_lerp_between(a as int, b as int, step as int, steps as int);
        if n < 0 {
            lemma_div_pos_is_pos(d - 2 * n, 2 * d);
        }
    }
    rounded as i32
}

/// An ASCII decimal digit.
pub open spec fn is_digit(b: u8) -> bool {
    0x30 <= b <= 0x39
}

/// Whether `s` holds decimal digits only.
pub open spec fn all_digits(s: Seq<u8>) -> bool {
    forall|i: int| 0 <= i < s.len() ==> is_digit(#[trigger] s[i])
}

/// The number that a string of decimal digits writes.
pub open spec fn decimal_value(s: Seq<u8>) -> nat
    decreases s.len(),
{
    if s.len() == 0 {
        0
    } else {
        decimal_value(s.drop_last()) * 10 + (s.last() - 0x30) as nat
    }
}

/// Whether `s` opens with a minus sign.
pub open spec fn has_minus(s: Seq<u8>) -> bool {
    s.len() > 0 && s[0] == 0x2D
}

/// Whether `s` opens with a plus or a minus sign.
pub open spec fn has_sign(s: Seq<u8>) -> bool {
    s.len() > 0 && (s[0] == 0x2B || s[0] == 0x2D)
}

/// `s` after its sign, if it has one.
pub open spec fn unsigned_part(s: Seq<u8>) -> Seq<u8> {
    if has_sign(s) {
        s.skip(1)
    } else {
        s
    }
}

/// The number of decimal digits with which `s` begins.
pub open spec fn digit_run(s: Seq<u8>) -> nat
    decreases s.len(),
{
    if s.len() > 0 && is_digit(s[0]) {
        1 + digit_run(s.skip(1))
    } else {
        0
    }
}

/// The largest magnitude that fits in 32 bits under a sign.
pub open spec fn magnitude_limit(negative: bool) -> int {
    if negative {
        0x8000_0000
    } else {
        0x7fff_ffff
    }
}

/// The integer that `s` writes: an optional sign, then one decimal digit or
/// more, and a value that fits in 32 bits. The text is read from the left,
/// and the failure is the first that is met: digits that run out of range
/// before a character that is no digit count as an overflow.
pub open spec fn parse_decimal(s: Seq<u8>) -> Result<i32, ParseFailure> {
    let body = unsigned_part(s);
    let run = body.take(digit_run(body) as int);
    if s.len() == 0 {
        Err(ParseFailure::Empty)
    } else if body.len() == 0 {
        Err(ParseFailure::InvalidDigit)
    } else if decimal_value(run) > magnitude_limit(has_minus(s)) {
        Err(
            if has_minus(s) {
                ParseFailure::NegOverflow
            } else {
                ParseFailure::PosOverflow
            },
        )
    } else if run.len() < body.len() {
        Err(ParseFailure::InvalidDigit)
    } else if has_minus(s) {
        Ok((-decimal_value(run)) as i32)
    } else {
        Ok(decimal_value(run) as i32)
    }
}

/// The decimal digits of `n`, without leading zeros.
pub open spec fn digits_of(n: nat) -> Seq<u8>
    decreases n,
{
    if n < 10 {
        seq![(0x30 + n) as u8]
    } else {
        digits_of(n / 10).push((0x30 + n % 10) as u8)
    }
}

/// The decimal text of `value`: a minus sign where it is negative, then the
/// digits of its magnitude.
pub open spec fn decimal_text(value: int) -> Seq<u8> {
    if value < 0 {
        seq![0x2Du8] + digits_of((-value) as nat)
    } else {
        digits_of(value as nat)
    }
}

/// What a node that holds `content` reads as: the integer written between
/// the white space at its two ends.
pub open spec fn node_value(content: Seq<u8>) -> Result<i32, LumdError> {
    match parse_decimal(trimmed(content)) {
        Ok(value) => Ok(value),
        Err(failure) => Err(LumdError::Parse(failure)),
    }
}

/// A longer string of digits writes no smaller number than its beginning.
pub proof fn lemma_decimal_value_grows(s: Seq<u8>, k: int)
    requires
        all_digits(s),
        0 <= k <= s.len(),
    ensures
        decimal_value(s.take(k)) <= decimal_value(s),
    decreases s.len() - k,
{
    if k == s.len() {
        assert(s.take(k) =~= s);
    } else {
        assert(s.take(k + 1).drop_last() =~= s.take(k));
        assert(is_digit(s[k]));
        assert(s.take(k + 1).last() == s[k]);
        lemma_decimal_value_grows(s, k + 1);
    }
}

/// The digits with which a text begins are digits, and what follows them,
/// if anything, is none.
pub proof fn lemma_digit_run(s: Seq<u8>)
    ensures
        digit_run(s) <= s.len(),
        all_digits(s.take(digit_run(s) as int)),
        digit_run(s) < s.len() ==> !is_digit(s[digit_run(s) as int]),
    decreases s.len(),
{
    if s.len() > 0 && is_digit(s[0]) {
        let rest = s.skip(1);
        lemma_digit_run(rest);
        let run = s.take(digit_run(s) as int);
        assert forall|i: int| 0 <= i < run.len() implies is_digit(#[trigger] run[i]) by {
            if i > 0 {
                assert(run[i] == rest.take(digit_run(rest) as int)[i - 1]);
            }
        }
        if digit_run(s) < s.len() {
            assert(s[digit_run(s) as int] == rest[digit_run(rest) as int]);
        }
    }
}

/// A text that holds digits up to a place, and none at that place, begins
/// with exactly that many digits.
pub proof fn lemma_digit_run_is(s: Seq<u8>, i: int)
    requires
        0 <= i <= s.len(),
        forall|k: int| 0 <= k < i ==> is_digit(#[trigger] s[k]),
        i < s.len() ==> !is_digit(s[i]),
    ensures
        digit_run(s) == i,
{
    lemma_digit_run(s);
    let r = digit_run(s) as int;
    if r < i {
        assert(is_digit(s[r]));
    }
    if r > i {
        assert(s.take(r)[i] == s[i]);
    }
}

/// The digits of a number are digits, and they write that number.
pub proof fn lemma_digits_of(n: nat)
    ensures
        digits_of(n).len() > 0,
        all_digits(digits_of(n)),
        decimal_value(digits_of(n)) == n,
    decreases n,
{
    if n < 10 {
        let s = digits_of(n);
        assert(s.drop_last() =~= Seq::<u8>::empty());
        assert(decimal_value(s.drop_last()) == 0);
    } else {
        lemma_digits_of(n / 10);
        let s = digits_of(n);
        assert(s.drop_last() =~= digits_of(n / 10));
    }
}

/// What is written for a value reads back as that value.
pub proof fn lemma_decimal_round_trip(value: i32)
    ensures
        parse_decimal(decimal_text(value as int)) == Ok::<i32, ParseFailure>(value),
        trimmed(decimal_text(value as int)) == decimal_text(value as int),
{
    let text = decimal_text(value as int);
    let magnitude: nat = if value < 0 {
        (-value) as nat
    } else {
        value as nat
    };
    lemma_digits_of(magnitude);
    let digits = digits_of(magnitude);
    assert(is_digit(digits[0]));
    assert(is_digit(digits.last()));
    lemma_digit_run_is(digits, digits.len() as int);
    assert(digits.take(digits.len() as int) =~= digits);
    if value < 0 {
        assert(text.skip(1) =~= digits);
        assert(text.last() == digits.last());
    } else {
        assert(text == digits);
    }
    assert(crate::text::leading_space(text) == 0);
    assert(crate::text::trailing_space(text) == 0);
}

fn scan_digits(s: &[u8], from: usize, negative: bool) -> (value: Result<i64, ParseFailure>)
    requires
        from < s.len(),
    ensures
        ({
            let body = s@.skip(from as int);
            let run = body.take(digit_run(body) as int);
            if decimal_value(run) > magnitude_limit(negative) {
                value == Err::<i64, ParseFailure>(
                    if negative {
                        ParseFailure::NegOverflow
                    } else {
                        ParseFailure::PosOverflow
                    },
                )
            } else if run.len() < body.len() {
                value == Err::<i64, ParseFailure>(ParseFailure::InvalidDigit)
            } else {
                value == Ok::<i64, ParseFailure>(decimal_value(run) as i64)
            }
        }),
{
    let ghost body = s@.skip(from as int);
    let limit: i64 = if negative {
        0x8000_0000
    } else {
        0x7fff_ffff
    };
    let mut value: i64 = 0;
    let mut i: usize = from;
    assert(body.take(0) =~= Seq::<u8>::empty());
    while i < s.len()
        invariant
            from <= i <= s.len(),
            body == s@.skip(from as int),
            limit == magnitude_limit(negative),
            forall|k: int| 0 <= k < i - from ==> is_digit(#[trigger] body[k]),
            0 <= value <= limit,
            value == decimal_value(body.take(i - from)),
        decreases s.len() - i,
    {
        assert(body[i - from] == s@[i as int]);
        if !(0x30 <= s[i] && s[i] <= 0x39) {
            proof {
                lemma_digit_run_is(body, i - from);
            }
            return Err(ParseFailure::InvalidDigit);
        }
        proof {
            assert(body.take(i - from + 1).drop_last() =~= body.take(i - from));
            assert(body.take(i - from + 1).last() == s@[i as int]);
        }
        value = value * 10 + (s[i] - 0x30) as i64;
        if value > limit {
            proof {
                lemma_digit_run(body);
                let r = digit_run(body) as int;
                if r < i - from + 1 {
                    assert(is_digit(body[r]));
                }
                let run = body.take(r);
                assert(run.take(i - from + 1) =~= body.take(i - from + 1));
                lemma_decimal_value_grows(run, i - from + 1);
            }
            return Err(
                if negative {
                    ParseFailure::NegOverflow
                } else {
                    ParseFailure::PosOverflow
                },
            );
        }
        i = i + 1;
    }
    proof {
        lemma_digit_run_is(body, body.len() as int);
    }
    Ok(value)
}

/// Reads a decimal integer of 32 bits from `s`.
pub fn parse_i32(s: &[u8]) -> (result: Result<i32, ParseFailure>)
    ensures
        result == parse_decimal(s@),
{
    if s.len() == 0 {
        return Err(ParseFailure::Empty);
    }
    let negative = s[0] == 0x2D;
    let start: usize = if s[0] == 0x2B || s[0] == 0x2D {
        1
    } else {
        0
    };
    assert(s@.skip(start as int) =~= unsigned_part(s@));
    if start == s.len() {
        return Err(ParseFailure::InvalidDigit);
    }
    match scan_digits(s, start, negative) {
        Ok(value) => Ok(
            if negative {
                (-value) as i32
            } else {
                value as i32
            },
        ),
        Err(failure) => Err(failure),
    }
}

/// Reads the integer that a node's content holds.
pub fn read_i32(content: &[u8]) -> (result: Result<i32, LumdError>)
    ensures
        result == node_value(content@),
{
    match parse_i32(trim(content)) {
        Ok(value) => Ok(value),
        Err(failure) => Err(LumdError::Parse(failure)),
    }
}

/// Reads the highest brightness from the content of the backlight's
/// `max_brightness` node.
pub fn read_max_brightness(content: &[u8]) -> (result: Result<i32, LumdError>)
    ensures
        result == node_value(content@),
{
    read_i32(content)
}

/// Reads the brightness shown from the content of the backlight's
/// `brightness` node.
pub fn read_brightness(content: &[u8]) -> (result: Result<i32, LumdError>)
    ensures
        result == node_value(content@),
{
    read_i32(content)
}

fn push_digits(n: u32, out: &mut Vec<u8>)
    ensures
        final(out)@ == old(out)@ + digits_of(n as nat),
    decreases n,
{
    if n < 10 {
        out.push(0x30 + n as u8);
        assert(final(out)@ =~= old(out)@ + digits_of(n as nat));
    } else {
        push_digits(n / 10, out);
        out.push(0x30 + (n % 10) as u8);
        assert(final(out)@ =~= old(out)@ + digits_of(n as nat));
    }
}

/// Writes the content that sets the backlight's `brightness` node to
/// `value`: its decimal text.
pub fn set_brightness(value: i32) -> (content: Vec<u8>)
    ensures
        content@ == decimal_text(value as int),
        node_value(content@) == Ok::<i32, LumdError>(value),
{
    let mut content: Vec<u8> = Vec::new();
    if value < 0 {
        content.push(0x2D);
        push_digits((-(value as i64)) as u32, &mut content);
    } else {
        push_digits(value as u32, &mut content);
    }
    proof {
        assert(content@ =~= decimal_text(value as int));
        lemma_decimal_round_trip(value);
    }
    content
}

/// What is known of one entry of the directory of backlights.
#[derive(Clone, Copy, Debug, PartialEq, Eq, Structural)]
pub struct BacklightEntry {
    /// Whether it holds a `brightness` node.
    pub has_brightness: bool,
    /// Whether it holds a `max_brightness` node.
    pub has_max_brightness: bool,
}

/// What is known of one entry of the directory of sensors.
#[derive(Clone, Copy, Debug, PartialEq, Eq, Structural)]
pub struct SensorEntry {
    /// Whether it is a directory.
    pub is_dir: bool,
    /// Whether it holds an `in_illuminance_raw` node.
    pub has_raw: bool,
    /// Whether it holds an `in_illuminance_scale` node.
    pub has_scale: bool,
}

impl BacklightEntry {
    /// Whether the entry is a backlight: it holds both nodes.
    pub open spec fn usable(self) -> bool {
        self.has_brightness && self.has_max_brightness
    }
}

impl SensorEntry {
    /// Whether the entry is an illuminance sensor: a directory that holds
    /// both nodes.
    pub open spec fn usable(self) -> bool {
        self.is_dir && self.has_raw && self.has_scale
    }
}

/// Picks the backlight among the entries of a directory: the first that
/// holds both nodes.
pub fn find_backlight_device(entries: &[BacklightEntry]) -> (found: Result<usize, LumdError>)
    ensures
        match found {
            Ok(i) => i < entries@.len() && entries@[i as int].usable() && forall|k: int|
                0 <= k < i ==> !(#[trigger] entries@[k]).usable(),
            Err(e) => e is DeviceNotFound && e->DeviceNotFound_0@ == "No backlight device found"@
                && forall|k: int| 0 <= k < entries@.len() ==> !(#[trigger] entries@[k]).usable(),
        },
{
    let mut i: usize = 0;
    while i < entries.len()
        invariant
            i <= entries@.len(),
            forall|k: int| 0 <= k < i ==> !(#[trigger] entries@[k]).usable(),
        decreases entries.len() - i,
    {
        if entries[i].has_brightness && entries[i].has_max_brightness {
            return Ok(i);
        }
        i = i + 1;
    }
    Err(LumdError::DeviceNotFound(String::from_str("No backlight device found")))
}

/// Picks the illuminance sensor among the entries of a directory: the first
/// directory that holds both nodes.
pub fn find_illuminance_device(entries: &[SensorEntry]) -> (found: Result<usize, LumdError>)
    ensures
        match found {
            Ok(i) => i < entries@.len() && entries@[i as int].usable() && forall|k: int|
                0 <= k < i ==> !(#[trigger] entries@[k]).usable(),
            Err(e) => e is DeviceNotFound && e->DeviceNotFound_0@
                == "No IIO illuminance device found"@ && forall|k: int|
                0 <= k < entries@.len() ==> !(#[trigger] entries@[k]).usable(),
        },
{
    let mut i: usize = 0;
    while i < entries.len()
        invariant
            i <= entries@.len(),
            forall|k: int| 0 <= k < i ==> !(#[trigger] entries@[k]).usable(),
        decreases entries.len() - i,
    {
        if entries[i].is_dir && entries[i].has_raw && entries[i].has_scale {
            return Ok(i);
        }
        i = i + 1;
    }
    Err(LumdError::DeviceNotFound(String::from_str("No IIO illuminance device found")))
}

} // verus!
