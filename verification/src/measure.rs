//! A measured number, as exact as a single-precision value is.
//!
//! Sensors and percentages in this product are fractions. A reading is held as
//! an integer count of thousandths and stands for the single-precision value
//! nearest to them. A number that a calculation gave, and that no count of
//! thousandths stands for, is held as a significand over a power of two, or, a
//! large one or the zero with a sign, as a whole number. The three values that
//! are no number of any kind are kept apart.

use vstd::prelude::*;

use crate::text;

verus! {

/// A measured number.
#[derive(Debug, Clone, Copy, PartialEq, Eq, Structural)]
pub enum Measured {
    /// The single-precision value nearest to so many thousandths.
    Finite { thousandths: i32 },
    /// `significand / 2^shift`, exactly.
    Binary { significand: i32, shift: u8 },
    /// A whole number, exactly. Zero, too, is written with the sign it has.
    Whole { negative: bool, magnitude: u128 },
    PositiveInfinity,
    NegativeInfinity,
    NotANumber,
}

/// `numerator / denominator` rounded to the nearest integer, halves to the even
/// one.
pub open spec fn half_even(numerator: int, denominator: int) -> int {
    let below = numerator / denominator;
    let twice_rest = 2 * (numerator % denominator);
    if twice_rest < denominator {
        below
    } else if twice_rest > denominator {
        below + 1
    } else if below % 2 == 0 {
        below
    } else {
        below + 1
    }
}

/// `numerator / denominator` rounded to the nearest integer, halves to the even
/// one.
pub fn round_half_even(numerator: u128, denominator: u128) -> (nearest: u128)
    requires
        numerator <= 0x8000_0000_0000_0000_0000_0000_0000_0000,
        0 < denominator <= 0x8000_0000_0000_0000_0000_0000_0000_0000,
    ensures
        nearest == half_even(numerator as int, denominator as int),
        nearest <= numerator / denominator + 1,
        nearest <= numerator,
{
    let below: u128 = numerator / denominator;
    let rest: u128 = numerator % denominator;
    assert(denominator >= 2 ==> 2 * below <= numerator) by (nonlinear_arith)
        requires
            below == numerator / denominator,
            denominator > 0,
    ;
    assert(denominator == 1 ==> below == numerator && rest == 0);
    assert(numerator == below * denominator + rest) by (nonlinear_arith)
        requires
            below == numerator / denominator,
            rest == numerator % denominator,
            denominator > 0,
    ;
    assert(below == 0 ==> below * denominator == 0) by (nonlinear_arith);
    if rest < denominator - rest {
        below
    } else if rest > denominator - rest {
        below + 1
    } else if below % 2 == 0 {
        below
    } else {
        below + 1
    }
}

/// `2^shift`.
pub open spec fn power(shift: nat) -> nat {
    vstd::arithmetic::power2::pow2(shift)
}

proof fn lemma_power(shift: nat)
    ensures
        power(shift) > 0,
        power(shift + 1) == 2 * power(shift),
{
    vstd::arithmetic::power2::lemma_pow2_pos(shift);
    vstd::arithmetic::power2::lemma_pow2_unfold(shift + 1);
}

proof fn lemma_powers()
    ensures
        power(0) == 1,
        power(16) == 0x1_0000,
        power(32) == 0x1_0000_0000,
        power(33) == 0x2_0000_0000,
        power(40) == 0x100_0000_0000,
        power(64) == 0x1_0000_0000_0000_0000,
        power(87) == 0x80_0000_0000_0000_0000_0000,
        power(104) == 0x100_0000_0000_0000_0000_0000_0000,
        power(127) == 0x8000_0000_0000_0000_0000_0000_0000_0000,
{
    vstd::arithmetic::power2::lemma2_to64();
    vstd::arithmetic::power2::lemma2_to64_rest();
    vstd::arithmetic::power2::lemma_pow2_adds(64, 23);
    vstd::arithmetic::power2::lemma_pow2_adds(64, 40);
    vstd::arithmetic::power2::lemma_pow2_adds(64, 63);
}

proof fn lemma_power_grows(low: nat, high: nat)
    requires
        low <= high,
    ensures
        power(low) <= power(high),
{
    if low < high {
        vstd::arithmetic::power2::lemma_pow2_strictly_increases(low, high);
    }
}

/// `2^shift`.
fn power_of(shift: u32) -> (value: u128)
    requires
        shift <= 127,
    ensures
        value == power(shift as nat),
        0 < value <= 0x8000_0000_0000_0000_0000_0000_0000_0000,
{
    let mut value: u128 = 1;
    let mut count: u32 = 0;
    proof {
        lemma_powers();
    }
    while count < shift
        invariant
            count <= shift <= 127,
            value == power(count as nat),
            power(127) == 0x8000_0000_0000_0000_0000_0000_0000_0000,
        decreases shift - count,
    {
        proof {
            lemma_power(count as nat);
            lemma_power_grows((count + 1) as nat, 127);
        }
        value = 2 * value;
        count = count + 1;
    }
    proof {
        lemma_power(shift as nat);
        lemma_power_grows(shift as nat, 127);
    }
    value
}

/// What the significand of a normal single-precision value starts at.
pub const SINGLE_START: u64 = 0x80_0000;

/// The smallest step of a single-precision value is two to the minus this.
pub const SINGLE_LIMIT: u32 = 149;

/// What the significand of a normal double-precision value starts at.
pub const DOUBLE_START: u64 = 0x10_0000_0000_0000;

/// The smallest step of a double-precision value is two to the minus this.
pub const DOUBLE_LIMIT: u32 = 1074;

/// `numerator / denominator / 2^shift` in binary floating point, as a
/// significand and the power of two it is over.
///
/// The numerator is doubled until the significand reaches `start`, and no
/// further than the smallest step allows. The significand is then rounded to an
/// integer, halves to the even one.
pub open spec fn rounded_from(
    numerator: nat,
    denominator: nat,
    shift: nat,
    start: nat,
    limit: nat,
) -> (int, nat)
    decreases 2 * (start * denominator) - numerator,
{
    if numerator == 0 || numerator >= start * denominator || shift >= limit {
        (half_even(numerator as int, denominator as int), shift)
    } else {
        rounded_from(2 * numerator, denominator, shift + 1, start, limit)
    }
}

/// The nearest single-precision value to `numerator / denominator`.
pub open spec fn single_of(numerator: nat, denominator: nat) -> (int, nat) {
    rounded_from(numerator, denominator, 0, SINGLE_START as nat, SINGLE_LIMIT as nat)
}

/// The nearest double-precision value to `numerator / denominator`.
pub open spec fn double_of(numerator: nat, denominator: nat) -> (int, nat) {
    rounded_from(numerator, denominator, 0, DOUBLE_START as nat, DOUBLE_LIMIT as nat)
}

/// Rounding stays inside any whole bound on the number, its significand has no
/// more bits than it may, and it takes no more doublings than reach `start`.
proof fn lemma_rounded(
    numerator: nat,
    denominator: nat,
    shift: nat,
    start: nat,
    limit: nat,
    cap: nat,
    doublings: nat,
)
    requires
        denominator > 0,
        numerator <= cap * denominator,
        power(doublings) * numerator >= start * denominator,
    ensures
        ({
            let (significand, last) = rounded_from(numerator, denominator, shift, start, limit);
            &&& 0 <= significand
            &&& shift <= last <= shift + doublings
            &&& significand <= cap * power((last - shift) as nat)
        }),
    decreases 2 * (start * denominator) - numerator,
{
    lemma_powers();
    assert(cap * power(0) == cap);
    if numerator == 0 || numerator >= start * denominator || shift >= limit {
        let below = numerator as int / denominator as int;
        let rest = numerator as int % denominator as int;
        assert(0 <= below <= cap && (below == cap ==> rest == 0)) by (nonlinear_arith)
            requires
                0 <= numerator <= cap * denominator,
                denominator > 0,
                below == numerator as int / denominator as int,
                rest == numerator as int % denominator as int,
        ;
    } else {
        let more = 2 * numerator;
        assert(doublings > 0) by {
            if doublings == 0 {
                assert(power(0) * numerator == numerator);
            }
        }
        let fewer = (doublings - 1) as nat;
        lemma_power(fewer);
        assert(more <= (2 * cap) * denominator) by (nonlinear_arith)
            requires
                numerator <= cap * denominator,
                more == 2 * numerator,
        ;
        assert(power(fewer) * more == power(doublings) * numerator) by (nonlinear_arith)
            requires
                power(doublings) == 2 * power(fewer),
                more == 2 * numerator,
        ;
        lemma_rounded(more, denominator, shift + 1, start, limit, 2 * cap, fewer);
        let (significand, last) = rounded_from(numerator, denominator, shift, start, limit);
        let left = (last - shift - 1) as nat;
        lemma_power(left);
        assert((2 * cap) * power(left) == cap * power(left + 1)) by (nonlinear_arith)
            requires
                power(left + 1) == 2 * power(left),
        ;
    }
}

/// Rounding moves a number by no more than half a step, and a number below
/// `start` is doubled at least once.
proof fn lemma_rounded_near(
    numerator: nat,
    denominator: nat,
    shift: nat,
    start: nat,
    limit: nat,
)
    requires
        denominator > 0,
    ensures
        ({
            let (significand, last) = rounded_from(numerator, denominator, shift, start, limit);
            &&& 0 <= significand
            &&& shift <= last
            &&& 0 < numerator < start * denominator && shift < limit ==> shift < last
            &&& -denominator <= 2 * (significand * denominator - numerator * power(
                (last - shift) as nat,
            )) <= denominator
        }),
    decreases 2 * (start * denominator) - numerator,
{
    lemma_powers();
    if numerator == 0 || numerator >= start * denominator || shift >= limit {
        let below = numerator as int / denominator as int;
        let rest = numerator as int % denominator as int;
        vstd::arithmetic::div_mod::lemma_fundamental_div_mod(numerator as int, denominator as int);
        assert(below >= 0) by (nonlinear_arith)
            requires
                below == numerator as int / denominator as int,
                denominator > 0,
        ;
        assert(below * denominator == denominator * below) by (nonlinear_arith);
        assert((below + 1) * denominator == denominator * below + denominator) by (nonlinear_arith);
        assert(numerator * power(0) == numerator);
    } else {
        lemma_rounded_near(2 * numerator, denominator, shift + 1, start, limit);
        let (significand, last) = rounded_from(numerator, denominator, shift, start, limit);
        let left = (last - shift - 1) as nat;
        lemma_power(left);
        assert((2 * numerator) * power(left) == numerator * power(left + 1)) by (nonlinear_arith)
            requires
                power(left + 1) == 2 * power(left),
        ;
    }
}

/// A number that is no smaller than the smallest step is not rounded to zero.
proof fn lemma_rounded_positive(
    numerator: nat,
    denominator: nat,
    shift: nat,
    start: nat,
    limit: nat,
)
    requires
        denominator > 0,
        start > 0,
        shift <= limit,
        numerator > 0,
        numerator * power((limit - shift) as nat) >= denominator,
    ensures
        rounded_from(numerator, denominator, shift, start, limit).0 > 0,
    decreases 2 * (start * denominator) - numerator,
{
    lemma_powers();
    if numerator >= start * denominator || shift >= limit {
        assert(numerator * power(0) == numerator);
        assert(start * denominator >= denominator) by (nonlinear_arith)
            requires
                start > 0,
        ;
        assert(numerator as int / denominator as int >= 1) by (nonlinear_arith)
            requires
                numerator >= denominator > 0,
        ;
    } else {
        let left = (limit - shift - 1) as nat;
        lemma_power(left);
        assert((2 * numerator) * power(left) == numerator * power(left + 1)) by (nonlinear_arith)
            requires
                power(left + 1) == 2 * power(left),
        ;
        lemma_rounded_positive(2 * numerator, denominator, shift + 1, start, limit);
    }
}

/// Halving the denominator is doubling the numerator.
proof fn lemma_rounded_scaled(
    numerator: nat,
    denominator: nat,
    shift: nat,
    start: nat,
    limit: nat,
)
    requires
        denominator > 0,
    ensures
        rounded_from(2 * numerator, 2 * denominator, shift, start, limit) == rounded_from(
            numerator,
            denominator,
            shift,
            start,
            limit,
        ),
    decreases 2 * (start * denominator) - numerator,
{
    assert(start * (2 * denominator) == 2 * (start * denominator)) by (nonlinear_arith);
    if numerator == 0 || numerator >= start * denominator || shift >= limit {
        let below = numerator as int / denominator as int;
        let rest = numerator as int % denominator as int;
        vstd::arithmetic::div_mod::lemma_fundamental_div_mod(numerator as int, denominator as int);
        assert(2 * numerator == below * (2 * denominator) + 2 * rest) by (nonlinear_arith)
            requires
                numerator == denominator * below + rest,
        ;
        vstd::arithmetic::div_mod::lemma_fundamental_div_mod_converse(
            2 * numerator as int,
            2 * denominator as int,
            below,
            2 * rest,
        );
    } else {
        lemma_rounded_scaled(2 * numerator, denominator, shift + 1, start, limit);
    }
}

/// `numerator / denominator / 2^shift` in binary floating point.
fn round_ratio(numerator: u128, denominator: u128, shift: u32, start: u64, limit: u32) -> (value: (
    u128,
    u32,
))
    requires
        0 < start <= DOUBLE_START,
        limit <= DOUBLE_LIMIT,
        numerator <= 0x1_0000_0000_0000_0000,
        0 < denominator <= 0x1_0000_0000_0000_0000,
    ensures
        ({
            let expected = rounded_from(
                numerator as nat,
                denominator as nat,
                shift as nat,
                start as nat,
                limit as nat,
            );
            value.0 == expected.0 && value.1 == expected.1
        }),
        value.0 <= 2 * start || value.0 <= numerator / denominator + 1,
        value.1 <= shift || value.1 <= limit,
{
    let mut scaled: u128 = numerator;
    let mut last: u32 = shift;
    assert(0 <= start * denominator <= 0x10_0000_0000_0000 * 0x1_0000_0000_0000_0000)
        by (nonlinear_arith)
        requires
            0 < start <= 0x10_0000_0000_0000,
            0 < denominator <= 0x1_0000_0000_0000_0000,
    ;
    let reached: u128 = start as u128 * denominator;
    while 0 < scaled && scaled < reached && last < limit
        invariant
            reached == start * denominator,
            reached <= 0x10_0000_0000_0000 * 0x1_0000_0000_0000_0000,
            limit <= DOUBLE_LIMIT,
            scaled == numerator || scaled < 2 * reached,
            last <= shift || last <= limit,
            numerator <= 0x1_0000_0000_0000_0000,
            rounded_from(
                scaled as nat,
                denominator as nat,
                last as nat,
                start as nat,
                limit as nat,
            ) == rounded_from(
                numerator as nat,
                denominator as nat,
                shift as nat,
                start as nat,
                limit as nat,
            ),
        decreases 2 * reached - scaled,
    {
        scaled = 2 * scaled;
        last = last + 1;
    }
    let significand: u128 = round_half_even(scaled, denominator);
    if scaled < 2 * reached {
        assert(scaled / denominator < 2 * start) by (nonlinear_arith)
            requires
                scaled < 2 * (start * denominator),
                denominator > 0,
        ;
    }
    (significand, last)
}

/// `numerator / 2^shift` rounded to the nearest integer, halves to the even
/// one.
fn round_shifted(numerator: u128, shift: u32) -> (nearest: u128)
    requires
        numerator < 0x4000_0000_0000_0000_0000_0000_0000_0000,
    ensures
        nearest == half_even(numerator as int, power(shift as nat) as int),
        nearest <= numerator,
{
    if shift > 127 {
        proof {
            lemma_powers();
            lemma_power_grows(127, shift as nat);
            let unit = power(shift as nat) as int;
            assert(numerator as int / unit == 0 && numerator as int % unit == numerator)
                by (nonlinear_arith)
                requires
                    0 <= numerator < unit,
            ;
        }
        0
    } else {
        round_half_even(numerator, power_of(shift))
    }
}

/// `numerator / 2^shift` in binary floating point.
fn round_dyadic(numerator: u128, shift: u32, start: u64, limit: u32) -> (value: (u128, u32))
    requires
        0 < start <= DOUBLE_START,
        limit <= DOUBLE_LIMIT,
        numerator < 0x4000_0000_0000_0000_0000_0000_0000_0000,
    ensures
        ({
            let expected = rounded_from(
                numerator as nat,
                power(shift as nat),
                0,
                start as nat,
                limit as nat,
            );
            value.0 == expected.0 && value.1 == expected.1
        }),
        numerator < 2 * (start * power(shift as nat)) ==> value.0 <= 2 * start,
        value.1 > 0 ==> value.0 <= 2 * start,
        value.1 == 0 ==> value.0 <= numerator,
        value.1 <= limit,
{
    let mut scaled: u128 = numerator;
    let mut left: u32 = shift;
    let mut last: u32 = 0;
    let ghost whole = rounded_from(
        numerator as nat,
        power(shift as nat),
        0,
        start as nat,
        limit as nat,
    );
    loop
        invariant
            0 < start <= DOUBLE_START,
            limit <= DOUBLE_LIMIT,
            last <= limit,
            left <= shift,
            scaled < 0x4000_0000_0000_0000_0000_0000_0000_0000,
            numerator < 2 * (start * power(shift as nat)) ==> scaled < 2 * (start * power(
                left as nat,
            )),
            last > 0 ==> scaled < 2 * (start * power(left as nat)),
            last == 0 ==> scaled == numerator,
            rounded_from(scaled as nat, power(left as nat), last as nat, start as nat, limit as nat)
                == whole,
        ensures
            scaled == 0 || scaled >= start * power(left as nat) || last >= limit,
        decreases limit - last,
    {
        proof {
            lemma_power(left as nat);
        }
        if scaled == 0 || last >= limit {
            break;
        }
        if left > 127 {
            proof {
                lemma_powers();
                lemma_power_grows(127, left as nat);
                assert(start * power(left as nat) >= power(left as nat)) by (nonlinear_arith)
                    requires
                        start > 0,
                ;
            }
        } else {
            let unit: u128 = power_of(left);
            let reaches: bool = scaled / unit >= start as u128;
            assert(reaches <==> scaled >= start * unit) by (nonlinear_arith)
                requires
                    reaches <==> scaled as int / unit as int >= start,
                    unit > 0,
            ;
            if reaches {
                break;
            }
        }
        assert(scaled < start * power(left as nat));
        if left > 0 {
            proof {
                let half = power((left - 1) as nat);
                lemma_power((left - 1) as nat);
                lemma_rounded_scaled(
                    scaled as nat,
                    half,
                    (last + 1) as nat,
                    start as nat,
                    limit as nat,
                );
                assert(start * power(left as nat) == 2 * (start * half)) by (nonlinear_arith)
                    requires
                        power(left as nat) == 2 * half,
                ;
            }
            left = left - 1;
        } else {
            proof {
                lemma_powers();
                assert(start * power(0) == start);
            }
            scaled = 2 * scaled;
        }
        last = last + 1;
    }
    let significand: u128 = round_shifted(scaled, left);
    proof {
        if last > 0 || numerator < 2 * (start * power(shift as nat)) {
            let unit = power(left as nat);
            lemma_power(left as nat);
            assert(scaled as int / unit as int <= 2 * start - 1) by (nonlinear_arith)
                requires
                    scaled < 2 * (start * unit),
                    unit > 0,
            ;
        }
    }
    (significand, last)
}

/// The nearest single-precision value to a number of thousandths.
pub open spec fn single(thousandths: nat) -> (int, nat) {
    single_of(thousandths, 1000)
}

/// The nearest single-precision value to a number of thousandths.
fn to_single(thousandths: u32) -> (value: (u64, u32))
    requires
        thousandths <= 0x8000_0000,
    ensures
        value.0 == single(thousandths as nat).0,
        value.1 == single(thousandths as nat).1,
        value.0 <= 0x100_0000,
        value.1 <= 33,
{
    proof {
        lemma_powers();
        if thousandths > 0 {
            lemma_rounded(
                thousandths as nat,
                1000,
                0,
                SINGLE_START as nat,
                SINGLE_LIMIT as nat,
                thousandths as nat,
                33,
            );
        }
    }
    let value: (u128, u32) = round_ratio(thousandths as u128, 1000, 0, SINGLE_START, SINGLE_LIMIT);
    (value.0 as u64, value.1)
}

/// The step of the single-precision value nearest to a whole number: one up to
/// twenty-four bits, then the smallest power of two that leaves that many.
pub open spec fn whole_step(number: nat, step: nat) -> nat
    decreases number - step,
{
    if step == 0 || number < 0x100_0000 * step {
        step
    } else {
        whole_step(number, 2 * step)
    }
}

/// A whole number as the nearest single-precision value.
pub open spec fn whole_single(number: nat) -> nat {
    let step = whole_step(number, 1);
    (half_even(number as int, step as int) * step) as nat
}

/// A whole number as the nearest single-precision value.
pub fn to_whole_single(number: u64) -> (value: u128)
    ensures
        value == whole_single(number as nat),
        value <= 0x1_0000_0000_0000_0000,
        number > 0 ==> value > 0,
{
    let wide: u128 = number as u128;
    let mut step: u128 = 1;
    let ghost mut doublings: nat = 0;
    proof {
        lemma_powers();
    }
    while wide >= 0x100_0000 * step
        invariant
            wide == number,
            step == power(doublings),
            power(40) == 0x100_0000_0000,
            doublings <= 40,
            1 <= step <= 0x100_0000_0000,
            step == 1 || wide >= 0x80_0000 * step,
            whole_step(wide as nat, step as nat) == whole_step(wide as nat, 1),
        decreases 0x100_0000_0000 - step,
    {
        proof {
            if doublings >= 40 {
                lemma_power_grows(40, doublings);
            }
            lemma_power(doublings);
            doublings = doublings + 1;
            lemma_power_grows(doublings, 40);
        }
        step = 2 * step;
    }
    let significand: u128 = round_half_even(wide, step);
    proof {
        assert(significand <= 0x100_0000) by (nonlinear_arith)
            requires
                significand <= wide / step + 1,
                wide < 0x100_0000 * step,
                step > 0,
        ;
        assert(step > 1 ==> significand >= 0x80_0000) by (nonlinear_arith)
            requires
                significand >= wide / step,
                step > 1 ==> wide >= 0x80_0000 * step,
                step > 0,
        ;
        assert(step == 1 ==> significand == wide);
        assert(significand * step <= 0x100_0000 * 0x100_0000_0000) by (nonlinear_arith)
            requires
                0 <= significand <= 0x100_0000,
                0 < step <= 0x100_0000_0000,
        ;
        assert(number > 0 ==> significand * step > 0) by (nonlinear_arith)
            requires
                number > 0 ==> significand > 0,
                step > 0,
        ;
    }
    significand * step
}

/// The magnitude of a signed count.
pub open spec fn magnitude(count: i32) -> nat {
    if count < 0 {
        (-count) as nat
    } else {
        count as nat
    }
}

fn magnitude_of(count: i32) -> (size: u32)
    ensures
        size == magnitude(count),
        size <= 0x8000_0000,
{
    if count < 0 {
        (0 - count as i64) as u32
    } else {
        count as u32
    }
}

/// A number of tenths with its decimal point.
pub open spec fn tenths_text(tenths: nat) -> Seq<char> {
    text::decimal(tenths / 10) + "."@ + text::decimal(tenths % 10)
}

/// Append a number of tenths with its decimal point.
pub fn push_tenths(out: &mut String, tenths: u64)
    ensures
        final(out)@ == old(out)@ + tenths_text(tenths as nat),
{
    let ghost before = out@;
    text::push_decimal(out, tenths / 10);
    out.append(".");
    text::push_decimal(out, tenths % 10);
    assert(out@ =~= before + tenths_text(tenths as nat));
}

/// The sign a negative number is written with.
pub open spec fn sign_text(negative: bool) -> Seq<char> {
    if negative {
        "-"@
    } else {
        Seq::empty()
    }
}

/// The number `significand / 2^shift`: as the thousandths that stand for it,
/// where some do, and as it is otherwise.
pub open spec fn number(significand: nat, shift: nat) -> Measured {
    let thousandths = half_even(1000 * significand as int, power(shift) as int);
    let (nearest, last) = single(thousandths as nat);
    if thousandths <= i32::MAX && nearest * power(shift) == significand * power(last) {
        Measured::Finite { thousandths: thousandths as i32 }
    } else {
        Measured::Binary { significand: significand as i32, shift: shift as u8 }
    }
}

/// The number `significand / 2^shift`: as the thousandths that stand for it,
/// where some do, and as it is otherwise.
pub fn to_number(significand: u32, shift: u8) -> (value: Measured)
    requires
        significand <= 0x200_0000,
    ensures
        value == number(significand as nat, shift as nat),
        !value.negative(),
{
    let thousandths: u128 = round_shifted(1000 * significand as u128, shift as u32);
    proof {
        lemma_power(shift as nat);
        lemma_powers();
    }
    if thousandths > 0x7fff_ffff {
        return Measured::Binary { significand: significand as i32, shift };
    }
    let (nearest, last): (u64, u32) = to_single(thousandths as u32);
    let stands: bool = if shift > 64 {
        proof {
            lemma_power_grows(64, shift as nat);
            let unit = power(shift as nat) as int;
            let scaled = 1000 * significand as int;
            assert(scaled / unit == 0 && scaled % unit == scaled) by (nonlinear_arith)
                requires
                    0 <= scaled < unit,
            ;
            assert(thousandths == 0);
            assert(nearest == 0 && last == 0);
            assert(significand * power(0) == significand);
            assert(0 * power(shift as nat) == 0);
        }
        significand == 0
    } else {
        proof {
            lemma_power_grows(shift as nat, 64);
            lemma_power_grows(last as nat, 33);
            assert(nearest * power(shift as nat) <= 0x100_0000 * 0x1_0000_0000_0000_0000)
                by (nonlinear_arith)
                requires
                    0 <= nearest <= 0x100_0000,
                    0 <= power(shift as nat) <= 0x1_0000_0000_0000_0000,
            ;
            assert(significand * power(last as nat) <= 0x200_0000 * 0x2_0000_0000)
                by (nonlinear_arith)
                requires
                    0 <= significand <= 0x200_0000,
                    0 <= power(last as nat) <= 0x2_0000_0000,
            ;
        }
        nearest as u128 * power_of(shift as u32) == significand as u128 * power_of(last)
    };
    if stands {
        Measured::Finite { thousandths: thousandths as i32 }
    } else {
        Measured::Binary { significand: significand as i32, shift }
    }
}

/// `significand / 2^shift` times a hundred, as a single-precision product.
pub open spec fn hundredfold(significand: nat, shift: nat) -> Measured {
    let (product, last) = single_of(100 * significand, power(shift));
    number(product as nat, last)
}

/// The share `part / whole` as a percentage: a single-precision quotient, then
/// a single-precision product.
pub open spec fn percentage(part: nat, whole: nat) -> Measured {
    let (quotient, shift) = single_of(part, whole);
    hundredfold(quotient as nat, shift)
}

/// The share `part / whole` as a percentage.
pub fn to_percentage(part: u128, whole: u128) -> (percent: Measured)
    requires
        part <= whole,
        0 < whole <= 0x1_0000_0000_0000_0000,
    ensures
        percent == percentage(part as nat, whole as nat),
{
    proof {
        lemma_powers();
        if part > 0 {
            assert(power(87) * part >= SINGLE_START * whole) by (nonlinear_arith)
                requires
                    power(87) == 0x80_0000_0000_0000_0000_0000,
                    part >= 1,
                    whole <= 0x1_0000_0000_0000_0000,
                    SINGLE_START == 0x80_0000,
            ;
            lemma_rounded(
                part as nat,
                whole as nat,
                0,
                SINGLE_START as nat,
                SINGLE_LIMIT as nat,
                1,
                87,
            );
        }
    }
    let (quotient, shift): (u128, u32) = round_ratio(part, whole, 0, SINGLE_START, SINGLE_LIMIT);
    proof {
        lemma_power(shift as nat);
        if part > 0 {
            assert(1 * power(shift as nat) == power(shift as nat));
        }
        assert(quotient <= power(shift as nat));
        assert(100 * quotient < 2 * (SINGLE_START * power(shift as nat))) by (nonlinear_arith)
            requires
                0 <= quotient <= power(shift as nat),
                power(shift as nat) > 0,
                SINGLE_START == 0x80_0000,
        ;
    }
    let (product, last): (u128, u32) = round_dyadic(
        100 * quotient,
        shift,
        SINGLE_START,
        SINGLE_LIMIT,
    );
    to_number(product as u32, last as u8)
}

/// Whether `significand / 2^shift` is less than so many thousandths.
pub open spec fn is_below(significand: i32, shift: u8, thousandths: i32) -> bool {
    1000 * significand < thousandths * power(shift as nat)
}

fn below(significand: i32, shift: u8, thousandths: i32) -> (below: bool)
    ensures
        below == is_below(significand, shift, thousandths),
{
    proof {
        lemma_powers();
    }
    if shift > 64 {
        proof {
            lemma_power_grows(64, shift as nat);
            let unit = power(shift as nat) as int;
            assert(thousandths > 0 ==> thousandths * unit >= unit) by (nonlinear_arith)
                requires
                    unit > 0,
            ;
            assert(thousandths < 0 ==> thousandths * unit <= -unit) by (nonlinear_arith)
                requires
                    unit > 0,
            ;
            assert(thousandths == 0 ==> thousandths * unit == 0) by (nonlinear_arith);
        }
        thousandths > 0 || (thousandths == 0 && significand < 0)
    } else {
        let unit: u128 = power_of(shift as u32);
        proof {
            lemma_power_grows(shift as nat, 64);
            assert(-0x8000_0000 * 0x1_0000_0000_0000_0000 <= thousandths * unit <= 0x8000_0000
                * 0x1_0000_0000_0000_0000) by (nonlinear_arith)
                requires
                    -0x8000_0000 <= thousandths <= 0x7fff_ffff,
                    0 < unit <= 0x1_0000_0000_0000_0000,
            ;
        }
        1000 * (significand as i128) < thousandths as i128 * unit as i128
    }
}

/// A whole number with its sign.
pub open spec fn signed_whole(negative: bool, magnitude: u128) -> int {
    if negative {
        -(magnitude as int)
    } else {
        magnitude as int
    }
}

/// Whether a whole number is less than so many thousandths.
fn whole_below(negative: bool, magnitude: u128, thousandths: i32) -> (below: bool)
    ensures
        below == (1000 * signed_whole(negative, magnitude) < thousandths),
{
    if magnitude > 0x8000_0000 {
        negative
    } else {
        let size: i128 = 1000 * magnitude as i128;
        let value: i128 = if negative {
            -size
        } else {
            size
        };
        value < thousandths as i128
    }
}

/// Whether a whole number is more than so many thousandths.
fn whole_above(negative: bool, magnitude: u128, thousandths: i32) -> (above: bool)
    ensures
        above == (1000 * signed_whole(negative, magnitude) > thousandths),
{
    if magnitude > 0x8000_0000 {
        !negative
    } else {
        let size: i128 = 1000 * magnitude as i128;
        let value: i128 = if negative {
            -size
        } else {
            size
        };
        value > thousandths as i128
    }
}

/// `significand / 2^shift` to the nearest whole number, halves up.
pub open spec fn half_up(significand: int, shift: nat) -> int {
    (2 * significand + power(shift)) / (2 * power(shift) as int)
}

impl Measured {
    pub open spec fn finite(self) -> bool {
        self is Finite || self is Binary || self is Whole
    }

    /// Whether the number is written with a sign.
    pub open spec fn negative(self) -> bool {
        match self {
            Self::Finite { thousandths } => thousandths < 0,
            Self::Binary { significand, .. } => significand < 0,
            Self::Whole { negative, .. } => negative,
            Self::NegativeInfinity => true,
            _ => false,
        }
    }

    /// The magnitude of a finite number, as a significand over a power of two.
    pub open spec fn parts(self) -> (int, nat) {
        match self {
            Self::Finite { thousandths } => single(magnitude(thousandths)),
            Self::Binary { significand, shift } => (magnitude(significand) as int, shift as nat),
            Self::Whole { magnitude, .. } => (magnitude as int, 0),
            _ => (0, 0),
        }
    }

    fn to_parts(self) -> (parts: (u64, u32))
        requires
            self matches Self::Whole { magnitude, .. } ==> magnitude <= 0x8000_0000,
        ensures
            parts.0 == self.parts().0,
            parts.1 == self.parts().1,
            parts.0 <= 0x8000_0000,
            parts.1 <= 255,
    {
        match self {
            Self::Finite { thousandths } => to_single(magnitude_of(thousandths)),
            Self::Binary { significand, shift } => (magnitude_of(significand) as u64, shift as u32),
            Self::Whole { magnitude, .. } => (magnitude as u64, 0),
            _ => (0, 0),
        }
    }

    /// A number in words, rounded to tenths.
    pub open spec fn one_decimal_text(self) -> Seq<char> {
        match self {
            Self::PositiveInfinity => "inf"@,
            Self::NegativeInfinity => "-inf"@,
            Self::NotANumber => "NaN"@,
            _ => sign_text(self.negative()) + tenths_text(
                half_even(10 * self.parts().0, power(self.parts().1) as int) as nat,
            ),
        }
    }

    /// A number in words, rounded to whole numbers.
    pub open spec fn whole_text(self) -> Seq<char> {
        match self {
            Self::PositiveInfinity => "inf"@,
            Self::NegativeInfinity => "-inf"@,
            Self::NotANumber => "NaN"@,
            _ => sign_text(self.negative()) + text::decimal(
                half_even(self.parts().0, power(self.parts().1) as int) as nat,
            ),
        }
    }

    /// The nearest integer, halves away from zero; the end of the range for an
    /// infinity, and zero for what is not a number.
    pub open spec fn nearest(self) -> int {
        match self {
            Self::PositiveInfinity => i32::MAX as int,
            Self::NegativeInfinity => i32::MIN as int,
            Self::NotANumber => 0,
            _ => {
                let size = half_up(self.parts().0, self.parts().1);
                if self.negative() {
                    if size > 0x8000_0000 {
                        i32::MIN as int
                    } else {
                        -size
                    }
                } else if size > i32::MAX {
                    i32::MAX as int
                } else {
                    size
                }
            },
        }
    }

    /// The number held inside a range of thousandths. What is not a number
    /// stays so.
    pub open spec fn held(self, low: i32, high: i32) -> Self {
        match self {
            Self::Finite { thousandths } => Self::Finite {
                thousandths: if thousandths < low {
                    low
                } else if thousandths > high {
                    high
                } else {
                    thousandths
                },
            },
            Self::Binary { significand, shift } => if is_below(significand, shift, low) {
                Self::Finite { thousandths: low }
            } else if !is_below(significand, shift, high) {
                Self::Finite { thousandths: high }
            } else {
                self
            },
            Self::Whole { negative, magnitude } => if 1000 * signed_whole(negative, magnitude)
                < low {
                Self::Finite { thousandths: low }
            } else if 1000 * signed_whole(negative, magnitude) > high {
                Self::Finite { thousandths: high }
            } else {
                self
            },
            Self::PositiveInfinity => Self::Finite { thousandths: high },
            Self::NegativeInfinity => Self::Finite { thousandths: low },
            Self::NotANumber => Self::NotANumber,
        }
    }

    /// Whether the number is at least so many thousandths.
    pub open spec fn reaches(self, thousandths: i32) -> bool {
        match self {
            Self::Finite { thousandths: held } => held >= thousandths,
            Self::Binary { significand, shift } => !is_below(significand, shift, thousandths),
            Self::Whole { negative, magnitude } => 1000 * signed_whole(negative, magnitude)
                >= thousandths,
            Self::PositiveInfinity => true,
            _ => false,
        }
    }

    /// A hundredth of the magnitude of a finite number, as a single-precision
    /// quotient.
    pub open spec fn quotient(self) -> (int, nat) {
        rounded_from(
            self.parts().0 as nat,
            100,
            self.parts().1,
            SINGLE_START as nat,
            SINGLE_LIMIT as nat,
        )
    }

    /// The number as a share of a hundred, held inside nothing and all of it: a
    /// single-precision quotient. A quotient of zero keeps its sign.
    pub open spec fn hundredth(self) -> Self {
        match self {
            Self::NotANumber => Self::NotANumber,
            _ => if self.finite() && self.negative() && self.quotient().0 == 0 {
                Self::Whole { negative: true, magnitude: 0 }
            } else if !self.reaches(0) {
                Self::Finite { thousandths: 0 }
            } else if self.reaches(100_000) {
                Self::Finite { thousandths: 1000 }
            } else {
                number(self.quotient().0 as nat, self.quotient().1)
            },
        }
    }

    pub fn is_finite(self) -> (finite: bool)
        ensures
            finite == self.finite(),
    {
        matches!(self, Self::Finite { .. } | Self::Binary { .. } | Self::Whole { .. })
    }

    fn is_negative(self) -> (negative: bool)
        ensures
            negative == self.negative(),
    {
        match self {
            Self::Finite { thousandths } => thousandths < 0,
            Self::Binary { significand, .. } => significand < 0,
            Self::Whole { negative, .. } => negative,
            Self::NegativeInfinity => true,
            _ => false,
        }
    }

    /// Whether the number is at least so many thousandths.
    pub fn at_least(self, thousandths: i32) -> (reaches: bool)
        ensures
            reaches == self.reaches(thousandths),
    {
        match self {
            Self::Finite { thousandths: held } => held >= thousandths,
            Self::Binary { significand, shift } => !below(significand, shift, thousandths),
            Self::Whole { negative, magnitude } => !whole_below(negative, magnitude, thousandths),
            Self::PositiveInfinity => true,
            _ => false,
        }
    }

    /// The number held inside a range of thousandths. What is not a number
    /// stays so.
    pub fn clamped(self, low: i32, high: i32) -> (held: Self)
        requires
            low <= high,
        ensures
            held == self.held(low, high),
    {
        match self {
            Self::Finite { thousandths } => Self::Finite {
                thousandths: if thousandths < low {
                    low
                } else if thousandths > high {
                    high
                } else {
                    thousandths
                },
            },
            Self::Binary { significand, shift } => if below(significand, shift, low) {
                Self::Finite { thousandths: low }
            } else if !below(significand, shift, high) {
                Self::Finite { thousandths: high }
            } else {
                self
            },
            Self::Whole { negative, magnitude } => if whole_below(negative, magnitude, low) {
                Self::Finite { thousandths: low }
            } else if whole_above(negative, magnitude, high) {
                Self::Finite { thousandths: high }
            } else {
                self
            },
            Self::PositiveInfinity => Self::Finite { thousandths: high },
            Self::NegativeInfinity => Self::Finite { thousandths: low },
            Self::NotANumber => Self::NotANumber,
        }
    }

    /// The number as a share of a hundred, held inside nothing and all of it.
    pub fn share_of_hundred(self) -> (share: Self)
        ensures
            share == self.hundredth(),
    {
        if matches!(self, Self::NotANumber) {
            return Self::NotANumber;
        }
        if !self.is_finite() {
            return if self.is_negative() {
                Self::Finite { thousandths: 0 }
            } else {
                Self::Finite { thousandths: 1000 }
            };
        }
        if let Self::Whole { negative: true, magnitude } = self {
            if magnitude > 0 {
                proof {
                    lemma_powers();
                    lemma_power_grows(16, SINGLE_LIMIT as nat);
                    assert(magnitude * power(SINGLE_LIMIT as nat) >= 100) by (nonlinear_arith)
                        requires
                            magnitude >= 1,
                            power(SINGLE_LIMIT as nat) >= 100,
                    ;
                    lemma_rounded_positive(
                        magnitude as nat,
                        100,
                        0,
                        SINGLE_START as nat,
                        SINGLE_LIMIT as nat,
                    );
                }
                return Self::Finite { thousandths: 0 };
            }
        }
        if !self.is_negative() && self.at_least(100_000) {
            return Self::Finite { thousandths: 1000 };
        }
        let (significand, shift): (u64, u32) = self.to_parts();
        let (quotient, last): (u128, u32) = round_ratio(
            significand as u128,
            100,
            shift,
            SINGLE_START,
            SINGLE_LIMIT,
        );
        if self.is_negative() {
            if quotient == 0 {
                return Self::Whole { negative: true, magnitude: 0 };
            }
            if !self.at_least(0) {
                return Self::Finite { thousandths: 0 };
            }
        }
        to_number(quotient as u32, last as u8)
    }

    /// A number in words, with exactly one decimal place.
    pub fn one_decimal(self) -> (words: String)
        ensures
            words@ == self.one_decimal_text(),
    {
        match self {
            Self::PositiveInfinity => "inf".to_owned(),
            Self::NegativeInfinity => "-inf".to_owned(),
            Self::NotANumber => "NaN".to_owned(),
            Self::Whole { magnitude, .. } => {
                let mut words: String = String::new();
                if self.is_negative() {
                    words.append("-");
                }
                text::push_wide_decimal(&mut words, magnitude);
                words.append(".");
                text::push_decimal(&mut words, 0);
                proof {
                    lemma_powers();
                    assert(half_even(10 * magnitude as int, 1) == 10 * magnitude);
                    assert(10 * magnitude / 10 == magnitude && 10 * magnitude % 10 == 0);
                    assert(tenths_text((10 * magnitude) as nat) =~= text::decimal(magnitude as nat)
                        + "."@ + text::decimal(0));
                }
                assert(words@ =~= self.one_decimal_text());
                words
            },
            _ => {
                let (significand, shift): (u64, u32) = self.to_parts();
                let mut words: String = String::new();
                if self.is_negative() {
                    words.append("-");
                }
                push_tenths(&mut words, round_shifted(10 * significand as u128, shift) as u64);
                assert(words@ =~= self.one_decimal_text());
                words
            },
        }
    }

    /// A number in words, rounded to whole numbers.
    pub fn whole(self) -> (words: String)
        ensures
            words@ == self.whole_text(),
    {
        match self {
            Self::PositiveInfinity => "inf".to_owned(),
            Self::NegativeInfinity => "-inf".to_owned(),
            Self::NotANumber => "NaN".to_owned(),
            Self::Whole { magnitude, .. } => {
                let mut words: String = String::new();
                if self.is_negative() {
                    words.append("-");
                }
                text::push_wide_decimal(&mut words, magnitude);
                proof {
                    lemma_powers();
                }
                assert(words@ =~= self.whole_text());
                words
            },
            _ => {
                let (significand, shift): (u64, u32) = self.to_parts();
                let mut words: String = String::new();
                if self.is_negative() {
                    words.append("-");
                }
                text::push_decimal(&mut words, round_shifted(significand as u128, shift) as u64);
                assert(words@ =~= self.whole_text());
                words
            },
        }
    }

    /// The nearest integer, halves away from zero.
    pub fn rounded(self) -> (nearest: i32)
        ensures
            nearest == self.nearest(),
    {
        match self {
            Self::PositiveInfinity => i32::MAX,
            Self::NegativeInfinity => i32::MIN,
            Self::NotANumber => 0,
            Self::Whole { negative, magnitude } => {
                proof {
                    lemma_powers();
                    assert((2 * magnitude + 1) / 2 == magnitude);
                    assert(half_up(magnitude as int, 0) == magnitude);
                }
                if magnitude > 0x7fff_ffff {
                    if negative {
                        i32::MIN
                    } else {
                        i32::MAX
                    }
                } else if negative {
                    0 - magnitude as i32
                } else {
                    magnitude as i32
                }
            },
            _ => {
                let (significand, shift): (u64, u32) = self.to_parts();
                let size: u128 = if shift > 64 {
                    proof {
                        lemma_powers();
                        lemma_power_grows(64, shift as nat);
                        let unit = power(shift as nat) as int;
                        assert((2 * significand + unit) / (2 * unit) == 0) by (nonlinear_arith)
                            requires
                                0 <= 2 * significand < unit,
                        ;
                    }
                    0
                } else {
                    let unit: u128 = power_of(shift);
                    proof {
                        lemma_powers();
                        lemma_power_grows(shift as nat, 64);
                        assert((2 * significand + unit) / (2 * unit as int) <= significand + 1)
                            by (nonlinear_arith)
                            requires
                                0 <= significand,
                                unit > 0,
                        ;
                        assert(unit == 1 ==> (2 * significand + unit) / (2 * unit as int)
                            <= significand) by (nonlinear_arith);
                        assert(unit >= 2 ==> (2 * significand + unit) / (2 * unit as int)
                            <= significand / 2 + 1) by (nonlinear_arith)
                            requires
                                0 <= significand,
                        ;
                    }
                    (2 * significand as u128 + unit) / (2 * unit)
                };
                assert(size == half_up(significand as int, shift as nat));
                assert(size <= 0x8000_0000);
                if self.is_negative() {
                    (0 - size as i64) as i32
                } else if size > 0x7fff_ffff {
                    i32::MAX
                } else {
                    size as i32
                }
            },
        }
    }
}

/// A number with the sign it is written with.
pub open spec fn signed(value: Measured, negative: bool) -> Measured {
    if !negative {
        value
    } else {
        match value {
            Measured::Finite { thousandths } => if thousandths == 0 {
                Measured::Whole { negative: true, magnitude: 0 }
            } else {
                Measured::Finite { thousandths: (-thousandths) as i32 }
            },
            Measured::Binary { significand, shift } => Measured::Binary {
                significand: (-significand) as i32,
                shift,
            },
            _ => value,
        }
    }
}

/// The number that thirty-two bits are in single precision: a sign, eight bits
/// of the power of two, and the bits of the significand after its first.
pub open spec fn of_bits(bits: u32) -> Measured {
    let negative = bits >= 0x8000_0000;
    let exponent = bits / 0x80_0000 % 0x100;
    let fraction = bits % 0x80_0000;
    if exponent == 255 {
        if fraction != 0 {
            Measured::NotANumber
        } else if negative {
            Measured::NegativeInfinity
        } else {
            Measured::PositiveInfinity
        }
    } else if exponent == 0 {
        signed(number(fraction as nat, SINGLE_LIMIT as nat), negative)
    } else {
        let significand = SINGLE_START + fraction;
        if exponent <= 150 {
            signed(number(significand as nat, (150 - exponent) as nat), negative)
        } else {
            Measured::Whole {
                negative,
                magnitude: (significand * power((exponent - 150) as nat)) as u128,
            }
        }
    }
}

fn with_sign(value: Measured, negative: bool) -> (written: Measured)
    requires
        !value.negative(),
    ensures
        written == signed(value, negative),
{
    if !negative {
        return value;
    }
    match value {
        Measured::Finite { thousandths } => if thousandths == 0 {
            Measured::Whole { negative: true, magnitude: 0 }
        } else {
            Measured::Finite { thousandths: -thousandths }
        },
        Measured::Binary { significand, shift } => Measured::Binary {
            significand: -significand,
            shift,
        },
        _ => value,
    }
}

/// The number that thirty-two bits are in single precision.
pub fn from_bits(bits: u32) -> (value: Measured)
    ensures
        value == of_bits(bits),
{
    let negative: bool = bits >= 0x8000_0000;
    let exponent: u32 = bits / 0x80_0000 % 0x100;
    let fraction: u32 = bits % 0x80_0000;
    if exponent == 255 {
        if fraction != 0 {
            Measured::NotANumber
        } else if negative {
            Measured::NegativeInfinity
        } else {
            Measured::PositiveInfinity
        }
    } else if exponent == 0 {
        with_sign(to_number(fraction, 149), negative)
    } else {
        let significand: u32 = 0x80_0000 + fraction;
        if exponent <= 150 {
            with_sign(to_number(significand, (150 - exponent) as u8), negative)
        } else {
            let unit: u128 = power_of(exponent - 150);
            proof {
                lemma_powers();
                lemma_power_grows((exponent - 150) as nat, 104);
                assert(significand * unit <= 0xff_ffff * 0x100_0000_0000_0000_0000_0000_0000)
                    by (nonlinear_arith)
                    requires
                        0 <= significand <= 0xff_ffff,
                        0 <= unit <= 0x100_0000_0000_0000_0000_0000_0000,
                ;
            }
            Measured::Whole { negative, magnitude: significand as u128 * unit }
        }
    }
}

/// A whole number that is taken to single precision stays what it is.
proof fn lemma_whole_kept(number: nat, unit: nat)
    requires
        unit > 0,
    ensures
        ({
            let (significand, last) = single_of(number * unit, unit);
            &&& significand == number * power(last)
            &&& half_up(significand, last) == number
        }),
{
    lemma_rounded_near(number * unit, unit, 0, SINGLE_START as nat, SINGLE_LIMIT as nat);
    let (significand, last) = single_of(number * unit, unit);
    let step = power(last) as int;
    lemma_power(last);
    assert(significand == number * step) by (nonlinear_arith)
        requires
            -unit <= 2 * (significand * unit - (number * unit) * step) <= unit,
            unit > 0,
    ;
    assert((2 * (number * step) + step) / (2 * step) == number) by (nonlinear_arith)
        requires
            step > 0,
            number >= 0,
    ;
}

/// A number that far less than an eighth is added to, or taken from, is still
/// nearest to what it was.
proof fn lemma_little_changes_nothing(from: nat, unit: nat, change: int)
    requires
        from <= 255,
        unit > 0,
        -unit <= 8 * change <= unit,
        from * unit + change > 0,
    ensures
        ({
            let (significand, last) = single_of((from * unit + change) as nat, unit);
            half_up(significand, last) == from
        }),
{
    let whole = (from * unit + change) as nat;
    lemma_rounded_near(whole, unit, 0, SINGLE_START as nat, SINGLE_LIMIT as nat);
    let (significand, last) = single_of(whole, unit);
    let step = power(last) as int;
    assert(whole < SINGLE_START * unit) by (nonlinear_arith)
        requires
            whole == from * unit + change,
            from <= 255,
            8 * change <= unit,
            unit > 0,
            SINGLE_START == 0x80_0000,
    ;
    lemma_power((last - 1) as nat);
    assert(step >= 2);
    let off = significand - from * step;
    assert(significand * unit - whole * step == unit * off - change * step) by (nonlinear_arith)
        requires
            whole == from * unit + change,
            off == significand - from * step,
    ;
    assert(-(unit * step) <= 8 * (change * step) <= unit * step) by (nonlinear_arith)
        requires
            -unit <= 8 * change <= unit,
            step > 0,
    ;
    assert(-(step + 4) <= 8 * off <= step + 4) by (nonlinear_arith)
        requires
            -unit <= 2 * (unit * off - change * step) <= unit,
            -(unit * step) <= 8 * (change * step) <= unit * step,
            unit > 0,
    ;
    assert(-step < 2 * off < step);
    assert((2 * significand + step) / (2 * step) == from) by (nonlinear_arith)
        requires
            off == significand - from * step,
            -step < 2 * off < step,
            step > 0,
    ;
}

/// The byte an `amount` of the way from one byte to another: a single-precision
/// product, a single-precision sum, and the nearest byte, halves up. What lies
/// beyond a byte is its end, and what is not a number is zero.
pub open spec fn blended(from: u8, to: u8, amount: Measured) -> int {
    match amount {
        Measured::NotANumber => 0,
        Measured::PositiveInfinity => if to > from {
            255
        } else {
            0
        },
        Measured::NegativeInfinity => if to < from {
            255
        } else {
            0
        },
        _ => {
            let distance = if to < from {
                from - to
            } else {
                to - from
            };
            let (product, shift) = single_of(
                (distance * amount.parts().0) as nat,
                power(amount.parts().1),
            );
            let along = from * power(shift) + if (to < from) != amount.negative() {
                -product
            } else {
                product
            };
            if along <= 0 {
                0
            } else {
                let (sum, last) = single_of(along as nat, power(shift));
                if half_up(sum, last) > 255 {
                    255
                } else {
                    half_up(sum, last)
                }
            }
        },
    }
}

/// None of the way is the start, and all of it the end.
pub proof fn a_blend_reaches_both_ends(from: u8, to: u8)
    ensures
        blended(from, to, Measured::Finite { thousandths: 0 }) == from,
        blended(from, to, Measured::Finite { thousandths: 1000 }) == to,
{
    lemma_powers();
    let distance: nat = if to < from {
        (from - to) as nat
    } else {
        (to - from) as nat
    };
    assert(single(0) == (0int, 0nat));
    assert(distance * 0 == 0);
    assert(single_of(0, 1) == (0int, 0nat));
    lemma_whole_kept(from as nat, 1);
    assert(from * power(0) == from);

    lemma_whole_kept(1, 1000);
    let (one, deep) = single(1000);
    assert(1 * power(deep) == power(deep));
    lemma_power(deep);
    lemma_whole_kept(distance, power(deep));
    let (product, shift) = single_of(distance * power(deep), power(deep));
    lemma_power(shift);
    lemma_whole_kept(to as nat, power(shift));
    let unit = power(shift) as int;
    assert(from * unit - distance * unit == (from - distance) * unit) by (nonlinear_arith);
    assert(from * unit + distance * unit == (from + distance) * unit) by (nonlinear_arith);
    assert(to * unit <= 0 ==> to == 0) by (nonlinear_arith)
        requires
            unit > 0,
    ;
}

/// A number of no more bits than a significand has, over a power of two, is
/// doubled as often as that power says.
proof fn lemma_depth(numerator: nat, places: nat, shift: nat)
    requires
        numerator > 0,
        numerator < 2 * (SINGLE_START * power(shift)),
        places <= SINGLE_LIMIT,
    ensures
        rounded_from(
            numerator,
            power(places),
            shift,
            SINGLE_START as nat,
            SINGLE_LIMIT as nat,
        ).1 >= places,
    decreases 2 * (SINGLE_START * power(places)) - numerator,
{
    lemma_power(shift);
    lemma_power(places);
    if numerator >= SINGLE_START * power(places) || shift >= SINGLE_LIMIT {
        if shift < places {
            lemma_power_grows(shift + 1, places);
        }
    } else {
        lemma_depth(2 * numerator, places, shift + 1);
    }
}

/// A number of no more bits than a significand has, over a power of two, stays
/// what it is in single precision.
proof fn lemma_dyadic_kept(numerator: nat, places: nat)
    requires
        numerator < 0x100_0000,
        places <= SINGLE_LIMIT,
    ensures
        ({
            let (significand, last) = single_of(numerator, power(places));
            &&& significand * power(places) == numerator * power(last)
            &&& half_up(significand, last) == half_up(numerator as int, places)
        }),
{
    lemma_powers();
    lemma_power(places);
    let unit = power(places) as int;
    lemma_rounded_near(numerator, unit as nat, 0, SINGLE_START as nat, SINGLE_LIMIT as nat);
    let (significand, last) = single_of(numerator, unit as nat);
    let step = power(last) as int;
    lemma_power(last);
    if numerator > 0 {
        lemma_depth(numerator, places, 0);
        let more = power((last - places) as nat) as int;
        vstd::arithmetic::power2::lemma_pow2_adds(places, (last - places) as nat);
        let off = significand - numerator * more;
        assert(significand * unit - numerator * step == unit * off) by (nonlinear_arith)
            requires
                step == unit * more,
                off == significand - numerator * more,
        ;
        assert(off == 0) by (nonlinear_arith)
            requires
                -unit <= 2 * (unit * off) <= unit,
                unit > 0,
        ;
        assert(unit * off == 0);
    } else {
        assert(half_even(0, unit) == 0) by (nonlinear_arith)
            requires
                unit > 0,
        ;
        assert(significand * unit == numerator * step) by (nonlinear_arith)
            requires
                significand == 0,
                numerator == 0,
        ;
    }
    let whole = half_up(numerator as int, places);
    vstd::arithmetic::div_mod::lemma_fundamental_div_mod(2 * numerator + unit, 2 * unit);
    let rest = (2 * numerator + unit) % (2 * unit);
    assert(0 <= rest < 2 * unit) by {
        vstd::arithmetic::div_mod::lemma_mod_bound(2 * numerator + unit, 2 * unit);
    }
    let left = 2 * significand + step - 2 * step * whole;
    assert(left * unit == rest * step) by (nonlinear_arith)
        requires
            left == 2 * significand + step - 2 * step * whole,
            significand * unit == numerator * step,
            2 * numerator + unit == (2 * unit) * whole + rest,
    ;
    assert(0 <= left < 2 * step) by (nonlinear_arith)
        requires
            left * unit == rest * step,
            0 <= rest < 2 * unit,
            unit > 0,
            step > 0,
    ;
    assert(2 * step * whole == whole * (2 * step)) by (nonlinear_arith);
    vstd::arithmetic::div_mod::lemma_fundamental_div_mod_converse(
        2 * significand + step,
        2 * step,
        whole,
        left,
    );
}

/// A number over a power of two is taken to single precision by its value alone.
proof fn lemma_same_ratio(numerator: nat, places: nat, doublings: nat)
    ensures
        single_of(numerator * power(doublings), power(places + doublings)) == single_of(
            numerator,
            power(places),
        ),
    decreases doublings,
{
    lemma_powers();
    if doublings == 0 {
        assert(numerator * power(0) == numerator);
    } else {
        let fewer = (doublings - 1) as nat;
        lemma_power(fewer);
        lemma_power(places + fewer);
        lemma_same_ratio(numerator, places, fewer);
        lemma_rounded_scaled(
            numerator * power(fewer),
            power(places + fewer),
            0,
            SINGLE_START as nat,
            SINGLE_LIMIT as nat,
        );
        assert(numerator * power(doublings) == 2 * (numerator * power(fewer))) by (nonlinear_arith)
            requires
                power(doublings) == 2 * power(fewer),
        ;
        assert(places + doublings == places + fewer + 1);
    }
}

/// Two numbers over powers of two that are the same are the same in single
/// precision.
proof fn lemma_equal_ratios(numerator: nat, places: nat, other: nat, other_places: nat)
    requires
        numerator * power(other_places) == other * power(places),
    ensures
        single_of(numerator, power(places)) == single_of(other, power(other_places)),
    decreases
            if places > other_places {
                1int
            } else {
                0
            },
{
    if places > other_places {
        lemma_equal_ratios(other, other_places, numerator, places);
    } else {
        let more = (other_places - places) as nat;
        vstd::arithmetic::power2::lemma_pow2_adds(places, more);
        lemma_power(places);
        assert(other == numerator * power(more)) by (nonlinear_arith)
            requires
                numerator * power(other_places) == other * power(places),
                power(other_places) == power(places) * power(more),
                power(places) > 0,
        ;
        lemma_same_ratio(numerator, places, more);
    }
}

/// Whether a number is a share of `part` in `2^places`.
pub open spec fn is_share(amount: Measured, part: nat, places: nat) -> bool {
    &&& amount.finite()
    &&& !amount.negative()
    &&& amount.parts().0 * power(places) == part * power(amount.parts().1)
}

/// Where every step is exact, a blend is the point on the line, to the nearest.
proof fn lemma_exact_blend(from: u8, to: u8, amount: Measured, part: nat, places: nat)
    requires
        places <= 16,
        part <= power(places),
        is_share(amount, part, places),
    ensures
        blended(from, to, amount) == half_up(from * power(places) + (to - from) * part, places),
{
    lemma_powers();
    lemma_power(places);
    lemma_power_grows(places, 16);
    let unit = power(places) as int;
    let distance: nat = if to < from {
        (from - to) as nat
    } else {
        (to - from) as nat
    };
    let (significand, deep) = amount.parts();
    if amount is Finite {
        let thousandths = magnitude(amount->thousandths);
        lemma_rounded_near(thousandths, 1000, 0, SINGLE_START as nat, SINGLE_LIMIT as nat);
    }
    assert(significand >= 0);
    assert((distance * significand) * power(places) == (distance * part) * power(deep))
        by (nonlinear_arith)
        requires
            significand * power(places) == part * power(deep),
    ;
    assert(distance * significand >= 0) by (nonlinear_arith)
        requires
            distance >= 0,
            significand >= 0,
    ;
    lemma_equal_ratios((distance * significand) as nat, deep, distance * part, places);
    assert(distance * part < 0x100_0000) by (nonlinear_arith)
        requires
            distance <= 255,
            part <= unit <= 0x1_0000,
    ;
    lemma_dyadic_kept(distance * part, places);
    let (product, shift) = single_of(distance * part, power(places));
    let deeper = power(shift) as int;
    lemma_power(shift);
    let point = from * unit + (to - from) * part;
    let along = from * deeper + if to < from {
        -product
    } else {
        product
    };
    assert(along * unit == point * deeper) by (nonlinear_arith)
        requires
            point == from * unit + (to - from) * part,
            product * unit == (distance * part) * deeper,
            to < from ==> distance == from - to && along == from * deeper - product,
            to >= from ==> distance == to - from && along == from * deeper + product,
    ;
    assert(0 <= point <= 255 * unit) by (nonlinear_arith)
        requires
            point == from * unit + (to - from) * part,
            0 <= part <= unit,
            0 <= from <= 255,
            0 <= to <= 255,
    ;
    assert(along <= 0 <==> point <= 0) by (nonlinear_arith)
        requires
            along * unit == point * deeper,
            unit > 0,
            deeper > 0,
    ;
    if point > 0 {
        lemma_equal_ratios(along as nat, shift, point as nat, places);
        lemma_dyadic_kept(point as nat, places);
    }
    assert(half_up(point, places) <= 255) by (nonlinear_arith)
        requires
            half_up(point, places) == (2 * point + unit) / (2 * unit),
            point <= 255 * unit,
            unit > 0,
    ;
    assert(point == 0 ==> half_up(point, places) == 0) by (nonlinear_arith)
        requires
            half_up(point, places) == (2 * point + unit) / (2 * unit),
            unit > 0,
    ;
}

/// The same point, approached from either end, is the same byte, for every
/// share of the way that sixteen bits after the point hold.
pub proof fn a_blend_is_the_same_from_both_ends(
    from: u8,
    to: u8,
    amount: Measured,
    rest: Measured,
    part: nat,
    places: nat,
)
    requires
        places <= 16,
        part <= power(places),
        is_share(amount, part, places),
        is_share(rest, (power(places) - part) as nat, places),
    ensures
        blended(from, to, amount) == blended(to, from, rest),
        blended(from, to, amount) == half_up(from * power(places) + (to - from) * part, places),
{
    let unit = power(places) as int;
    lemma_exact_blend(from, to, amount, part, places);
    lemma_exact_blend(to, from, rest, (unit - part) as nat, places);
    assert(from * unit + (to - from) * part == to * unit + (from - to) * (unit - part))
        by (nonlinear_arith);
}

/// A whole number of times the distance, and at least two bytes' worth of it,
/// ends outside the range of a byte.
proof fn lemma_far_blend(from: u8, to: u8, negative: bool, magnitude: u128)
    requires
        from != to,
        magnitude >= 512,
    ensures
        blended(from, to, Measured::Whole { negative, magnitude }) == if (to < from) != negative {
            0int
        } else {
            255
        },
{
    lemma_powers();
    let distance: nat = if to < from {
        (from - to) as nat
    } else {
        (to - from) as nat
    };
    let times: nat = distance * (magnitude as nat);
    assert(times >= 512) by (nonlinear_arith)
        requires
            times == distance * (magnitude as nat),
            distance >= 1,
            magnitude >= 512,
    ;
    lemma_whole_kept(times, 1);
    assert(times * 1 == times);
    let (product, shift) = single_of(times, 1);
    let unit = power(shift);
    lemma_power(shift);
    assert(from * unit - times * unit <= 0) by (nonlinear_arith)
        requires
            from <= 255,
            times >= 512,
            unit > 0,
    ;
    lemma_whole_kept((from + times) as nat, unit);
    assert(from * unit + times * unit == (from + times) * unit) by (nonlinear_arith);
    assert((from + times) * unit > 0) by (nonlinear_arith)
        requires
            times >= 512,
            unit > 0,
    ;
}

/// The byte an `amount` of the way from one byte to another.
pub fn blend(from: u8, to: u8, amount: Measured) -> (byte: u8)
    ensures
        byte == blended(from, to, amount),
{
    let back: bool = to < from;
    match amount {
        Measured::NotANumber => {
            return 0;
        },
        Measured::PositiveInfinity => {
            return if to > from {
                255
            } else {
                0
            };
        },
        Measured::NegativeInfinity => {
            return if back {
                255
            } else {
                0
            };
        },
        Measured::Whole { negative, magnitude } => {
            if magnitude >= 512 && from != to {
                proof {
                    lemma_far_blend(from, to, negative, magnitude);
                }
                return if back != negative {
                    0
                } else {
                    255
                };
            }
        },
        _ => {},
    }
    if from == to {
        proof {
            lemma_powers();
            assert(0 * amount.parts().0 == 0);
            let unit = power(amount.parts().1);
            lemma_power(amount.parts().1);
            assert(half_even(0, unit as int) == 0) by (nonlinear_arith)
                requires
                    unit > 0,
            ;
            assert(single_of(0, unit) == (0int, 0nat));
            assert(from * power(0) == from);
            lemma_whole_kept(from as nat, 1);
        }
        return from;
    }
    let (significand, places): (u64, u32) = amount.to_parts();
    let distance: u64 = if back {
        (from - to) as u64
    } else {
        (to - from) as u64
    };
    assert(0 <= distance * significand <= 255 * 0x8000_0000) by (nonlinear_arith)
        requires
            0 <= distance <= 255,
            0 <= significand <= 0x8000_0000,
    ;
    let times: u128 = distance as u128 * significand as u128;
    let (product, shift): (u128, u32) = round_dyadic(times, places, SINGLE_START, SINGLE_LIMIT);
    let less: bool = back != amount.is_negative();
    proof {
        lemma_powers();
        lemma_power(shift as nat);
    }
    if shift > 64 {
        proof {
            lemma_power_grows(64, shift as nat);
            let unit = power(shift as nat);
            let change = if less {
                -(product as int)
            } else {
                product as int
            };
            if from * unit + change > 0 {
                lemma_little_changes_nothing(from as nat, unit, change);
            } else {
                assert(from == 0) by (nonlinear_arith)
                    requires
                        from * unit + change <= 0,
                        -unit < change,
                        unit > 0,
                        from >= 0,
                ;
            }
        }
        return from;
    }
    let unit: u128 = power_of(shift);
    proof {
        lemma_power_grows(shift as nat, 64);
        assert(from * unit <= 255 * 0x1_0000_0000_0000_0000) by (nonlinear_arith)
            requires
                0 <= from <= 255,
                0 < unit <= 0x1_0000_0000_0000_0000,
        ;
    }
    let start: u128 = from as u128 * unit;
    if less && start <= product {
        return 0;
    }
    let along: u128 = if less {
        start - product
    } else {
        start + product
    };
    if along == 0 {
        return 0;
    }
    let (sum, last): (u128, u32) = round_dyadic(along, shift, SINGLE_START, SINGLE_LIMIT);
    proof {
        lemma_power(last as nat);
    }
    if last > 64 {
        proof {
            lemma_power_grows(64, last as nat);
            let step = power(last as nat) as int;
            assert((2 * sum + step) / (2 * step) == 0) by (nonlinear_arith)
                requires
                    0 <= 2 * sum < step,
            ;
        }
        return 0;
    }
    let step: u128 = power_of(last);
    proof {
        lemma_power_grows(last as nat, 64);
    }
    let nearest: u128 = (2 * sum + step) / (2 * step);
    assert(nearest == half_up(sum as int, last as nat));
    if nearest > 255 {
        255
    } else {
        nearest as u8
    }
}

/// Seconds and nanoseconds as milliseconds, in tenths: the nanoseconds as a
/// double-precision share of a second, added to the seconds and scaled up, each
/// time in double precision.
pub open spec fn elapsed_tenths(nanoseconds: nat) -> int {
    let seconds = nanoseconds / 1_000_000_000;
    let (rest, rest_shift) = double_of(nanoseconds % 1_000_000_000, 1_000_000_000);
    let (sum, sum_shift) = double_of(
        seconds * power(rest_shift) + rest as nat,
        power(rest_shift),
    );
    let (product, shift) = double_of((1000 * sum) as nat, power(sum_shift));
    half_even(10 * product, power(shift) as int)
}

/// Seconds and nanoseconds as milliseconds, in tenths.
pub fn to_elapsed_tenths(nanoseconds: u64) -> (tenths: u64)
    ensures
        tenths == elapsed_tenths(nanoseconds as nat),
{
    let seconds: u64 = nanoseconds / 1_000_000_000;
    let below_second: u64 = nanoseconds % 1_000_000_000;
    proof {
        lemma_powers();
        if below_second > 0 {
            assert(power(87) * below_second >= DOUBLE_START * 1_000_000_000) by (nonlinear_arith)
                requires
                    power(87) == 0x80_0000_0000_0000_0000_0000,
                    below_second >= 1,
                    DOUBLE_START == 0x10_0000_0000_0000,
            ;
            lemma_rounded(
                below_second as nat,
                1_000_000_000,
                0,
                DOUBLE_START as nat,
                DOUBLE_LIMIT as nat,
                1,
                87,
            );
        }
    }
    let (rest, rest_shift): (u128, u32) = round_ratio(
        below_second as u128,
        1_000_000_000,
        0,
        DOUBLE_START,
        DOUBLE_LIMIT,
    );
    let unit: u128 = power_of(rest_shift);
    let ghost cap: nat = 0x8_0000_0000;
    proof {
        lemma_power_grows(rest_shift as nat, 87);
        assert(1 * power(rest_shift as nat) == power(rest_shift as nat));
        assert(rest <= unit);
        assert(seconds * unit <= 0x4_4b82_fa09 * 0x80_0000_0000_0000_0000_0000)
            by (nonlinear_arith)
            requires
                0 <= seconds <= 0x4_4b82_fa09,
                0 < unit <= 0x80_0000_0000_0000_0000_0000,
        ;
        assert(seconds * unit + rest <= cap * unit) by (nonlinear_arith)
            requires
                0 <= seconds <= 0x4_4b82_fa09,
                0 <= rest <= unit,
                cap == 0x8_0000_0000,
        ;
        assert(seconds * unit + rest < 2 * (DOUBLE_START * unit)) by (nonlinear_arith)
            requires
                seconds * unit + rest <= cap * unit,
                cap == 0x8_0000_0000,
                unit > 0,
                DOUBLE_START == 0x10_0000_0000_0000,
        ;
    }
    let whole: u128 = seconds as u128 * unit + rest;
    let (sum, sum_shift): (u128, u32) = round_dyadic(
        whole,
        rest_shift,
        DOUBLE_START,
        DOUBLE_LIMIT,
    );
    proof {
        lemma_power(sum_shift as nat);
        if whole > 0 {
            lemma_many_doublings(whole as nat, unit as nat);
            lemma_rounded(
                whole as nat,
                unit as nat,
                0,
                DOUBLE_START as nat,
                DOUBLE_LIMIT as nat,
                cap,
                139,
            );
        }
        assert(sum <= cap * power(sum_shift as nat));
        assert(1000 * sum < 2 * (DOUBLE_START * power(sum_shift as nat))) by (nonlinear_arith)
            requires
                0 <= sum <= cap * power(sum_shift as nat),
                cap == 0x8_0000_0000,
                power(sum_shift as nat) > 0,
                DOUBLE_START == 0x10_0000_0000_0000,
        ;
    }
    let (product, shift): (u128, u32) = round_dyadic(
        1000 * sum,
        sum_shift,
        DOUBLE_START,
        DOUBLE_LIMIT,
    );
    round_shifted(10 * product, shift) as u64
}

/// Enough doublings for any number over a unit of at most eighty-seven bits.
proof fn lemma_many_doublings(numerator: nat, unit: nat)
    requires
        numerator > 0,
        unit <= power(87),
    ensures
        power(139) * numerator >= DOUBLE_START * unit,
{
    lemma_powers();
    vstd::arithmetic::power2::lemma2_to64();
    vstd::arithmetic::power2::lemma2_to64_rest();
    vstd::arithmetic::power2::lemma_pow2_adds(87, 52);
    assert(power(139) == 0x10_0000_0000_0000 * power(87));
    assert(power(139) * numerator >= power(139)) by (nonlinear_arith)
        requires
            numerator >= 1,
            power(139) >= 0,
    ;
}

/// A power of two doubles with every step.
pub proof fn a_power_doubles(shift: nat)
    ensures
        power(0) == 1,
        power(shift) > 0,
        power(shift + 1) == 2 * power(shift),
{
    lemma_powers();
    lemma_power(shift);
}

/// Rounding to even goes to the nearest integer, and from the middle to the even
/// one.
pub proof fn rounding_goes_to_the_nearest(numerator: int, denominator: int)
    requires
        denominator > 0,
    ensures
        ({
            let off = 2 * (half_even(numerator, denominator) * denominator - numerator);
            &&& -denominator <= off <= denominator
            &&& off == denominator || off == -denominator ==> half_even(numerator, denominator) % 2
                == 0
        }),
{
    let below = numerator / denominator;
    vstd::arithmetic::div_mod::lemma_fundamental_div_mod(numerator, denominator);
    vstd::arithmetic::div_mod::lemma_mod_bound(numerator, denominator);
    assert(below * denominator == denominator * below) by (nonlinear_arith);
    assert((below + 1) * denominator == denominator * below + denominator) by (nonlinear_arith);
}

/// Rounding half up goes to the nearest integer, and from the middle upwards.
pub proof fn rounding_up_goes_to_the_nearest(significand: int, shift: nat)
    ensures
        -power(shift) < 2 * (half_up(significand, shift) * power(shift) - significand) <= power(
            shift,
        ),
{
    let unit = power(shift) as int;
    lemma_power(shift);
    let top = 2 * significand + unit;
    vstd::arithmetic::div_mod::lemma_fundamental_div_mod(top, 2 * unit);
    vstd::arithmetic::div_mod::lemma_mod_bound(top, 2 * unit);
    let nearest = half_up(significand, shift);
    assert((2 * unit) * nearest == 2 * (nearest * unit)) by (nonlinear_arith);
}

/// Doubling stops only once the significand is long enough, or at the smallest
/// step.
proof fn lemma_stops(
    numerator: nat,
    denominator: nat,
    shift: nat,
    start: nat,
    limit: nat,
)
    requires
        numerator > 0,
    ensures
        ({
            let (significand, last) = rounded_from(numerator, denominator, shift, start, limit);
            &&& shift <= last
            &&& last >= limit || numerator * power((last - shift) as nat) >= start * denominator
        }),
    decreases 2 * (start * denominator) - numerator,
{
    lemma_powers();
    if numerator >= start * denominator || shift >= limit {
        assert(numerator * power(0) == numerator);
    } else {
        lemma_stops(2 * numerator, denominator, shift + 1, start, limit);
        let last = rounded_from(numerator, denominator, shift, start, limit).1;
        let left = (last - shift - 1) as nat;
        lemma_power(left);
        assert((2 * numerator) * power(left) == numerator * power(left + 1)) by (nonlinear_arith)
            requires
                power(left + 1) == 2 * power(left),
        ;
    }
}

/// Thousandths stand for a single-precision value that is off by half a step at
/// most, and by far less than a thousandth up to a thousand.
pub proof fn thousandths_stand_for_the_nearest_value(thousandths: i32)
    ensures
        ({
            let value = Measured::Finite { thousandths };
            let (significand, shift) = value.parts();
            let size = if thousandths < 0 {
                -thousandths
            } else {
                thousandths as int
            };
            &&& value.finite()
            &&& value.negative() == (thousandths < 0)
            &&& significand >= 0
            &&& -1000 <= 2 * (1000 * significand - size * power(shift)) <= 1000
            &&& 0 < size <= 1_000_000 ==> power(shift) > 8000
            &&& size == 0 ==> significand == 0
        }),
{
    let size: nat = magnitude(thousandths);
    let (significand, shift) = single(size);
    lemma_powers();
    lemma_rounded_near(size, 1000, 0, SINGLE_START as nat, SINGLE_LIMIT as nat);
    if size > 0 {
        lemma_stops(size, 1000, 0, SINGLE_START as nat, SINGLE_LIMIT as nat);
        if shift >= SINGLE_LIMIT {
            lemma_power_grows(16, shift);
        } else if size <= 1_000_000 {
            assert(power(shift) > 8000) by (nonlinear_arith)
                requires
                    size * power(shift) >= SINGLE_START * 1000,
                    SINGLE_START == 0x80_0000,
                    0 < size <= 1_000_000,
            ;
        }
    }
}

/// A number up to a thousand is written as its nearest tenth.
pub proof fn one_decimal_is_the_nearest_tenth(thousandths: i32) -> (tenths: nat)
    requires
        -1_000_000 <= thousandths <= 1_000_000,
    ensures
        ({
            let size = if thousandths < 0 {
                -thousandths
            } else {
                thousandths as int
            };
            let words = text::decimal(tenths / 10) + "."@ + text::decimal(tenths % 10);
            &&& -50 <= 100 * tenths - size <= 50
            &&& (Measured::Finite { thousandths }).one_decimal_text() == if thousandths < 0 {
                "-"@ + words
            } else {
                words
            }
        }),
{
    thousandths_stand_for_the_nearest_value(thousandths);
    let value = Measured::Finite { thousandths };
    let (significand, shift) = value.parts();
    let unit = power(shift) as int;
    lemma_power(shift);
    let size = if thousandths < 0 {
        -thousandths
    } else {
        thousandths as int
    };
    let tenths = half_even(10 * significand, unit);
    rounding_goes_to_the_nearest(10 * significand, unit);
    if size == 0 {
        assert(tenths == 0) by (nonlinear_arith)
            requires
                -unit <= 2 * (tenths * unit - 0) <= unit,
                unit > 0,
        ;
    } else {
        assert(-50 <= 100 * tenths - size <= 50) by (nonlinear_arith)
            requires
                -unit <= 2 * (tenths * unit - 10 * significand) <= unit,
                -1000 <= 2 * (1000 * significand - size * unit) <= 1000,
                unit > 8000,
        ;
    }
    assert(tenths >= 0);
    let words = value.one_decimal_text();
    assert(words =~= if thousandths < 0 {
        "-"@ + tenths_text(tenths as nat)
    } else {
        tenths_text(tenths as nat)
    });
    tenths as nat
}

/// A number up to a thousand is written as its nearest whole number.
pub proof fn whole_is_the_nearest_whole_number(thousandths: i32) -> (whole: nat)
    requires
        -1_000_000 <= thousandths <= 1_000_000,
    ensures
        ({
            let size = if thousandths < 0 {
                -thousandths
            } else {
                thousandths as int
            };
            &&& -500 <= 1000 * whole - size <= 500
            &&& (Measured::Finite { thousandths }).whole_text() == if thousandths < 0 {
                "-"@ + text::decimal(whole)
            } else {
                text::decimal(whole)
            }
        }),
{
    thousandths_stand_for_the_nearest_value(thousandths);
    let value = Measured::Finite { thousandths };
    let (significand, shift) = value.parts();
    let unit = power(shift) as int;
    lemma_power(shift);
    let size = if thousandths < 0 {
        -thousandths
    } else {
        thousandths as int
    };
    let whole = half_even(significand, unit);
    rounding_goes_to_the_nearest(significand, unit);
    if size == 0 {
        assert(whole == 0) by (nonlinear_arith)
            requires
                -unit <= 2 * (whole * unit - 0) <= unit,
                unit > 0,
        ;
    } else {
        assert(-500 <= 1000 * whole - size <= 500) by (nonlinear_arith)
            requires
                -unit <= 2 * (whole * unit - significand) <= unit,
                -1000 <= 2 * (1000 * significand - size * unit) <= 1000,
                unit > 8000,
        ;
    }
    assert(whole >= 0);
    assert(value.whole_text() =~= if thousandths < 0 {
        "-"@ + text::decimal(whole as nat)
    } else {
        text::decimal(whole as nat)
    });
    whole as nat
}

/// A whole number is written as it is, with the sign it has.
pub proof fn a_whole_number_is_written_as_it_is(negative: bool, magnitude: u128)
    ensures
        ({
            let value = Measured::Whole { negative, magnitude };
            let sign = if negative {
                "-"@
            } else {
                Seq::empty()
            };
            &&& value.whole_text() == sign + text::decimal(magnitude as nat)
            &&& value.one_decimal_text() == sign + (text::decimal(magnitude as nat) + "."@
                + text::decimal(0))
        }),
{
    lemma_powers();
    assert(10 * magnitude / 10 == magnitude && (10 * magnitude) % 10 == 0);
}

/// Comparing a number with so many thousandths is comparing their values.
pub proof fn a_number_is_compared_by_its_value(value: Measured, thousandths: i32)
    ensures
        match value {
            Measured::Finite { thousandths: held } => value.reaches(thousandths) <==> held
                >= thousandths,
            Measured::Binary { significand, shift } => value.reaches(thousandths) <==> 1000
                * significand >= thousandths * power(shift as nat),
            Measured::Whole { negative, magnitude } => value.reaches(thousandths) <==> 1000 * (
            if negative {
                -magnitude
            } else {
                magnitude as int
            }) >= thousandths,
            Measured::PositiveInfinity => value.reaches(thousandths),
            Measured::NegativeInfinity => !value.reaches(thousandths),
            Measured::NotANumber => !value.reaches(thousandths),
        },
{
}

/// A number held inside a range lies inside it, is the end it was beyond, and is
/// itself when it was inside.
pub proof fn a_held_number_lies_in_its_range(value: Measured, low: i32, high: i32)
    requires
        value.finite(),
        low <= high < i32::MAX,
    ensures
        ({
            let held = value.held(low, high);
            &&& held.finite()
            &&& held.reaches(low)
            &&& !held.reaches((high + 1) as i32)
            &&& !value.reaches(low) ==> held == (Measured::Finite { thousandths: low })
            &&& value.reaches(low) && !value.reaches(high) ==> held == value
            &&& value.reaches(high) ==> held.reaches(high)
        }),
{
    if let Measured::Binary { significand, shift } = value {
        let unit = power(shift as nat) as int;
        lemma_power(shift as nat);
        assert(low * unit <= high * unit < (high + 1) * unit) by (nonlinear_arith)
            requires
                low <= high,
                unit > 0,
        ;
    }
}

/// A number keeps its value whether thousandths stand for it or not.
pub proof fn a_number_keeps_its_value(significand: nat, shift: nat)
    requires
        significand <= 0x200_0000,
        shift <= 255,
    ensures
        ({
            let value = number(significand, shift);
            &&& value.finite()
            &&& !value.negative()
            &&& value.parts().0 >= 0
            &&& value.parts().0 * power(shift) == significand * power(value.parts().1)
        }),
{
    lemma_power(shift);
    if number(significand, shift) is Finite {
        lemma_rounded_near(
            magnitude(number(significand, shift)->thousandths),
            1000,
            0,
            SINGLE_START as nat,
            SINGLE_LIMIT as nat,
        );
    }
    let thousandths = half_even(1000 * significand as int, power(shift) as int);
    rounding_goes_to_the_nearest(1000 * significand as int, power(shift) as int);
    assert(thousandths >= 0) by (nonlinear_arith)
        requires
            -power(shift) <= 2 * (thousandths * power(shift) - 1000 * significand) <= power(shift),
            power(shift) > 0,
    ;
}

/// A sign changes how a number is written and not how large it is.
proof fn lemma_signed(significand: nat, shift: nat, negative: bool)
    requires
        significand <= 0x200_0000,
        shift <= 255,
    ensures
        ({
            let value = signed(number(significand, shift), negative);
            &&& value.finite()
            &&& value.negative() == negative
            &&& value.parts().0 * power(shift) == significand * power(value.parts().1)
        }),
{
    a_number_keeps_its_value(significand, shift);
    lemma_powers();
    lemma_power(shift);
    let value = number(significand, shift);
    let unit = power(shift) as int;
    if significand == 0 {
        assert(half_even(0, unit) == 0) by (nonlinear_arith)
            requires
                unit > 0,
        ;
        assert(single(0) == (0int, 0nat));
        assert(0 * unit == 0 && 0 * power(0) == 0);
        assert(value == (Measured::Finite { thousandths: 0 }));
        assert(0 * power(0) == 0);
    } else {
        match value {
            Measured::Finite { thousandths } => {
                if thousandths == 0 {
                    assert(single(0) == (0int, 0nat));
                    assert(0 * unit == 0);
                    assert(significand * power(0) == significand);
                }
            },
            _ => {},
        }
    }
}

/// What thirty-two bits are in single precision: the sign, and the significand
/// with its leading bit, scaled by the power of two.
pub proof fn bits_are_read_as_a_sign_and_a_scaled_significand(bits: u32)
    ensures
        ({
            let value = of_bits(bits);
            let exponent = bits / 0x80_0000 % 0x100;
            let fraction = bits % 0x80_0000;
            &&& exponent < 255 ==> value.finite() && value.negative() == (bits >= 0x8000_0000)
            &&& exponent == 0 ==> value.parts().0 * power(149) == fraction * power(
                value.parts().1,
            )
            &&& 0 < exponent <= 150 ==> value.parts().0 * power((150 - exponent) as nat) == (
            0x80_0000 + fraction) * power(value.parts().1)
            &&& 150 < exponent < 255 ==> value.parts() == (
                (0x80_0000 + fraction) * power((exponent - 150) as nat),
                0nat,
            )
            &&& exponent == 255 && fraction == 0 ==> value == if bits >= 0x8000_0000 {
                Measured::NegativeInfinity
            } else {
                Measured::PositiveInfinity
            }
            &&& exponent == 255 && fraction != 0 ==> value is NotANumber
        }),
{
    let exponent = bits / 0x80_0000 % 0x100;
    let fraction = bits % 0x80_0000;
    lemma_powers();
    if exponent == 0 {
        lemma_signed(fraction as nat, 149, bits >= 0x8000_0000);
    } else if exponent <= 150 {
        lemma_signed(
            (0x80_0000 + fraction) as nat,
            (150 - exponent) as nat,
            bits >= 0x8000_0000,
        );
    } else if exponent < 255 {
        let unit = power((exponent - 150) as nat);
        lemma_power_grows((exponent - 150) as nat, 104);
        assert(0 <= (0x80_0000 + fraction) * unit <= 0xff_ffff
            * 0x100_0000_0000_0000_0000_0000_0000) by (nonlinear_arith)
            requires
                0 <= fraction <= 0x7f_ffff,
                0 <= unit <= 0x100_0000_0000_0000_0000_0000_0000,
        ;
    }
}

/// A significand that had to be doubled into place is no longer than it may be,
/// and no step is smaller than the smallest.
proof fn lemma_sized(
    numerator: nat,
    denominator: nat,
    shift: nat,
    start: nat,
    limit: nat,
)
    requires
        denominator > 0,
        start > 0,
        numerator < 2 * (start * denominator),
    ensures
        ({
            let (significand, last) = rounded_from(numerator, denominator, shift, start, limit);
            &&& 0 <= significand <= 2 * start
            &&& last <= limit || last == shift
        }),
    decreases 2 * (start * denominator) - numerator,
{
    if numerator == 0 || numerator >= start * denominator || shift >= limit {
        let below = numerator as int / denominator as int;
        assert(0 <= below < 2 * start) by (nonlinear_arith)
            requires
                below == numerator as int / denominator as int,
                0 <= numerator < 2 * (start * denominator),
                denominator > 0,
        ;
    } else {
        lemma_sized(2 * numerator, denominator, shift + 1, start, limit);
    }
}

/// A percentage is what it says: no further from a hundred times the share than
/// a sixty-five-thousandth.
pub proof fn a_percentage_is_near_its_share(part: nat, whole: nat)
    requires
        part <= whole,
        0 < whole <= 0x1_0000_0000_0000_0000,
    ensures
        ({
            let percent = percentage(part, whole);
            let (significand, shift) = percent.parts();
            let off = significand * whole - 100 * part * power(shift);
            &&& significand >= 0
            &&& percent.finite()
            &&& !percent.negative()
            &&& -(whole * power(shift)) <= 0x1_0000 * off <= whole * power(shift)
        }),
{
    let start = SINGLE_START as nat;
    let limit = SINGLE_LIMIT as nat;
    lemma_powers();
    lemma_rounded_near(part, whole, 0, start, limit);
    let (q, s) = single_of(part, whole);
    let unit = power(s) as int;
    lemma_power(s);
    assert(q <= unit) by (nonlinear_arith)
        requires
            2 * (q * whole - part * unit) <= whole,
            part <= whole,
            whole > 0,
            unit > 0,
    ;
    assert(100 * q < start * unit) by (nonlinear_arith)
        requires
            q <= unit,
            unit > 0,
            start == 0x80_0000,
    ;
    lemma_rounded_near((100 * q) as nat, unit as nat, 0, start, limit);
    lemma_sized((100 * q) as nat, unit as nat, 0, start, limit);
    let (r, t) = single_of((100 * q) as nat, unit as nat);
    let step = power(t) as int;
    lemma_power(t);
    a_number_keeps_its_value(r as nat, t);
    let percent = percentage(part, whole);
    let (v, deep) = percent.parts();
    let last = power(deep) as int;
    lemma_power(deep);
    let off = r * whole - 100 * part * step;
    if part == 0 {
        assert(q == 0 && s == 0) by {
            assert(half_even(0, whole as int) == 0) by (nonlinear_arith)
                requires
                    whole > 0,
            ;
        }
        assert(half_even(0, 1) == 0);
        assert(r == 0);
        assert(off == 0) by (nonlinear_arith)
            requires
                r == 0,
                part == 0,
                off == r * whole - 100 * part * step,
        ;
        assert(-(whole * step) <= 0x1_0000 * off <= whole * step) by (nonlinear_arith)
            requires
                off == 0,
                whole > 0,
                step > 0,
        ;
    } else {
        lemma_stops(part, whole, 0, start, limit);
        assert(unit >= 0x80_0000) by {
            if s >= limit {
                lemma_power_grows(32, s);
            } else {
                assert(unit >= 0x80_0000) by (nonlinear_arith)
                    requires
                        part * unit >= start * whole,
                        start == 0x80_0000,
                        0 < part <= whole,
                ;
            }
        }
        if s >= limit {
            lemma_power_grows(64, s);
            assert(2 * (part * unit) > whole) by (nonlinear_arith)
                requires
                    part >= 1,
                    unit >= 0x1_0000_0000_0000_0000,
                    whole <= 0x1_0000_0000_0000_0000,
            ;
        }
        assert(q > 0) by (nonlinear_arith)
            requires
                -whole <= 2 * (q * whole - part * unit),
                part >= 1,
                unit >= 0x80_0000,
                whole > 0,
                s >= limit || part * unit >= start * whole,
                s >= limit ==> 2 * (part * unit) > whole,
                start == 0x80_0000,
        ;
        lemma_stops((100 * q) as nat, unit as nat, 0, start, limit);
        assert(step >= 0x1_0000) by {
            if t >= limit {
                lemma_power_grows(32, t);
            } else {
                assert(step >= 0x1_0000) by (nonlinear_arith)
                    requires
                        (100 * q) * step >= start * unit,
                        start == 0x80_0000,
                        0 < q <= unit,
                ;
            }
        }
        assert(-(unit * whole + 100 * (step * whole)) <= 2 * (unit * off) <= unit * whole + 100 * (
        step * whole)) by (nonlinear_arith)
            requires
                -unit <= 2 * (r * unit - (100 * q) * step) <= unit,
                -whole <= 2 * (q * whole - part * unit) <= whole,
                off == r * whole - 100 * part * step,
                whole > 0,
                step > 0,
        ;
        assert(-(whole * step) <= 0x1_0000 * off <= whole * step) by (nonlinear_arith)
            requires
                -(unit * whole + 100 * (step * whole)) <= 2 * (unit * off) <= unit * whole + 100 * (
                step * whole),
                unit >= 0x80_0000,
                step >= 0x1_0000,
                whole > 0,
        ;
    }
    let moved = v * whole - 100 * part * last;
    assert(moved * step == off * last) by (nonlinear_arith)
        requires
            v * step == r * last,
            moved == v * whole - 100 * part * last,
            off == r * whole - 100 * part * step,
    ;
    assert(-(whole * last) <= 0x1_0000 * moved <= whole * last) by (nonlinear_arith)
        requires
            moved * step == off * last,
            -(whole * step) <= 0x1_0000 * off <= whole * step,
            step > 0,
            last > 0,
    ;
}

/// A whole number in single precision is off by no more than a part in
/// sixteen million.
pub proof fn a_whole_number_is_rounded_by_little(number: nat)
    ensures
        -(number as int) <= 0x100_0000 * (whole_single(number) - number) <= number,
        number < 0x100_0000 ==> whole_single(number) == number,
{
    let step = whole_step(number, 1);
    lemma_whole_step(number, 1);
    rounding_goes_to_the_nearest(number as int, step as int);
    let value = half_even(number as int, step as int);
    if step == 1 {
        assert(value * 1 == value);
    } else {
        assert(value >= 0) by (nonlinear_arith)
            requires
                -step <= 2 * (value * step - number),
                step > 0,
        ;
        assert(value * step >= 0) by (nonlinear_arith)
            requires
                value >= 0,
                step > 0,
        ;
    }
}

proof fn lemma_whole_step(number: nat, step: nat)
    requires
        step > 0,
        step == 1 || 0x80_0000 * step <= number,
    ensures
        ({
            let last = whole_step(number, step);
            &&& last > 0
            &&& last == 1 || 0x80_0000 * last <= number
            &&& number < 0x100_0000 && step == 1 ==> last == 1
        }),
    decreases number - step,
{
    if number >= 0x100_0000 * step {
        lemma_whole_step(number, 2 * step);
    }
}

/// A share of a hundred is what it says: a hundredth of the number, off by no
/// more than a part in sixteen million, for a number from nothing up to a
/// hundred.
pub proof fn a_share_is_a_hundredth(value: Measured)
    requires
        value.finite(),
        !value.negative(),
        !value.reaches(100_000),
        value.parts().0 < 100 * power(value.parts().1),
    ensures
        ({
            let share = value.hundredth();
            let (significand, shift) = value.parts();
            let (part, places) = share.parts();
            let off = 100 * part * power(shift) - significand * power(places);
            &&& share.finite()
            &&& !share.negative()
            &&& -(100 * (power(shift) * power(places))) <= 0x100_0000 * off <= 100 * (power(shift)
                * power(places))
        }),
{
    let start = SINGLE_START as nat;
    let limit = SINGLE_LIMIT as nat;
    lemma_powers();
    let (n, s) = value.parts();
    let unit = power(s) as int;
    lemma_power(s);
    if value is Finite {
        thousandths_stand_for_the_nearest_value(value->thousandths);
        lemma_sized(
            magnitude(value->thousandths),
            1000,
            0,
            start,
            limit,
        );
    }
    if let Measured::Binary { significand, shift } = value {
        assert(0 * power(shift as nat) == 0);
    }
    assert(value.reaches(0));
    assert(n >= 0 && s <= 255);
    lemma_rounded_near(n as nat, 100, s, start, limit);
    let (q, t) = value.quotient();
    let more = power((t - s) as nat) as int;
    let step = power(t) as int;
    lemma_power(t);
    lemma_power((t - s) as nat);
    vstd::arithmetic::power2::lemma_pow2_adds(s, (t - s) as nat);
    assert(0 <= q <= 0x200_0000 && t <= 255) by {
        if n >= start * 100 {
            assert(n <= 0x8000_0000);
            rounding_goes_to_the_nearest(n, 100);
        } else {
            lemma_sized(n as nat, 100, s, start, limit);
        }
    }
    a_number_keeps_its_value(q as nat, t);
    let share = value.hundredth();
    assert(share == number(q as nat, t));
    let (v, deep) = share.parts();
    let last = power(deep) as int;
    lemma_power(deep);
    let off = 100 * q * unit - n * step;
    assert(off == unit * (100 * q - n * more)) by (nonlinear_arith)
        requires
            step == unit * more,
            off == 100 * q * unit - n * step,
    ;
    if n == 0 {
        assert(half_even(0, 100) == 0);
        assert(q == 0);
        assert(off == 0) by (nonlinear_arith)
            requires
                q == 0,
                n == 0,
                off == 100 * q * unit - n * step,
        ;
        assert(-(100 * (unit * step)) <= 0x100_0000 * off <= 100 * (unit * step))
            by (nonlinear_arith)
            requires
                off == 0,
                unit > 0,
                step > 0,
        ;
    } else {
        lemma_stops(n as nat, 100, s, start, limit);
        assert(step >= 0x80_0000) by {
            if t >= limit {
                lemma_power_grows(32, t);
            } else {
                assert(step >= 0x80_0000) by (nonlinear_arith)
                    requires
                        n * more >= start * 100,
                        start == 0x80_0000,
                        0 < n < 100 * unit,
                        step == unit * more,
                        more > 0,
                ;
            }
        }
        assert(-(100 * (unit * step)) <= 0x100_0000 * off <= 100 * (unit * step))
            by (nonlinear_arith)
            requires
                -100 <= 2 * (q * 100 - n * more) <= 100,
                off == unit * (100 * q - n * more),
                step >= 0x80_0000,
                unit > 0,
        ;
    }
    let moved = 100 * v * unit - n * last;
    assert((100 * v * unit) * step == (100 * unit) * (v * step)) by (nonlinear_arith);
    assert((100 * unit) * (q * last) == (100 * q * unit) * last) by (nonlinear_arith);
    assert((n * last) * step == (n * step) * last) by (nonlinear_arith);
    assert(moved * step == (100 * v * unit) * step - (n * last) * step) by (nonlinear_arith)
        requires
            moved == 100 * v * unit - n * last,
    ;
    assert(off * last == (100 * q * unit) * last - (n * step) * last) by (nonlinear_arith)
        requires
            off == 100 * q * unit - n * step,
    ;
    assert(-(100 * (unit * last)) <= 0x100_0000 * moved <= 100 * (unit * last)) by (nonlinear_arith)
        requires
            moved * step == off * last,
            -(100 * (unit * step)) <= 0x100_0000 * off <= 100 * (unit * step),
            step > 0,
            last > 0,
    ;
}

/// Three roundings in a row add up.
proof fn lemma_errors_add_up(
    whole: int,
    point: int,
    unit: int,
    high: int,
    low: int,
    first: int,
    second: int,
    third: int,
)
    requires
        unit > 0,
        low >= 0x8000,
        (high == 1 && first == 0) || high >= 0x8000,
        low * (high * (whole * unit - point)) == first * low + second * unit + third * (high * unit),
        -unit <= 2 * first <= unit,
        -high <= 2 * second <= high,
        -low <= 2 * third <= low,
    ensures
        -(0x4001 * unit) <= 0x4000 * (2 * (whole * unit - point)) <= 0x4001 * unit,
{
    let off = whole * unit - point;
    let product = low * high;
    assert(low * (high * off) == product * off) by (nonlinear_arith)
        requires
            product == low * high,
    ;
    assert(-(unit * low) <= 2 * (first * low) <= unit * low) by (nonlinear_arith)
        requires
            -unit <= 2 * first <= unit,
            low > 0,
    ;
    assert(-(high * unit) <= 2 * (second * unit) <= high * unit) by (nonlinear_arith)
        requires
            -high <= 2 * second <= high,
            unit > 0,
    ;
    let span = high * unit;
    assert(span > 0) by (nonlinear_arith)
        requires
            span == high * unit,
            high > 0,
            unit > 0,
    ;
    assert(-(low * span) <= 2 * (third * span) <= low * span) by (nonlinear_arith)
        requires
            -low <= 2 * third <= low,
            span > 0,
    ;
    let bound = product * unit;
    assert(low * span == bound) by (nonlinear_arith)
        requires
            span == high * unit,
            product == low * high,
            bound == product * unit,
    ;
    assert(0x8000 * (high * unit) <= bound) by (nonlinear_arith)
        requires
            low >= 0x8000,
            bound == (low * high) * unit,
            high > 0,
            unit > 0,
            product == low * high,
    ;
    if high == 1 {
        assert(first * low == 0) by (nonlinear_arith)
            requires
                first == 0,
        ;
    } else {
        assert(0x8000 * (unit * low) <= bound) by (nonlinear_arith)
            requires
                high >= 0x8000,
                bound == (low * high) * unit,
                low > 0,
                unit > 0,
        ;
    }
    assert(-(0x4001 * bound) <= 0x4000 * (2 * (product * off)) <= 0x4001 * bound);
    assert(product > 0) by (nonlinear_arith)
        requires
            product == low * high,
            low > 0,
            high > 0,
    ;
    assert(-(0x4001 * unit) <= 0x4000 * (2 * off) <= 0x4001 * unit) by (nonlinear_arith)
        requires
            -(0x4001 * bound) <= 0x4000 * (2 * (product * off)) <= 0x4001 * bound,
            bound == product * unit,
            product > 0,
    ;
}

/// A blend is a point of the straight line between its two bytes, for every
/// share of the way: off by one half at most, but for what the two roundings on
/// the way add.
pub proof fn a_blend_is_near_the_line(from: u8, to: u8, amount: Measured)
    requires
        amount.finite(),
        !amount.negative(),
        amount.parts().0 <= power(amount.parts().1),
    ensures
        ({
            let (significand, shift) = amount.parts();
            let unit = power(shift) as int;
            let point = from * unit + (to - from) * significand;
            -(0x4001 * unit) <= 0x4000 * (2 * (blended(from, to, amount) * unit - point)) <= 0x4001
                * unit
        }),
{
    let start = SINGLE_START as nat;
    let limit = SINGLE_LIMIT as nat;
    lemma_powers();
    let (n, s) = amount.parts();
    let unit = power(s) as int;
    lemma_power(s);
    if amount is Finite {
        thousandths_stand_for_the_nearest_value(amount->thousandths);
    }
    assert(n >= 0);
    let distance: nat = if to < from {
        (from - to) as nat
    } else {
        (to - from) as nat
    };
    let times = (distance * n) as nat;
    assert(0 <= distance * n <= 255 * unit) by (nonlinear_arith)
        requires
            0 <= distance <= 255,
            0 <= n <= unit,
    ;
    lemma_rounded_near(times, unit as nat, 0, start, limit);
    let (product, h) = single_of(times, unit as nat);
    let high = power(h) as int;
    lemma_power(h);
    if times == 0 {
        assert(half_even(0, unit) == 0) by (nonlinear_arith)
            requires
                unit > 0,
        ;
        assert(product == 0 && h == 0);
    } else {
        lemma_stops(times, unit as nat, 0, start, limit);
        assert(high >= 0x8000) by {
            if h >= limit {
                lemma_power_grows(16, h);
            } else {
                assert(high >= 0x8000) by (nonlinear_arith)
                    requires
                        times * high >= start * unit,
                        start == 0x80_0000,
                        0 < times <= 255 * unit,
                ;
            }
        }
    }
    let first = product * unit - times * high;
    assert(times == 0 ==> first == 0) by (nonlinear_arith)
        requires
            times == 0 ==> product == 0,
            first == product * unit - times * high,
    ;
    let along = from * high + if to < from {
        -product
    } else {
        product
    };
    let point = from * unit + (to - from) * n;
    assert((to - from) * n == if to < from {
        -times
    } else {
        times as int
    }) by (nonlinear_arith)
        requires
            times == distance * n,
            to < from ==> distance == from - to,
            to >= from ==> distance == to - from,
    ;
    let turned = if to < from {
        -first
    } else {
        first
    };
    assert(along * unit - point * high == turned) by (nonlinear_arith)
        requires
            first == product * unit - times * high,
            to < from ==> along == from * high - product && point == from * unit - times && turned
                == -first,
            to >= from ==> along == from * high + product && point == from * unit + times && turned
                == first,
    ;
    assert(0 <= point <= 255 * unit) by (nonlinear_arith)
        requires
            point == from * unit + (to - from) * n,
            0 <= n <= unit,
            0 <= from <= 255,
            0 <= to <= 255,
    ;
    assert(-unit <= 2 * turned <= unit);
    if along <= 0 {
        assert(along * unit <= 0) by (nonlinear_arith)
            requires
                along <= 0,
                unit > 0,
        ;
        assert(0 <= 2 * (point * high) <= unit);
        assert(2 * point <= unit) by (nonlinear_arith)
            requires
                0 <= 2 * (point * high) <= unit,
                high >= 1,
                point >= 0,
        ;
        assert(blended(from, to, amount) == 0);
        assert(0 * unit == 0);
    } else {
        assert(along <= 256 * high) by (nonlinear_arith)
            requires
                along * unit - point * high == turned,
                2 * turned <= unit,
                point <= 255 * unit,
                unit > 0,
                high >= 1,
        ;
        lemma_rounded_near(along as nat, high as nat, 0, start, limit);
        lemma_stops(along as nat, high as nat, 0, start, limit);
        let (sum, l) = single_of(along as nat, high as nat);
        let low = power(l) as int;
        lemma_power(l);
        assert(low >= 0x8000) by {
            if l >= limit {
                lemma_power_grows(16, l);
            } else {
                assert(low >= 0x8000) by (nonlinear_arith)
                    requires
                        along * low >= start * high,
                        start == 0x80_0000,
                        0 < along <= 256 * high,
                        high > 0,
                ;
            }
        }
        let second = sum * high - along * low;
        let whole = half_up(sum, l);
        rounding_up_goes_to_the_nearest(sum, l);
        let third = whole * low - sum;
        assert(low * (high * (whole * unit - point)) == turned * low + second * unit + third * (high
            * unit)) by {
            assert(low * (high * (whole * unit)) == (whole * low) * (high * unit))
                by (nonlinear_arith);
            assert((sum + third) * (high * unit) == (sum * high) * unit + third * (high * unit))
                by (nonlinear_arith);
            assert((second + along * low) * unit == second * unit + (along * unit) * low)
                by (nonlinear_arith);
            assert((turned + point * high) * low == turned * low + low * (high * point))
                by (nonlinear_arith);
            assert(low * (high * (whole * unit - point)) == low * (high * (whole * unit)) - low * (
            high * point)) by (nonlinear_arith);
        }
        lemma_errors_add_up(whole, point, unit, high, low, turned, second, third);
        assert(whole <= 255) by (nonlinear_arith)
            requires
                0x4000 * (2 * (whole * unit - point)) <= 0x4001 * unit,
                point <= 255 * unit,
                unit > 0,
        ;
    }
}

/// A hundred is a hundred in single precision.
pub proof fn a_hundred_is_exact()
    ensures
        ({
            let (significand, shift) = (Measured::Finite { thousandths: 100_000 }).parts();
            significand == 100 * power(shift)
        }),
{
    lemma_whole_kept(100, 1000);
}

/// A whole number of sixty-four bits is no more than two to the sixty-fourth
/// after rounding.
pub proof fn a_whole_number_stays_a_wide_one(number: u64)
    ensures
        whole_single(number as nat) <= 0x1_0000_0000_0000_0000,
{
    lemma_powers();
    let step = whole_step(number as nat, 1);
    lemma_whole_step(number as nat, 1);
    lemma_step_is_a_power(number as nat, 1, 0, 40);
    lemma_whole_step_covers(number as nat, 1);
    let value = half_even(number as int, step as int);
    rounding_goes_to_the_nearest(number as int, step as int);
    let below = number as int / step as int;
    assert(below < 0x100_0000) by (nonlinear_arith)
        requires
            below == number as int / step as int,
            number < 0x100_0000 * step,
            step > 0,
    ;
    assert(value <= 0x100_0000);
    assert(value * step <= 0x100_0000 * 0x100_0000_0000) by (nonlinear_arith)
        requires
            value <= 0x100_0000,
            0 < step <= 0x100_0000_0000,
    ;
}

proof fn lemma_whole_step_covers(number: nat, step: nat)
    requires
        step > 0,
    ensures
        number < 0x100_0000 * whole_step(number, step),
        whole_step(number, step) > 0,
    decreases number - step,
{
    if number >= 0x100_0000 * step {
        lemma_whole_step_covers(number, 2 * step);
    }
}

proof fn lemma_step_is_a_power(number: nat, step: nat, doublings: nat, most: nat)
    requires
        step == power(doublings),
        doublings <= most,
        number < 0x100_0000 * power(most),
    ensures
        whole_step(number, step) <= power(most),
    decreases most - doublings,
{
    lemma_power(doublings);
    lemma_power_grows(doublings, most);
    if number >= 0x100_0000 * step {
        assert(doublings < most);
        lemma_step_is_a_power(number, 2 * step, doublings + 1, most);
    }
}

/// A number that reaches a hundred has a magnitude of a hundred or more.
pub proof fn what_reaches_a_hundred_is_a_hundred_parts(value: Measured)
    requires
        value.finite(),
        value.reaches(100_000),
    ensures
        value.parts().0 >= 100 * power(value.parts().1),
{
    lemma_powers();
    match value {
        Measured::Finite { thousandths } => {
            thousandths_stand_for_the_nearest_value(thousandths);
            let size = magnitude(thousandths);
            let (significand, shift) = single(size);
            let unit = power(shift) as int;
            lemma_power(shift);
            if thousandths == 100_000 {
                a_hundred_is_exact();
            } else {
                lemma_single_keeps_a_bound(size, 100);
            }
        },
        Measured::Binary { significand, shift } => {
            let unit = power(shift as nat) as int;
            lemma_power(shift as nat);
            assert(significand >= 100 * unit && significand >= 0) by (nonlinear_arith)
                requires
                    1000 * significand >= 100_000 * unit,
                    unit > 0,
            ;
        },
        _ => {
            assert(100 * power(0) == 100);
        },
    }
}

/// Rounding keeps a number above a whole number it is above.
proof fn lemma_single_keeps_a_bound(thousandths: nat, bound: nat)
    requires
        thousandths >= 1000 * bound,
    ensures
        single(thousandths).0 >= bound * power(single(thousandths).1),
{
    let (significand, shift) = single(thousandths);
    lemma_rounded_near(thousandths, 1000, 0, SINGLE_START as nat, SINGLE_LIMIT as nat);
    let unit = power(shift) as int;
    lemma_power(shift);
    assert(significand >= bound * unit) by (nonlinear_arith)
        requires
            -1000 <= 2 * (significand * 1000 - thousandths * unit),
            thousandths >= 1000 * bound,
            unit > 0,
    ;
}

/// A finite number is rounded to the whole number nearest to it, away from zero
/// from the middle on, and stops at the largest and the smallest one there are;
/// what lies beyond every number stops there too, and what is not a number
/// counts as nothing.
pub proof fn a_number_is_rounded_away_from_zero(value: Measured)
    ensures
        value is PositiveInfinity ==> value.nearest() == i32::MAX,
        value is NegativeInfinity ==> value.nearest() == i32::MIN,
        value is NotANumber ==> value.nearest() == 0,
        i32::MIN <= value.nearest() <= i32::MAX,
        value.finite() ==> ({
            let (significand, shift) = value.parts();
            let nearest = value.nearest();
            let size = if nearest < 0 {
                -nearest
            } else {
                nearest
            };
            let off = 2 * (size * power(shift) - significand);
            &&& value.negative() ==> nearest <= 0
            &&& !value.negative() ==> nearest >= 0
            &&& off <= power(shift)
            &&& i32::MIN < nearest < i32::MAX ==> -power(shift) < off
        }),
{
    if value.finite() {
        let (significand, shift) = value.parts();
        let size = half_up(significand, shift);
        let unit = power(shift) as int;
        lemma_power(shift);
        rounding_up_goes_to_the_nearest(significand, shift);
        if let Measured::Finite { thousandths } = value {
            thousandths_stand_for_the_nearest_value(thousandths);
        }
        assert(significand >= 0);
        assert(size >= 0) by (nonlinear_arith)
            requires
                -unit < 2 * (size * unit - significand),
                significand >= 0,
                unit > 0,
        ;
        let nearest = value.nearest();
        let held = if nearest < 0 {
            -nearest
        } else {
            nearest
        };
        assert(held <= size);
        assert(held * unit <= size * unit) by (nonlinear_arith)
            requires
                held <= size,
                unit > 0,
        ;
    }
}

/// Thousandths are rounded to the nearest whole number.
pub proof fn a_number_is_rounded_to_the_nearest(thousandths: i32)
    requires
        -1_000_000 <= thousandths <= 1_000_000,
    ensures
        -500 <= 1000 * (Measured::Finite { thousandths }).nearest() - thousandths <= 500,
{
    let value = Measured::Finite { thousandths };
    thousandths_stand_for_the_nearest_value(thousandths);
    let (significand, shift) = value.parts();
    let unit = power(shift) as int;
    lemma_power(shift);
    let size = if thousandths < 0 {
        -thousandths
    } else {
        thousandths as int
    };
    let whole = half_up(significand, shift);
    rounding_up_goes_to_the_nearest(significand, shift);
    if size == 0 {
        assert(whole == 0) by (nonlinear_arith)
            requires
                -unit <= 2 * (whole * unit - 0) <= unit,
                unit > 0,
        ;
    } else {
        assert(-500 <= 1000 * whole - size <= 500) by (nonlinear_arith)
            requires
                -unit <= 2 * (whole * unit - significand) <= unit,
                -1000 <= 2 * (1000 * significand - size * unit) <= 1000,
                unit > 8000,
        ;
    }
}

/// Tenths are written as a whole number, a point and one digit.
pub proof fn tenths_are_read_back(tenths: nat)
    ensures
        ({
            let words = tenths_text(tenths);
            &&& words.len() >= 3
            &&& words[words.len() - 2] == '.'
            &&& 10 * text::number_of(words.take(words.len() - 2)) + (words.last() as int - 48)
                == tenths
        }),
{
    reveal_strlit(".");
    text::decimal_is_read_back(tenths / 10);
    text::decimal_is_read_back(tenths % 10);
    let words = tenths_text(tenths);
    let last = text::decimal(tenths % 10);
    assert(last.len() == 1);
    assert(last[0] as int == 48 + tenths % 10);
    assert(words.take(words.len() - 2) =~= text::decimal(tenths / 10));
}

/// Over a power of two, doubling always comes as far as the significand needs.
proof fn lemma_deep(numerator: nat, places: nat)
    requires
        numerator > 0,
        places <= 1000,
    ensures
        ({
            let (significand, last) = double_of(numerator, power(places));
            &&& last <= places + 52
            &&& numerator * power(last) >= DOUBLE_START * power(places)
        }),
{
    let unit = power(places);
    lemma_power(places);
    vstd::arithmetic::power2::lemma2_to64();
    vstd::arithmetic::power2::lemma2_to64_rest();
    vstd::arithmetic::power2::lemma_pow2_adds(places, 52);
    assert(power(places + 52) == 0x10_0000_0000_0000 * unit);
    assert(power(places + 52) * numerator >= DOUBLE_START * unit) by (nonlinear_arith)
        requires
            power(places + 52) == 0x10_0000_0000_0000 * unit,
            DOUBLE_START == 0x10_0000_0000_0000,
            numerator >= 1,
            unit > 0,
    ;
    assert(numerator <= numerator * unit) by (nonlinear_arith)
        requires
            unit >= 1,
            numerator >= 1,
    ;
    lemma_rounded(
        numerator,
        unit,
        0,
        DOUBLE_START as nat,
        DOUBLE_LIMIT as nat,
        numerator,
        places + 52,
    );
    lemma_stops(numerator, unit, 0, DOUBLE_START as nat, DOUBLE_LIMIT as nat);
}

/// Seconds and what is left below one, added up, are off by little.
proof fn lemma_added_up(
    nanoseconds: int,
    seconds: int,
    below: int,
    rest: int,
    first: int,
    sum: int,
    second: int,
)
    requires
        nanoseconds == 1_000_000_000 * seconds + below,
        first > 0,
        second >= 0x2_0000,
        (first == 1 && rest == 0 && below == 0) || first >= 0x10_0000_0000_0000,
        -1_000_000_000 <= 2 * (1_000_000_000 * rest - below * first) <= 1_000_000_000,
        -first <= 2 * (sum * first - (seconds * first + rest) * second) <= first,
    ensures
        -(8_000 * second) <= 1_000_000_000 * sum - nanoseconds * second <= 8_000 * second,
{
    let one = 1_000_000_000 * rest - below * first;
    let two = sum * first - (seconds * first + rest) * second;
    let off = 1_000_000_000 * sum - nanoseconds * second;
    assert(off * first == one * second + 1_000_000_000 * two) by (nonlinear_arith)
        requires
            one == 1_000_000_000 * rest - below * first,
            two == sum * first - (seconds * first + rest) * second,
            off == 1_000_000_000 * sum - nanoseconds * second,
            nanoseconds == 1_000_000_000 * seconds + below,
    ;
    assert(-(first * second) <= one * second <= first * second) by (nonlinear_arith)
        requires
            -1_000_000_000 <= 2 * one <= 1_000_000_000,
            one == 0 || first >= 0x10_0000_0000_0000,
            first > 0,
            second > 0,
    ;
    assert(-(7_000 * (first * second)) <= 1_000_000_000 * two <= 7_000 * (first * second))
        by (nonlinear_arith)
        requires
            -first <= 2 * two <= first,
            second >= 0x2_0000,
            first > 0,
    ;
    assert(-(8_000 * second) <= off <= 8_000 * second) by (nonlinear_arith)
        requires
            -(7_001 * (first * second)) <= off * first <= 7_001 * (first * second),
            first > 0,
            second > 0,
    ;
}

/// What is left of a duration in tenths of a millisecond is off by little.
proof fn lemma_in_tenths(
    nanoseconds: int,
    sum: int,
    second: int,
    product: int,
    third: int,
    tenths: int,
)
    requires
        second > 0,
        third >= 0x80,
        -(8_000 * second) <= 1_000_000_000 * sum - nanoseconds * second <= 8_000 * second,
        -second <= 2 * (product * second - 1000 * sum * third) <= second,
        -third <= 2 * (tenths * third - 10 * product) <= third,
    ensures
        -63_000 <= 100_000 * tenths - nanoseconds <= 63_000,
{
    let three = 1_000_000_000 * sum - nanoseconds * second;
    let four = product * second - 1000 * sum * third;
    let five = tenths * third - 10 * product;
    let off = 100_000 * tenths - nanoseconds;
    let both = second * third;
    assert(off * both == three * third + 1_000_000 * four + 100_000 * (five * second))
        by (nonlinear_arith)
        requires
            three == 1_000_000_000 * sum - nanoseconds * second,
            four == product * second - 1000 * sum * third,
            five == tenths * third - 10 * product,
            off == 100_000 * tenths - nanoseconds,
            both == second * third,
    ;
    assert(-(8_000 * both) <= three * third <= 8_000 * both) by (nonlinear_arith)
        requires
            -(8_000 * second) <= three <= 8_000 * second,
            both == second * third,
            third > 0,
    ;
    assert(-(4_000 * both) <= 1_000_000 * four <= 4_000 * both) by (nonlinear_arith)
        requires
            -second <= 2 * four <= second,
            both == second * third,
            third >= 0x80,
            second > 0,
    ;
    assert(-both <= 2 * (five * second) <= both) by (nonlinear_arith)
        requires
            -third <= 2 * five <= third,
            both == second * third,
            second > 0,
    ;
    assert(both > 0) by (nonlinear_arith)
        requires
            both == second * third,
            second > 0,
            third > 0,
    ;
    assert(-63_000 <= off <= 63_000) by (nonlinear_arith)
        requires
            -(62_000 * both) <= off * both <= 62_000 * both,
            both > 0,
    ;
}

/// A duration is told in tenths of a millisecond, rounded: never further from
/// what passed than sixty-three microseconds.
pub proof fn a_duration_is_told_in_tenths_of_a_millisecond(nanoseconds: u64)
    ensures
        -63_000 <= 100_000 * elapsed_tenths(nanoseconds as nat) - nanoseconds <= 63_000,
        elapsed_tenths(nanoseconds as nat) >= 0,
{
    let start = DOUBLE_START as nat;
    let limit = DOUBLE_LIMIT as nat;
    let seconds = nanoseconds as nat / 1_000_000_000;
    let below = nanoseconds as nat % 1_000_000_000;
    let (rest, rest_shift) = double_of(below, 1_000_000_000);
    let first = power(rest_shift);
    let whole = seconds * first + rest as nat;
    let (sum, sum_shift) = double_of(whole, first);
    let second = power(sum_shift);
    let (product, shift) = double_of((1000 * sum) as nat, second);
    let third = power(shift);
    let tenths = half_even(10 * product, third as int);
    lemma_powers();
    lemma_power(rest_shift);
    lemma_power(sum_shift);
    lemma_power(shift);
    lemma_rounded_near(below, 1_000_000_000, 0, start, limit);
    lemma_rounded_near(whole, first, 0, start, limit);
    lemma_rounded_near((1000 * sum) as nat, second, 0, start, limit);
    rounding_goes_to_the_nearest(10 * product, third as int);
    if below == 0 {
        assert(rest == 0 && first == 1) by {
            assert(half_even(0, 1_000_000_000) == 0);
        }
    } else {
        assert(power(87) * below >= DOUBLE_START * 1_000_000_000) by (nonlinear_arith)
            requires
                power(87) == 0x80_0000_0000_0000_0000_0000,
                below >= 1,
                DOUBLE_START == 0x10_0000_0000_0000,
        ;
        lemma_rounded(below, 1_000_000_000, 0, start, limit, 1, 87);
        lemma_stops(below, 1_000_000_000, 0, start, limit);
        assert(first >= 0x10_0000_0000_0000) by (nonlinear_arith)
            requires
                below * first >= start * 1_000_000_000,
                start == 0x10_0000_0000_0000,
                below < 1_000_000_000,
        ;
    }
    assert(rest <= first) by (nonlinear_arith)
        requires
            2 * (rest * 1_000_000_000 - below * first) <= 1_000_000_000,
            below < 1_000_000_000,
            first >= 1,
    ;
    if whole == 0 {
        assert(sum == 0 && second == 1) by {
            assert(half_even(0, first as int) == 0) by (nonlinear_arith)
                requires
                    first > 0,
            ;
        }
        assert(product == 0 && third == 1) by {
            assert(half_even(0, 1) == 0);
        }
        assert(tenths == 0);
        assert(seconds == 0) by (nonlinear_arith)
            requires
                seconds * first + rest == 0,
                rest >= 0,
                first >= 1,
                seconds >= 0,
        ;
        assert(below == 0) by (nonlinear_arith)
            requires
                -1_000_000_000 <= 2 * (rest * 1_000_000_000 - below * first),
                rest == 0,
                below == 0 || first >= 0x10_0000_0000_0000,
                below >= 0,
        ;
    } else {
        lemma_deep(whole, rest_shift);
        assert(whole <= 0x4_4b82_fa0a * first) by (nonlinear_arith)
            requires
                whole == seconds * first + rest,
                seconds <= 0x4_4b82_fa09,
                rest <= first,
        ;
        assert(second >= 0x2_0000) by (nonlinear_arith)
            requires
                whole * second >= 0x10_0000_0000_0000 * first,
                whole <= 0x4_4b82_fa0a * first,
                first > 0,
        ;
        lemma_added_up(
            nanoseconds as int,
            seconds as int,
            below as int,
            rest,
            first as int,
            sum,
            second as int,
        );
        assert(sum > 0) by (nonlinear_arith)
            requires
                -first <= 2 * (sum * first - whole * second),
                whole * second >= 0x10_0000_0000_0000 * first,
                first > 0,
        ;
        lemma_deep((1000 * sum) as nat, sum_shift);
        assert(sum <= 0x4_4b82_fa0b * second) by (nonlinear_arith)
            requires
                1_000_000_000 * sum <= nanoseconds * second + 8_000 * second,
                nanoseconds <= 0xffff_ffff_ffff_ffff,
                second > 0,
        ;
        assert(third >= 0x80) by (nonlinear_arith)
            requires
                (1000 * sum) * third >= 0x10_0000_0000_0000 * second,
                sum <= 0x4_4b82_fa0b * second,
                sum > 0,
                second > 0,
        ;
        lemma_in_tenths(
            nanoseconds as int,
            sum,
            second as int,
            product,
            third as int,
            tenths,
        );
    }
    assert(tenths >= 0) by (nonlinear_arith)
        requires
            -third <= 2 * (tenths * third - 10 * product),
            product >= 0,
            third > 0,
    ;
}

} // verus!
