//! The vesting calculator: the amount that a stream's schedule has unlocked
//! after a given time, and how much of it is still to be paid out.

use vstd::prelude::*;
use vstd::arithmetic::div_mod::{
    lemma_div_is_ordered, lemma_div_multiples_vanish, lemma_fundamental_div_mod,
    lemma_hoist_over_denominator, lemma_mod_bound,
};
use crate::error::PaymentStreamingError;
use crate::stream::Stream;

verus! {

/// The quotient of `a` by a positive `b`, rounded toward zero.
pub open spec fn div_toward_zero(a: int, b: int) -> int {
    if a >= 0 {
        a / b
    } else {
        -((-a) / b)
    }
}

/// What a schedule of `total` over `duration` has unlocked once `elapsed` has
/// passed: all of it from `duration` on, before that the share
/// `total * elapsed / duration`, the product taken exactly and the quotient
/// rounded toward zero.
pub open spec fn vested(total: int, duration: int, elapsed: int) -> int {
    if elapsed >= duration {
        total
    } else {
        div_toward_zero(total * elapsed, duration)
    }
}

/// What the recipient may withdraw once `elapsed` has passed since the start:
/// the unlocked amount less what was paid out already.
pub open spec fn available(stream: Stream, elapsed: u64) -> int {
    vested(stream.total_amount as int, stream.duration as int, elapsed as int)
        - stream.withdrawn
}

/// Whether `v` is a value of the amount type.
pub open spec fn is_amount(v: int) -> bool {
    i128::MIN <= v <= i128::MAX
}

/// For `e < d`, the exact quotient `m * e / d` splits over the quotient and
/// the remainder of `m` by `d`, and is below `m` unless `m` is zero.
proof fn lemma_scale_split(m: int, e: int, d: int)
    requires
        0 <= m,
        0 <= e < d,
    ensures
        (m * e) / d == (m / d) * e + ((m % d) * e) / d,
        0 <= (m / d) * e <= m,
        0 <= (m % d) * e < d * d,
        0 <= (m * e) / d <= m,
        m > 0 ==> (m * e) / d < m,
{
    let q = m / d;
    let r = m % d;
    lemma_fundamental_div_mod(m, d);
    lemma_mod_bound(m, d);
    assert(m * e == r * e + (q * e) * d) by (nonlinear_arith)
        requires
            m == d * q + r,
    ;
    lemma_hoist_over_denominator(r * e, q * e, d as nat);
    assert(0 <= q * e <= m) by (nonlinear_arith)
        requires
            0 <= q,
            0 <= e < d,
            0 <= r,
            m == d * q + r,
    ;
    assert(0 <= r * e < d * d) by (nonlinear_arith)
        requires
            0 <= r < d,
            0 <= e < d,
    ;
    assert(0 <= m * e && (m > 0 ==> m * e < m * d) && m * e <= m * d) by (nonlinear_arith)
        requires
            0 <= m,
            0 <= e < d,
    ;
    lemma_div_multiples_vanish(m, d);
    lemma_div_is_ordered(m * e, m * d, d);
    assert(d * m == m * d) by (nonlinear_arith);
    if m > 0 {
        lemma_fundamental_div_mod(m * e, d);
        lemma_mod_bound(m * e, d);
        let k = (m * e) / d;
        assert(k < m) by (nonlinear_arith)
            requires
                d * k <= m * e,
                m * e < m * d,
                0 < d,
        ;
    }
}

/// What has unlocked lies between zero and the total, on the total's side of
/// zero.
pub proof fn lemma_vested_between(total: int, duration: int, elapsed: int)
    requires
        0 <= elapsed,
        0 <= duration,
    ensures
        total >= 0 ==> 0 <= vested(total, duration, elapsed) <= total,
        total <= 0 ==> total <= vested(total, duration, elapsed) <= 0,
{
    if elapsed < duration {
        if total >= 0 {
            lemma_scale_split(total, elapsed, duration);
        } else {
            lemma_scale_split(-total, elapsed, duration);
            assert(total * elapsed == -((-total) * elapsed)) by (nonlinear_arith);
        }
    }
}

/// A schedule with a total that is not negative never takes back what it has
/// unlocked: later, at least as much is unlocked.
pub proof fn lemma_vested_grows(total: int, duration: int, earlier: int, later: int)
    requires
        0 <= total,
        0 <= duration,
        0 <= earlier <= later,
    ensures
        vested(total, duration, earlier) <= vested(total, duration, later),
{
    lemma_vested_between(total, duration, earlier);
    if later < duration {
        assert(0 <= total * earlier <= total * later) by (nonlinear_arith)
            requires
                0 <= total,
                0 <= earlier <= later,
        ;
        lemma_div_is_ordered(total * earlier, total * later, duration);
    }
}

/// At the start of a stream nothing has unlocked, so what is available is the
/// negative of what was withdrawn. A stream of duration zero is left out: it
/// is fully vested at its start, and there the claim holds only of a total of
/// zero.
pub proof fn lemma_available_at_start(stream: Stream)
    requires
        stream.duration > 0 || stream.total_amount == 0,
    ensures
        available(stream, 0) == -stream.withdrawn,
        stream.withdrawn >= 0 ==> available(stream, 0) <= 0,
{
    assert(stream.total_amount * 0 == 0);
}

/// Once the duration has passed, all that was not withdrawn is available,
/// however long ago the duration ended.
pub proof fn lemma_available_when_vested(stream: Stream, elapsed: u64)
    requires
        elapsed >= stream.duration,
    ensures
        available(stream, elapsed) == stream.total_amount - stream.withdrawn,
{
}

/// Of a valid stream, what is available is a value of the amount type and
/// never more than what is left of the total.
pub proof fn lemma_available_of_valid(stream: Stream, elapsed: u64)
    requires
        stream.is_valid(),
    ensures
        is_amount(available(stream, elapsed)),
        available(stream, elapsed) <= stream.total_amount - stream.withdrawn,
{
    lemma_vested_between(stream.total_amount as int, stream.duration as int, elapsed as int);
}

/// The calculator is a function of its arguments: two results that it may
/// give for the same stream and the same elapsed time are equal.
pub proof fn lemma_calculate_available_is_function(
    stream: Stream,
    elapsed: u64,
    first: Result<i128, PaymentStreamingError>,
    second: Result<i128, PaymentStreamingError>,
)
    requires
        call_ensures(calculate_available, (&stream, elapsed), first),
        call_ensures(calculate_available, (&stream, elapsed), second),
    ensures
        first == second,
{
}

/// The size of `v` without its sign.
fn magnitude(v: i128) -> (m: u128)
    ensures
        m == if v >= 0 { v as int } else { -(v as int) },
{
    if v >= 0 {
        v as u128
    } else {
        let below: i128 = -(v + 1);
        below as u128 + 1
    }
}

/// What a schedule of `total` over `duration` has unlocked once `elapsed` has
/// passed. The share is exact: no product is formed that could exceed the
/// amount type, whatever the three values are.
pub fn vested_amount(total: i128, duration: u64, elapsed: u64) -> (amount: i128)
    ensures
        amount == vested(total as int, duration as int, elapsed as int),
{
    if elapsed >= duration {
        return total;
    }
    let m: u128 = magnitude(total);
    let d: u128 = duration as u128;
    let e: u128 = elapsed as u128;
    proof {
        lemma_scale_split(m as int, e as int, d as int);
        assert(d * d <= u128::MAX) by (nonlinear_arith)
            requires
                0 <= d <= u64::MAX,
        ;
    }
    let whole: u128 = (m / d) * e;
    let part: u128 = ((m % d) * e) / d;
    let share: u128 = whole + part;
    assert(share == (m * e) / (d as int));
    if total >= 0 {
        assert(total * elapsed == m * e);
        share as i128
    } else {
        assert(total * elapsed == -(m * e)) by (nonlinear_arith)
            requires
                total == -m,
                elapsed == e,
        ;
        assert(m * e == 0 ==> share == 0);
        -(share as i128)
    }
}

/// The amount that the recipient of `stream` may withdraw once `elapsed` has
/// passed since the stream's start, or `ArithmeticError` where that amount is
/// no value of the amount type. Of a valid stream it always is one.
pub fn calculate_available(stream: &Stream, elapsed: u64) -> (result: Result<i128, PaymentStreamingError>)
    ensures
        result is Ok <==> is_amount(available(*stream, elapsed)),
        result is Ok ==> result->Ok_0 == available(*stream, elapsed),
        result is Err ==> result->Err_0 == PaymentStreamingError::ArithmeticError,
{
    let unlocked: i128 = vested_amount(stream.total_amount, stream.duration, elapsed);
    match unlocked.checked_sub(stream.withdrawn) {
        Some(amount) => Ok(amount),
        None => Err(PaymentStreamingError::ArithmeticError),
    }
}

} // verus!
