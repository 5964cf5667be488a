//! The escape-time evaluator: how many steps of `z <- z^2 + c` it takes for
//! `z` to leave the disc of radius 2.

use crate::fixed::{lemma_trunc_div_one_bound, trunc_div, ONE};
use vstd::prelude::*;

verus! {

/// A point of the complex plane, both parts in fixed point. The parts are
/// 128 bits wide, so that every pixel of every viewport has its point.
#[derive(Clone, Copy, Debug, PartialEq, Eq)]
pub struct Complex {
    pub re: i128,
    pub im: i128,
}

/// What the evaluator found for one point.
#[derive(Clone, Copy, Debug, PartialEq, Eq)]
pub enum EscapeResult {
    /// The orbit first left the disc of radius 2 at this step.
    Escaped(usize),
    /// The orbit stayed inside the disc for every step that was tried.
    Bounded,
}

/// 2.0 in fixed point: the escape radius.
pub const RADIUS: i128 = 8589934592;

/// 4.0 in the scale of a product of two fixed-point numbers: the square of
/// the escape radius.
pub const RADIUS_SQUARED: i128 = 73786976294838206464;

/// `|z|^2 > 4` for `z = x + iy`.
pub open spec fn escaped(z: (int, int)) -> bool {
    z.0 * z.0 + z.1 * z.1 > RADIUS_SQUARED as int
}

/// One step `z^2 + c`, each product brought back to 32 fractional bits by a
/// division that rounds toward zero.
pub open spec fn step(z: (int, int), c: Complex) -> (int, int) {
    (
        trunc_div(z.0 * z.0 - z.1 * z.1, ONE as int) + c.re,
        trunc_div(2 * z.0 * z.1, ONE as int) + c.im,
    )
}

/// The orbit of 0 under `z <- z^2 + c` after `n` steps.
pub open spec fn orbit(c: Complex, n: nat) -> (int, int)
    decreases n,
{
    if n == 0 {
        (0, 0)
    } else {
        step(orbit(c, (n - 1) as nat), c)
    }
}

/// The orbit of `c` is outside the disc of radius 2 after `n` steps.
pub open spec fn escapes_at(c: Complex, n: nat) -> bool {
    escaped(orbit(c, n))
}

/// The orbit of `c` is inside the disc after each of the first `cap` steps.
pub open spec fn stays_within(c: Complex, cap: nat) -> bool {
    forall|j: nat| j < cap ==> !escapes_at(c, j)
}

/// `n` is the first step after which the orbit of `c` is outside the disc.
pub open spec fn is_first_escape(c: Complex, n: nat) -> bool {
    escapes_at(c, n) && stays_within(c, n)
}

/// The first step after which the orbit of `c` is outside the disc, for a
/// `c` whose orbit leaves it at all.
pub open spec fn first_escape(c: Complex) -> nat {
    choose|n: nat| is_first_escape(c, n)
}

/// The escape result of `c` under an iteration cap: the first escape step
/// if it lies below the cap, and `Bounded` otherwise.
pub open spec fn escape_result(c: Complex, cap: nat) -> EscapeResult {
    if !stays_within(c, cap) {
        EscapeResult::Escaped(first_escape(c) as usize)
    } else {
        EscapeResult::Bounded
    }
}

/// A point has at most one first escape step.
pub proof fn lemma_first_escape_unique(c: Complex, a: nat, b: nat)
    requires
        is_first_escape(c, a),
        is_first_escape(c, b),
    ensures
        a == b,
{
}

/// A first escape step below the cap is the escape result.
pub proof fn lemma_escape_result_escaped(c: Complex, cap: nat, n: nat)
    requires
        n < cap,
        is_first_escape(c, n),
    ensures
        !stays_within(c, cap),
        first_escape(c) == n,
        escape_result(c, cap) == EscapeResult::Escaped(n as usize),
{
    lemma_first_escape_unique(c, first_escape(c), n);
}

/// Under every iteration cap, an escape index is below the cap and is the
/// first step after which the orbit is outside the disc; a bounded point
/// stays inside for every step below the cap.
pub proof fn lemma_escape_result_index(c: Complex, max_iter: usize)
    ensures
        match escape_result(c, max_iter as nat) {
            EscapeResult::Escaped(n) => n < max_iter && is_first_escape(c, n as nat),
            EscapeResult::Bounded => stays_within(c, max_iter as nat),
        },
{
    let cap = max_iter as nat;
    if !stays_within(c, cap) {
        let j = choose|j: nat| j < cap && escapes_at(c, j);
        lemma_first_escape_below(c, j);
        let n = first_escape(c);
        assert(is_first_escape(c, n));
        if n > j {
            assert(!escapes_at(c, j));
        }
    }
}

/// If the orbit is outside the disc after `j` steps, it has a first escape
/// step, and that step is at most `j`.
pub proof fn lemma_first_escape_below(c: Complex, j: nat)
    requires
        escapes_at(c, j),
    ensures
        is_first_escape(c, first_escape(c)),
        first_escape(c) <= j,
    decreases j,
{
    if stays_within(c, j) {
        assert(is_first_escape(c, j));
    } else {
        let k = choose|k: nat| k < j && escapes_at(c, k);
        lemma_first_escape_below(c, k);
    }
    let n = first_escape(c);
    if n > j {
        assert(!escapes_at(c, j));
    }
}

/// The largest magnitude a part of the orbit can have one step after it
/// was inside the disc, for a `c` within the escape radius: 6.0.
const ORBIT_BOUND: i128 = 25769803776;

/// Inside the disc both parts are at most 2 in magnitude, and so are the two
/// products that a step divides.
proof fn lemma_inside_disc(x: int, y: int)
    requires
        !escaped((x, y)),
    ensures
        -RADIUS <= x <= RADIUS,
        -RADIUS <= y <= RADIUS,
        -RADIUS_SQUARED <= x * x - y * y <= RADIUS_SQUARED,
        -RADIUS_SQUARED <= 2 * x * y <= RADIUS_SQUARED,
{
    assert(x * x >= 0 && y * y >= 0) by (nonlinear_arith);
    assert(x * x <= 73786976294838206464 ==> -8589934592 <= x <= 8589934592)
        by (nonlinear_arith);
    assert(y * y <= 73786976294838206464 ==> -8589934592 <= y <= 8589934592)
        by (nonlinear_arith);
    assert(2 * x * y <= x * x + y * y && -(x * x + y * y) <= 2 * x * y) by (nonlinear_arith);
}

/// A part beyond the escape radius puts the point outside the disc.
proof fn lemma_beyond_radius(x: int, y: int)
    requires
        x > RADIUS || x < -RADIUS || y > RADIUS || y < -RADIUS,
    ensures
        escaped((x, y)),
{
    assert(x * x >= 0 && y * y >= 0) by (nonlinear_arith);
    assert((x > 8589934592 || x < -8589934592) ==> x * x > 73786976294838206464)
        by (nonlinear_arith);
    assert((y > 8589934592 || y < -8589934592) ==> y * y > 73786976294838206464)
        by (nonlinear_arith);
}

/// A point outside the square that encloses the disc escapes after exactly
/// one step: the orbit starts at 0 and its first step lands on the point.
pub proof fn lemma_far_point(c: Complex)
    requires
        c.re > RADIUS || c.re < -RADIUS || c.im > RADIUS || c.im < -RADIUS,
    ensures
        is_first_escape(c, 1),
{
    assert(orbit(c, 0) == (0int, 0int));
    assert(orbit(c, 1) == step(orbit(c, 0), c));
    assert(orbit(c, 1) == (c.re as int, c.im as int));
    lemma_beyond_radius(c.re as int, c.im as int);
    assert(!escapes_at(c, 0));
    assert forall|j: nat| j < 1 implies !escapes_at(c, j) by {
        assert(j == 0);
    }
}

/// Iterates `z <- z^2 + c` from `z = 0` for at most `max_iter` steps. Before
/// each step it tests whether `|z|^2 > 4`, and returns the index of the
/// first step at which that holds; it returns `Bounded` if it holds at none.
pub fn evaluate(c: Complex, max_iter: usize) -> (r: EscapeResult)
    ensures
        r == escape_result(c, max_iter as nat),
        match r {
            EscapeResult::Escaped(n) => n < max_iter && is_first_escape(c, n as nat),
            EscapeResult::Bounded => stays_within(c, max_iter as nat),
        },
{
    if c.re > RADIUS || c.re < -RADIUS || c.im > RADIUS || c.im < -RADIUS {
        // The first step lands on `c`, which is outside the disc; taking it
        // here keeps the arithmetic of the loop within 128 bits.
        proof {
            lemma_far_point(c);
        }
        if max_iter >= 2 {
            proof {
                lemma_escape_result_escaped(c, max_iter as nat, 1);
            }
            return EscapeResult::Escaped(1);
        }
        assert(stays_within(c, max_iter as nat));
        return EscapeResult::Bounded;
    }
    let mut x: i128 = 0;
    let mut y: i128 = 0;
    let mut i: usize = 0;
    while i < max_iter
        invariant
            i <= max_iter,
            -RADIUS <= c.re <= RADIUS,
            -RADIUS <= c.im <= RADIUS,
            (x as int, y as int) == orbit(c, i as nat),
            -ORBIT_BOUND <= x <= ORBIT_BOUND,
            -ORBIT_BOUND <= y <= ORBIT_BOUND,
            stays_within(c, i as nat),
        decreases max_iter - i,
    {
        assert(0 <= x * x <= 664082786653543858176 && 0 <= y * y <= 664082786653543858176)
            by (nonlinear_arith)
            requires
                -25769803776 <= x <= 25769803776,
                -25769803776 <= y <= 25769803776,
        ;
        let xx = x * x;
        let yy = y * y;
        if xx + yy > RADIUS_SQUARED {
            proof {
                lemma_escape_result_escaped(c, max_iter as nat, i as nat);
            }
            return EscapeResult::Escaped(i);
        }
        proof {
            lemma_inside_disc(x as int, y as int);
            lemma_trunc_div_one_bound(x * x - y * y, RADIUS_SQUARED as int);
            lemma_trunc_div_one_bound(2 * x * y, RADIUS_SQUARED as int);
            assert(orbit(c, (i + 1) as nat) == step(orbit(c, i as nat), c));
        }
        let next_x = (xx - yy) / (ONE as i128) + c.re;
        y = (2 * x * y) / (ONE as i128) + c.im;
        x = next_x;
        i = i + 1;
    }
    EscapeResult::Bounded
}

/// With `c = 0` the orbit never leaves 0.
pub proof fn lemma_origin_orbit(n: nat)
    ensures
        orbit(Complex { re: 0, im: 0 }, n) == (0int, 0int),
    decreases n,
{
    if n > 0 {
        lemma_origin_orbit((n - 1) as nat);
    }
}

/// The origin never escapes: with `c = 0` the result is `Bounded` under
/// every iteration cap.
pub proof fn lemma_origin_is_bounded(cap: nat)
    ensures
        escape_result(Complex { re: 0, im: 0 }, cap) == EscapeResult::Bounded,
{
    let c = Complex { re: 0, im: 0 };
    assert forall|j: nat| j < cap implies !escapes_at(c, j) by {
        lemma_origin_orbit(j);
    }
}

/// A larger cap keeps an escape index: a point that escapes under one cap
/// has the same result under every larger one.
pub proof fn lemma_larger_cap_keeps_escape(c: Complex, cap: nat, larger: nat)
    requires
        cap <= larger,
        escape_result(c, cap) is Escaped,
    ensures
        escape_result(c, larger) == escape_result(c, cap),
{
    let j = choose|j: nat| j < cap && escapes_at(c, j);
    assert(j < larger && escapes_at(c, j));
}

} // verus!
