//! 64-bit arithmetic as the language has it: every result is the mathematical
//! one reduced to two's complement, so no operation can overflow.

use vstd::prelude::*;
use vstd::arithmetic::div_mod::{lemma_add_mod_noop, lemma_mul_mod_noop_general};

verus! {

/// The number of 64-bit patterns.
pub open spec fn modulus() -> int {
    0x1_0000_0000_0000_0000
}

/// The 64-bit two's-complement integer congruent to `x`.
#[verifier::opaque]
pub open spec fn wrap(x: int) -> i64 {
    if x % modulus() > i64::MAX as int {
        (x % modulus() - modulus()) as i64
    } else {
        (x % modulus()) as i64
    }
}

/// The quotient of `a` by `d` rounded toward zero. `d` is not zero.
pub open spec fn quotient(a: int, d: int) -> int
    recommends
        d != 0,
{
    if a >= 0 && d > 0 {
        a / d
    } else if a < 0 && d < 0 {
        (-a) / (-d)
    } else if a < 0 {
        -((-a) / d)
    } else {
        -(a / (-d))
    }
}

/// A number that fits 64 bits is its own reduction.
pub proof fn lemma_wrap_fits(x: int)
    requires
        i64::MIN <= x <= i64::MAX,
    ensures
        wrap(x) == x,
{
    reveal(wrap);
}

/// A number and its reduction leave the same remainder.
pub proof fn lemma_wrap_congruent(x: int)
    ensures
        (wrap(x) as int) % modulus() == x % modulus(),
{
    reveal(wrap);
    let m = modulus();
    let w = wrap(x) as int;
    if x % m > i64::MAX as int {
        assert(w == x % m - m);
        vstd::arithmetic::div_mod::lemma_mod_add_multiples_vanish(w, m);
    } else {
        assert(w == x % m);
    }
    vstd::arithmetic::div_mod::lemma_mod_twice(x, m);
}

/// Reducing a term of a sum first changes nothing.
pub proof fn lemma_wrap_add(x: int, d: int)
    ensures
        wrap(wrap(x) + d) == wrap(x + d),
{
    reveal(wrap);
    let m = modulus();
    lemma_wrap_congruent(x);
    lemma_add_mod_noop(wrap(x) as int, d, m);
    lemma_add_mod_noop(x, d, m);
}

/// Reducing a factor of a product first changes nothing.
pub proof fn lemma_wrap_mul(x: int, k: int)
    ensures
        wrap(wrap(x) * k) == wrap(x * k),
{
    reveal(wrap);
    let m = modulus();
    lemma_wrap_congruent(x);
    lemma_mul_mod_noop_general(wrap(x) as int, k, m);
    lemma_mul_mod_noop_general(x, k, m);
}

/// Accumulating a decimal numeral digit by digit, reducing at every step,
/// gives the reduction of the numeral's value.
pub proof fn lemma_wrap_accumulate(v: int, d: int)
    ensures
        wrap(wrap(wrap(v) * 10) + d) == wrap(v * 10 + d),
{
    lemma_wrap_mul(v, 10);
    lemma_wrap_add(v * 10, d);
}

/// `a + b`, reduced.
pub fn wrapping_add(a: i64, b: i64) -> (r: i64)
    ensures
        r == wrap(a + b),
{
    proof {
        reveal(wrap);
    }
    a.wrapping_add(b)
}

/// `a - b`, reduced.
pub fn wrapping_sub(a: i64, b: i64) -> (r: i64)
    ensures
        r == wrap(a - b),
{
    proof {
        reveal(wrap);
    }
    a.wrapping_sub(b)
}

/// `a * b`, reduced.
pub fn wrapping_mul(a: i64, b: i64) -> (r: i64)
    ensures
        r == wrap(a * b),
{
    proof {
        reveal(wrap);
    }
    a.wrapping_mul(b)
}

/// `-a`, reduced: the least integer is its own negation.
pub fn wrapping_neg(a: i64) -> (r: i64)
    ensures
        r == wrap(-a),
{
    proof {
        reveal(wrap);
    }
    0i64.wrapping_sub(a)
}

/// `a / d` rounded toward zero, reduced: the least integer divided by -1 is
/// itself.
pub fn wrapping_div(a: i64, d: i64) -> (r: i64)
    requires
        d != 0,
    ensures
        r == wrap(quotient(a as int, d as int)),
{
    proof {
        reveal(wrap);
    }
    match a.checked_div(d) {
        Some(q) => q,
        None => {
            assert(a == i64::MIN && d == -1) by (nonlinear_arith)
                requires
                    d != 0,
                    quotient(a as int, d as int) < i64::MIN || quotient(a as int, d as int)
                        > i64::MAX,
                    i64::MIN <= a <= i64::MAX,
                    i64::MIN <= d <= i64::MAX,
            ;
            a
        },
    }
}

} // verus!
