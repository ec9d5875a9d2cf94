//! Mathematical model of the generator: greatest common divisors, modular
//! inverses, the forward and backward stepping maps, and the laws relating
//! them.

use vstd::prelude::*;
use vstd::arithmetic::div_mod::*;
use vstd::arithmetic::mul::*;
use vstd::math::abs;

verus! {

/// Greatest common divisor of two natural numbers, by Euclid's algorithm.
pub open spec fn gcd_nat(a: nat, b: nat) -> nat
    decreases b,
{
    if b == 0 {
        a
    } else {
        gcd_nat(b, a % b)
    }
}

/// Greatest common divisor of two integers: the gcd of their absolute values.
pub open spec fn gcd_int(a: int, b: int) -> int {
    gcd_nat(abs(a), abs(b)) as int
}

/// `i` is the multiplicative inverse of `a` modulo `m`, reduced to `[0, m)`.
pub open spec fn is_inverse(a: int, i: int, m: int) -> bool {
    0 <= i < m && (a * i) % m == 1int % m
}

/// `a` has a multiplicative inverse modulo `m`.
pub open spec fn invertible(a: int, m: int) -> bool {
    exists|i: int| is_inverse(a, i, m)
}

/// The multiplicative inverse of `a` modulo `m`, when one exists.
pub open spec fn mod_inv(a: int, m: int) -> int
    recommends
        invertible(a, m),
{
    choose|i: int| is_inverse(a, i, m)
}

/// One forward step of the recurrence: `(a * s + c) mod m`.
pub open spec fn step_fwd(s: int, a: int, c: int, m: int) -> int {
    (a * s + c) % m
}

/// One backward step: undo the recurrence using the inverse of `a`.
pub open spec fn step_back(s: int, a: int, c: int, m: int) -> int {
    (mod_inv(a, m) * (s - c)) % m
}

/// The state after `k` forward steps.
pub open spec fn advance_iter(s: int, a: int, c: int, m: int, k: nat) -> int
    decreases k,
{
    if k == 0 {
        s
    } else {
        step_fwd(advance_iter(s, a, c, m, (k - 1) as nat), a, c, m)
    }
}

/// The state after `k` backward steps.
pub open spec fn retreat_iter(s: int, a: int, c: int, m: int, k: nat) -> int
    decreases k,
{
    if k == 0 {
        s
    } else {
        retreat_iter(step_back(s, a, c, m), a, c, m, (k - 1) as nat)
    }
}

/// A multiplicative inverse modulo `m` is unique within `[0, m)`.
pub proof fn lemma_inverse_unique(a: int, m: int, x: int, y: int)
    requires
        m > 0,
        is_inverse(a, x, m),
        is_inverse(a, y, m),
    ensures
        x == y,
{
    lemma_mul_is_associative(x, a, y);
    lemma_mul_is_commutative(x, a);
    lemma_mul_mod_noop_right(x, a * y, m);
    lemma_mul_mod_noop_right(x, 1, m);
    lemma_mul_mod_noop_left(x * a, y, m);
    lemma_mul_mod_noop_left(1, y, m);
    lemma_small_mod(x as nat, m as nat);
    lemma_small_mod(y as nat, m as nat);
    assert((x * (a * y)) % m == x);
    assert((x * (a * y)) % m == y);
}

/// After a forward or a backward step with a positive modulus, the state
/// lies in `[0, m)`.
pub proof fn lemma_step_in_range(s: int, a: int, c: int, m: int)
    requires
        m > 0,
    ensures
        0 <= step_fwd(s, a, c, m) < m,
        0 <= step_back(s, a, c, m) < m,
{
    lemma_mod_bound(a * s + c, m);
    lemma_mod_bound(mod_inv(a, m) * (s - c), m);
}

/// A backward step undoes a forward step when the multiplier is invertible.
pub proof fn lemma_retreat_inverts_advance(s: int, a: int, c: int, m: int)
    requires
        m > 0,
        0 <= s < m,
        invertible(a, m),
    ensures
        step_back(step_fwd(s, a, c, m), a, c, m) == s,
{
    let i = mod_inv(a, m);
    assert(is_inverse(a, i, m));
    let t = step_fwd(s, a, c, m);
    lemma_mod_bound(a * s + c, m);
    lemma_sub_mod_noop(a * s + c, c, m);
    lemma_sub_mod_noop_right(t, c, m);
    assert((t - c) % m == (a * s) % m);
    lemma_mul_mod_noop_right(i, t - c, m);
    lemma_mul_mod_noop_right(i, a * s, m);
    assert((i * (t - c)) % m == (i * (a * s)) % m);
    lemma_mul_is_associative(i, a, s);
    lemma_mul_is_commutative(i, a);
    lemma_mul_mod_noop_left(i * a, s, m);
    lemma_mul_mod_noop_left(1, s, m);
    lemma_small_mod(s as nat, m as nat);
    assert((i * (a * s)) % m == s);
}

/// The state stays in `[0, m)` under any number of forward steps.
pub proof fn lemma_advance_iter_in_range(s: int, a: int, c: int, m: int, k: nat)
    requires
        m > 0,
        0 <= s < m,
    ensures
        0 <= advance_iter(s, a, c, m, k) < m,
    decreases k,
{
    if k > 0 {
        lemma_advance_iter_in_range(s, a, c, m, (k - 1) as nat);
        lemma_mod_bound(a * advance_iter(s, a, c, m, (k - 1) as nat) + c, m);
    }
}

/// Round trip: for an invertible multiplier, `k` forward steps followed by
/// `k` backward steps return the generator to its original state.
pub proof fn lemma_round_trip(s: int, a: int, c: int, m: int, k: nat)
    requires
        m > 0,
        0 <= s < m,
        invertible(a, m),
    ensures
        retreat_iter(advance_iter(s, a, c, m, k), a, c, m, k) == s,
    decreases k,
{
    if k > 0 {
        let t = advance_iter(s, a, c, m, (k - 1) as nat);
        lemma_advance_iter_in_range(s, a, c, m, (k - 1) as nat);
        lemma_retreat_inverts_advance(t, a, c, m);
        lemma_round_trip(s, a, c, m, (k - 1) as nat);
    }
}

/// Stepping forward is a pure function of the state and the parameters: two
/// generators with equal configurations produce the same two outputs.
pub proof fn lemma_advance_deterministic(
    s1: int,
    a1: int,
    c1: int,
    m1: int,
    s2: int,
    a2: int,
    c2: int,
    m2: int,
)
    requires
        s1 == s2,
        a1 == a2,
        c1 == c2,
        m1 == m2,
    ensures
        step_fwd(s1, a1, c1, m1) == step_fwd(s2, a2, c2, m2),
        step_fwd(step_fwd(s1, a1, c1, m1), a1, c1, m1) == step_fwd(
            step_fwd(s2, a2, c2, m2),
            a2,
            c2,
            m2,
        ),
{
}

} // verus!
