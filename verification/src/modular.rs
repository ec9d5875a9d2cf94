//! Exact modular arithmetic over arbitrary-precision integers: reduction
//! into `[0, m)` and the modular multiplicative inverse.

use vstd::prelude::*;
use vstd::arithmetic::div_mod::*;
use crate::arith::{gcd_int, is_inverse};
use crate::bigint::{bigint_of, big_add, big_egcd, big_eq, big_from_isize, big_rem};

verus! {

/// Reduce `a` modulo `m` into `[0, m)`. The remainder operator alone is not
/// enough: it may return a negative value for a negative `a`.
pub fn modulo(a: &num_bigint::BigInt, m: &num_bigint::BigInt) -> (r: num_bigint::BigInt)
    requires
        bigint_of(*m) > 0,
    ensures
        bigint_of(r) == bigint_of(*a) % bigint_of(*m),
        0 <= bigint_of(r) < bigint_of(*m),
{
    let t = big_rem(a, m);
    let s = big_add(&t, m);
    let r = big_rem(&s, m);
    proof {
        let mv = bigint_of(*m);
        lemma_mod_add_multiples_vanish(bigint_of(t), mv);
        lemma_small_mod(bigint_of(r) as nat, mv as nat);
    }
    r
}

/// The multiplicative inverse of `a` modulo `m`, from the extended Euclidean
/// algorithm; absent exactly when `a` and `m` are not coprime.
pub fn modinv(a: &num_bigint::BigInt, m: &num_bigint::BigInt) -> (r: Option<
    num_bigint::BigInt,
>)
    requires
        bigint_of(*m) > 0,
    ensures
        match r {
            Some(i) => gcd_int(bigint_of(*a), bigint_of(*m)) == 1 && is_inverse(
                bigint_of(*a),
                bigint_of(i),
                bigint_of(*m),
            ),
            None => gcd_int(bigint_of(*a), bigint_of(*m)) != 1,
        },
{
    let (g, x, y) = big_egcd(a, m);
    let one = big_from_isize(1);
    if !big_eq(&g, &one) {
        None
    } else {
        let inv = modulo(&x, m);
        proof {
            let av = bigint_of(*a);
            let mv = bigint_of(*m);
            let xv = bigint_of(x);
            let yv = bigint_of(y);
            assert(mv * (-yv) == -(mv * yv)) by (nonlinear_arith);
            lemma_mod_multiples_vanish(-yv, 1, mv);
            lemma_mul_mod_noop_right(av, xv, mv);
        }
        Some(inv)
    }
}

} // verus!
