//! The generator itself: state and parameters, stepped forward by the
//! recurrence and backward through the inverse of the multiplier.

use vstd::prelude::*;
use vstd::arithmetic::div_mod::{lemma_mul_mod_noop_left, lemma_mul_mod_noop_right};
use vstd::arithmetic::mul::{lemma_mul_is_associative, lemma_mul_is_commutative};
use crate::arith::{
    gcd_int, invertible, is_inverse, lemma_inverse_unique, mod_inv, step_back, step_fwd,
};
use crate::bigint::{big_add, big_clone, big_mul, big_sub, bigint_of};
use crate::modular::{modinv, modulo};

verus! {

/// A linear congruential generator: `state` is the current value, `a` the
/// multiplier, `c` the increment and `m` the modulus of the recurrence.
#[derive(Debug, PartialEq, Eq)]
pub struct LCG {
    pub state: num_bigint::BigInt,
    pub a: num_bigint::BigInt,
    pub c: num_bigint::BigInt,
    pub m: num_bigint::BigInt,
}

impl LCG {
    /// The integer value of the current state.
    pub open spec fn state_int(&self) -> int {
        bigint_of(self.state)
    }

    /// The integer value of the multiplier.
    pub open spec fn a_int(&self) -> int {
        bigint_of(self.a)
    }

    /// The integer value of the increment.
    pub open spec fn c_int(&self) -> int {
        bigint_of(self.c)
    }

    /// The integer value of the modulus.
    pub open spec fn m_int(&self) -> int {
        bigint_of(self.m)
    }

    /// The two generators hold the same multiplier, increment and modulus.
    pub open spec fn same_params(&self, other: &LCG) -> bool {
        self.a_int() == other.a_int() && self.c_int() == other.c_int() && self.m_int()
            == other.m_int()
    }

    /// Step the generator forward once and return the new state.
    pub fn rand(&mut self) -> (r: num_bigint::BigInt)
        requires
            old(self).m_int() > 0,
        ensures
            final(self).same_params(old(self)),
            final(self).state_int() == step_fwd(
                old(self).state_int(),
                old(self).a_int(),
                old(self).c_int(),
                old(self).m_int(),
            ),
            0 <= final(self).state_int() < old(self).m_int(),
            bigint_of(r) == final(self).state_int(),
    {
        let t = big_add(&big_mul(&self.state, &self.a), &self.c);
        proof {
            lemma_mul_is_commutative(bigint_of(old(self).state), bigint_of(old(self).a));
        }
        self.state = modulo(&t, &self.m);
        big_clone(&self.state)
    }

    /// Step the generator backward once, when the multiplier is invertible
    /// modulo `m`; when it is not, nothing is returned and the generator is
    /// left untouched.
    pub fn prev(&mut self) -> (r: Option<num_bigint::BigInt>)
        requires
            old(self).m_int() > 0,
        ensures
            final(self).same_params(old(self)),
            match r {
                Some(v) => {
                    &&& gcd_int(old(self).a_int(), old(self).m_int()) == 1
                    &&& invertible(old(self).a_int(), old(self).m_int())
                    &&& final(self).state_int() == step_back(
                        old(self).state_int(),
                        old(self).a_int(),
                        old(self).c_int(),
                        old(self).m_int(),
                    )
                    &&& 0 <= final(self).state_int() < old(self).m_int()
                    &&& (old(self).a_int() * final(self).state_int()) % old(self).m_int() == (old(
                        self,
                    ).state_int() - old(self).c_int()) % old(self).m_int()
                    &&& bigint_of(v) == final(self).state_int()
                },
                None => {
                    &&& gcd_int(old(self).a_int(), old(self).m_int()) != 1
                    &&& final(self).state_int() == old(self).state_int()
                },
            },
    {
        let inv = match modinv(&self.a, &self.m) {
            None => {
                return None;
            },
            Some(i) => i,
        };
        let t = big_sub(&self.state, &self.c);
        let u = big_mul(&inv, &t);
        self.state = modulo(&u, &self.m);
        proof {
            let av = old(self).a_int();
            let cv = old(self).c_int();
            let mv = old(self).m_int();
            let sv = old(self).state_int();
            let iv = bigint_of(inv);
            assert(is_inverse(av, iv, mv));
            assert(invertible(av, mv));
            let i0 = mod_inv(av, mv);
            assert(is_inverse(av, i0, mv));
            lemma_inverse_unique(av, mv, i0, iv);
            lemma_mul_mod_noop_right(av, iv * (sv - cv), mv);
            lemma_mul_is_associative(av, iv, sv - cv);
            lemma_mul_mod_noop_left(av * iv, sv - cv, mv);
            lemma_mul_mod_noop_left(1, sv - cv, mv);
        }
        Some(big_clone(&self.state))
    }
}

} // verus!
