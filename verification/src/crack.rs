//! Recovery of unknown generator parameters from a run of observed outputs.
//!
//! Three consecutive first differences of an LCG's outputs satisfy
//! `d[i+2]*d[i] - d[i+1]^2 == 0 (mod m)`, so the greatest common divisor of
//! those products estimates the modulus; the multiplier and the increment
//! then follow by modular division.

use vstd::prelude::*;
use crate::arith::{gcd_int, invertible, is_inverse, lemma_inverse_unique, mod_inv};
use crate::bigint::{
    big_clone, big_eq, big_from_isize, big_gcd, big_mul, big_sub, bigint_of,
};
use crate::lcg::LCG;
use crate::modular::{modinv, modulo};

verus! {

/// The integer values of a run of observed outputs.
pub open spec fn int_seq(v: Seq<isize>) -> Seq<int> {
    v.map_values(|x: isize| x as int)
}

/// First differences of a sequence.
pub open spec fn diffs_of(v: Seq<int>) -> Seq<int> {
    if v.len() == 0 {
        Seq::empty()
    } else {
        Seq::new((v.len() - 1) as nat, |i: int| v[i + 1] - v[i])
    }
}

/// The products `d[i+2]*d[i] - d[i+1]*d[i+1]` over a difference sequence;
/// each is a multiple of the true modulus when the inputs are consecutive
/// outputs of one generator.
pub open spec fn zprods_of(d: Seq<int>) -> Seq<int> {
    if d.len() < 2 {
        Seq::empty()
    } else {
        Seq::new((d.len() - 2) as nat, |i: int| d[i + 2] * d[i] - d[i + 1] * d[i + 1])
    }
}

/// The greatest common divisor folded over a sequence, starting from 0.
pub open spec fn gcd_fold(zs: Seq<int>) -> int
    decreases zs.len(),
{
    if zs.len() == 0 {
        0
    } else {
        gcd_int(gcd_fold(zs.drop_last()), zs.last())
    }
}

/// The modulus estimate that recovery derives from the observed outputs.
pub open spec fn recovered_modulus(v: Seq<int>) -> int {
    gcd_fold(zprods_of(diffs_of(v)))
}

/// Recovery succeeds: at least three samples, a positive modulus estimate,
/// and a first difference that is invertible modulo that estimate.
pub open spec fn recovery_succeeds(v: Seq<int>) -> bool {
    &&& v.len() >= 3
    &&& recovered_modulus(v) > 0
    &&& gcd_int(v[1] - v[0], recovered_modulus(v)) == 1
}

/// The multiplier that recovery derives: `v[2] - v[1]` divided by
/// `v[1] - v[0]`, modulo the recovered modulus.
pub open spec fn recovered_multiplier(v: Seq<int>) -> int {
    ((v[2] - v[1]) * mod_inv(v[1] - v[0], recovered_modulus(v))) % recovered_modulus(v)
}

/// The increment that recovery derives.
pub open spec fn recovered_increment(v: Seq<int>) -> int {
    (v[1] - v[0] * recovered_multiplier(v)) % recovered_modulus(v)
}

/// Derive the parameters of an unknown generator from at least three of its
/// consecutive outputs, and return a generator positioned at the last of
/// them. The estimate is probabilistic: with few samples the recovered
/// modulus may be a proper multiple of the true one. Recovery is absent
/// exactly when fewer than three values were given, when the modulus
/// estimate collapses to zero, or when the first difference is not
/// invertible modulo the estimate.
pub fn crack_lcg(values: &[isize]) -> (r: Option<LCG>)
    ensures
        match r {
            Some(l) => {
                &&& recovery_succeeds(int_seq(values@))
                &&& l.m_int() == recovered_modulus(int_seq(values@))
                &&& l.a_int() == recovered_multiplier(int_seq(values@))
                &&& l.c_int() == recovered_increment(int_seq(values@))
                &&& l.state_int() == int_seq(values@)[values@.len() - 1]
                &&& 0 <= l.a_int() < l.m_int()
                &&& 0 <= l.c_int() < l.m_int()
            },
            None => !recovery_succeeds(int_seq(values@)),
        },
{
    let ghost vv = int_seq(values@);
    let n = values.len();
    if n < 3 {
        return None;
    }
    let mut big: Vec<num_bigint::BigInt> = Vec::new();
    let mut i: usize = 0;
    while i < n
        invariant
            i <= n,
            n == values@.len(),
            vv == int_seq(values@),
            big@.len() == i,
            forall|j: int| 0 <= j < i ==> bigint_of(big@[j]) == vv[j],
        decreases n - i,
    {
        big.push(big_from_isize(values[i]));
        i += 1;
    }

    let mut diffs: Vec<num_bigint::BigInt> = Vec::new();
    let mut i: usize = 1;
    while i < n
        invariant
            1 <= i <= n,
            3 <= n == values@.len(),
            vv == int_seq(values@),
            big@.len() == n,
            forall|j: int| 0 <= j < n ==> bigint_of(big@[j]) == vv[j],
            diffs@.len() == i - 1,
            forall|j: int| 0 <= j < i - 1 ==> bigint_of(diffs@[j]) == diffs_of(vv)[j],
        decreases n - i,
    {
        diffs.push(big_sub(&big[i], &big[i - 1]));
        i += 1;
    }

    let mut zs: Vec<num_bigint::BigInt> = Vec::new();
    let mut i: usize = 0;
    while i + 3 < n
        invariant
            i + 3 <= n,
            3 <= n == values@.len(),
            vv == int_seq(values@),
            diffs@.len() == n - 1,
            forall|j: int| 0 <= j < n - 1 ==> bigint_of(diffs@[j]) == diffs_of(vv)[j],
            zs@.len() == i,
            forall|j: int| 0 <= j < i ==> bigint_of(zs@[j]) == zprods_of(diffs_of(vv))[j],
        decreases n - i,
    {
        let p1 = big_mul(&diffs[i + 2], &diffs[i]);
        let p2 = big_mul(&diffs[i + 1], &diffs[i + 1]);
        zs.push(big_sub(&p1, &p2));
        i += 1;
    }

    let zlen = n - 3;
    let mut modulus = big_from_isize(0);
    let mut i: usize = 0;
    while i < zlen
        invariant
            i <= zlen,
            3 <= n == values@.len(),
            zlen == n - 3,
            vv == int_seq(values@),
            zs@.len() == zlen,
            forall|j: int| 0 <= j < zlen ==> bigint_of(zs@[j]) == zprods_of(diffs_of(vv))[j],
            zprods_of(diffs_of(vv)).len() == zlen,
            bigint_of(modulus) == gcd_fold(zprods_of(diffs_of(vv)).take(i as int)),
            bigint_of(modulus) >= 0,
        decreases zlen - i,
    {
        modulus = big_gcd(&modulus, &zs[i]);
        proof {
            let zp = zprods_of(diffs_of(vv));
            assert(zp.take(i + 1).drop_last() =~= zp.take(i as int));
            assert(zp.take(i + 1).last() == zp[i as int]);
        }
        i += 1;
    }
    proof {
        let zp = zprods_of(diffs_of(vv));
        assert(zp.take(zlen as int) =~= zp);
    }

    let zero = big_from_isize(0);
    if big_eq(&modulus, &zero) {
        return None;
    }

    let d10 = big_sub(&big[1], &big[0]);
    let inv = match modinv(&d10, &modulus) {
        None => {
            return None;
        },
        Some(iv) => iv,
    };
    let d21 = big_sub(&big[2], &big[1]);
    let multiplier = modulo(&big_mul(&d21, &inv), &modulus);
    proof {
        let mv = recovered_modulus(vv);
        let d10v = vv[1] - vv[0];
        assert(is_inverse(d10v, bigint_of(inv), mv));
        assert(invertible(d10v, mv));
        let i0 = mod_inv(d10v, mv);
        assert(is_inverse(d10v, i0, mv));
        lemma_inverse_unique(d10v, mv, i0, bigint_of(inv));
    }

    let prod = big_mul(&big[0], &multiplier);
    let increment = modulo(&big_sub(&big[1], &prod), &modulus);
    let state = big_clone(&big[n - 1]);
    Some(LCG { state, a: multiplier, c: increment, m: modulus })
}

} // verus!
