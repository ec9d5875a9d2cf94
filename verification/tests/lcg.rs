use lcg_crack::{crack_lcg, modinv, modulo, LCG};
use num::ToPrimitive;
use num_bigint::{BigInt, ToBigInt};

fn make_lcg(state: i64, a: i64, c: i64, m: i64) -> LCG {
    LCG {
        state: state.to_bigint().unwrap(),
        a: a.to_bigint().unwrap(),
        c: c.to_bigint().unwrap(),
        m: m.to_bigint().unwrap(),
    }
}

#[test]
fn it_generates_numbers_correctly_forward_and_backwards() {
    let mut rand = make_lcg(32760, 5039, 76581, 479001599);

    let mut forward: Vec<BigInt> = Vec::new();
    for _ in 0..10 {
        forward.push(rand.rand());
    }

    assert_eq!(
        forward,
        vec![
            165154221.to_bigint().unwrap(),
            186418737.to_bigint().unwrap(),
            41956685.to_bigint().unwrap(),
            180107137.to_bigint().unwrap(),
            330911418.to_bigint().unwrap(),
            58145764.to_bigint().unwrap(),
            326604388.to_bigint().unwrap(),
            389095148.to_bigint().unwrap(),
            96982646.to_bigint().unwrap(),
            113998795.to_bigint().unwrap()
        ]
    );
    forward.reverse();
    rand.rand();
    let mut backward: Vec<BigInt> = Vec::new();
    for _ in 0..10 {
        backward.push(rand.prev().unwrap());
    }
    assert_eq!(backward, forward);
}

#[test]
fn it_cracks_lcg_correctly() {
    let mut rand = make_lcg(32760, 5039, 0, 479001599);

    let mut observed: Vec<isize> = Vec::new();
    for _ in 0..10 {
        observed.push(rand.rand().to_isize().unwrap());
    }

    let cracked_lcg = crack_lcg(&observed).unwrap();
    assert_eq!(rand, cracked_lcg);
}

#[test]
fn cracking_recovers_a_nonzero_increment() {
    let mut rand = make_lcg(32760, 5039, 76581, 479001599);

    let mut observed: Vec<isize> = Vec::new();
    for _ in 0..10 {
        observed.push(rand.rand().to_isize().unwrap());
    }

    let cracked = crack_lcg(&observed).unwrap();
    assert_eq!(cracked.m, 479001599.to_bigint().unwrap());
    assert_eq!(cracked.a, 5039.to_bigint().unwrap());
    assert_eq!(cracked.c, 76581.to_bigint().unwrap());
    assert_eq!(cracked.state, 113998795.to_bigint().unwrap());
    assert_eq!(rand, cracked);
}

#[test]
fn cracking_fewer_than_three_values_is_absent() {
    let none: Vec<isize> = vec![];
    assert!(crack_lcg(&none).is_none());
    assert!(crack_lcg(&[42]).is_none());
    assert!(crack_lcg(&[42, 77]).is_none());
}

#[test]
fn cracking_a_degenerate_sequence_is_absent() {
    // An arithmetic progression makes every difference product zero, so the
    // modulus estimate collapses to zero.
    assert!(crack_lcg(&[1, 2, 3, 4, 5]).is_none());
    assert!(crack_lcg(&[7, 7, 7, 7]).is_none());
}

#[test]
fn retreating_with_a_non_invertible_multiplier_is_absent() {
    let mut rand = make_lcg(3, 4, 1, 8);
    for _ in 0..3 {
        assert!(rand.prev().is_none());
    }
    // The generator is left untouched by the failed steps.
    assert_eq!(rand, make_lcg(3, 4, 1, 8));
}

#[test]
fn advancing_twice_is_deterministic() {
    let mut first = make_lcg(32760, 5039, 76581, 479001599);
    let mut second = make_lcg(32760, 5039, 76581, 479001599);
    let outputs_first = (first.rand(), first.rand());
    let outputs_second = (second.rand(), second.rand());
    assert_eq!(outputs_first, outputs_second);
}

#[test]
fn advancing_then_retreating_round_trips() {
    let mut rand = make_lcg(12345, 1103515245, 12346, 2147483647);
    let start = rand.state.clone();
    for _ in 0..7 {
        rand.rand();
    }
    for _ in 0..7 {
        assert!(rand.prev().is_some());
    }
    assert_eq!(rand.state, start);
}

#[test]
fn modulo_normalizes_negative_values() {
    let m = 7.to_bigint().unwrap();
    assert_eq!(
        modulo(&(-5).to_bigint().unwrap(), &m),
        2.to_bigint().unwrap()
    );
    assert_eq!(
        modulo(&(-14).to_bigint().unwrap(), &m),
        0.to_bigint().unwrap()
    );
    assert_eq!(modulo(&16.to_bigint().unwrap(), &m), 2.to_bigint().unwrap());
}

#[test]
fn modinv_finds_the_inverse_of_coprime_values() {
    let m = 7.to_bigint().unwrap();
    assert_eq!(
        modinv(&3.to_bigint().unwrap(), &m),
        Some(5.to_bigint().unwrap())
    );
    assert_eq!(
        modinv(&(-5).to_bigint().unwrap(), &m),
        Some(4.to_bigint().unwrap())
    );
    assert_eq!(
        modinv(&4.to_bigint().unwrap(), &8.to_bigint().unwrap()),
        None
    );
}
