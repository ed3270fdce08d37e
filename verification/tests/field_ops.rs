//! Field arithmetic through the library's public surface, against known
//! values of the BLS12-377 scalar field.

use ahp_prover::account::Account;
use ahp_prover::entropy::Entropy;
use ahp_prover::field::{root_of_unity, Fp};
use ahp_prover::witness::RandomTriple;

#[test]
fn add_mul_sub_known_values() {
    let two = Fp::from_u64(2);
    let three = Fp::from_u64(3);
    assert_eq!(two.add(&three), Fp::from_u64(5));
    assert_eq!(two.mul(&three), Fp::from_u64(6));
    assert_eq!(Fp::from_u64(5).sub(&two), Fp::from_u64(3));
    assert_eq!(Fp::from_u64(1), Fp::one());
    assert_eq!(Fp::from_u64(0), Fp::zero());
    assert!(Fp::one().is_one());
    assert!(Fp::zero().is_zero());
    assert!(!two.is_one());
    assert!(!two.is_zero());
}

#[test]
fn sub_wraps_around_the_modulus() {
    // 0 - 1 is the largest representative; adding 1 back gives 0.
    let minus_one = Fp::zero().sub(&Fp::one());
    assert!(!minus_one.is_zero());
    assert!(minus_one.add(&Fp::one()).is_zero());
}

#[test]
fn inverse_and_pow() {
    let two = Fp::from_u64(2);
    let inv = two.inverse().unwrap();
    assert!(two.mul(&inv).is_one());
    assert!(Fp::zero().inverse().is_none());
    assert_eq!(two.pow(10), Fp::from_u64(1024));
    assert_eq!(two.pow(0), Fp::one());
    assert_eq!(Fp::from_u64(7).pow(3), Fp::from_u64(343));
}

#[test]
fn roots_of_unity() {
    let w = root_of_unity(16).unwrap();
    assert!(w.pow(16).is_one());
    assert!(!w.pow(8).is_one());
    assert!(!w.is_one());
    assert!(root_of_unity(3).is_none());
    assert!(root_of_unity(0).is_none());
    let w4 = root_of_unity(4).unwrap();
    assert!(w4.pow(4).is_one());
}

#[test]
fn seeded_entropy_is_reproducible() {
    let mut e1 = Entropy::from_seed(42);
    let mut e2 = Entropy::from_seed(42);
    let mut differs_from_other_seed = false;
    let mut e3 = Entropy::from_seed(43);
    for _ in 0..8 {
        let a = e1.draw();
        let b = e2.draw();
        assert_eq!(a, b);
        if a != e3.draw() {
            differs_from_other_seed = true;
        }
    }
    assert!(differs_from_other_seed);
}

#[test]
fn account_holds_its_secret_scalar() {
    let mut entropy = Entropy::from_seed(8);
    let fresh = Account::new(&mut entropy);
    let again = Account::from_private_key(*fresh.private_key());
    assert_eq!(fresh, again);
    let key = Fp::from_u64(77);
    assert_eq!(*Account::from_private_key(key).private_key(), key);
}

#[test]
fn sampled_triple_is_multiplicative() {
    let mut entropy = Entropy::from_seed(7);
    for _ in 0..4 {
        let t = RandomTriple::sample(&mut entropy);
        assert_eq!(t.c, t.a.mul(&t.b));
    }
}
