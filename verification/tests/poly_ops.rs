//! Polynomial division and multiplication by vanishing polynomials,
//! evaluation, and interpolation, on concrete values.

use ahp_prover::domain::{interpolate, EvalDomain};
use ahp_prover::error::AhpError;
use ahp_prover::field::Fp;
use ahp_prover::poly::DensePoly;

fn poly_from_u64(coeffs: &[u64]) -> DensePoly {
    DensePoly::from_coeffs(coeffs.iter().map(|&c| Fp::from_u64(c)).collect())
}

#[test]
fn evaluate_horner_concrete() {
    // 1 + 2x + 3x^2 at x = 2 is 17.
    let p = poly_from_u64(&[1, 2, 3]);
    assert_eq!(p.evaluate(&Fp::from_u64(2)), Fp::from_u64(17));
    // The zero polynomial evaluates to zero.
    let z = poly_from_u64(&[]);
    assert!(z.evaluate(&Fp::from_u64(5)).is_zero());
}

#[test]
fn degree_skips_trailing_zeros() {
    let p = poly_from_u64(&[4, 0, 9, 0, 0]);
    assert_eq!(p.degree(), 2);
    assert_eq!(poly_from_u64(&[0, 0]).degree(), 0);
    assert_eq!(poly_from_u64(&[]).degree(), 0);
}

#[test]
fn divide_by_vanishing_exact() {
    // (x^4 - 1) * (x + 2) = x^5 + 2x^4 - x - 2, divided back by x^4 - 1.
    let p = poly_from_u64(&[5, 7, 11, 13]);
    let expanded = p.mul_by_vanishing(4);
    let (q, r) = expanded.divide_by_vanishing(4).unwrap();
    assert!(r.is_zero());
    // The quotient recovers the factor p on every coefficient.
    assert_eq!(q.coeffs.len(), 4);
    for i in 0..4 {
        assert_eq!(q.coeffs[i], p.coeffs[i]);
    }
}

#[test]
fn divide_with_nonzero_remainder() {
    // A constant cannot be divided exactly by x - 1 unless it is zero.
    let p = poly_from_u64(&[9]);
    let (q, r) = p.divide_by_vanishing(1).unwrap();
    assert_eq!(q.coeffs.len(), 0);
    assert!(!r.is_zero());
    assert_eq!(r.coeffs[0], Fp::from_u64(9));
}

#[test]
fn divide_by_degenerate_domain_is_refused() {
    let p = poly_from_u64(&[1, 2]);
    assert_eq!(p.divide_by_vanishing(0), Err(AhpError::UndefinedDivision));
}

#[test]
fn interpolate_evaluate_round_trip() {
    let domain = EvalDomain::new(8).unwrap();
    assert_eq!(domain.size, 8);
    // Interpolate arbitrary evaluations, then evaluate back at each point.
    let evals: Vec<Fp> = (0..8u64).map(|k| Fp::from_u64(3 * k * k + 5)).collect();
    let p = interpolate(&evals, &domain);
    assert_eq!(p.coeffs.len(), 8);
    for k in 0..8u64 {
        let point = domain.group_gen.pow(k);
        assert_eq!(p.evaluate(&point), evals[k as usize]);
    }
}

#[test]
fn domain_size_is_next_power_of_two() {
    assert_eq!(EvalDomain::new(1).unwrap().size, 1);
    assert_eq!(EvalDomain::new(5).unwrap().size, 8);
    assert_eq!(EvalDomain::new(16).unwrap().size, 16);
    assert_eq!(EvalDomain::new(17).unwrap().size, 32);
    // The domain caches consistent field elements.
    let d = EvalDomain::new(16).unwrap();
    assert_eq!(d.size_fp, Fp::from_u64(16));
    assert!(d.size_fp.mul(&d.size_inv).is_one());
    assert!(d.group_gen.mul(&d.group_gen_inv).is_one());
    assert!(d.group_gen.pow(16).is_one());
}
