//! The selector/combiner algebra over a target domain H of size 16 and a
//! source domain H_i of size 4, including the regression vector for
//! division by the small domain's vanishing polynomial.

use ahp_prover::domain::{interpolate, EvalDomain};
use ahp_prover::error::AhpError;
use ahp_prover::field::Fp;
use ahp_prover::poly::DensePoly;
use ahp_prover::selector::apply_randomized_selector;

/// The evaluation vector `v^k` for `v = 2^3 - 1` over a domain of size 16,
/// with every 4th entry zeroed, interpolated: a polynomial that vanishes on
/// the size-4 sub-domain.
fn vanishing_on_small(domain: &EvalDomain) -> DensePoly {
    let val = Fp::from_u64(2).pow(3).sub(&Fp::one());
    let mut evals: Vec<Fp> = (0..16u64).map(|pow| val.pow(pow)).collect();
    for i in 0..4 {
        evals[4 * i] = Fp::zero();
    }
    interpolate(&evals, domain)
}

#[test]
fn check_division_by_vanishing_poly_preserve_sparseness() {
    let domain = EvalDomain::new(16).unwrap();
    let small_domain = EvalDomain::new(4).unwrap();
    let p = vanishing_on_small(&domain);
    assert_eq!(p.degree(), 15);
    let (_p_div_v, p_mod_v) = p.divide_by_vanishing(small_domain.size).unwrap();
    assert!(p_mod_v.is_zero());
}

#[test]
fn regression_quotient_degree_and_reevaluation() {
    let domain = EvalDomain::new(16).unwrap();
    let small_domain = EvalDomain::new(4).unwrap();
    let p = vanishing_on_small(&domain);
    assert_eq!(p.degree(), 15);
    let (p_div_v, p_mod_v) = p.divide_by_vanishing(small_domain.size).unwrap();
    assert!(p_mod_v.is_zero());
    assert_eq!(p_div_v.degree(), 11);
    // Re-evaluate the quotient over H and interpolate back: the same
    // polynomial, zero-padded to the domain size, of degree 11 still.
    let evals: Vec<Fp> = (0..16u64).map(|k| p_div_v.evaluate(&domain.group_gen.pow(k))).collect();
    let back = interpolate(&evals, &domain);
    assert_eq!(back.degree(), 11);
    for i in 0..16 {
        if i < p_div_v.coeffs.len() {
            assert_eq!(back.coeffs[i], p_div_v.coeffs[i]);
        } else {
            assert!(back.coeffs[i].is_zero());
        }
    }
}

#[test]
fn no_remainder_mode_scales_the_direct_quotient() {
    let domain = EvalDomain::new(16).unwrap();
    let small_domain = EvalDomain::new(4).unwrap();
    let mut p = vanishing_on_small(&domain);
    let original = p.clone();
    let combiner = Fp::from_u64(9);
    let (folded, witness) =
        apply_randomized_selector(&mut p, &combiner, &domain, &small_domain, false).unwrap();
    assert!(witness.is_none());
    // The input polynomial is left unchanged in this mode.
    assert_eq!(p, original);
    // Direct division, then scaling by combiner * |H_i| * |H|^{-1}.
    let (direct_q, direct_r) = original.divide_by_vanishing(small_domain.size).unwrap();
    assert!(direct_r.is_zero());
    let multiplier = combiner.mul(&small_domain.size_fp).mul(&domain.size_inv);
    let expected = direct_q.scale(&multiplier);
    assert_eq!(folded, expected);
}

#[test]
fn no_remainder_mode_rejects_a_nonvanishing_polynomial() {
    let domain = EvalDomain::new(16).unwrap();
    let small_domain = EvalDomain::new(4).unwrap();
    // x + 5 does not vanish on the sub-domain.
    let mut p = DensePoly::from_coeffs(vec![Fp::from_u64(5), Fp::one()]);
    let r = apply_randomized_selector(&mut p, &Fp::from_u64(3), &domain, &small_domain, false);
    assert_eq!(r, Err(AhpError::DivisionInvariantViolation));
}

#[test]
fn remainder_witness_mode_identity() {
    let domain = EvalDomain::new(16).unwrap();
    let small_domain = EvalDomain::new(4).unwrap();
    // A manufactured polynomial that does not vanish on the sub-domain.
    let val = Fp::from_u64(2).pow(3).sub(&Fp::one());
    let evals: Vec<Fp> = (0..16u64).map(|pow| val.pow(pow)).collect();
    let mut p = interpolate(&evals, &domain);
    let combiner = Fp::from_u64(13);
    let (h, witness) =
        apply_randomized_selector(&mut p, &combiner, &domain, &small_domain, true).unwrap();
    let xg = witness.unwrap();
    // `p` now holds the scaled polynomial.  The identity
    // `h * v_H + x_g == (scaled * v_H) / v_{H_i}` holds exactly over the
    // field; cleared of the division and checked at sample points t off the
    // domains: `(h(t) * v_H(t) + x_g(t)) * v_{H_i}(t) == scaled(t) * v_H(t)`.
    for t in [3u64, 5, 7, 11, 29] {
        let t = Fp::from_u64(t);
        let v_h = t.pow(16).sub(&Fp::one());
        let v_hi = t.pow(4).sub(&Fp::one());
        let lhs = h.evaluate(&t).mul(&v_h).add(&xg.evaluate(&t)).mul(&v_hi);
        let rhs = p.evaluate(&t).mul(&v_h);
        assert_eq!(lhs, rhs);
    }
}
