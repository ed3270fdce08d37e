//! The selector/combiner step: folds the check "this circuit's polynomial
//! vanishes appropriately over its own domain H_i" into a contribution to a
//! single check over the shared larger domain H, without materializing the
//! selector polynomial s_i = (v_H / v_{H_i}) * (|H_i| / |H|) or dividing by
//! the large vanishing polynomial v_H per circuit.  Scaling by the field
//! multiplier `c_i * |H_i| * |H|^{-1}` has the same algebraic effect.

use vstd::prelude::*;

use crate::domain::EvalDomain;
use crate::error::AhpError;
use crate::field::{f_mul, Fp};
use crate::poly::{all_zero, mulvan_seq, quot_seq, rem_seq, scaled_seq, DensePoly};

verus! {

/// The field multiplier `combiner * |H_i| * |H|^{-1}` standing in for the
/// selector polynomial times the combiner.
pub open spec fn selector_multiplier(
    combiner: Fp,
    target_domain: EvalDomain,
    src_domain: EvalDomain,
) -> nat {
    f_mul(f_mul(combiner@, src_domain.size_fp@), target_domain.size_inv@)
}

/// Applies the random combiner and the selector for `src_domain` inside
/// `target_domain`, in the division-trick form.
///
/// Without a remainder witness (sumcheck-style): the polynomial is divided
/// by the vanishing polynomial of H_i — a non-zero remainder is a protocol
/// invariant violation — and the quotient is scaled by the multiplier; the
/// input polynomial is left unchanged.
///
/// With a remainder witness (zerocheck-style): the polynomial is scaled in
/// place by the multiplier, divided by the vanishing polynomial of H_i into
/// (h_i, x_g); x_g is re-expanded by multiplying with the vanishing
/// polynomial of H and dividing again by that of H_i, whose remainder must
/// again be zero; the result is (h_i, Some(x_g re-expanded)).  Whenever
/// |H_i| divides |H| — always the case for the protocol's nested radix-2
/// domains — v_{H_i} divides v_H, so that second remainder is provably zero
/// and the call succeeds.
pub fn apply_randomized_selector(
    poly: &mut DensePoly,
    combiner: &Fp,
    target_domain: &EvalDomain,
    src_domain: &EvalDomain,
    remainder_witness: bool,
) -> (res: Result<(DensePoly, Option<DensePoly>), AhpError>)
    requires
        target_domain.wf(),
        src_domain.wf(),
        src_domain.size + target_domain.size <= usize::MAX,
    ensures
        res matches Err(e) ==> e == AhpError::DivisionInvariantViolation,
        !remainder_witness ==> {
            &&& *final(poly) == *old(poly)
            &&& (res is Ok <==> all_zero(rem_seq(old(poly)@, src_domain.size as nat)))
            &&& res matches Ok(out) ==> {
                &&& out.0@ == scaled_seq(
                    quot_seq(old(poly)@, src_domain.size as nat),
                    selector_multiplier(*combiner, *target_domain, *src_domain),
                )
                &&& out.1 is None
            }
        },
        remainder_witness ==> {
            let scaled = scaled_seq(
                old(poly)@,
                selector_multiplier(*combiner, *target_domain, *src_domain),
            );
            let xg = rem_seq(scaled, src_domain.size as nat);
            let expanded = mulvan_seq(xg, target_domain.size as nat);
            &&& final(poly)@ == scaled
            &&& (res is Ok <==> all_zero(rem_seq(expanded, src_domain.size as nat)))
            &&& (target_domain.size as int % (src_domain.size as int) == 0 ==> res is Ok)
            &&& res matches Ok(out) ==> {
                &&& out.0@ == quot_seq(scaled, src_domain.size as nat)
                &&& out.1 is Some
                &&& (out.1 matches Some(w) ==> w@ == quot_seq(expanded, src_domain.size as nat))
            }
        },
{
    let m0 = combiner.mul(&src_domain.size_fp);
    let multiplier = m0.mul(&target_domain.size_inv);
    if !remainder_witness {
        let (h, r) = match poly.divide_by_vanishing(src_domain.size) {
            Ok(qr) => qr,
            Err(e) => {
                return Err(e);
            },
        };
        if !r.is_zero() {
            proof {
                if all_zero(rem_seq(poly@, src_domain.size as nat)) {
                    assert forall|i: int| 0 <= i < r@.len() implies r@[i] == 0 by {
                        assert(rem_seq(poly@, src_domain.size as nat)[i] == 0);
                    }
                    assert(false);
                }
            }
            return Err(AhpError::DivisionInvariantViolation);
        }
        let h_scaled = h.scale(&multiplier);
        proof {
            assert(h_scaled@ =~= scaled_seq(
                quot_seq(poly@, src_domain.size as nat),
                selector_multiplier(*combiner, *target_domain, *src_domain),
            ));
            assert(all_zero(rem_seq(poly@, src_domain.size as nat)));
        }
        Ok((h_scaled, None))
    } else {
        let scaled = poly.scale(&multiplier);
        *poly = scaled;
        proof {
            assert(poly@ =~= scaled_seq(
                old(poly)@,
                selector_multiplier(*combiner, *target_domain, *src_domain),
            ));
        }
        let (h, xg) = match poly.divide_by_vanishing(src_domain.size) {
            Ok(qr) => qr,
            Err(e) => {
                return Err(e);
            },
        };
        proof {
            assert(xg@ =~= rem_seq(poly@, src_domain.size as nat));
            assert(h@ =~= quot_seq(poly@, src_domain.size as nat));
        }
        let expanded = xg.mul_by_vanishing(target_domain.size);
        proof {
            assert(expanded@ =~= mulvan_seq(xg@, target_domain.size as nat));
        }
        let (xg_expanded, rem2) = match expanded.divide_by_vanishing(src_domain.size) {
            Ok(qr) => qr,
            Err(e) => {
                return Err(e);
            },
        };
        if !rem2.is_zero() {
            proof {
                if all_zero(rem_seq(expanded@, src_domain.size as nat)) {
                    assert forall|i: int| 0 <= i < rem2@.len() implies rem2@[i] == 0 by {
                        assert(rem_seq(expanded@, src_domain.size as nat)[i] == 0);
                    }
                    assert(false);
                }
                if target_domain.size as int % (src_domain.size as int) == 0 {
                    crate::poly::lemma_vanishing_divides_expansion(
                        xg@,
                        src_domain.size as nat,
                        target_domain.size as nat,
                    );
                    assert(false);
                }
            }
            return Err(AhpError::DivisionInvariantViolation);
        }
        proof {
            assert(xg_expanded@ =~= quot_seq(expanded@, src_domain.size as nat));
            assert(all_zero(rem_seq(expanded@, src_domain.size as nat)));
        }
        Ok((h, Some(xg_expanded)))
    }
}

} // verus!
