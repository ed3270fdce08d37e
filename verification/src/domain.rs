//! Radix-2 evaluation domains: a power-of-two number of points, exposed with
//! the field inverse of the size, the size cast into the field, and a root
//! of unity generating the domain.  Interpolation from evaluations over the
//! domain is the inverse discrete Fourier transform, stated coefficient-wise.

use vstd::prelude::*;

use crate::field::{f_add, f_mul, f_pow, is_pow2, root_of_unity, vals, Fp};
use crate::poly::DensePoly;

verus! {

broadcast use crate::field::vals_len, crate::field::vals_index;

/// An evaluation domain of power-of-two cardinality.
#[derive(Clone, Copy, Debug)]
pub struct EvalDomain {
    /// The number of points.
    pub size: usize,
    /// `size` cast into the field.
    pub size_fp: Fp,
    /// The field inverse of `size`.
    pub size_inv: Fp,
    /// A root of unity of order `size`.
    pub group_gen: Fp,
    /// The field inverse of `group_gen`.
    pub group_gen_inv: Fp,
}

impl EvalDomain {
    /// Well-formedness: the cardinality is a power of two, the cached field
    /// elements are what they claim to be, and the generator has order
    /// exactly `size` — it generates the whole domain.
    pub open spec fn wf(&self) -> bool {
        &&& 1 <= self.size
        &&& is_pow2(self.size as nat)
        &&& self.size_fp@ == self.size as nat
        &&& f_mul(self.size_fp@, self.size_inv@) == 1
        &&& f_pow(self.group_gen@, self.size as nat) == 1
        &&& (self.size >= 2 ==> f_pow(self.group_gen@, (self.size / 2) as nat) != 1)
        &&& f_mul(self.group_gen@, self.group_gen_inv@) == 1
    }

    /// The smallest power-of-two domain with at least `num_coeffs` points,
    /// or `None` when that exceeds the field's two-adic subgroup.
    pub fn new(num_coeffs: usize) -> (r: Option<EvalDomain>)
        ensures
            r is Some <==> (num_coeffs as nat <= 140737488355328 && num_coeffs <= usize::MAX / 2),
            r matches Some(d) ==> {
                &&& d.wf()
                &&& num_coeffs as int <= d.size
                &&& d.size as nat == crate::field::next_pow2(num_coeffs as nat)
            },
    {
        if num_coeffs as u64 > 140737488355328u64 {
            return None;
        }
        if num_coeffs > usize::MAX / 2 {
            return None;
        }
        let mut size: usize = 1;
        while size < num_coeffs
            invariant
                num_coeffs <= usize::MAX / 2,
                1 <= size,
                is_pow2(size as nat),
                size == 1 || size / 2 < num_coeffs,
            decreases 2 * num_coeffs - size,
        {
            size = size * 2;
        }
        proof {
            crate::field::lemma_pow2_47();
            if size as nat > 140737488355328 {
                crate::field::lemma_pow2_ordering(140737488355328nat, size as nat);
                assert(false);
            }
            crate::field::lemma_next_pow2_unique(num_coeffs as nat, size as nat);
        }
        let size_fp = Fp::from_u64(size as u64);
        let size_inv = match size_fp.inverse() {
            Some(v) => v,
            None => {
                return None;
            },
        };
        let w = match root_of_unity(size) {
            Some(w) => w,
            None => {
                return None;
            },
        };
        proof {
            if w@ == 0 {
                crate::field::lemma_f_pow_zero(size as nat);
            }
        }
        let group_gen_inv = match w.inverse() {
            Some(v) => v,
            None => {
                return None;
            },
        };
        Some(
            EvalDomain {
                size,
                size_fp,
                size_inv,
                group_gen: w,
                group_gen_inv,
            },
        )
    }
}

/// The mod-p sum of the first `k` terms `e[t] * y^t`.
pub open spec fn dot_pows(e: Seq<nat>, y: nat, k: int) -> nat
    decreases k,
{
    if k <= 0 {
        0
    } else {
        f_add(
            dot_pows(e, y, k - 1),
            f_mul(if k - 1 < e.len() { e[k - 1] } else { 0 }, f_pow(y, (k - 1) as nat)),
        )
    }
}

/// Interpolates the polynomial whose evaluation at the domain's `k`-th point
/// is `evals[k]`: coefficient `j` is the inverse discrete Fourier transform
/// `|H|^{-1} * sum_k evals[k] * g^{-jk}` for the domain generator `g`.
pub fn interpolate(evals: &Vec<Fp>, domain: &EvalDomain) -> (r: DensePoly)
    requires
        domain.wf(),
        evals@.len() == domain.size as int,
    ensures
        r@.len() == domain.size as int,
        forall|j: int|
            0 <= j < r@.len() ==> r@[j] == f_mul(
                domain.size_inv@,
                dot_pows(vals(evals@), f_pow(domain.group_gen_inv@, j as nat), domain.size as int),
            ),
{
    let n = evals.len();
    let mut coeffs: Vec<Fp> = Vec::new();
    let mut j: usize = 0;
    let mut wj = Fp::one();
    while j < n
        invariant
            n == domain.size,
            evals@.len() == n as int,
            j <= n,
            coeffs@.len() == j,
            wj@ == f_pow(domain.group_gen_inv@, j as nat),
            forall|t: int|
                0 <= t < j ==> coeffs@[t]@ == f_mul(
                    domain.size_inv@,
                    dot_pows(vals(evals@), f_pow(domain.group_gen_inv@, t as nat), n as int),
                ),
        decreases n - j,
    {
        let mut acc = Fp::zero();
        let mut pk = Fp::one();
        let mut k: usize = 0;
        while k < n
            invariant
                evals@.len() == n as int,
                k <= n,
                pk@ == f_pow(wj@, k as nat),
                acc@ == dot_pows(vals(evals@), wj@, k as int),
            decreases n - k,
        {
            let term = evals[k].mul(&pk);
            acc = acc.add(&term);
            let ghost prev_pk = pk@;
            pk = pk.mul(&wj);
            proof {
                vstd::arithmetic::mul::lemma_mul_is_commutative(prev_pk as int, wj@ as int);
                assert(pk@ == f_pow(wj@, (k + 1) as nat));
            }
            k = k + 1;
        }
        coeffs.push(domain.size_inv.mul(&acc));
        let ghost prev_wj = wj@;
        wj = wj.mul(&domain.group_gen_inv);
        proof {
            vstd::arithmetic::mul::lemma_mul_is_commutative(prev_wj as int, domain.group_gen_inv@ as int);
            assert(wj@ == f_pow(domain.group_gen_inv@, (j + 1) as nat));
        }
        j = j + 1;
    }
    DensePoly { coeffs }
}

} // verus!
