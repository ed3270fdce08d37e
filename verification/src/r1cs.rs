//! The rank-1 constraint system surface the prover core works against: the
//! immutable per-circuit index with its three sparse matrices, the
//! constraint-system sink an instance populates, and the sparse row inner
//! product that evaluates a matrix against a witness.

use vstd::prelude::*;

use crate::error::{AhpError, SynthesisError};
use crate::field::{f_add, f_mul, is_pow2, next_pow2, vals, Fp};

verus! {

broadcast use crate::field::vals_len, crate::field::vals_index;

/// One non-zero entry of a sparse matrix row: a coefficient and the column
/// it multiplies.  Columns below the public count address the public vector;
/// larger columns address the private vector offset by the public count.
#[derive(Clone, Copy, Debug)]
pub struct MatrixEntry {
    pub coeff: Fp,
    pub col: usize,
}

/// Every entry of every row addresses a column below `num_vars`, and there
/// is one row per constraint.
pub open spec fn matrix_wf(m: Seq<Vec<MatrixEntry>>, num_rows: int, num_vars: int) -> bool {
    &&& m.len() == num_rows
    &&& forall|r: int, e: int|
        0 <= r < m.len() && 0 <= e < m[r]@.len() ==> (#[trigger] m[r]@[e]).col < num_vars
}

/// Immutable, precomputed per-circuit metadata: counts and the three sparse
/// constraint matrices, shared read-only by all instances proved against it.
#[derive(Clone, Debug)]
pub struct CircuitIndex {
    /// The circuit's identity; batches are ordered by it.
    pub id: u64,
    pub num_constraints: usize,
    pub num_public_variables: usize,
    pub num_private_variables: usize,
    pub num_non_zero_a: usize,
    pub num_non_zero_b: usize,
    pub num_non_zero_c: usize,
    pub a: Vec<Vec<MatrixEntry>>,
    pub b: Vec<Vec<MatrixEntry>>,
    pub c: Vec<Vec<MatrixEntry>>,
}

impl CircuitIndex {
    /// Well-formedness of the precomputed index: the public count is the
    /// padded (power-of-two) layout with the constant wire, the variable
    /// counts fit the machine, and each matrix has one row per constraint
    /// with in-range columns.
    pub open spec fn wf(&self) -> bool {
        &&& 1 <= self.num_public_variables
        &&& is_pow2(self.num_public_variables as nat)
        &&& self.num_public_variables + self.num_private_variables <= usize::MAX
        &&& self.num_public_variables <= usize::MAX / 2
        &&& matrix_wf(
            self.a@,
            self.num_constraints as int,
            self.num_public_variables + self.num_private_variables,
        )
        &&& matrix_wf(
            self.b@,
            self.num_constraints as int,
            self.num_public_variables + self.num_private_variables,
        )
        &&& matrix_wf(
            self.c@,
            self.num_constraints as int,
            self.num_public_variables + self.num_private_variables,
        )
    }
}

/// The variable addressed by `col` in the concatenated `[public ‖ private]`
/// assignment.
pub open spec fn entry_var(pubv: Seq<nat>, privv: Seq<nat>, col: int) -> nat {
    if col < pubv.len() {
        pubv[col]
    } else if col - pubv.len() < privv.len() {
        privv[col - pubv.len()]
    } else {
        0
    }
}

/// The mod-p sum of the first `k` terms `coefficient * variable` of a
/// sparse row against the concatenated assignment.
pub open spec fn row_dot(pubv: Seq<nat>, privv: Seq<nat>, row: Seq<MatrixEntry>, k: int) -> nat
    decreases k,
{
    if k <= 0 || row.len() < k {
        0
    } else {
        f_add(
            row_dot(pubv, privv, row, k - 1),
            f_mul(row[k - 1].coeff@, entry_var(pubv, privv, row[k - 1].col as int)),
        )
    }
}

/// The inner product of one sparse row with the concatenated
/// `[public ‖ private]` assignment.  A coefficient equal to the
/// multiplicative identity skips the multiply; the result is the same.
pub fn inner_product(
    public_variables: &Vec<Fp>,
    private_variables: &Vec<Fp>,
    row: &Vec<MatrixEntry>,
    num_public_variables: usize,
) -> (r: Fp)
    requires
        num_public_variables == public_variables@.len(),
        forall|e: int|
            0 <= e < row@.len() ==> (#[trigger] row@[e]).col < public_variables@.len()
                + private_variables@.len(),
    ensures
        r@ == row_dot(
            vals(public_variables@),
            vals(private_variables@),
            row@,
            row@.len() as int,
        ),
{
    let mut result = Fp::zero();
    let mut k: usize = 0;
    while k < row.len()
        invariant
            num_public_variables == public_variables@.len(),
            forall|e: int|
                0 <= e < row@.len() ==> (#[trigger] row@[e]).col < public_variables@.len()
                    + private_variables@.len(),
            k <= row@.len(),
            result@ == row_dot(vals(public_variables@), vals(private_variables@), row@, k as int),
        decreases row@.len() - k,
    {
        let entry = row[k];
        let variable = if entry.col < num_public_variables {
            public_variables[entry.col]
        } else {
            private_variables[entry.col - num_public_variables]
        };
        proof {
            use_type_invariant(&variable);
            assert(variable@ == entry_var(
                vals(public_variables@),
                vals(private_variables@),
                entry.col as int,
            ));
        }
        if entry.coeff.is_one() {
            proof {
                vstd::arithmetic::div_mod::lemma_small_mod(variable@, crate::field::fp_modulus());
                assert(f_mul(entry.coeff@, variable@) == variable@);
            }
            result = result.add(&variable);
        } else {
            let term = entry.coeff.mul(&variable);
            result = result.add(&term);
        }
        proof {
            assert(result@ == row_dot(
                vals(public_variables@),
                vals(private_variables@),
                row@,
                k + 1,
            ));
        }
        k = k + 1;
    }
    result
}

/// The vector of row-wise inner products of one sparse matrix against the
/// concatenated `[public ‖ private]` assignment: `z[k]` is the inner product
/// of row `k`.  Rows are mutually independent; this sequential evaluation is
/// one admissible schedule.
pub fn matrix_vector_product(
    m: &Vec<Vec<MatrixEntry>>,
    public_variables: &Vec<Fp>,
    private_variables: &Vec<Fp>,
    num_public_variables: usize,
) -> (z: Vec<Fp>)
    requires
        num_public_variables == public_variables@.len(),
        forall|r: int, e: int|
            0 <= r < m@.len() && 0 <= e < m@[r]@.len() ==> (#[trigger] m@[r]@[e]).col
                < public_variables@.len() + private_variables@.len(),
    ensures
        z@.len() == m@.len(),
        forall|k: int|
            0 <= k < m@.len() ==> z@[k]@ == row_dot(
                vals(public_variables@),
                vals(private_variables@),
                m@[k]@,
                m@[k]@.len() as int,
            ),
{
    let mut z: Vec<Fp> = Vec::new();
    let mut k: usize = 0;
    while k < m.len()
        invariant
            num_public_variables == public_variables@.len(),
            forall|r: int, e: int|
                0 <= r < m@.len() && 0 <= e < m@[r]@.len() ==> (#[trigger] m@[r]@[e]).col
                    < public_variables@.len() + private_variables@.len(),
            k <= m@.len(),
            z@.len() == k,
            forall|t: int|
                0 <= t < k ==> z@[t]@ == row_dot(
                    vals(public_variables@),
                    vals(private_variables@),
                    m@[t]@,
                    m@[t]@.len() as int,
                ),
        decreases m@.len() - k,
    {
        let zk = inner_product(public_variables, private_variables, &m[k], num_public_variables);
        z.push(zk);
        k = k + 1;
    }
    z
}

/// The transient constraint-system sink one instance populates: the public
/// and private assignment vectors and the realized constraint count.  Entry
/// 0 of the public vector is the constant wire, fixed to the multiplicative
/// identity at creation.
#[derive(Clone, Debug)]
pub struct ConstraintSystem {
    pub public_variables: Vec<Fp>,
    pub private_variables: Vec<Fp>,
    pub num_constraints: usize,
}

impl ConstraintSystem {
    /// A fresh sink: one public variable (the constant wire, equal to one),
    /// no private variables, no constraints.
    pub fn new() -> (cs: ConstraintSystem)
        ensures
            cs.public_variables@.len() == 1,
            cs.public_variables@[0]@ == 1,
            cs.private_variables@.len() == 0,
            cs.num_constraints == 0,
    {
        let mut public_variables: Vec<Fp> = Vec::new();
        public_variables.push(Fp::one());
        ConstraintSystem { public_variables, private_variables: Vec::new(), num_constraints: 0 }
    }

    /// Appends one public variable.
    pub fn alloc_input(&mut self, v: Fp)
        ensures
            final(self).public_variables@ == old(self).public_variables@.push(v),
            final(self).private_variables == old(self).private_variables,
            final(self).num_constraints == old(self).num_constraints,
    {
        self.public_variables.push(v);
    }

    /// Appends one private variable.
    pub fn alloc_private(&mut self, v: Fp)
        ensures
            final(self).private_variables@ == old(self).private_variables@.push(v),
            final(self).public_variables == old(self).public_variables,
            final(self).num_constraints == old(self).num_constraints,
    {
        self.private_variables.push(v);
    }

    /// Counts one constraint (saturating at the machine limit).
    pub fn enforce_constraint(&mut self)
        ensures
            old(self).num_constraints < usize::MAX ==> final(self).num_constraints == old(
                self,
            ).num_constraints + 1,
            old(self).num_constraints == usize::MAX ==> final(self).num_constraints == old(
                self,
            ).num_constraints,
            final(self).public_variables == old(self).public_variables,
            final(self).private_variables == old(self).private_variables,
    {
        if self.num_constraints < usize::MAX {
            self.num_constraints = self.num_constraints + 1;
        }
    }

    /// Pads the public vector with zeros up to the indexer's layout: the
    /// next power-of-two length.
    pub fn pad_public_input(&mut self)
        requires
            old(self).public_variables@.len() <= usize::MAX / 2,
        ensures
            final(self).public_variables@.len() == next_pow2(old(self).public_variables@.len() as nat),
            forall|i: int|
                0 <= i < old(self).public_variables@.len() ==> final(self).public_variables@[i]
                    == old(self).public_variables@[i],
            forall|i: int|
                old(self).public_variables@.len() <= i < final(self).public_variables@.len()
                    ==> final(self).public_variables@[i]@ == 0,
            final(self).private_variables == old(self).private_variables,
            final(self).num_constraints == old(self).num_constraints,
    {
        let mut target: usize = 1;
        while target < self.public_variables.len()
            invariant
                self.public_variables@.len() <= usize::MAX / 2,
                1 <= target,
                is_pow2(target as nat),
                target == 1 || target / 2 < self.public_variables@.len(),
                self == old(self),
            decreases 2 * self.public_variables@.len() - target,
        {
            target = target * 2;
        }
        proof {
            crate::field::lemma_next_pow2_unique(
                old(self).public_variables@.len() as nat,
                target as nat,
            );
        }
        while self.public_variables.len() < target
            invariant
                target as nat == next_pow2(old(self).public_variables@.len() as nat),
                old(self).public_variables@.len() <= self.public_variables@.len() <= target,
                forall|i: int|
                    0 <= i < old(self).public_variables@.len() ==> self.public_variables@[i]
                        == old(self).public_variables@[i],
                forall|i: int|
                    old(self).public_variables@.len() <= i < self.public_variables@.len()
                        ==> self.public_variables@[i]@ == 0,
                self.private_variables == old(self).private_variables,
                self.num_constraints == old(self).num_constraints,
            decreases target - self.public_variables@.len(),
        {
            self.public_variables.push(Fp::zero());
        }
    }
}

/// The constraint-generation capability of one instance: populates a sink,
/// or fails with a synthesis error.  Implemented by the callers of the
/// prover core; nothing is assumed of an implementation.
pub trait ConstraintSynthesizer {
    fn generate_constraints(&self, cs: &mut ConstraintSystem) -> Result<(), SynthesisError>;
}

/// The public-input admissibility predicate: a formatted public vector is
/// admissible exactly when its length is a power of two (the indexer's
/// padded layout) and its first entry is the constant wire, fixed to the
/// multiplicative identity.
pub fn formatted_public_input_is_admissible(v: &Vec<Fp>) -> (r: Result<(), AhpError>)
    ensures
        r is Ok <==> (is_pow2(v@.len() as nat) && v@.len() >= 1 && v@[0]@ == 1),
        r matches Err(e) ==> e == AhpError::InadmissiblePublicInput,
{
    let mut m = v.len();
    if m == 0 {
        return Err(AhpError::InadmissiblePublicInput);
    }
    if !v[0].is_one() {
        return Err(AhpError::InadmissiblePublicInput);
    }
    while m > 1
        invariant
            is_pow2(v@.len() as nat) <==> is_pow2(m as nat),
            1 <= m,
        decreases m,
    {
        if m % 2 != 0 {
            return Err(AhpError::InadmissiblePublicInput);
        }
        m = m / 2;
    }
    Ok(())
}

} // verus!
