//! The witness-assignment builder: turns one instance's populated
//! constraint-system sink, together with the circuit index and an optional
//! zero-knowledge randomizing triple, into a validated, padded witness and
//! its three matrix-vector products — or fails without producing partial
//! output for that instance.

use vstd::prelude::*;

use crate::entropy::Entropy;
use crate::error::AhpError;
use crate::field::{f_mul, next_pow2, vals, Fp};
use crate::r1cs::{
    formatted_public_input_is_admissible, matrix_vector_product, row_dot, CircuitIndex,
    ConstraintSynthesizer, ConstraintSystem,
};

verus! {

broadcast use crate::field::vals_len, crate::field::vals_index;

/// A zero-knowledge blinding triple `(a, b, c)` with `c = a * b`, folded
/// into the constraint system as one extra multiplicative constraint and
/// three extra private variables.
#[derive(Clone, Copy, Debug)]
pub struct RandomTriple {
    pub a: Fp,
    pub b: Fp,
    pub c: Fp,
}

impl RandomTriple {
    /// The blinding relation: the third element is the product of the
    /// first two.
    pub open spec fn wf(&self) -> bool {
        self.c@ == f_mul(self.a@, self.b@)
    }

    /// Samples a fresh triple: `a` then `b` are drawn from the entropy
    /// source, and `c = a * b` is computed.
    pub fn sample(entropy: &mut Entropy) -> (t: RandomTriple)
        ensures
            t.wf(),
    {
        let a = entropy.draw();
        let b = entropy.draw();
        let c = a.mul(&b);
        RandomTriple { a, b, c }
    }
}

/// The private vector after the optional injection of a randomizing triple.
pub open spec fn injected_privates(privs: Seq<Fp>, triple: Option<RandomTriple>) -> Seq<Fp> {
    match triple {
        Option::None => privs,
        Option::Some(t) => privs.push(t.a).push(t.b).push(t.c),
    }
}

/// The constraint count after the optional injection of the triple's one
/// extra constraint.
pub open spec fn injected_constraints(num_constraints: nat, triple: Option<RandomTriple>) -> int {
    num_constraints + (if triple is Some { 1int } else { 0int })
}

/// Whether the realized (injected, padded) counts equal the circuit index's
/// recorded values.
pub open spec fn snapshot_matches_index(
    index: CircuitIndex,
    cs: ConstraintSystem,
    triple: Option<RandomTriple>,
) -> bool {
    &&& next_pow2(cs.public_variables@.len() as nat) == index.num_public_variables as nat
    &&& injected_privates(cs.private_variables@, triple).len()
        == index.num_private_variables as int
    &&& injected_constraints(cs.num_constraints as nat, triple)
        == index.num_constraints as int
}

/// Whether the sink still carries the constant wire: a non-empty public
/// vector whose first entry is the multiplicative identity.
pub open spec fn constant_wire_ok(cs: ConstraintSystem) -> bool {
    cs.public_variables@.len() >= 1 && cs.public_variables@[0]@ == 1
}

/// One instance's validated result: the padded public vector, the private
/// vector, and the three matrix-vector products.  Immutable once built.
#[derive(Clone, Debug, PartialEq, Eq)]
pub struct Assignments {
    pub public_variables: Vec<Fp>,
    pub private_variables: Vec<Fp>,
    pub z_a: Vec<Fp>,
    pub z_b: Vec<Fp>,
    pub z_c: Vec<Fp>,
}

/// The structural validity of one instance's assignments against its
/// circuit index: the constant wire is present, every vector length equals
/// the index's recorded count, and each z-vector entry is the row inner
/// product of its matrix against the assignment's own vectors.
pub open spec fn assignments_valid(index: CircuitIndex, a: Assignments) -> bool {
    &&& a.public_variables@.len() == index.num_public_variables
    &&& a.public_variables@[0]@ == 1
    &&& a.private_variables@.len() == index.num_private_variables
    &&& a.z_a@.len() == index.num_constraints
    &&& a.z_b@.len() == index.num_constraints
    &&& a.z_c@.len() == index.num_constraints
    &&& forall|k: int|
        0 <= k < index.a@.len() ==> a.z_a@[k]@ == row_dot(
            vals(a.public_variables@),
            vals(a.private_variables@),
            index.a@[k]@,
            index.a@[k]@.len() as int,
        )
    &&& forall|k: int|
        0 <= k < index.b@.len() ==> a.z_b@[k]@ == row_dot(
            vals(a.public_variables@),
            vals(a.private_variables@),
            index.b@[k]@,
            index.b@[k]@.len() as int,
        )
    &&& forall|k: int|
        0 <= k < index.c@.len() ==> a.z_c@[k]@ == row_dot(
            vals(a.public_variables@),
            vals(a.private_variables@),
            index.c@[k]@,
            index.c@[k]@.len() as int,
        )
}

/// The exact result of a successful build from a snapshot: the public
/// vector is the snapshot's, zero-padded to the index's layout; the private
/// vector is the snapshot's with the triple injected; and each z-vector
/// entry is the row inner product of its matrix against those vectors.
pub open spec fn build_ok_spec(
    index: CircuitIndex,
    cs: ConstraintSystem,
    triple: Option<RandomTriple>,
    a: Assignments,
) -> bool {
    &&& assignments_valid(index, a)
    &&& forall|i: int|
        0 <= i < cs.public_variables@.len() ==> a.public_variables@[i]
            == cs.public_variables@[i]
    &&& forall|i: int|
        cs.public_variables@.len() <= i < a.public_variables@.len()
            ==> a.public_variables@[i]@ == 0
    &&& a.private_variables@ == injected_privates(cs.private_variables@, triple)
}

/// Injects the randomizing triple into the sink: three extra private
/// variables and one extra multiplicative constraint.
pub fn add_randomizing_variables(cs: &mut ConstraintSystem, t: &RandomTriple)
    requires
        old(cs).num_constraints < usize::MAX,
    ensures
        final(cs).public_variables == old(cs).public_variables,
        final(cs).private_variables@ == old(cs).private_variables@.push(t.a).push(t.b).push(t.c),
        final(cs).num_constraints == old(cs).num_constraints + 1,
{
    cs.alloc_private(t.a);
    cs.alloc_private(t.b);
    cs.alloc_private(t.c);
    cs.enforce_constraint();
}

/// Builds one instance's assignments from its populated sink.  The triple,
/// if present, is injected; the public vector is padded to the indexer's
/// layout; the realized counts are validated against the index, then the
/// padded public vector against the admissibility predicate; finally the
/// three matrix-vector products are evaluated.  The result is an exact
/// function of the arguments.
pub fn build_from_snapshot(
    index: &CircuitIndex,
    cs: ConstraintSystem,
    triple: Option<RandomTriple>,
) -> (res: Result<Assignments, AhpError>)
    requires
        index.wf(),
    ensures
        res is Ok <==> (snapshot_matches_index(*index, cs, triple) && constant_wire_ok(cs)),
        res matches Err(e) ==> e == (if !snapshot_matches_index(*index, cs, triple) {
            AhpError::InstanceDoesNotMatchIndex
        } else {
            AhpError::InadmissiblePublicInput
        }),
        res matches Ok(a) ==> build_ok_spec(*index, cs, triple, a),
{
    let mut sink = cs;
    match &triple {
        Some(t) => {
            if sink.num_constraints == usize::MAX {
                return Err(AhpError::InstanceDoesNotMatchIndex);
            }
            add_randomizing_variables(&mut sink, t);
        },
        None => {},
    }
    if sink.public_variables.len() > index.num_public_variables {
        proof {
            crate::field::lemma_next_pow2_ge(cs.public_variables@.len() as nat);
        }
        return Err(AhpError::InstanceDoesNotMatchIndex);
    }
    sink.pad_public_input();
    if sink.public_variables.len() != index.num_public_variables {
        return Err(AhpError::InstanceDoesNotMatchIndex);
    }
    if sink.private_variables.len() != index.num_private_variables {
        return Err(AhpError::InstanceDoesNotMatchIndex);
    }
    if sink.num_constraints != index.num_constraints {
        return Err(AhpError::InstanceDoesNotMatchIndex);
    }
    match formatted_public_input_is_admissible(&sink.public_variables) {
        Err(e) => {
            return Err(e);
        },
        Ok(()) => {},
    }
    let z_a = matrix_vector_product(
        &index.a,
        &sink.public_variables,
        &sink.private_variables,
        index.num_public_variables,
    );
    let z_b = matrix_vector_product(
        &index.b,
        &sink.public_variables,
        &sink.private_variables,
        index.num_public_variables,
    );
    let z_c = matrix_vector_product(
        &index.c,
        &sink.public_variables,
        &sink.private_variables,
        index.num_public_variables,
    );
    Ok(
        Assignments {
            public_variables: sink.public_variables,
            private_variables: sink.private_variables,
            z_a,
            z_b,
            z_c,
        },
    )
}

/// Runs one instance's constraint-generation capability into a fresh sink
/// and builds its assignments.  A synthesis failure is surfaced as
/// `SynthesisFailure`; any successful result carries the constant wire,
/// vector lengths that equal the index's recorded counts, and matrix-vector
/// products evaluated over its own vectors — whatever the capability did.
pub fn build_assignment<C: ConstraintSynthesizer>(
    index: &CircuitIndex,
    instance: &C,
    triple: Option<RandomTriple>,
) -> (res: Result<Assignments, AhpError>)
    requires
        index.wf(),
    ensures
        res matches Err(e) ==> (e == AhpError::SynthesisFailure
            || e == AhpError::InstanceDoesNotMatchIndex
            || e == AhpError::InadmissiblePublicInput),
        res matches Ok(a) ==> {
            &&& assignments_valid(*index, a)
            &&& triple matches Some(t) ==> {
                &&& a.private_variables@.len() >= 3
                &&& a.private_variables@[a.private_variables@.len() - 3] == t.a
                &&& a.private_variables@[a.private_variables@.len() - 2] == t.b
                &&& a.private_variables@[a.private_variables@.len() - 1] == t.c
            }
        },
{
    let mut sink = ConstraintSystem::new();
    match instance.generate_constraints(&mut sink) {
        Err(_) => {
            return Err(AhpError::SynthesisFailure);
        },
        Ok(()) => {},
    }
    build_from_snapshot(index, sink, triple)
}

/// Determinism of witness construction: a successful build is an exact
/// function of the circuit index, the snapshot and the triple, so any two
/// results for the same inputs agree element by element — two runs with
/// identical inputs and identical drawn randomness are bit-identical.
pub proof fn lemma_build_deterministic(
    index: CircuitIndex,
    cs: ConstraintSystem,
    triple: Option<RandomTriple>,
    a1: Assignments,
    a2: Assignments,
)
    requires
        index.wf(),
        build_ok_spec(index, cs, triple, a1),
        build_ok_spec(index, cs, triple, a2),
    ensures
        a1.public_variables@ == a2.public_variables@,
        a1.private_variables@ == a2.private_variables@,
        a1.z_a@ == a2.z_a@,
        a1.z_b@ == a2.z_b@,
        a1.z_c@ == a2.z_c@,
{
    assert forall|i: int|
        0 <= i < a1.public_variables@.len() implies a1.public_variables@[i]
        == a2.public_variables@[i] by {
        if cs.public_variables@.len() <= i {
            crate::field::lemma_view_injective(a1.public_variables@[i], a2.public_variables@[i]);
        }
    }
    assert(a1.public_variables@ =~= a2.public_variables@);
    assert forall|k: int| 0 <= k < a1.z_a@.len() implies a1.z_a@[k] == a2.z_a@[k] by {
        crate::field::lemma_view_injective(a1.z_a@[k], a2.z_a@[k]);
    }
    assert(a1.z_a@ =~= a2.z_a@);
    assert forall|k: int| 0 <= k < a1.z_b@.len() implies a1.z_b@[k] == a2.z_b@[k] by {
        crate::field::lemma_view_injective(a1.z_b@[k], a2.z_b@[k]);
    }
    assert(a1.z_b@ =~= a2.z_b@);
    assert forall|k: int| 0 <= k < a1.z_c@.len() implies a1.z_c@[k] == a2.z_c@[k] by {
        crate::field::lemma_view_injective(a1.z_c@[k], a2.z_c@[k]);
    }
    assert(a1.z_c@ =~= a2.z_c@);
}

/// With zero knowledge disabled the injection step is the identity: no
/// private variable and no constraint is added, so a build without a triple
/// is the build of the raw snapshot, bit-identical to a run that never had
/// randomization at all.
pub proof fn lemma_disabled_mode_plain(cs: ConstraintSystem)
    ensures
        injected_privates(cs.private_variables@, Option::None) == cs.private_variables@,
        injected_constraints(cs.num_constraints as nat, Option::None) == cs.num_constraints as int,
{
}

} // verus!
