//! The prover-state initializer: drives the witness-assignment builder over
//! every (circuit, instance) pair of a batch, in circuit-identity order, and
//! assembles the prover's initial state.  Any per-instance failure aborts
//! the whole initialization; no partial state is returned.

use vstd::prelude::*;

use crate::entropy::Entropy;
use crate::error::AhpError;
use crate::field::f_mul;
use crate::r1cs::{CircuitIndex, ConstraintSynthesizer};
use crate::witness::{assignments_valid, build_assignment, RandomTriple};

verus! {

/// One circuit of a batch: its precomputed index and the ordered list of
/// instances to prove against it.
pub struct CircuitBatch<C> {
    pub index: CircuitIndex,
    pub instances: Vec<C>,
}

/// The assignments of every instance of one circuit, keyed by the
/// circuit's identity.
#[derive(Clone, Debug, PartialEq, Eq)]
pub struct CircuitAssignments {
    pub circuit_id: u64,
    pub assignments: Vec<crate::witness::Assignments>,
}

/// The prover's initial state: an ordered mapping from circuit identity to
/// its instances' assignments, in the same deterministic circuit order as
/// the input batch.
#[derive(Clone, Debug, PartialEq, Eq)]
pub struct ProverState {
    pub circuits: Vec<CircuitAssignments>,
}

/// Initializes the prover over a batch of circuits.  In zero-knowledge mode
/// one randomizing triple per instance is drawn up front — circuit order,
/// then instance order, before any constraint generation runs — and every
/// instance's assignments then carry the triple as their last three private
/// variables; with zero knowledge disabled no draw occurs and the run is an
/// exact function of the batch.
pub fn init_prover<C: ConstraintSynthesizer>(
    batch: &Vec<CircuitBatch<C>>,
    zk: bool,
    entropy: &mut Entropy,
) -> (res: Result<ProverState, AhpError>)
    requires
        forall|i: int| 0 <= i < batch@.len() ==> (#[trigger] batch@[i]).index.wf(),
        forall|i: int, j: int|
            0 <= i < j < batch@.len() ==> batch@[i].index.id < batch@[j].index.id,
    ensures
        (forall|i: int| 0 <= i < batch@.len() ==> (#[trigger] batch@[i]).instances@.len() == 0)
            ==> res is Ok,
        res matches Err(e) ==> (e == AhpError::SynthesisFailure
            || e == AhpError::InstanceDoesNotMatchIndex
            || e == AhpError::InadmissiblePublicInput),
        res matches Ok(st) ==> {
            &&& st.circuits@.len() == batch@.len()
            &&& forall|i: int|
                0 <= i < batch@.len() ==> (#[trigger] st.circuits@[i]).circuit_id
                    == batch@[i].index.id
            &&& forall|i: int|
                0 <= i < batch@.len() ==> (#[trigger] st.circuits@[i]).assignments@.len()
                    == batch@[i].instances@.len()
            &&& forall|i: int, j: int|
                0 <= i < batch@.len() && 0 <= j < st.circuits@[i].assignments@.len()
                    ==> assignments_valid(
                    batch@[i].index,
                    #[trigger] st.circuits@[i].assignments@[j],
                )
            &&& zk ==> forall|i: int, j: int|
                0 <= i < batch@.len() && 0 <= j < st.circuits@[i].assignments@.len() ==> {
                    let p = (#[trigger] st.circuits@[i].assignments@[j]).private_variables@;
                    &&& p.len() >= 3
                    &&& p[p.len() - 1]@ == f_mul(p[p.len() - 3]@, p[p.len() - 2]@)
                }
        },
{
    let mut triples: Vec<Vec<Option<RandomTriple>>> = Vec::new();
    let mut i: usize = 0;
    while i < batch.len()
        invariant
            i <= batch@.len(),
            triples@.len() == i,
            forall|t: int|
                0 <= t < i ==> (#[trigger] triples@[t])@.len() == batch@[t].instances@.len(),
            forall|t: int, j: int|
                0 <= t < i && 0 <= j < triples@[t]@.len() ==> (if zk {
                    &&& (#[trigger] triples@[t]@[j]) is Some
                    &&& triples@[t]@[j]->0.wf()
                } else {
                    triples@[t]@[j] is None
                }),
        decreases batch@.len() - i,
    {
        let mut circuit_triples: Vec<Option<RandomTriple>> = Vec::new();
        let mut j: usize = 0;
        while j < batch[i].instances.len()
            invariant
                0 <= i < batch@.len(),
                j <= batch@[i as int].instances@.len(),
                circuit_triples@.len() == j,
                forall|k: int|
                    0 <= k < j ==> (if zk {
                        &&& (#[trigger] circuit_triples@[k]) is Some
                        &&& circuit_triples@[k]->0.wf()
                    } else {
                        circuit_triples@[k] is None
                    }),
            decreases batch@[i as int].instances@.len() - j,
        {
            if zk {
                circuit_triples.push(Some(RandomTriple::sample(entropy)));
            } else {
                circuit_triples.push(None);
            }
            j = j + 1;
        }
        triples.push(circuit_triples);
        i = i + 1;
    }
    let mut circuits: Vec<CircuitAssignments> = Vec::new();
    let mut i: usize = 0;
    while i < batch.len()
        invariant
            forall|t: int| 0 <= t < batch@.len() ==> (#[trigger] batch@[t]).index.wf(),
            i <= batch@.len(),
            triples@.len() == batch@.len(),
            forall|t: int|
                0 <= t < batch@.len() ==> (#[trigger] triples@[t])@.len()
                    == batch@[t].instances@.len(),
            forall|t: int, j: int|
                0 <= t < batch@.len() && 0 <= j < triples@[t]@.len() ==> (if zk {
                    &&& (#[trigger] triples@[t]@[j]) is Some
                    &&& triples@[t]@[j]->0.wf()
                } else {
                    triples@[t]@[j] is None
                }),
            circuits@.len() == i,
            forall|t: int|
                0 <= t < i ==> (#[trigger] circuits@[t]).circuit_id == batch@[t].index.id,
            forall|t: int|
                0 <= t < i ==> (#[trigger] circuits@[t]).assignments@.len()
                    == batch@[t].instances@.len(),
            forall|t: int, j: int|
                0 <= t < i && 0 <= j < circuits@[t].assignments@.len() ==> assignments_valid(
                    batch@[t].index,
                    #[trigger] circuits@[t].assignments@[j],
                ),
            zk ==> forall|t: int, j: int|
                0 <= t < i && 0 <= j < circuits@[t].assignments@.len() ==> {
                    let p = (#[trigger] circuits@[t].assignments@[j]).private_variables@;
                    &&& p.len() >= 3
                    &&& p[p.len() - 1]@ == f_mul(p[p.len() - 3]@, p[p.len() - 2]@)
                },
        decreases batch@.len() - i,
    {
        let mut assignments: Vec<crate::witness::Assignments> = Vec::new();
        let mut j: usize = 0;
        while j < batch[i].instances.len()
            invariant
                0 <= i < batch@.len(),
                batch@[i as int].index.wf(),
                triples@.len() == batch@.len(),
                triples@[i as int]@.len() == batch@[i as int].instances@.len(),
                forall|k: int|
                    0 <= k < triples@[i as int]@.len() ==> (if zk {
                        &&& (#[trigger] triples@[i as int]@[k]) is Some
                        &&& triples@[i as int]@[k]->0.wf()
                    } else {
                        triples@[i as int]@[k] is None
                    }),
                j <= batch@[i as int].instances@.len(),
                assignments@.len() == j,
                forall|k: int|
                    0 <= k < j ==> assignments_valid(
                        batch@[i as int].index,
                        #[trigger] assignments@[k],
                    ),
                zk ==> forall|k: int|
                    0 <= k < j ==> {
                        let p = (#[trigger] assignments@[k]).private_variables@;
                        &&& p.len() >= 3
                        &&& p[p.len() - 1]@ == f_mul(p[p.len() - 3]@, p[p.len() - 2]@)
                    },
            decreases batch@[i as int].instances@.len() - j,
        {
            let triple = triples[i][j];
            match build_assignment(&batch[i].index, &batch[i].instances[j], triple) {
                Err(e) => {
                    return Err(e);
                },
                Ok(a) => {
                    assignments.push(a);
                },
            }
            j = j + 1;
        }
        let circuit_id = batch[i].index.id;
        circuits.push(CircuitAssignments { circuit_id, assignments });
        i = i + 1;
    }
    Ok(ProverState { circuits })
}

} // verus!
