//! Prover-state initialization across a batch: circuit order, determinism
//! under a fixed seed, the zero-knowledge triple count, and the abort-on-
//! failure policy.

use ahp_prover::entropy::Entropy;
use ahp_prover::error::{AhpError, SynthesisError};
use ahp_prover::field::Fp;
use ahp_prover::r1cs::{CircuitIndex, ConstraintSynthesizer, ConstraintSystem, MatrixEntry};
use ahp_prover::state::{init_prover, CircuitBatch};
use ahp_prover::witness::build_assignment;

struct MulCircuit {
    x: u64,
    y: u64,
}

impl ConstraintSynthesizer for MulCircuit {
    fn generate_constraints(&self, cs: &mut ConstraintSystem) -> Result<(), SynthesisError> {
        let x = Fp::from_u64(self.x);
        let y = Fp::from_u64(self.y);
        cs.alloc_input(x.mul(&y));
        cs.alloc_private(x);
        cs.alloc_private(y);
        cs.enforce_constraint();
        Ok(())
    }
}

struct FailingCircuit;

impl ConstraintSynthesizer for FailingCircuit {
    fn generate_constraints(&self, _cs: &mut ConstraintSystem) -> Result<(), SynthesisError> {
        Err(SynthesisError)
    }
}

fn mul_index(id: u64, num_private_variables: usize, num_constraints: usize) -> CircuitIndex {
    let row_a = vec![MatrixEntry { coeff: Fp::one(), col: 2 }];
    let row_b = vec![MatrixEntry { coeff: Fp::one(), col: 3 }];
    let row_c = vec![MatrixEntry { coeff: Fp::one(), col: 1 }];
    let mut a = vec![row_a];
    let mut b = vec![row_b];
    let mut c = vec![row_c];
    while a.len() < num_constraints {
        a.push(Vec::new());
        b.push(Vec::new());
        c.push(Vec::new());
    }
    CircuitIndex {
        id,
        num_constraints,
        num_public_variables: 2,
        num_private_variables,
        num_non_zero_a: 1,
        num_non_zero_b: 1,
        num_non_zero_c: 1,
        a,
        b,
        c,
    }
}

fn sample_batch() -> Vec<CircuitBatch<MulCircuit>> {
    vec![
        CircuitBatch {
            index: mul_index(1, 2, 1),
            instances: vec![MulCircuit { x: 2, y: 3 }, MulCircuit { x: 4, y: 5 }],
        },
        CircuitBatch { index: mul_index(2, 2, 1), instances: vec![MulCircuit { x: 6, y: 7 }] },
    ]
}

fn zk_batch() -> Vec<CircuitBatch<MulCircuit>> {
    vec![
        CircuitBatch {
            index: mul_index(1, 5, 2),
            instances: vec![MulCircuit { x: 2, y: 3 }, MulCircuit { x: 4, y: 5 }],
        },
        CircuitBatch { index: mul_index(2, 5, 2), instances: vec![MulCircuit { x: 6, y: 7 }] },
    ]
}

#[test]
fn preserves_circuit_order_and_values() {
    let batch = sample_batch();
    let mut entropy = Entropy::from_seed(1);
    let state = init_prover(&batch, false, &mut entropy).unwrap();
    assert_eq!(state.circuits.len(), 2);
    assert_eq!(state.circuits[0].circuit_id, 1);
    assert_eq!(state.circuits[1].circuit_id, 2);
    assert_eq!(state.circuits[0].assignments.len(), 2);
    assert_eq!(state.circuits[1].assignments.len(), 1);
    assert_eq!(state.circuits[0].assignments[0].z_c, vec![Fp::from_u64(6)]);
    assert_eq!(state.circuits[0].assignments[1].z_c, vec![Fp::from_u64(20)]);
    assert_eq!(state.circuits[1].assignments[0].z_c, vec![Fp::from_u64(42)]);
    for ca in &state.circuits {
        for a in &ca.assignments {
            // The constant wire heads every padded public vector.
            assert!(a.public_variables[0].is_one());
            // Disabled mode: no randomization triple was injected.
            assert_eq!(a.private_variables.len(), 2);
        }
    }
}

#[test]
fn seeded_runs_are_bit_identical() {
    let s1 = init_prover(&zk_batch(), true, &mut Entropy::from_seed(42)).unwrap();
    let s2 = init_prover(&zk_batch(), true, &mut Entropy::from_seed(42)).unwrap();
    assert_eq!(s1, s2);
    let p1 = init_prover(&sample_batch(), false, &mut Entropy::from_seed(1)).unwrap();
    let p2 = init_prover(&sample_batch(), false, &mut Entropy::from_seed(99)).unwrap();
    // Disabled mode does not consume entropy: any seed gives the same state.
    assert_eq!(p1, p2);
}

#[test]
fn zero_knowledge_mode_injects_one_triple_per_instance() {
    let state = init_prover(&zk_batch(), true, &mut Entropy::from_seed(5)).unwrap();
    for ca in &state.circuits {
        for a in &ca.assignments {
            // Exactly one triple: the two factor witnesses plus three
            // blinding variables, the last being the product of the other
            // two.
            assert_eq!(a.private_variables.len(), 5);
            let p = &a.private_variables;
            assert_eq!(p[4], p[2].mul(&p[3]));
        }
    }
}

#[test]
fn disabled_mode_matches_a_non_randomized_build() {
    let state = init_prover(&sample_batch(), false, &mut Entropy::from_seed(3)).unwrap();
    let batch = sample_batch();
    for (ci, cb) in batch.iter().enumerate() {
        for (ii, instance) in cb.instances.iter().enumerate() {
            let direct = build_assignment(&cb.index, instance, None).unwrap();
            assert_eq!(state.circuits[ci].assignments[ii], direct);
        }
    }
}

#[test]
fn any_instance_failure_aborts_initialization() {
    let batch = vec![
        CircuitBatch { index: mul_index(1, 2, 1), instances: vec![FailingCircuit] },
    ];
    let r = init_prover(&batch, false, &mut Entropy::from_seed(0));
    assert_eq!(r, Err(AhpError::SynthesisFailure));
}
