use halo2curves::bn256::Fr;
use halo2curves::ff::{Field, PrimeField};
use interlink::bn254::scalar_from_u64;
use interlink::recursion::{FoldingPipeline, ProofAccumulator};

fn make_proof(c: u64, e: u64, pi: u64) -> ProofAccumulator {
    ProofAccumulator {
        commitment: scalar_from_u64(c),
        evaluation: scalar_from_u64(e),
        public_input: scalar_from_u64(pi),
    }
}

/// A field element as 32 big-endian bytes.
fn fr_bytes(f: Fr) -> [u8; 32] {
    let mut b: [u8; 32] = f.to_repr().into();
    b.reverse();
    b
}

fn fr_from_bytes(be: [u8; 32]) -> Fr {
    let mut le = be;
    le.reverse();
    Fr::from_repr(le.into()).unwrap()
}

fn fold_reference(a: &ProofAccumulator, b: &ProofAccumulator) -> ProofAccumulator {
    let (c1, c2) = (fr_from_bytes(a.commitment), fr_from_bytes(b.commitment));
    let sum = c1 + c2;
    let sq = sum.square();
    let alpha = sq * sq * sum;
    ProofAccumulator {
        commitment: fr_bytes(c1 + alpha * c2),
        evaluation: fr_bytes(fr_from_bytes(a.evaluation) + alpha * fr_from_bytes(b.evaluation)),
        public_input: fr_bytes(fr_from_bytes(a.public_input) + alpha * fr_from_bytes(b.public_input)),
    }
}

#[test]
fn test_folding_pipeline_pair() {
    let a = make_proof(5, 10, 50);
    let b = make_proof(15, 20, 100);

    let folded = FoldingPipeline::fold_pair(&a, &b);

    let ca = Fr::from(5u64);
    let cb = Fr::from(15u64);
    let sum = ca + cb;
    let sq = sum.square();
    let alpha = sq * sq * sum;
    assert_eq!(folded.commitment, fr_bytes(ca + alpha * cb));
    assert_eq!(folded.evaluation, fr_bytes(Fr::from(10u64) + alpha * Fr::from(20u64)));
}

#[test]
fn test_folding_pipeline_batch() {
    let mut pipeline = FoldingPipeline::new(4);

    assert!(pipeline.add_proof(make_proof(1, 2, 10)).is_none());
    assert!(pipeline.add_proof(make_proof(3, 4, 20)).is_none());
    assert!(pipeline.add_proof(make_proof(5, 6, 30)).is_none());

    let result = pipeline.add_proof(make_proof(7, 8, 40));
    assert!(result.is_some());
    assert_eq!(pipeline.pending_count(), 0);
}

#[test]
fn test_folding_pipeline_odd_count() {
    let mut pipeline = FoldingPipeline::new(8);
    for i in 0..5u64 {
        pipeline.add_proof(make_proof(i + 1, i + 10, i * 100));
    }
    let result = pipeline.flush_batch();
    assert_ne!(result.commitment, scalar_from_u64(0));
}

#[test]
fn folding_matches_field_arithmetic_on_large_values() {
    // Values near the modulus, where the sums wrap.
    let big = fr_bytes(-Fr::ONE);
    let a = ProofAccumulator { commitment: big, evaluation: big, public_input: scalar_from_u64(3) };
    let b = ProofAccumulator { commitment: big, evaluation: scalar_from_u64(7), public_input: big };
    assert_eq!(FoldingPipeline::fold_pair(&a, &b), fold_reference(&a, &b));
}

#[test]
fn folding_tree_of_five_folds_pairs_from_the_front() {
    let proofs: Vec<ProofAccumulator> = (0..5u64).map(|i| make_proof(i + 1, i + 10, i * 100)).collect();
    let mut pipeline = FoldingPipeline::new(8);
    for p in &proofs {
        assert!(pipeline.add_proof(*p).is_none());
    }
    assert!(!pipeline.is_batch_ready());
    let result = pipeline.flush_batch();

    let l1 = [
        fold_reference(&proofs[0], &proofs[1]),
        fold_reference(&proofs[2], &proofs[3]),
        proofs[4],
    ];
    let l2 = [fold_reference(&l1[0], &l1[1]), l1[2]];
    let expected = fold_reference(&l2[0], &l2[1]);
    assert_eq!(result, expected);
}

#[test]
fn folding_single_proof_is_returned_unchanged() {
    let mut pipeline = FoldingPipeline::new(3);
    let p = make_proof(11, 12, 13);
    assert!(pipeline.add_proof(p).is_none());
    assert_eq!(pipeline.pending_count(), 1);
    assert_eq!(pipeline.flush_batch(), p);
}
