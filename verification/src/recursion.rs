//! Recursive folding of proof accumulators: proofs collected in a batch are
//! folded pairwise, level by level, until one accumulator is left.
//!
//! Folding two accumulators uses the Fiat-Shamir challenge
//! `alpha = (C1 + C2)^5` and sets `C = C1 + alpha * C2`,
//! `e = e1 + alpha * e2`, `pi = pi1 + alpha * pi2`, all over the BN254
//! scalar field. Field elements are 32-byte big-endian numbers below the
//! modulus.
use vstd::prelude::*;
use crate::bn254::{be_val, field_add, field_mul, scalar_modulus};

verus! {

/// The commitment, evaluation and public input of one proof.
#[derive(Debug, Clone, Copy, PartialEq, Eq)]
pub struct ProofAccumulator {
    /// Polynomial commitment (compressed representation).
    pub commitment: [u8; 32],
    /// Evaluation at the challenge point.
    pub evaluation: [u8; 32],
    /// The public input this proof attests to.
    pub public_input: [u8; 32],
}

/// An accumulator as three field elements.
pub type AccView = (nat, nat, nat);

impl View for ProofAccumulator {
    type V = AccView;

    open spec fn view(&self) -> AccView {
        (be_val(self.commitment@), be_val(self.evaluation@), be_val(self.public_input@))
    }
}

/// All three values are field elements (below the modulus).
pub open spec fn canonical(v: AccView) -> bool {
    v.0 < scalar_modulus() && v.1 < scalar_modulus() && v.2 < scalar_modulus()
}

impl ProofAccumulator {
    /// The accumulator holds three field elements.
    pub open spec fn is_canonical(&self) -> bool {
        canonical(self@)
    }
}

/// Addition in the scalar field.
pub open spec fn fr_add(x: nat, y: nat) -> nat {
    (x + y) % scalar_modulus()
}

/// Multiplication in the scalar field.
pub open spec fn fr_mul(x: nat, y: nat) -> nat {
    (x * y) % scalar_modulus()
}

/// The folding challenge `(c1 + c2)^5`, computed as `sq * sq * sum` with
/// `sq = sum^2`.
pub open spec fn challenge(c1: nat, c2: nat) -> nat {
    let sum = fr_add(c1, c2);
    let sq = fr_mul(sum, sum);
    fr_mul(fr_mul(sq, sq), sum)
}

/// Fold two accumulators with the challenge of their commitments.
pub open spec fn fold_pair_spec(a: AccView, b: AccView) -> AccView {
    let alpha = challenge(a.0, b.0);
    (fr_add(a.0, fr_mul(alpha, b.0)), fr_add(a.1, fr_mul(alpha, b.1)), fr_add(a.2, fr_mul(alpha, b.2)))
}

/// One level of the folding tree: neighbours are folded in pairs from the
/// front, an odd last accumulator is carried forward.
pub open spec fn fold_level(s: Seq<AccView>) -> Seq<AccView>
    decreases s.len(),
{
    if s.len() < 2 {
        s
    } else {
        seq![fold_pair_spec(s[0], s[1])] + fold_level(s.subrange(2, s.len() as int))
    }
}

/// A level of `n` accumulators leaves `(n + 1) / 2`.
pub proof fn lemma_fold_level_len(s: Seq<AccView>)
    ensures
        fold_level(s).len() == (s.len() + 1) / 2,
    decreases s.len(),
{
    if s.len() >= 2 {
        lemma_fold_level_len(s.subrange(2, s.len() as int));
    }
}

/// Levels are folded until at most one accumulator is left.
pub open spec fn fold_tree(s: Seq<AccView>) -> Seq<AccView>
    decreases s.len(),
{
    if s.len() <= 1 {
        s
    } else {
        proof {
            lemma_fold_level_len(s);
        }
        fold_tree(fold_level(s))
    }
}

/// The views of a sequence of accumulators.
pub open spec fn acc_views(s: Seq<ProofAccumulator>) -> Seq<AccView> {
    s.map_values(|p: ProofAccumulator| p@)
}

/// Every accumulator of the sequence holds field elements.
pub open spec fn all_canonical(s: Seq<AccView>) -> bool {
    forall|k: int| 0 <= k < s.len() ==> #[trigger] canonical(s[k])
}

/// Folding keeps values in the field.
pub proof fn lemma_fold_level_canonical(s: Seq<AccView>)
    requires
        all_canonical(s),
    ensures
        all_canonical(fold_level(s)),
    decreases s.len(),
{
    if s.len() >= 2 {
        let rest = s.subrange(2, s.len() as int);
        assert forall|k: int| 0 <= k < rest.len() implies #[trigger] canonical(rest[k]) by {
            assert(rest[k] == s[k + 2]);
        }
        lemma_fold_level_canonical(rest);
        lemma_fold_pair_canonical(s[0], s[1]);
        let out = fold_level(s);
        assert forall|k: int| 0 <= k < out.len() implies #[trigger] canonical(out[k]) by {
            if k > 0 {
                assert(out[k] == fold_level(rest)[k - 1]);
            }
        }
    }
}

/// The fold of two accumulators holds field elements.
pub proof fn lemma_fold_pair_canonical(a: AccView, b: AccView)
    ensures
        canonical(fold_pair_spec(a, b)),
{
    let alpha = challenge(a.0, b.0);
    let r = scalar_modulus() as int;
    vstd::arithmetic::div_mod::lemma_mod_pos_bound((a.0 + fr_mul(alpha, b.0)) as int, r);
    vstd::arithmetic::div_mod::lemma_mod_pos_bound((a.1 + fr_mul(alpha, b.1)) as int, r);
    vstd::arithmetic::div_mod::lemma_mod_pos_bound((a.2 + fr_mul(alpha, b.2)) as int, r);
}

/// The fold of a non-empty sequence of accumulators is one accumulator.
pub proof fn lemma_fold_tree_single(s: Seq<AccView>)
    requires
        s.len() >= 1,
    ensures
        fold_tree(s).len() == 1,
        all_canonical(s) ==> all_canonical(fold_tree(s)),
    decreases s.len(),
{
    if s.len() > 1 {
        lemma_fold_level_len(s);
        if all_canonical(s) {
            lemma_fold_level_canonical(s);
        }
        lemma_fold_tree_single(fold_level(s));
    }
}

/// Field multiplication of two field elements, as `fr_mul`.
fn field_product(a: &[u8; 32], b: &[u8; 32]) -> (r: [u8; 32])
    ensures
        be_val(r@) == fr_mul(be_val(a@), be_val(b@)),
        be_val(r@) < scalar_modulus(),
{
    let r = field_mul(a, b);
    proof {
        vstd::arithmetic::div_mod::lemma_mod_pos_bound(
            (be_val(a@) * be_val(b@)) as int,
            scalar_modulus() as int,
        );
    }
    r
}

/// Field addition of two field elements, as `fr_add`.
fn field_sum(a: &[u8; 32], b: &[u8; 32]) -> (r: [u8; 32])
    requires
        be_val(a@) < scalar_modulus(),
        be_val(b@) < scalar_modulus(),
    ensures
        be_val(r@) == fr_add(be_val(a@), be_val(b@)),
        be_val(r@) < scalar_modulus(),
{
    let r = field_add(a, b);
    proof {
        vstd::arithmetic::div_mod::lemma_mod_pos_bound(
            (be_val(a@) + be_val(b@)) as int,
            scalar_modulus() as int,
        );
    }
    r
}

/// A pipeline that collects proofs and folds them once a batch is full.
#[derive(Debug)]
pub struct FoldingPipeline {
    pending: Vec<ProofAccumulator>,
    batch_size: usize,
}

impl FoldingPipeline {
    /// The accumulators waiting to be folded, in order.
    pub closed spec fn pending_view(&self) -> Seq<AccView> {
        acc_views(self.pending@)
    }

    /// The number of proofs in a batch.
    pub closed spec fn batch_size_view(&self) -> nat {
        self.batch_size as nat
    }

    /// Every pending accumulator holds field elements.
    pub open spec fn wf(&self) -> bool {
        all_canonical(self.pending_view())
    }

    /// An empty pipeline for batches of `batch_size` proofs.
    pub fn new(batch_size: usize) -> (r: FoldingPipeline)
        ensures
            r.pending_view() == Seq::<AccView>::empty(),
            r.batch_size_view() == batch_size,
            r.wf(),
    {
        let r = FoldingPipeline { pending: Vec::new(), batch_size };
        assert(acc_views(r.pending@) =~= Seq::<AccView>::empty());
        r
    }

    /// Add a proof; when the batch is full, fold it and return the result.
    pub fn add_proof(&mut self, proof: ProofAccumulator) -> (r: Option<ProofAccumulator>)
        requires
            old(self).wf(),
            proof.is_canonical(),
        ensures
            final(self).wf(),
            final(self).batch_size_view() == old(self).batch_size_view(),
            old(self).pending_view().len() + 1 >= old(self).batch_size_view() ==> (r matches Some(p)
                && p@ == fold_tree(old(self).pending_view().push(proof@))[0] && p.is_canonical()
                && final(self).pending_view() == Seq::<AccView>::empty()),
            old(self).pending_view().len() + 1 < old(self).batch_size_view() ==> r is None
                && final(self).pending_view() == old(self).pending_view().push(proof@),
    {
        self.pending.push(proof);
        proof {
            assert(acc_views(self.pending@) =~= acc_views(old(self).pending@).push(proof@));
        }
        if self.pending.len() >= self.batch_size {
            Some(self.flush_batch())
        } else {
            None
        }
    }

    /// Fold all pending proofs into one accumulator, level by level.
    pub fn flush_batch(&mut self) -> (r: ProofAccumulator)
        requires
            old(self).wf(),
            old(self).pending_view().len() > 0,
        ensures
            r@ == fold_tree(old(self).pending_view())[0],
            r.is_canonical(),
            final(self).pending_view() == Seq::<AccView>::empty(),
            final(self).batch_size_view() == old(self).batch_size_view(),
            final(self).wf(),
    {
        let mut current: Vec<ProofAccumulator> = Vec::new();
        std::mem::swap(&mut current, &mut self.pending);
        let ghost orig = acc_views(current@);
        proof {
            assert(acc_views(self.pending@) =~= Seq::<AccView>::empty());
        }
        while current.len() > 1
            invariant
                current@.len() >= 1,
                all_canonical(acc_views(current@)),
                fold_tree(acc_views(current@)) == fold_tree(orig),
            decreases current@.len(),
        {
            let ghost cur = acc_views(current@);
            let mut next: Vec<ProofAccumulator> = Vec::new();
            let mut i: usize = 0;
            proof {
                assert(cur.subrange(0, cur.len() as int) =~= cur);
                assert(acc_views(next@) + fold_level(cur) =~= fold_level(cur));
            }
            while i < current.len() - 1
                invariant
                    current@.len() > 1,
                    cur == acc_views(current@),
                    all_canonical(cur),
                    i <= current@.len(),
                    acc_views(next@) + fold_level(cur.subrange(i as int, cur.len() as int))
                        == fold_level(cur),
                    all_canonical(acc_views(next@)),
                decreases current@.len() - i,
            {
                let a = current[i];
                let b = current[i + 1];
                proof {
                    assert(cur[i as int] == a@);
                    assert(cur[i + 1] == b@);
                    assert(canonical(cur[i as int]));
                    assert(canonical(cur[i + 1]));
                }
                let folded = Self::fold_pair(&a, &b);
                let ghost before = acc_views(next@);
                next.push(folded);
                proof {
                    let tail = cur.subrange(i as int, cur.len() as int);
                    assert(tail.subrange(2, tail.len() as int) =~= cur.subrange(i + 2, cur.len() as int));
                    assert(tail[0] == a@ && tail[1] == b@);
                    assert(acc_views(next@) =~= before.push(folded@));
                    assert(before.push(folded@) + fold_level(cur.subrange(i + 2, cur.len() as int))
                        =~= before + fold_level(tail));
                }
                i = i + 2;
            }
            let ghost before = acc_views(next@);
            if i < current.len() {
                let last = current[i];
                next.push(last);
                proof {
                    let tail = cur.subrange(i as int, cur.len() as int);
                    assert(tail =~= seq![last@]);
                    assert(acc_views(next@) =~= before.push(last@));
                    assert(canonical(cur[i as int]));
                }
            } else {
                proof {
                    assert(cur.subrange(i as int, cur.len() as int) =~= Seq::<AccView>::empty());
                }
            }
            proof {
                assert(acc_views(next@) =~= fold_level(cur));
                lemma_fold_level_len(cur);
            }
            current = next;
        }
        proof {
            lemma_fold_tree_single(orig);
            assert(current@.len() == 1);
            assert(fold_tree(acc_views(current@)) == acc_views(current@));
            assert(canonical(acc_views(current@)[0]));
            assert(acc_views(self.pending@) =~= Seq::<AccView>::empty());
        }
        current[0]
    }

    /// Fold two accumulators: `alpha = (C1 + C2)^5`, then each value of
    /// `a` plus `alpha` times the same value of `b`.
    pub fn fold_pair(a: &ProofAccumulator, b: &ProofAccumulator) -> (r: ProofAccumulator)
        requires
            a.is_canonical(),
            b.is_canonical(),
        ensures
            r@ == fold_pair_spec(a@, b@),
            r.is_canonical(),
    {
        let sum = field_sum(&a.commitment, &b.commitment);
        let sq = field_product(&sum, &sum);
        let sq2 = field_product(&sq, &sq);
        let alpha = field_product(&sq2, &sum);
        let tc = field_product(&alpha, &b.commitment);
        let te = field_product(&alpha, &b.evaluation);
        let tp = field_product(&alpha, &b.public_input);
        ProofAccumulator {
            commitment: field_sum(&a.commitment, &tc),
            evaluation: field_sum(&a.evaluation, &te),
            public_input: field_sum(&a.public_input, &tp),
        }
    }

    /// Number of pending proofs.
    pub fn pending_count(&self) -> (r: usize)
        ensures
            r == self.pending_view().len(),
    {
        self.pending.len()
    }

    /// Whether the pipeline holds a full batch.
    pub fn is_batch_ready(&self) -> (r: bool)
        ensures
            r == (self.pending_view().len() >= self.batch_size_view()),
    {
        self.pending.len() >= self.batch_size
    }
}

/// Each folding level halves the number of accumulators (rounding up), so
/// a batch of `n` proofs is folded in about `log2(n)` levels.
pub proof fn law_each_level_halves(s: Seq<AccView>)
    ensures
        fold_level(s).len() == (s.len() + 1) / 2,
{
    lemma_fold_level_len(s);
}

/// Flushing any non-empty batch yields exactly one accumulator of field
/// elements, and a single pending proof is returned unchanged.
pub proof fn law_flush_yields_one(s: Seq<AccView>)
    requires
        s.len() >= 1,
        all_canonical(s),
    ensures
        fold_tree(s).len() == 1,
        canonical(fold_tree(s)[0]),
        s.len() == 1 ==> fold_tree(s)[0] == s[0],
{
    lemma_fold_tree_single(s);
}

/// Two pending proofs flush to their pairwise fold.
pub proof fn law_flush_of_two_is_fold_pair(a: AccView, b: AccView)
    ensures
        fold_tree(seq![a, b]) == seq![fold_pair_spec(a, b)],
{
    let s = seq![a, b];
    let e = Seq::<AccView>::empty();
    assert(s.len() == 2);
    assert(s.subrange(2, 2) =~= e);
    assert(fold_level(e) == e);
    assert(fold_level(s) == seq![fold_pair_spec(s[0], s[1])] + fold_level(s.subrange(2, 2)));
    assert(fold_level(s) =~= seq![fold_pair_spec(a, b)]);
    assert(fold_tree(s) == fold_tree(fold_level(s)));
}

} // verus!
