//! Deferred linear combinations of commitments, and the multi-open batching
//! that folds every opening into one pair of them.
use vstd::prelude::*;
use crate::error::VerifyError;
use crate::field::Scalar;

verus! {

/// A commitment: the compressed encoding of a curve point.
#[derive(Clone, Copy, Debug, PartialEq, Eq)]
pub struct Point {
    pub bytes: [u8; 32],
}

/// A linear combination of commitments and multiples of the group
/// generator, kept as data until it is evaluated.
#[derive(Debug)]
pub enum SchemaItem {
    /// A commitment.
    Commit(Point),
    /// The group generator times a scalar.
    Generator(Scalar),
    /// A scalar times a combination.
    Scale(Scalar, Box<SchemaItem>),
    /// The sum of two combinations.
    Add(Box<SchemaItem>, Box<SchemaItem>),
}

/// One opening obligation: the polynomial committed as `commitment`
/// evaluates to `eval` at `point`.
#[derive(Debug)]
pub struct EvaluationQuery {
    pub point: Scalar,
    pub commitment: SchemaItem,
    pub eval: Scalar,
}

/// The opening proof for one point: the witness commitment `w` and the
/// remainder term `s` that the opened combinations leave.
#[derive(Debug)]
pub struct EvaluationProof {
    pub point: Scalar,
    pub s: SchemaItem,
    pub w: Point,
}

/// The two combinations that reduce every opening to one pairing check.
#[derive(Debug)]
pub struct MultiOpenProof {
    pub w_x: SchemaItem,
    pub w_g: SchemaItem,
}

/// The accumulator that the last opening proof starts the fold with:
/// `w_x = w`, `w_g = z·w + s`.
pub open spec fn seed_spec(p: EvaluationProof) -> MultiOpenProof {
    MultiOpenProof {
        w_x: SchemaItem::Commit(p.w),
        w_g: SchemaItem::Add(
            Box::new(SchemaItem::Scale(p.point, Box::new(SchemaItem::Commit(p.w)))),
            Box::new(p.s),
        ),
    }
}

/// One Horner step with the batching challenge `u`:
/// `w_x = u·w_x + w`, `w_g = u·w_g + z·w + s`.
pub open spec fn step_spec(acc: MultiOpenProof, u: Scalar, p: EvaluationProof) -> MultiOpenProof {
    MultiOpenProof {
        w_x: SchemaItem::Add(
            Box::new(SchemaItem::Scale(u, Box::new(acc.w_x))),
            Box::new(SchemaItem::Commit(p.w)),
        ),
        w_g: SchemaItem::Add(
            Box::new(
                SchemaItem::Add(
                    Box::new(SchemaItem::Scale(u, Box::new(acc.w_g))),
                    Box::new(SchemaItem::Scale(p.point, Box::new(SchemaItem::Commit(p.w)))),
                ),
            ),
            Box::new(p.s),
        ),
    }
}

/// Folds the proofs of `ps` onto `acc`, the last one first.
pub open spec fn fold_onto(acc: MultiOpenProof, u: Scalar, ps: Seq<EvaluationProof>) -> MultiOpenProof
    decreases ps.len(),
{
    if ps.len() == 0 {
        acc
    } else {
        step_spec(fold_onto(acc, u, ps.drop_first()), u, ps[0])
    }
}

/// The aggregate of a non-empty list: the last proof seeds the
/// accumulator and each earlier one is folded in.
pub open spec fn batch_spec(ps: Seq<EvaluationProof>, u: Scalar) -> MultiOpenProof
    recommends
        ps.len() > 0,
    decreases ps.len(),
{
    if ps.len() <= 1 {
        seed_spec(ps[0])
    } else {
        step_spec(batch_spec(ps.drop_first(), u), u, ps[0])
    }
}

/// Folding a list at once equals aggregating any non-empty tail of it first
/// and then folding the proofs before that tail in one by one.
pub proof fn lemma_batch_split(a: Seq<EvaluationProof>, b: Seq<EvaluationProof>, u: Scalar)
    requires
        b.len() > 0,
    ensures
        batch_spec(a + b, u) == fold_onto(batch_spec(b, u), u, a),
    decreases a.len(),
{
    if a.len() == 0 {
        assert(a + b == b);
    } else {
        assert((a + b).drop_first() == a.drop_first() + b);
        lemma_batch_split(a.drop_first(), b, u);
    }
}

/// Starts the aggregate with the last opening proof.
pub fn seed_proof(p: EvaluationProof) -> (r: MultiOpenProof)
    ensures
        r == seed_spec(p),
{
    let w = p.w;
    MultiOpenProof {
        w_x: SchemaItem::Commit(w),
        w_g: SchemaItem::Add(
            Box::new(SchemaItem::Scale(p.point, Box::new(SchemaItem::Commit(w)))),
            Box::new(p.s),
        ),
    }
}

/// Folds one more opening proof into the aggregate.
pub fn fold_proof(acc: MultiOpenProof, u: &Scalar, p: EvaluationProof) -> (r: MultiOpenProof)
    ensures
        r == step_spec(acc, *u, p),
{
    let w = p.w;
    MultiOpenProof {
        w_x: SchemaItem::Add(
            Box::new(SchemaItem::Scale(*u, Box::new(acc.w_x))),
            Box::new(SchemaItem::Commit(w)),
        ),
        w_g: SchemaItem::Add(
            Box::new(
                SchemaItem::Add(
                    Box::new(SchemaItem::Scale(*u, Box::new(acc.w_g))),
                    Box::new(SchemaItem::Scale(p.point, Box::new(SchemaItem::Commit(w)))),
                ),
            ),
            Box::new(p.s),
        ),
    }
}

/// Aggregates all opening proofs with the challenge `u`; an empty list has
/// nothing to check and is malformed.
pub fn batch_proofs(proofs: Vec<EvaluationProof>, u: &Scalar) -> (r: Result<
    MultiOpenProof,
    VerifyError,
>)
    ensures
        proofs@.len() == 0 <==> r is Err,
        r is Err ==> r->Err_0 == VerifyError::MalformedProof,
        r is Ok ==> r->Ok_0 == batch_spec(proofs@, *u),
{
    let ghost all = proofs@;
    let mut proofs = proofs;
    let last = match proofs.pop() {
        None => {
            return Err(VerifyError::MalformedProof);
        },
        Some(p) => p,
    };
    let mut acc = seed_proof(last);
    assert(all.subrange(proofs@.len() as int, all.len() as int) =~= seq![last]);
    while proofs.len() > 0
        invariant
            proofs@ =~= all.subrange(0, proofs@.len() as int),
            proofs@.len() < all.len(),
            acc == batch_spec(all.subrange(proofs@.len() as int, all.len() as int), *u),
        decreases proofs@.len(),
    {
        let ghost k = proofs@.len() as int;
        let p = proofs.pop().unwrap();
        assert(all.subrange(k - 1, all.len() as int).drop_first() =~= all.subrange(
            k,
            all.len() as int,
        ));
        acc = fold_proof(acc, u, p);
    }
    assert(all.subrange(0, all.len() as int) =~= all);
    Ok(acc)
}

} // verus!
