//! The verifier state reconstructed from one proof, and the opening queries
//! and multi-open aggregate derived from it.
use vstd::prelude::*;
use crate::arith::FieldCode;
use crate::error::VerifyError;
use crate::expression::Expression;
use crate::field::{fadd, fmul, fpow, fsub, inverse_of, Scalar};
use crate::schema::{batch_proofs, batch_spec, EvaluationProof, MultiOpenProof, Point};

verus! {

/// The domain parameters shared by every proof of one verifying key.
#[derive(Clone, Copy, Debug, PartialEq, Eq, Structural)]
pub struct PlonkCommonSetup {
    /// The number of blinding rows plus one.
    pub l: u32,
    /// The size of the evaluation domain.
    pub n: u32,
}

/// One set of the permutation argument's grand product, as read from the
/// transcript.
#[derive(Clone, Copy, Debug)]
pub struct PermutationEvaluatedSet {
    pub product_commitment: Point,
    pub product_eval: Scalar,
    pub product_next_eval: Scalar,
    /// The product's value at the last usable row; absent for the last set.
    pub product_last_eval: Option<Scalar>,
}

/// One lookup argument's commitments and evaluations, as read from the
/// transcript.
#[derive(Clone, Copy, Debug)]
pub struct LookupEvaluated {
    pub permuted_input_commitment: Point,
    pub permuted_table_commitment: Point,
    pub product_commitment: Point,
    pub product_eval: Scalar,
    pub product_next_eval: Scalar,
    pub permuted_input_eval: Scalar,
    pub permuted_input_inv_eval: Scalar,
    pub permuted_table_eval: Scalar,
}

/// The claim of one proof, reconstructed from its transcript: the gates,
/// the commitments and evaluations of every column and argument of each
/// proof instance, and the challenges.
pub struct VerifierParams {
    pub gates: Vec<Vec<Expression>>,
    pub common: PlonkCommonSetup,
    pub lookup_evaluated: Vec<Vec<LookupEvaluated>>,
    pub permutation_evaluated: Vec<Vec<PermutationEvaluatedSet>>,
    pub instance_commitments: Vec<Vec<Point>>,
    pub instance_evals: Vec<Vec<Scalar>>,
    pub instance_queries: Vec<(usize, i32)>,
    pub advice_commitments: Vec<Vec<Point>>,
    pub advice_evals: Vec<Vec<Scalar>>,
    pub advice_queries: Vec<(usize, i32)>,
    pub fixed_commitments: Vec<Point>,
    pub fixed_evals: Vec<Scalar>,
    pub fixed_queries: Vec<(usize, i32)>,
    pub permutation_commitments: Vec<Point>,
    /// The permutation columns' common evaluations.
    pub permutation_evals: Vec<Scalar>,
    pub vanish_commitments: Vec<Point>,
    pub random_commitment: Point,
    pub random_eval: Scalar,
    pub beta: Scalar,
    pub gamma: Scalar,
    pub theta: Scalar,
    pub delta: Scalar,
    pub y: Scalar,
    pub x: Scalar,
    pub u: Scalar,
    pub v: Scalar,
    pub xi: Scalar,
    pub omega: Scalar,
}

/// `x` rotated by `at` steps of the domain generator `omega`: for `at >= 0`
/// it is `x·omega^at`; for `at < 0` it is `x` times the field inverse of
/// `omega^(-at)`, the value that gives back `x` when multiplied by
/// `omega^(-at)`.
pub open spec fn is_rotation(x: nat, omega: nat, at: int, r: nat) -> bool {
    if at >= 0 {
        r == fmul(x, fpow(omega, at as nat))
    } else {
        &&& r == fmul(x, inverse_of(fpow(omega, (-at) as nat)))
        &&& fmul(r, fpow(omega, (-at) as nat)) == x
    }
}

/// Rotating by zero steps gives `x` back, whatever the generator.
pub proof fn lemma_rotation_by_zero(x: nat, omega: nat, r: nat)
    requires
        x < crate::field::modulus(),
        is_rotation(x, omega, 0, r),
    ensures
        r == x,
{
    crate::field::lemma_modulus_bounds();
    vstd::arithmetic::power::lemma_pow0(omega as int);
    crate::field::lemma_reduced(1);
    crate::field::lemma_reduced(x);
}

/// Rotates `x` by `at` steps of `omega`. A backward rotation divides by a
/// power of `omega`, which fails only when that power is zero.
pub fn rotate(sgate: &FieldCode, x: &Scalar, omega: &Scalar, at: i64) -> (r: Result<
    Scalar,
    VerifyError,
>)
    ensures
        r is Err <==> (at < 0 && fpow(omega.val(), (-at) as nat) == 0),
        r is Err ==> r->Err_0 == VerifyError::DivisionByZero,
        r is Ok ==> is_rotation(x.val(), omega.val(), at as int, r->Ok_0.val()),
{
    if at >= 0 {
        let w = omega.pow(at as u64);
        Ok(sgate.mul(x, &w))
    } else {
        let k: u64 = if at == i64::MIN {
            0x8000_0000_0000_0000u64
        } else {
            (-at) as u64
        };
        let w = omega.pow(k);
        sgate.div(x, &w)
    }
}

/// The vanishing argument's combination of all constraint values with the
/// challenge `y`: `(((c0·y + c1)·y + c2)·y + ...)`.
pub open spec fn horner(cs: Seq<Scalar>, y: nat) -> nat
    decreases cs.len(),
{
    if cs.len() == 0 {
        0
    } else {
        fadd(fmul(horner(cs.drop_last(), y), y), cs.last().val())
    }
}

/// The value that the quotient polynomial must take at `x`: the combined
/// constraints divided by `x^n - 1`.
pub fn expected_h_eval(sgate: &FieldCode, constraints: &Vec<Scalar>, y: &Scalar, xn: &Scalar) -> (r: Result<
    Scalar,
    VerifyError,
>)
    ensures
        r is Err <==> fsub(xn.val(), 1) == 0,
        r is Err ==> r->Err_0 == VerifyError::DivisionByZero,
        r is Ok ==> fmul(r->Ok_0.val(), fsub(xn.val(), 1)) == horner(constraints@, y.val()),
{
    let mut acc = sgate.zero();
    let mut i: usize = 0;
    while i < constraints.len()
        invariant
            i <= constraints@.len(),
            acc.val() == horner(constraints@.subrange(0, i as int), y.val()),
        decreases constraints@.len() - i,
    {
        let t = sgate.mul(&acc, y);
        acc = sgate.add(&t, &constraints[i]);
        assert(constraints@.subrange(0, i + 1).drop_last() =~= constraints@.subrange(0, i as int));
        i = i + 1;
    }
    assert(constraints@.subrange(0, constraints@.len() as int) =~= constraints@);
    let one = sgate.one();
    let denom = sgate.sub(xn, &one);
    sgate.div(&acc, &denom)
}

impl VerifierParams {
    /// `x` rotated by `at` steps of the domain generator.
    pub fn rotate_omega(&self, sgate: &FieldCode, at: i32) -> (r: Result<Scalar, VerifyError>)
        ensures
            r is Err <==> (at < 0 && fpow(self.omega.val(), (-at) as nat) == 0),
            r is Err ==> r->Err_0 == VerifyError::DivisionByZero,
            r is Ok ==> is_rotation(self.x.val(), self.omega.val(), at as int, r->Ok_0.val()),
    {
        rotate(sgate, &self.x, &self.omega, at as i64)
    }

    /// `x` one step forward: `x·omega`.
    pub fn x_next(&self, sgate: &FieldCode) -> (r: Scalar)
        ensures
            r.val() == fmul(self.x.val(), self.omega.val()),
    {
        sgate.mul(&self.x, &self.omega)
    }

    /// `x` rotated `l` steps backward, to the last usable row.
    pub fn x_last(&self, sgate: &FieldCode) -> (r: Result<Scalar, VerifyError>)
        ensures
            r is Err <==> (self.common.l > 0 && fpow(self.omega.val(), self.common.l as nat) == 0),
            r is Err ==> r->Err_0 == VerifyError::DivisionByZero,
            r is Ok ==> is_rotation(
                self.x.val(),
                self.omega.val(),
                -(self.common.l as int),
                r->Ok_0.val(),
            ),
    {
        let at: i64 = -(self.common.l as i64);
        rotate(sgate, &self.x, &self.omega, at)
    }

    /// `x` one step backward.
    pub fn x_inv(&self, sgate: &FieldCode) -> (r: Result<Scalar, VerifyError>)
        ensures
            r is Err <==> self.omega.val() == 0,
            r is Err ==> r->Err_0 == VerifyError::DivisionByZero,
            r is Ok ==> fmul(r->Ok_0.val(), self.omega.val()) == self.x.val(),
            r is Ok ==> r->Ok_0.val() == fmul(self.x.val(), inverse_of(self.omega.val())),
    {
        sgate.div(&self.x, &self.omega)
    }

    /// Folds the opening proofs into one aggregate with the batching
    /// challenge `u`: the last proof seeds it and each earlier one is folded
    /// in, so that a single pairing check covers them all.
    pub fn batch_multi_open_proofs(&self, proofs: Vec<EvaluationProof>) -> (r: Result<
        MultiOpenProof,
        VerifyError,
    >)
        ensures
            proofs@.len() == 0 <==> r is Err,
            r is Err ==> r->Err_0 == VerifyError::MalformedProof,
            r is Ok ==> r->Ok_0 == batch_spec(proofs@, self.u),
    {
        batch_proofs(proofs, &self.u)
    }

    /// `x^n`, the point at which the vanishing polynomial is `x^n - 1`.
    pub fn xn(&self, sgate: &FieldCode) -> (r: Scalar)
        ensures
            r.val() == fpow(self.x.val(), self.common.n as nat),
    {
        self.x.pow(self.common.n as u64)
    }
}

} // verus!
