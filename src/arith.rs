//! The arithmetic capability that every verification step is written
//! against, in its native form: each operation computes its value directly.
use vstd::prelude::*;
use crate::error::VerifyError;
use crate::field::{fadd, fmul, fneg, fsub, inverse_of, Scalar};

verus! {

/// Native field arithmetic over the BN254 scalar field.
#[derive(Clone, Copy, Debug)]
pub struct FieldCode {}

impl FieldCode {
    pub fn zero(&self) -> (r: Scalar)
        ensures
            r.val() == 0,
    {
        let r = Scalar::from_u64(0);
        proof {
            crate::field::lemma_modulus_bounds();
            crate::field::lemma_reduced(0);
        }
        r
    }

    pub fn one(&self) -> (r: Scalar)
        ensures
            r.val() == 1,
    {
        let r = Scalar::from_u64(1);
        proof {
            crate::field::lemma_modulus_bounds();
            crate::field::lemma_reduced(1);
        }
        r
    }

    /// Lifts a constant into the arithmetic.
    pub fn from_constant(&self, c: &Scalar) -> (r: Scalar)
        ensures
            r == *c,
    {
        *c
    }

    pub fn add(&self, a: &Scalar, b: &Scalar) -> (r: Scalar)
        ensures
            r.val() == fadd(a.val(), b.val()),
    {
        a.fr_add(b)
    }

    pub fn sub(&self, a: &Scalar, b: &Scalar) -> (r: Scalar)
        ensures
            r.val() == fsub(a.val(), b.val()),
    {
        a.fr_sub(b)
    }

    pub fn mul(&self, a: &Scalar, b: &Scalar) -> (r: Scalar)
        ensures
            r.val() == fmul(a.val(), b.val()),
    {
        a.fr_mul(b)
    }

    pub fn neg(&self, a: &Scalar) -> (r: Scalar)
        ensures
            r.val() == fneg(a.val()),
    {
        a.fr_neg()
    }

    /// `a / b`, which fails exactly when `b` is zero.
    pub fn div(&self, a: &Scalar, b: &Scalar) -> (r: Result<Scalar, VerifyError>)
        ensures
            r is Err <==> b.val() == 0,
            r is Err ==> r->Err_0 == VerifyError::DivisionByZero,
            r is Ok ==> fmul(r->Ok_0.val(), b.val()) == a.val(),
            r is Ok ==> r->Ok_0.val() == fmul(a.val(), inverse_of(b.val())),
    {
        match b.invert() {
            None => Err(VerifyError::DivisionByZero),
            Some(inv) => {
                let q = a.fr_mul(&inv);
                proof {
                    use_type_invariant(a);
                    crate::field::lemma_mul_by_inverse(a.val(), inv.val(), b.val());
                }
                Ok(q)
            }
        }
    }
}

} // verus!
