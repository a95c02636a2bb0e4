//! Gate polynomials and their evaluator.
use vstd::prelude::*;
use crate::arith::FieldCode;
use crate::error::VerifyError;
use crate::field::{fadd, fmul, fsub, Scalar};

verus! {

/// A custom gate's polynomial over queried column values. Column references
/// carry the index of their query in the verifying key's query list.
#[derive(Debug)]
pub enum Expression {
    Constant(Scalar),
    Selector(usize),
    Fixed { query_index: usize, column_index: usize, rotation: i32 },
    Advice { query_index: usize, column_index: usize, rotation: i32 },
    Instance { query_index: usize, column_index: usize, rotation: i32 },
    Negated(Box<Expression>),
    Sum(Box<Expression>, Box<Expression>),
    Product(Box<Expression>, Box<Expression>),
    Scaled(Box<Expression>, Scalar),
}

/// The value of a queried column, or `MalformedProof` for a query index past
/// the evaluations that were read.
pub open spec fn lookup_value(evals: Seq<Scalar>, i: usize) -> Result<nat, VerifyError> {
    if i < evals.len() {
        Ok(evals[i as int].val())
    } else {
        Err(VerifyError::MalformedProof)
    }
}

pub open spec fn map_value(r: Result<nat, VerifyError>, f: spec_fn(nat) -> nat) -> Result<
    nat,
    VerifyError,
> {
    match r {
        Ok(v) => Ok(f(v)),
        Err(e) => Err(e),
    }
}

pub open spec fn combine_values(
    a: Result<nat, VerifyError>,
    b: Result<nat, VerifyError>,
    f: spec_fn(nat, nat) -> nat,
) -> Result<nat, VerifyError> {
    match a {
        Err(e) => Err(e),
        Ok(x) => match b {
            Err(e) => Err(e),
            Ok(y) => Ok(f(x, y)),
        },
    }
}

/// The value of a gate polynomial computed directly over the field, operands
/// left to right; the first failure met in that order is the result.
pub open spec fn eval_expr(
    e: Expression,
    fixed: Seq<Scalar>,
    advice: Seq<Scalar>,
    instance: Seq<Scalar>,
) -> Result<nat, VerifyError>
    decreases e,
{
    match e {
        Expression::Constant(c) => Ok(c.val()),
        Expression::Selector(_) => Err(VerifyError::UnsupportedExpression),
        Expression::Fixed { query_index, .. } => lookup_value(fixed, query_index),
        Expression::Advice { query_index, .. } => lookup_value(advice, query_index),
        Expression::Instance { query_index, .. } => lookup_value(instance, query_index),
        Expression::Negated(a) => map_value(
            eval_expr(*a, fixed, advice, instance),
            |v: nat| fsub(0, v),
        ),
        Expression::Sum(a, b) => combine_values(
            eval_expr(*a, fixed, advice, instance),
            eval_expr(*b, fixed, advice, instance),
            |x: nat, y: nat| fadd(x, y),
        ),
        Expression::Product(a, b) => combine_values(
            eval_expr(*a, fixed, advice, instance),
            eval_expr(*b, fixed, advice, instance),
            |x: nat, y: nat| fmul(x, y),
        ),
        Expression::Scaled(a, f) => map_value(
            eval_expr(*a, fixed, advice, instance),
            |v: nat| fmul(f.val(), v),
        ),
    }
}

/// Something that reduces to one value of the arithmetic, given the
/// evaluations of the fixed, advice and instance queries.
pub trait Evaluable {
    spec fn evaluates_to(
        &self,
        fixed: Seq<Scalar>,
        advice: Seq<Scalar>,
        instance: Seq<Scalar>,
    ) -> Result<nat, VerifyError>;

    fn ctx_evaluate(
        &self,
        sgate: &FieldCode,
        fixed: &[Scalar],
        advice: &[Scalar],
        instance: &[Scalar],
    ) -> (r: Result<Scalar, VerifyError>)
        ensures
            match self.evaluates_to(fixed@, advice@, instance@) {
                Ok(v) => r is Ok && r->Ok_0.val() == v,
                Err(e) => r == Err::<Scalar, VerifyError>(e),
            },
    ;
}

fn lookup(evals: &[Scalar], i: usize) -> (r: Result<Scalar, VerifyError>)
    ensures
        match lookup_value(evals@, i) {
            Ok(v) => r is Ok && r->Ok_0.val() == v,
            Err(e) => r == Err::<Scalar, VerifyError>(e),
        },
{
    if i < evals.len() {
        Ok(evals[i])
    } else {
        Err(VerifyError::MalformedProof)
    }
}

impl Evaluable for Expression {
    open spec fn evaluates_to(
        &self,
        fixed: Seq<Scalar>,
        advice: Seq<Scalar>,
        instance: Seq<Scalar>,
    ) -> Result<nat, VerifyError> {
        eval_expr(*self, fixed, advice, instance)
    }

    fn ctx_evaluate(
        &self,
        sgate: &FieldCode,
        fixed: &[Scalar],
        advice: &[Scalar],
        instance: &[Scalar],
    ) -> (r: Result<Scalar, VerifyError>)
        decreases self,
    {
        match self {
            Expression::Constant(c) => Ok(sgate.from_constant(c)),
            Expression::Selector(_) => Err(VerifyError::UnsupportedExpression),
            Expression::Fixed { query_index, .. } => lookup(fixed, *query_index),
            Expression::Advice { query_index, .. } => lookup(advice, *query_index),
            Expression::Instance { query_index, .. } => lookup(instance, *query_index),
            Expression::Negated(a) => {
                let a = a.ctx_evaluate(sgate, fixed, advice, instance)?;
                let zero = sgate.zero();
                Ok(sgate.sub(&zero, &a))
            },
            Expression::Sum(a, b) => {
                let a = a.ctx_evaluate(sgate, fixed, advice, instance)?;
                let b = b.ctx_evaluate(sgate, fixed, advice, instance)?;
                Ok(sgate.add(&a, &b))
            },
            Expression::Product(a, b) => {
                let a = a.ctx_evaluate(sgate, fixed, advice, instance)?;
                let b = b.ctx_evaluate(sgate, fixed, advice, instance)?;
                Ok(sgate.mul(&a, &b))
            },
            Expression::Scaled(a, f) => {
                let a = a.ctx_evaluate(sgate, fixed, advice, instance)?;
                Ok(sgate.mul(f, &a))
            },
        }
    }
}

} // verus!
