//! The opening queries that one reconstructed proof demands: direct column
//! queries, the permutation and lookup arguments' queries, and the
//! vanishing argument's.
use vstd::prelude::*;
use crate::arith::FieldCode;
use crate::error::VerifyError;
use crate::field::{fmul, fpow, fsub, Scalar};
use crate::schema::{EvaluationQuery, Point, SchemaItem};
use crate::verify::{horner, is_rotation, rotate, LookupEvaluated, PermutationEvaluatedSet, VerifierParams};
use crate::expression::{eval_expr, Evaluable, Expression};

verus! {

pub open spec fn rotation_fails(omega: nat, at: int) -> bool {
    at < 0 && fpow(omega, (-at) as nat) == 0
}

/// Every query names a committed column and has an evaluation read for it.
pub open spec fn column_shape_ok(qs: Seq<(usize, i32)>, n_commits: nat, n_evals: nat) -> bool {
    n_evals == qs.len() && forall|i: int| 0 <= i < qs.len() ==> (#[trigger] qs[i]).0 < n_commits
}

/// Query `i` opens the commitment of the column it names, at `x` rotated by
/// its offset, to the `i`-th evaluation.
pub open spec fn column_queries_ok(
    out: Seq<EvaluationQuery>,
    x: nat,
    omega: nat,
    qs: Seq<(usize, i32)>,
    commits: Seq<Point>,
    evals: Seq<Scalar>,
) -> bool {
    &&& out.len() == qs.len()
    &&& forall|i: int|
        0 <= i < qs.len() ==> {
            &&& is_rotation(x, omega, qs[i].1 as int, (#[trigger] out[i]).point.val())
            &&& out[i].commitment == SchemaItem::Commit(commits[qs[i].0 as int])
            &&& out[i].eval == evals[i]
        }
}

/// The queries of one kind of column. A query of a column that has no
/// commitment, or without an evaluation, is malformed; that check comes
/// before any rotation.
pub fn column_queries(
    sgate: &FieldCode,
    x: &Scalar,
    omega: &Scalar,
    qs: &Vec<(usize, i32)>,
    commits: &Vec<Point>,
    evals: &Vec<Scalar>,
) -> (r: Result<Vec<EvaluationQuery>, VerifyError>)
    ensures
        !column_shape_ok(qs@, commits@.len(), evals@.len()) ==> r == Err::<
            Vec<EvaluationQuery>,
            VerifyError,
        >(VerifyError::MalformedProof),
        column_shape_ok(qs@, commits@.len(), evals@.len()) ==> {
            &&& r is Err <==> exists|i: int|
                0 <= i < qs@.len() && rotation_fails(omega.val(), (#[trigger] qs@[i]).1 as int)
            &&& r is Err ==> r->Err_0 == VerifyError::DivisionByZero
        },
        r is Ok ==> column_queries_ok(r->Ok_0@, x.val(), omega.val(), qs@, commits@, evals@),
{
    if evals.len() != qs.len() {
        return Err(VerifyError::MalformedProof);
    }
    let mut i: usize = 0;
    while i < qs.len()
        invariant
            i <= qs@.len(),
            forall|j: int| 0 <= j < i ==> (#[trigger] qs@[j]).0 < commits@.len(),
        decreases qs@.len() - i,
    {
        if qs[i].0 >= commits.len() {
            return Err(VerifyError::MalformedProof);
        }
        i = i + 1;
    }
    let mut out: Vec<EvaluationQuery> = Vec::new();
    let mut i: usize = 0;
    while i < qs.len()
        invariant
            i <= qs@.len(),
            column_shape_ok(qs@, commits@.len(), evals@.len()),
            forall|j: int| 0 <= j < i ==> !rotation_fails(omega.val(), (#[trigger] qs@[j]).1 as int),
            column_queries_ok(out@, x.val(), omega.val(), qs@.subrange(0, i as int), commits@, evals@),
        decreases qs@.len() - i,
    {
        let (column, at) = qs[i];
        let point = rotate(sgate, x, omega, at as i64)?;
        out.push(EvaluationQuery { point, commitment: SchemaItem::Commit(commits[column]), eval: evals[i] });
        i = i + 1;
        assert(forall|j: int| 0 <= j < i ==> qs@.subrange(0, i as int)[j] == qs@[j]);
    }
    assert(qs@.subrange(0, qs@.len() as int) =~= qs@);
    Ok(out)
}

pub open spec fn query_of(point: Scalar, c: Point, eval: Scalar) -> EvaluationQuery {
    EvaluationQuery { point, commitment: SchemaItem::Commit(c), eval }
}

/// Every set but the last carries its last-row evaluation.
pub open spec fn permutation_sets_ok(sets: Seq<PermutationEvaluatedSet>) -> bool {
    forall|i: int| 0 <= i < sets.len() - 1 ==> (#[trigger] sets[i]).product_last_eval is Some
}

/// Each set's product is opened at `x` and `x_next`, set after set; then
/// every set but the last, from the second to last back to the first, is
/// opened at `x_last`.
pub open spec fn permutation_queries_ok(
    out: Seq<EvaluationQuery>,
    sets: Seq<PermutationEvaluatedSet>,
    x: Scalar,
    x_next: Scalar,
    x_last: Scalar,
) -> bool {
    let m = sets.len() as int;
    &&& out.len() == if m == 0 { 0 } else { 3 * m - 1 }
    &&& forall|i: int|
        0 <= i < m ==> {
            &&& out[2 * i] == query_of(x, (#[trigger] sets[i]).product_commitment, sets[i].product_eval)
            &&& out[2 * i + 1] == query_of(x_next, sets[i].product_commitment, sets[i].product_next_eval)
        }
    &&& forall|j: int|
        0 <= j < m - 1 ==> #[trigger] out[2 * m + j] == query_of(
            x_last,
            sets[m - 2 - j].product_commitment,
            sets[m - 2 - j].product_last_eval->Some_0,
        )
}

/// The permutation argument's queries for one proof instance.
pub fn permutation_queries(
    sets: &Vec<PermutationEvaluatedSet>,
    x: &Scalar,
    x_next: &Scalar,
    x_last: &Scalar,
) -> (r: Result<Vec<EvaluationQuery>, VerifyError>)
    ensures
        r is Err <==> !permutation_sets_ok(sets@),
        r is Err ==> r->Err_0 == VerifyError::MalformedProof,
        r is Ok ==> permutation_queries_ok(r->Ok_0@, sets@, *x, *x_next, *x_last),
{
    let m = sets.len();
    let mut out: Vec<EvaluationQuery> = Vec::new();
    let mut i: usize = 0;
    while i < m
        invariant
            m == sets@.len(),
            i <= m,
            out@.len() == 2 * i,
            forall|k: int|
                0 <= k < i ==> {
                    &&& out@[2 * k] == query_of(*x, (#[trigger] sets@[k]).product_commitment, sets@[k].product_eval)
                    &&& out@[2 * k + 1] == query_of(*x_next, sets@[k].product_commitment, sets@[k].product_next_eval)
                },
        decreases m - i,
    {
        let set = sets[i];
        out.push(query_of_exec(*x, set.product_commitment, set.product_eval));
        out.push(query_of_exec(*x_next, set.product_commitment, set.product_next_eval));
        i = i + 1;
    }
    if m == 0 {
        return Ok(out);
    }
    let mut j: usize = 0;
    while j < m - 1
        invariant
            m == sets@.len(),
            m > 0,
            j <= m - 1,
            out@.len() == 2 * m + j,
            forall|k: int|
                0 <= k < m ==> {
                    &&& out@[2 * k] == query_of(*x, (#[trigger] sets@[k]).product_commitment, sets@[k].product_eval)
                    &&& out@[2 * k + 1] == query_of(*x_next, sets@[k].product_commitment, sets@[k].product_next_eval)
                },
            forall|k: int| m - 1 - j <= k < m - 1 ==> (#[trigger] sets@[k]).product_last_eval is Some,
            forall|k: int|
                0 <= k < j ==> #[trigger] out@[2 * m + k] == query_of(
                    *x_last,
                    sets@[m - 2 - k].product_commitment,
                    sets@[m - 2 - k].product_last_eval->Some_0,
                ),
        decreases m - 1 - j,
    {
        let set = sets[m - 2 - j];
        match set.product_last_eval {
            None => {
                return Err(VerifyError::MalformedProof);
            },
            Some(e) => {
                out.push(query_of_exec(*x_last, set.product_commitment, e));
            },
        }
        j = j + 1;
    }
    Ok(out)
}

fn query_of_exec(point: Scalar, c: Point, eval: Scalar) -> (r: EvaluationQuery)
    ensures
        r == query_of(point, c, eval),
{
    EvaluationQuery { point, commitment: SchemaItem::Commit(c), eval }
}

/// Each lookup is opened five times: its product, permuted input and
/// permuted table at `x`, the permuted input at `x_inv` and the product at
/// `x_next`.
pub open spec fn lookup_queries_ok(
    out: Seq<EvaluationQuery>,
    ls: Seq<LookupEvaluated>,
    x: Scalar,
    x_inv: Scalar,
    x_next: Scalar,
) -> bool {
    &&& out.len() == 5 * ls.len()
    &&& forall|i: int|
        0 <= i < ls.len() ==> {
            &&& out[5 * i] == query_of(x, (#[trigger] ls[i]).product_commitment, ls[i].product_eval)
            &&& out[5 * i + 1] == query_of(x, ls[i].permuted_input_commitment, ls[i].permuted_input_eval)
            &&& out[5 * i + 2] == query_of(x, ls[i].permuted_table_commitment, ls[i].permuted_table_eval)
            &&& out[5 * i + 3] == query_of(
                x_inv,
                ls[i].permuted_input_commitment,
                ls[i].permuted_input_inv_eval,
            )
            &&& out[5 * i + 4] == query_of(x_next, ls[i].product_commitment, ls[i].product_next_eval)
        }
}

/// The lookup arguments' queries for one proof instance.
pub fn lookup_queries(ls: &Vec<LookupEvaluated>, x: &Scalar, x_inv: &Scalar, x_next: &Scalar) -> (r:
    Vec<EvaluationQuery>)
    ensures
        lookup_queries_ok(r@, ls@, *x, *x_inv, *x_next),
{
    let mut out: Vec<EvaluationQuery> = Vec::new();
    let mut i: usize = 0;
    while i < ls.len()
        invariant
            i <= ls@.len(),
            lookup_queries_ok(out@, ls@.subrange(0, i as int), *x, *x_inv, *x_next),
        decreases ls@.len() - i,
    {
        let l = ls[i];
        out.push(query_of_exec(*x, l.product_commitment, l.product_eval));
        out.push(query_of_exec(*x, l.permuted_input_commitment, l.permuted_input_eval));
        out.push(query_of_exec(*x, l.permuted_table_commitment, l.permuted_table_eval));
        out.push(query_of_exec(*x_inv, l.permuted_input_commitment, l.permuted_input_inv_eval));
        out.push(query_of_exec(*x_next, l.product_commitment, l.product_next_eval));
        i = i + 1;
        assert(forall|k: int| 0 <= k < i ==> ls@.subrange(0, i as int)[k] == ls@[k]);
    }
    assert(ls@.subrange(0, ls@.len() as int) =~= ls@);
    out
}

/// Each permutation column's common commitment opened at `x`.
pub fn common_permutation_queries(commits: &Vec<Point>, evals: &Vec<Scalar>, x: &Scalar) -> (r:
    Result<Vec<EvaluationQuery>, VerifyError>)
    ensures
        r is Err <==> commits@.len() != evals@.len(),
        r is Err ==> r->Err_0 == VerifyError::MalformedProof,
        r is Ok ==> r->Ok_0@.len() == commits@.len() && forall|i: int|
            0 <= i < commits@.len() ==> #[trigger] r->Ok_0@[i] == query_of(*x, commits@[i], evals@[i]),
{
    if commits.len() != evals.len() {
        return Err(VerifyError::MalformedProof);
    }
    let mut out: Vec<EvaluationQuery> = Vec::new();
    let mut i: usize = 0;
    while i < commits.len()
        invariant
            i <= commits@.len(),
            commits@.len() == evals@.len(),
            out@.len() == i,
            forall|k: int| 0 <= k < i ==> #[trigger] out@[k] == query_of(*x, commits@[k], evals@[k]),
        decreases commits@.len() - i,
    {
        out.push(query_of_exec(*x, commits[i], evals[i]));
        i = i + 1;
    }
    Ok(out)
}

/// The quotient commitments folded with `x^n`: `h0 + xn·(h1 + xn·(h2 + ...))`.
pub open spec fn h_combination(hs: Seq<Point>, xn: Scalar) -> SchemaItem
    recommends
        hs.len() > 0,
    decreases hs.len(),
{
    if hs.len() <= 1 {
        SchemaItem::Commit(hs[0])
    } else {
        SchemaItem::Add(
            Box::new(SchemaItem::Scale(xn, Box::new(h_combination(hs.drop_first(), xn)))),
            Box::new(SchemaItem::Commit(hs[0])),
        )
    }
}

/// The vanishing argument's queries: the folded quotient commitment opened
/// at `x` to the value that the constraints ask of it, and the random
/// polynomial's commitment opened at `x`.
pub fn vanishing_queries(
    sgate: &FieldCode,
    constraints: &Vec<Scalar>,
    y: &Scalar,
    x: &Scalar,
    xn: &Scalar,
    h_commitments: &Vec<Point>,
    random_commitment: &Point,
    random_eval: &Scalar,
) -> (r: Result<Vec<EvaluationQuery>, VerifyError>)
    ensures
        h_commitments@.len() == 0 ==> r == Err::<Vec<EvaluationQuery>, VerifyError>(
            VerifyError::MalformedProof,
        ),
        h_commitments@.len() > 0 ==> {
            &&& r is Err <==> fsub(xn.val(), 1) == 0
            &&& r is Err ==> r->Err_0 == VerifyError::DivisionByZero
        },
        r is Ok ==> {
            let out = r->Ok_0@;
            &&& out.len() == 2
            &&& out[0].point == *x
            &&& out[0].commitment == h_combination(h_commitments@, *xn)
            &&& crate::field::fmul(out[0].eval.val(), fsub(xn.val(), 1)) == horner(
                constraints@,
                y.val(),
            )
            &&& out[1] == query_of(*x, *random_commitment, *random_eval)
        },
{
    let m = h_commitments.len();
    if m == 0 {
        return Err(VerifyError::MalformedProof);
    }
    let mut acc = SchemaItem::Commit(h_commitments[m - 1]);
    let mut i: usize = m - 1;
    assert(h_commitments@.subrange(i as int, m as int) =~= seq![h_commitments@[m - 1]]);
    while i > 0
        invariant
            m == h_commitments@.len(),
            i < m,
            acc == h_combination(h_commitments@.subrange(i as int, m as int), *xn),
        decreases i,
    {
        assert(h_commitments@.subrange(i - 1, m as int).drop_first() =~= h_commitments@.subrange(
            i as int,
            m as int,
        ));
        acc = SchemaItem::Add(
            Box::new(SchemaItem::Scale(*xn, Box::new(acc))),
            Box::new(SchemaItem::Commit(h_commitments[i - 1])),
        );
        i = i - 1;
    }
    assert(h_commitments@.subrange(0, m as int) =~= h_commitments@);
    let h_eval = crate::verify::expected_h_eval(sgate, constraints, y, xn)?;
    let mut out: Vec<EvaluationQuery> = Vec::new();
    out.push(EvaluationQuery { point: *x, commitment: acc, eval: h_eval });
    out.push(query_of_exec(*x, *random_commitment, *random_eval));
    Ok(out)
}

/// The polynomials of all gates, gate after gate.
pub open spec fn concat_gates(gs: Seq<Vec<Expression>>) -> Seq<Expression>
    decreases gs.len(),
{
    if gs.len() == 0 {
        seq![]
    } else {
        concat_gates(gs.drop_last()) + gs.last()@
    }
}

proof fn lemma_concat_prefix(gs: Seq<Vec<Expression>>, i: int)
    requires
        0 <= i <= gs.len(),
    ensures
        concat_gates(gs.subrange(0, i)).len() <= concat_gates(gs).len(),
        forall|k: int|
            0 <= k < concat_gates(gs.subrange(0, i)).len() ==> concat_gates(gs.subrange(0, i))[k]
                == concat_gates(gs)[k],
    decreases gs.len() - i,
{
    if i < gs.len() {
        lemma_concat_prefix(gs, i + 1);
        assert(gs.subrange(0, i + 1).drop_last() =~= gs.subrange(0, i));
    } else {
        assert(gs.subrange(0, i) =~= gs);
    }
}

/// `cs` holds the value of each gate polynomial, in order.
pub open spec fn gate_values_ok(
    cs: Seq<Scalar>,
    polys: Seq<Expression>,
    fixed: Seq<Scalar>,
    advice: Seq<Scalar>,
    instance: Seq<Scalar>,
) -> bool {
    &&& cs.len() == polys.len()
    &&& forall|i: int|
        0 <= i < polys.len() ==> eval_expr(#[trigger] polys[i], fixed, advice, instance) == Ok::<
            nat,
            VerifyError,
        >(cs[i].val())
}

/// Evaluates every gate polynomial for one proof instance.
pub fn gate_constraints(
    sgate: &FieldCode,
    gates: &Vec<Vec<Expression>>,
    fixed: &Vec<Scalar>,
    advice: &Vec<Scalar>,
    instance: &Vec<Scalar>,
) -> (r: Result<Vec<Scalar>, VerifyError>)
    ensures
        r is Ok <==> forall|i: int|
            0 <= i < concat_gates(gates@).len() ==> eval_expr(
                #[trigger] concat_gates(gates@)[i],
                fixed@,
                advice@,
                instance@,
            ) is Ok,
        r is Err ==> exists|i: int|
            0 <= i < concat_gates(gates@).len() && eval_expr(
                #[trigger] concat_gates(gates@)[i],
                fixed@,
                advice@,
                instance@,
            ) == Err::<nat, VerifyError>(r->Err_0),
        r is Ok ==> gate_values_ok(r->Ok_0@, concat_gates(gates@), fixed@, advice@, instance@),
{
    let mut out: Vec<Scalar> = Vec::new();
    let mut i: usize = 0;
    while i < gates.len()
        invariant
            i <= gates@.len(),
            gate_values_ok(out@, concat_gates(gates@.subrange(0, i as int)), fixed@, advice@, instance@),
        decreases gates@.len() - i,
    {
        let ghost before = concat_gates(gates@.subrange(0, i as int));
        let polys = &gates[i];
        let mut j: usize = 0;
        while j < polys.len()
            invariant
                i < gates@.len(),
                polys == gates@[i as int],
                j <= polys@.len(),
                before == concat_gates(gates@.subrange(0, i as int)),
                gate_values_ok(out@, before + polys@.subrange(0, j as int), fixed@, advice@, instance@),
            decreases polys@.len() - j,
        {
            let ghost done = before + polys@.subrange(0, j as int);
            match polys[j].ctx_evaluate(sgate, fixed.as_slice(), advice.as_slice(), instance.as_slice()) {
                Ok(v) => {
                    out.push(v);
                    assert(before + polys@.subrange(0, j + 1) =~= done.push(polys@[j as int]));
                },
                Err(e) => {
                    proof {
                        assert(gates@.subrange(0, i + 1).drop_last() =~= gates@.subrange(0, i as int));
                        lemma_concat_prefix(gates@, i + 1);
                        let idx = before.len() + j;
                        let sub = gates@.subrange(0, i + 1);
                        assert(sub.last() == polys);
                        assert(concat_gates(sub) == before + polys@);
                        assert(concat_gates(sub)[idx] == polys@[j as int]);
                        assert(concat_gates(gates@)[idx] == polys@[j as int]);
                        assert(eval_expr(polys@[j as int], fixed@, advice@, instance@) == Err::<
                            nat,
                            VerifyError,
                        >(e));
                    }
                    return Err(e);
                },
            }
            j = j + 1;
        }
        proof {
            assert(polys@.subrange(0, polys@.len() as int) =~= polys@);
            assert(gates@.subrange(0, i + 1).drop_last() =~= gates@.subrange(0, i as int));
        }
        i = i + 1;
    }
    assert(gates@.subrange(0, gates@.len() as int) =~= gates@);
    Ok(out)
}

/// The queries of one proof instance, by source.
pub struct ProofQueries {
    pub instance: Vec<EvaluationQuery>,
    pub advice: Vec<EvaluationQuery>,
    pub permutation: Vec<EvaluationQuery>,
    pub lookups: Vec<EvaluationQuery>,
}

/// Every opening query of one proof, by source, with the rotations of `x`
/// that they use.
pub struct QueryGroups {
    pub per_proof: Vec<ProofQueries>,
    pub fixed: Vec<EvaluationQuery>,
    pub permutation_common: Vec<EvaluationQuery>,
    pub vanishing: Vec<EvaluationQuery>,
    pub x_next: Scalar,
    pub x_last: Scalar,
    pub x_inv: Scalar,
    pub xn: Scalar,
}

pub open spec fn proof_queries_flat(ps: Seq<ProofQueries>) -> Seq<EvaluationQuery>
    decreases ps.len(),
{
    if ps.len() == 0 {
        seq![]
    } else {
        ps[0].instance@ + ps[0].advice@ + ps[0].permutation@ + ps[0].lookups@ + proof_queries_flat(
            ps.drop_first(),
        )
    }
}

impl QueryGroups {
    /// All queries in the order they are batched: each proof instance's
    /// instance, advice, permutation and lookup queries, then the fixed
    /// columns', the common permutation's and the vanishing argument's.
    pub open spec fn ordered_spec(self) -> Seq<EvaluationQuery> {
        proof_queries_flat(self.per_proof@) + self.fixed@ + self.permutation_common@ + self.vanishing@
    }

    pub fn into_ordered(self) -> (r: Vec<EvaluationQuery>)
        ensures
            r@ == self.ordered_spec(),
    {
        let ghost whole = self.ordered_spec();
        let QueryGroups { per_proof, fixed, permutation_common, vanishing, .. } = self;
        let mut per_proof = per_proof;
        let mut fixed = fixed;
        let mut permutation_common = permutation_common;
        let mut vanishing = vanishing;
        let mut out: Vec<EvaluationQuery> = Vec::new();
        while per_proof.len() > 0
            invariant
                out@ + proof_queries_flat(per_proof@) + fixed@ + permutation_common@ + vanishing@
                    == whole,
            decreases per_proof@.len(),
        {
            let ghost rest = per_proof@;
            let mut q = per_proof.remove(0);
            assert(rest.drop_first() =~= per_proof@);
            let ghost before = out@;
            out.append(&mut q.instance);
            out.append(&mut q.advice);
            out.append(&mut q.permutation);
            out.append(&mut q.lookups);
            assert(before + proof_queries_flat(rest) =~= out@ + proof_queries_flat(per_proof@));
        }
        out.append(&mut fixed);
        out.append(&mut permutation_common);
        out.append(&mut vanishing);
        assert(out@ =~= whole);
        out
    }
}

/// `block` holds the values of one proof instance's gate polynomials,
/// followed by the values of its permutation and lookup constraints.
pub open spec fn constraint_block_ok(
    block: Seq<Scalar>,
    gates: Seq<Vec<Expression>>,
    fixed: Seq<Scalar>,
    advice: Seq<Scalar>,
    instance: Seq<Scalar>,
    arguments: Seq<Scalar>,
) -> bool {
    let g = concat_gates(gates).len();
    &&& block.len() == g + arguments.len()
    &&& gate_values_ok(block.subrange(0, g as int), concat_gates(gates), fixed, advice, instance)
    &&& block.subrange(g as int, block.len() as int) == arguments
}

/// The blocks of every proof instance, one after the other.
pub open spec fn concat_blocks(bs: Seq<Vec<Scalar>>) -> Seq<Scalar>
    decreases bs.len(),
{
    if bs.len() == 0 {
        seq![]
    } else {
        concat_blocks(bs.drop_last()) + bs.last()@
    }
}

pub fn flatten_blocks(bs: &Vec<Vec<Scalar>>) -> (r: Vec<Scalar>)
    ensures
        r@ == concat_blocks(bs@),
{
    let mut out: Vec<Scalar> = Vec::new();
    let mut i: usize = 0;
    while i < bs.len()
        invariant
            i <= bs@.len(),
            out@ == concat_blocks(bs@.subrange(0, i as int)),
        decreases bs@.len() - i,
    {
        let ghost before = out@;
        out.extend_from_slice(bs[i].as_slice());
        assert(bs@.subrange(0, i + 1).drop_last() =~= bs@.subrange(0, i as int));
        assert(out@ =~= before + bs@[i as int]@);
        i = i + 1;
    }
    assert(bs@.subrange(0, bs@.len() as int) =~= bs@);
    out
}

impl VerifierParams {
    /// Every per-instance list holds one entry for each proof instance.
    pub open spec fn instances_consistent(&self) -> bool {
        let k = self.advice_evals@.len();
        &&& self.instance_evals@.len() == k
        &&& self.instance_commitments@.len() == k
        &&& self.advice_commitments@.len() == k
        &&& self.permutation_evaluated@.len() == k
        &&& self.lookup_evaluated@.len() == k
    }

    /// The constraint values of each proof instance: its gate polynomials
    /// evaluated over its own advice and instance evaluations, followed by
    /// the permutation and lookup constraint values that the argument
    /// evaluators computed for it.
    pub fn constraints(&self, sgate: &FieldCode, arguments: &Vec<Vec<Scalar>>) -> (r: Result<
        Vec<Vec<Scalar>>,
        VerifyError,
    >)
        ensures
            !(self.instances_consistent() && arguments@.len() == self.advice_evals@.len()) ==> r
                == Err::<Vec<Vec<Scalar>>, VerifyError>(VerifyError::MalformedProof),
            self.instances_consistent() && arguments@.len() == self.advice_evals@.len() ==> (r is Ok
                <==> forall|k: int, i: int|
                0 <= k < self.advice_evals@.len() && 0 <= i < concat_gates(self.gates@).len()
                    ==> eval_expr(
                    #[trigger] concat_gates(self.gates@)[i],
                    self.fixed_evals@,
                    self.advice_evals@[k]@,
                    #[trigger] self.instance_evals@[k]@,
                ) is Ok),
            r is Ok ==> r->Ok_0@.len() == self.advice_evals@.len() && forall|k: int|
                0 <= k < r->Ok_0@.len() ==> constraint_block_ok(
                    #[trigger] r->Ok_0@[k]@,
                    self.gates@,
                    self.fixed_evals@,
                    self.advice_evals@[k]@,
                    self.instance_evals@[k]@,
                    arguments@[k]@,
                ),
    {
        if !(self.instance_evals.len() == self.advice_evals.len()
            && self.instance_commitments.len() == self.advice_evals.len()
            && self.advice_commitments.len() == self.advice_evals.len()
            && self.permutation_evaluated.len() == self.advice_evals.len()
            && self.lookup_evaluated.len() == self.advice_evals.len()
            && arguments.len() == self.advice_evals.len()) {
            return Err(VerifyError::MalformedProof);
        }
        let mut out: Vec<Vec<Scalar>> = Vec::new();
        let mut k: usize = 0;
        while k < self.advice_evals.len()
            invariant
                self.instances_consistent(),
                arguments@.len() == self.advice_evals@.len(),
                k <= self.advice_evals@.len(),
                out@.len() == k,
                forall|j: int, i: int|
                    0 <= j < k && 0 <= i < concat_gates(self.gates@).len() ==> eval_expr(
                        #[trigger] concat_gates(self.gates@)[i],
                        self.fixed_evals@,
                        self.advice_evals@[j]@,
                        #[trigger] self.instance_evals@[j]@,
                    ) is Ok,
                forall|j: int|
                    0 <= j < k ==> constraint_block_ok(
                        #[trigger] out@[j]@,
                        self.gates@,
                        self.fixed_evals@,
                        self.advice_evals@[j]@,
                        self.instance_evals@[j]@,
                        arguments@[j]@,
                    ),
            decreases self.advice_evals@.len() - k,
        {
            let mut block = match gate_constraints(
                sgate,
                &self.gates,
                &self.fixed_evals,
                &self.advice_evals[k],
                &self.instance_evals[k],
            ) {
                Ok(b) => b,
                Err(e) => {
                    return Err(e);
                },
            };
            let ghost gv = block@;
            block.extend_from_slice(arguments[k].as_slice());
            assert(block@.subrange(0, gv.len() as int) =~= gv);
            assert(block@.subrange(gv.len() as int, block@.len() as int) =~= arguments@[k as int]@);
            out.push(block);
            k = k + 1;
        }
        Ok(out)
    }
}

/// The column queries can be built: they fit the columns and evaluations,
/// and every backward rotation they ask for is defined.
pub open spec fn column_ok(qs: Seq<(usize, i32)>, commits: Seq<Point>, evals: Seq<Scalar>, omega: nat) -> bool {
    &&& column_shape_ok(qs, commits.len(), evals.len())
    &&& forall|i: int| 0 <= i < qs.len() ==> !rotation_fails(omega, (#[trigger] qs[i]).1 as int)
}

impl VerifierParams {
    /// Whether the queries of proof instance `k` can be built.
    pub open spec fn instance_queries_succeed(&self, k: int) -> bool {
        let omega = self.omega.val();
        &&& column_ok(self.instance_queries@, self.instance_commitments@[k]@, self.instance_evals@[k]@, omega)
        &&& column_ok(self.advice_queries@, self.advice_commitments@[k]@, self.advice_evals@[k]@, omega)
        &&& permutation_sets_ok(self.permutation_evaluated@[k]@)
    }

    /// Whether every query of this proof can be built.
    pub open spec fn queries_succeed(&self, constraints: Seq<Scalar>) -> bool {
        let omega = self.omega.val();
        let xn = fpow(self.x.val(), self.common.n as nat);
        &&& self.instances_consistent()
        &&& !(self.common.l > 0 && fpow(omega, self.common.l as nat) == 0)
        &&& omega != 0
        &&& forall|k: int| 0 <= k < self.advice_evals@.len() ==> #[trigger] self.instance_queries_succeed(k)
        &&& column_ok(self.fixed_queries@, self.fixed_commitments@, self.fixed_evals@, omega)
        &&& self.permutation_commitments@.len() == self.permutation_evals@.len()
        &&& self.vanish_commitments@.len() > 0
        &&& fsub(xn, 1) != 0
    }

    /// What each group of queries holds, given the constraint values that
    /// the vanishing argument combines.
    pub open spec fn queries_ok(&self, g: QueryGroups, constraints: Seq<Scalar>) -> bool {
        let x = self.x.val();
        let omega = self.omega.val();
        &&& g.x_next.val() == fmul(x, omega)
        &&& is_rotation(x, omega, -(self.common.l as int), g.x_last.val())
        &&& fmul(g.x_inv.val(), omega) == x
        &&& g.xn.val() == fpow(x, self.common.n as nat)
        &&& g.per_proof@.len() == self.advice_evals@.len()
        &&& forall|k: int|
            0 <= k < g.per_proof@.len() ==> {
                let q = #[trigger] g.per_proof@[k];
                &&& column_queries_ok(
                    q.instance@,
                    x,
                    omega,
                    self.instance_queries@,
                    self.instance_commitments@[k]@,
                    self.instance_evals@[k]@,
                )
                &&& column_queries_ok(
                    q.advice@,
                    x,
                    omega,
                    self.advice_queries@,
                    self.advice_commitments@[k]@,
                    self.advice_evals@[k]@,
                )
                &&& permutation_queries_ok(
                    q.permutation@,
                    self.permutation_evaluated@[k]@,
                    self.x,
                    g.x_next,
                    g.x_last,
                )
                &&& lookup_queries_ok(q.lookups@, self.lookup_evaluated@[k]@, self.x, g.x_inv, g.x_next)
            }
        &&& column_queries_ok(
            g.fixed@,
            x,
            omega,
            self.fixed_queries@,
            self.fixed_commitments@,
            self.fixed_evals@,
        )
        &&& g.permutation_common@.len() == self.permutation_commitments@.len()
        &&& forall|i: int|
            0 <= i < g.permutation_common@.len() ==> #[trigger] g.permutation_common@[i] == query_of(
                self.x,
                self.permutation_commitments@[i],
                self.permutation_evals@[i],
            )
        &&& g.vanishing@.len() == 2
        &&& g.vanishing@[0].point == self.x
        &&& g.vanishing@[0].commitment == h_combination(self.vanish_commitments@, g.xn)
        &&& fmul(g.vanishing@[0].eval.val(), fsub(g.xn.val(), 1)) == horner(constraints, self.y.val())
        &&& g.vanishing@[1] == query_of(self.x, self.random_commitment, self.random_eval)
    }

    /// Collects every opening query of this proof. `constraints` are the
    /// constraint values of all proof instances, one block after the other.
    pub fn queries(&self, sgate: &FieldCode, constraints: &Vec<Scalar>) -> (r: Result<
        QueryGroups,
        VerifyError,
    >)
        ensures
            r is Ok <==> self.queries_succeed(constraints@),
            !self.instances_consistent() ==> r == Err::<QueryGroups, VerifyError>(
                VerifyError::MalformedProof,
            ),
            r is Err ==> (r->Err_0 == VerifyError::MalformedProof || r->Err_0
                == VerifyError::DivisionByZero),
            r is Ok ==> self.queries_ok(r->Ok_0, constraints@),
    {
        if !(self.instance_evals.len() == self.advice_evals.len()
            && self.instance_commitments.len() == self.advice_evals.len()
            && self.advice_commitments.len() == self.advice_evals.len()
            && self.permutation_evaluated.len() == self.advice_evals.len()
            && self.lookup_evaluated.len() == self.advice_evals.len()) {
            return Err(VerifyError::MalformedProof);
        }
        let x_next = self.x_next(sgate);
        let x_last = self.x_last(sgate)?;
        let x_inv = self.x_inv(sgate)?;
        let xn = self.xn(sgate);
        let mut per_proof: Vec<ProofQueries> = Vec::new();
        let mut k: usize = 0;
        while k < self.advice_evals.len()
            invariant
                self.instances_consistent(),
                k <= self.advice_evals@.len(),
                per_proof@.len() == k,
                x_next.val() == fmul(self.x.val(), self.omega.val()),
                is_rotation(self.x.val(), self.omega.val(), -(self.common.l as int), x_last.val()),
                fmul(x_inv.val(), self.omega.val()) == self.x.val(),
                forall|j: int| 0 <= j < k ==> #[trigger] self.instance_queries_succeed(j),
                forall|j: int|
                    0 <= j < k ==> {
                        let q = #[trigger] per_proof@[j];
                        &&& column_queries_ok(
                            q.instance@,
                            self.x.val(),
                            self.omega.val(),
                            self.instance_queries@,
                            self.instance_commitments@[j]@,
                            self.instance_evals@[j]@,
                        )
                        &&& column_queries_ok(
                            q.advice@,
                            self.x.val(),
                            self.omega.val(),
                            self.advice_queries@,
                            self.advice_commitments@[j]@,
                            self.advice_evals@[j]@,
                        )
                        &&& permutation_queries_ok(
                            q.permutation@,
                            self.permutation_evaluated@[j]@,
                            self.x,
                            x_next,
                            x_last,
                        )
                        &&& lookup_queries_ok(q.lookups@, self.lookup_evaluated@[j]@, self.x, x_inv, x_next)
                    },
            decreases self.advice_evals@.len() - k,
        {
            let instance = match column_queries(
                sgate,
                &self.x,
                &self.omega,
                &self.instance_queries,
                &self.instance_commitments[k],
                &self.instance_evals[k],
            ) {
                Ok(q) => q,
                Err(e) => {
                    assert(!self.instance_queries_succeed(k as int));
                    return Err(e);
                },
            };
            let advice = match column_queries(
                sgate,
                &self.x,
                &self.omega,
                &self.advice_queries,
                &self.advice_commitments[k],
                &self.advice_evals[k],
            ) {
                Ok(q) => q,
                Err(e) => {
                    assert(!self.instance_queries_succeed(k as int));
                    return Err(e);
                },
            };
            let permutation = match permutation_queries(
                &self.permutation_evaluated[k],
                &self.x,
                &x_next,
                &x_last,
            ) {
                Ok(q) => q,
                Err(e) => {
                    assert(!self.instance_queries_succeed(k as int));
                    return Err(e);
                },
            };
            let lookups = lookup_queries(&self.lookup_evaluated[k], &self.x, &x_inv, &x_next);
            assert(column_ok(
                self.instance_queries@,
                self.instance_commitments@[k as int]@,
                self.instance_evals@[k as int]@,
                self.omega.val(),
            ));
            assert(column_ok(
                self.advice_queries@,
                self.advice_commitments@[k as int]@,
                self.advice_evals@[k as int]@,
                self.omega.val(),
            ));
            assert(permutation_sets_ok(self.permutation_evaluated@[k as int]@));
            assert(self.instance_queries_succeed(k as int));
            per_proof.push(ProofQueries { instance, advice, permutation, lookups });
            k = k + 1;
        }
        let fixed = column_queries(
            sgate,
            &self.x,
            &self.omega,
            &self.fixed_queries,
            &self.fixed_commitments,
            &self.fixed_evals,
        )?;
        let permutation_common = common_permutation_queries(
            &self.permutation_commitments,
            &self.permutation_evals,
            &self.x,
        )?;
        let vanishing = vanishing_queries(
            sgate,
            constraints,
            &self.y,
            &self.x,
            &xn,
            &self.vanish_commitments,
            &self.random_commitment,
            &self.random_eval,
        )?;
        Ok(QueryGroups { per_proof, fixed, permutation_common, vanishing, x_next, x_last, x_inv, xn })
    }
}

} // verus!
