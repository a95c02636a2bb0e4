//! Grouping the opening queries by point into one opening proof per point.
use vstd::prelude::*;
use crate::arith::FieldCode;
use crate::error::VerifyError;
use crate::field::{fadd, fmul, fneg, Scalar};
use crate::schema::{EvaluationProof, EvaluationQuery, Point, SchemaItem};

verus! {

/// The points that the queries open at, in order of first appearance.
pub open spec fn point_set(qs: Seq<EvaluationQuery>) -> Seq<Scalar>
    decreases qs.len(),
{
    if qs.len() == 0 {
        seq![]
    } else {
        let p = point_set(qs.drop_last());
        if p.contains(qs.last().point) {
            p
        } else {
            p.push(qs.last().point)
        }
    }
}

/// The queries at point `z`, in their order.
pub open spec fn queries_at(qs: Seq<EvaluationQuery>, z: Scalar) -> Seq<EvaluationQuery>
    decreases qs.len(),
{
    if qs.len() == 0 {
        seq![]
    } else {
        let rest = queries_at(qs.drop_last(), z);
        if qs.last().point == z {
            rest.push(qs.last())
        } else {
            rest
        }
    }
}

/// The commitments of `qs` combined with powers of `v`:
/// `c0 + v·(c1 + v·(c2 + ...))`.
pub open spec fn commitment_comb(qs: Seq<EvaluationQuery>, v: Scalar) -> SchemaItem
    recommends
        qs.len() > 0,
    decreases qs.len(),
{
    if qs.len() <= 1 {
        qs[0].commitment
    } else {
        SchemaItem::Add(
            Box::new(SchemaItem::Scale(v, Box::new(commitment_comb(qs.drop_first(), v)))),
            Box::new(qs[0].commitment),
        )
    }
}

/// The evaluations of `qs` combined with the same powers of `v`.
pub open spec fn eval_comb(qs: Seq<EvaluationQuery>, v: nat) -> nat
    decreases qs.len(),
{
    if qs.len() == 0 {
        0
    } else {
        fadd(fmul(v, eval_comb(qs.drop_first(), v)), qs[0].eval.val())
    }
}

/// The opening proof at `z`: the witness `w`, and the remainder
/// `C - E·G` of the combined commitment `C` and combined evaluation `E` of
/// the queries at `z`.
pub open spec fn point_proof_ok(p: EvaluationProof, qs: Seq<EvaluationQuery>, z: Scalar, w: Point, v: Scalar) -> bool {
    let at = queries_at(qs, z);
    &&& p.point == z
    &&& p.w == w
    &&& match p.s {
        SchemaItem::Add(c, g) => {
            &&& *c == commitment_comb(at, v)
            &&& match *g {
                SchemaItem::Generator(e) => e.val() == fneg(eval_comb(at, v.val())),
                _ => false,
            }
        },
        _ => false,
    }
}

proof fn lemma_absent_point(qs: Seq<EvaluationQuery>, z: Scalar)
    requires
        !point_set(qs).contains(z),
    ensures
        queries_at(qs, z) == Seq::<EvaluationQuery>::empty(),
    decreases qs.len(),
{
    if qs.len() > 0 {
        let p = point_set(qs.drop_last());
        if !p.contains(qs.last().point) {
            assert(p.push(qs.last().point).last() == qs.last().point);
            if p.contains(z) {
                let i = choose|i: int| 0 <= i < p.len() && p[i] == z;
                assert(p.push(qs.last().point)[i] == z);
            }
        }
        lemma_absent_point(qs.drop_last(), z);
    }
}

/// Groups the queries by the point they open at.
fn group_by_point(queries: Vec<EvaluationQuery>) -> (r: (Vec<Scalar>, Vec<Vec<EvaluationQuery>>))
    ensures
        r.0@ == point_set(queries@),
        r.1@.len() == r.0@.len(),
        forall|g: int| 0 <= g < r.0@.len() ==> (#[trigger] r.1@[g])@ == queries_at(queries@, r.0@[g]),
{
    let ghost all = queries@;
    let total = queries.len();
    let mut rest = queries;
    let mut pts: Vec<Scalar> = Vec::new();
    let mut groups: Vec<Vec<EvaluationQuery>> = Vec::new();
    let mut i: usize = 0;
    while rest.len() > 0
        invariant
            all.len() == total,
            i + rest@.len() == all.len(),
            rest@ == all.subrange(i as int, all.len() as int),
            pts@ == point_set(all.subrange(0, i as int)),
            groups@.len() == pts@.len(),
            forall|a: int, b: int| 0 <= a < b < pts@.len() ==> pts@[a] != pts@[b],
            forall|g: int|
                0 <= g < pts@.len() ==> (#[trigger] groups@[g])@ == queries_at(
                    all.subrange(0, i as int),
                    pts@[g],
                ),
        decreases rest@.len(),
    {
        let ghost done = all.subrange(0, i as int);
        let ghost next = all.subrange(0, i + 1);
        let q = rest.remove(0);
        assert(next.drop_last() =~= done);
        assert(next.last() == q);
        let mut j: usize = 0;
        let mut found = false;
        while j < pts.len() && !found
            invariant
                j <= pts@.len(),
                !found ==> forall|a: int| 0 <= a < j ==> pts@[a] != q.point,
                found ==> j < pts@.len() && pts@[j as int] == q.point,
            decreases pts@.len() - j + (if found { 0int } else { 1int }),
        {
            if pts[j].equals(&q.point) {
                found = true;
            } else {
                j = j + 1;
            }
        }
        if found {
            let ghost old_groups = groups@;
            let mut g = groups.remove(j);
            g.push(q);
            groups.insert(j, g);
            assert(groups@ =~= old_groups.update(j as int, groups@[j as int]));
            assert(point_set(done).contains(q.point));
            proof {
                assert forall|h: int| 0 <= h < pts@.len() implies (#[trigger] groups@[h])@ == queries_at(
                    next,
                    pts@[h],
                ) by {
                    if h != j {
                        assert(pts@[h] != q.point);
                    }
                }
            }
        } else {
            assert(!point_set(done).contains(q.point));
            proof {
                lemma_absent_point(done, q.point);
            }
            pts.push(q.point);
            let mut g: Vec<EvaluationQuery> = Vec::new();
            g.push(q);
            groups.push(g);
            assert(groups@[groups@.len() - 1]@ =~= queries_at(next, q.point));
        }
        i = i + 1;
    }
    assert(all.subrange(0, i as int) =~= all);
    (pts, groups)
}

/// Combines the queries at one point into its opening proof.
fn point_proof(sgate: &FieldCode, group: Vec<EvaluationQuery>, z: Scalar, w: Point, v: &Scalar) -> (r:
    EvaluationProof)
    requires
        group@.len() > 0,
    ensures
        r.point == z,
        r.w == w,
        match r.s {
            SchemaItem::Add(c, g) => {
                &&& *c == commitment_comb(group@, *v)
                &&& match *g {
                    SchemaItem::Generator(e) => e.val() == fneg(eval_comb(group@, v.val())),
                    _ => false,
                }
            },
            _ => false,
        },
{
    let ghost all = group@;
    let mut rest = group;
    let last = rest.pop().unwrap();
    let mut acc_eval = sgate.mul(v, &sgate.zero());
    acc_eval = sgate.add(&acc_eval, &last.eval);
    let mut acc = last.commitment;
    assert(all.subrange(rest@.len() as int, all.len() as int) =~= seq![last]);
    assert(seq![last].drop_first() =~= Seq::<EvaluationQuery>::empty());
    assert(eval_comb(Seq::<EvaluationQuery>::empty(), v.val()) == 0);
    assert(eval_comb(seq![last], v.val()) == fadd(fmul(v.val(), 0), last.eval.val()));
    while rest.len() > 0
        invariant
            rest@ == all.subrange(0, rest@.len() as int),
            rest@.len() < all.len(),
            acc == commitment_comb(all.subrange(rest@.len() as int, all.len() as int), *v),
            acc_eval.val() == eval_comb(all.subrange(rest@.len() as int, all.len() as int), v.val()),
        decreases rest@.len(),
    {
        let ghost k = rest@.len() as int;
        let q = rest.pop().unwrap();
        assert(all.subrange(k - 1, all.len() as int).drop_first() =~= all.subrange(k, all.len() as int));
        acc = SchemaItem::Add(Box::new(SchemaItem::Scale(*v, Box::new(acc))), Box::new(q.commitment));
        let t = sgate.mul(v, &acc_eval);
        acc_eval = sgate.add(&t, &q.eval);
    }
    assert(all.subrange(0, all.len() as int) =~= all);
    let e = sgate.neg(&acc_eval);
    EvaluationProof { point: z, s: SchemaItem::Add(Box::new(acc), Box::new(SchemaItem::Generator(e))), w }
}

/// One opening proof per point that the queries open at, in order of first
/// appearance, with the witness commitments `ws` read for those points in
/// the same order and the challenge `v` combining the queries at a point.
pub fn get_point_schemas(sgate: &FieldCode, queries: Vec<EvaluationQuery>, v: &Scalar, ws: &Vec<Point>) -> (r:
    Result<Vec<EvaluationProof>, VerifyError>)
    ensures
        r is Err <==> ws@.len() != point_set(queries@).len(),
        r is Err ==> r->Err_0 == VerifyError::MalformedProof,
        r is Ok ==> {
            let pts = point_set(queries@);
            &&& r->Ok_0@.len() == pts.len()
            &&& forall|i: int|
                0 <= i < pts.len() ==> point_proof_ok(#[trigger] r->Ok_0@[i], queries@, pts[i], ws@[i], *v)
        },
{
    let ghost qs = queries@;
    let (pts, groups) = group_by_point(queries);
    if ws.len() != pts.len() {
        return Err(VerifyError::MalformedProof);
    }
    let mut groups = groups;
    let mut out: Vec<EvaluationProof> = Vec::new();
    let mut i: usize = 0;
    let ghost all_groups = groups@;
    let n = pts.len();
    while groups.len() > 0
        invariant
            n == pts@.len(),
            pts@ == point_set(qs),
            ws@.len() == pts@.len(),
            all_groups.len() == pts@.len(),
            forall|g: int| 0 <= g < pts@.len() ==> (#[trigger] all_groups[g])@ == queries_at(qs, pts@[g]),
            i + groups@.len() == pts@.len(),
            groups@ == all_groups.subrange(i as int, all_groups.len() as int),
            out@.len() == i,
            forall|k: int| 0 <= k < i ==> point_proof_ok(#[trigger] out@[k], qs, pts@[k], ws@[k], *v),
        decreases groups@.len(),
    {
        let group = groups.remove(0);
        assert(group == all_groups[i as int]);
        proof {
            lemma_point_has_queries(qs, pts@[i as int]);
        }
        let p = point_proof(sgate, group, pts[i], ws[i], v);
        out.push(p);
        i = i + 1;
        assert(groups@ =~= all_groups.subrange(i as int, all_groups.len() as int));
    }
    Ok(out)
}

proof fn lemma_point_has_queries(qs: Seq<EvaluationQuery>, z: Scalar)
    requires
        point_set(qs).contains(z),
    ensures
        queries_at(qs, z).len() > 0,
    decreases qs.len(),
{
    if qs.len() > 0 {
        let p = point_set(qs.drop_last());
        if qs.last().point != z {
            if !p.contains(qs.last().point) {
                let i = choose|i: int| 0 <= i < p.push(qs.last().point).len() && p.push(qs.last().point)[i] == z;
                assert(p[i] == z);
            }
            lemma_point_has_queries(qs.drop_last(), z);
        }
    }
}

} // verus!
