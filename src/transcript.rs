//! Replaying a proof's transcript into a verifier state.
use vstd::prelude::*;
use crate::arith::FieldCode;
use crate::error::VerifyError;
use crate::expression::Expression;
use crate::field::{limbs_value, Scalar};
use crate::schema::Point;
use crate::verify::{LookupEvaluated, PermutationEvaluatedSet, PlonkCommonSetup, VerifierParams};
use crate::queries::permutation_sets_ok;

verus! {

/// One call made on a transcript: what was absorbed, read or squeezed.
/// A read that found nothing carries `None`.
pub enum TranscriptEvent {
    CommonPoint(Point),
    CommonScalar(Scalar),
    ReadPoint(Option<Point>),
    ReadScalar(Option<Scalar>),
    Squeeze(Scalar),
}

/// A proof transcript: a cursor over the proof's bytes and a running
/// Fiat-Shamir state. Reads return `None` once the proof bytes run out or
/// do not encode what is asked for.
pub trait TranscriptRead {
    /// The log of every call made on this transcript so far. An
    /// implementation that is verified defines it; the contracts below say
    /// how each call extends it.
    closed spec fn events(&self) -> Seq<TranscriptEvent> {
        Seq::empty()
    }

    fn read_point(&mut self) -> (r: Option<Point>)
        ensures
            final(self).events() == old(self).events().push(TranscriptEvent::ReadPoint(r)),
    ;

    fn read_scalar(&mut self) -> (r: Option<Scalar>)
        ensures
            final(self).events() == old(self).events().push(TranscriptEvent::ReadScalar(r)),
    ;

    /// Absorbs a point that the verifier already knows.
    fn common_point(&mut self, p: &Point)
        ensures
            final(self).events() == old(self).events().push(TranscriptEvent::CommonPoint(*p)),
    ;

    /// Absorbs a scalar that the verifier already knows.
    fn common_scalar(&mut self, s: &Scalar)
        ensures
            final(self).events() == old(self).events().push(TranscriptEvent::CommonScalar(*s)),
    ;

    /// A challenge derived from everything absorbed so far.
    fn squeeze_challenge_scalar(&mut self) -> (r: Scalar)
        ensures
            final(self).events() == old(self).events().push(TranscriptEvent::Squeeze(r)),
    ;
}

pub open spec fn rp(p: Point) -> TranscriptEvent {
    TranscriptEvent::ReadPoint(Some(p))
}

pub open spec fn rs(s: Scalar) -> TranscriptEvent {
    TranscriptEvent::ReadScalar(Some(s))
}

/// The last call on the transcript was a read that found nothing.
pub open spec fn failed_read(events: Seq<TranscriptEvent>) -> bool {
    &&& events.len() > 0
    &&& (events.last() == TranscriptEvent::ReadPoint(None) || events.last()
        == TranscriptEvent::ReadScalar(None))
}

/// Blocks of events, one after the other.
pub open spec fn flat(s: Seq<Seq<TranscriptEvent>>) -> Seq<TranscriptEvent>
    decreases s.len(),
{
    if s.len() == 0 {
        seq![]
    } else {
        flat(s.drop_last()) + s.last()
    }
}

pub open spec fn points_read(ps: Seq<Point>) -> Seq<TranscriptEvent> {
    Seq::new(ps.len(), |i: int| rp(ps[i]))
}

pub open spec fn scalars_read(ss: Seq<Scalar>) -> Seq<TranscriptEvent> {
    Seq::new(ss.len(), |i: int| rs(ss[i]))
}

pub open spec fn points_absorbed(ps: Seq<Point>) -> Seq<TranscriptEvent> {
    Seq::new(ps.len(), |i: int| TranscriptEvent::CommonPoint(ps[i]))
}

proof fn lemma_flat_step(s: Seq<Seq<TranscriptEvent>>, x: Seq<TranscriptEvent>)
    ensures
        flat(s.push(x)) == flat(s) + x,
{
    assert(s.push(x).drop_last() =~= s);
}

/// The layout of a circuit's verifying key: what the transcript holds for
/// each proof, and the key's own commitments and gates.
pub struct VerifyingKey {
    pub num_instance_columns: usize,
    pub num_advice_columns: usize,
    /// (column, rotation) of each instance query.
    pub instance_queries: Vec<(usize, i32)>,
    pub advice_queries: Vec<(usize, i32)>,
    pub fixed_queries: Vec<(usize, i32)>,
    pub gates: Vec<Vec<Expression>>,
    pub num_lookups: usize,
    /// The number of sets the permutation columns are split into.
    pub permutation_chunks: usize,
    pub quotient_poly_degree: usize,
    pub fixed_commitments: Vec<Point>,
    pub permutation_commitments: Vec<Point>,
    /// The key's fingerprint, absorbed before anything else.
    pub transcript_repr: Scalar,
    pub blinding_factors: u32,
    /// The size of the evaluation domain.
    pub n: u32,
    /// The generator of the evaluation domain.
    pub omega: Scalar,
}

/// Reads `n` points: the points read, in order, or an error at the first
/// read that finds nothing.
pub fn read_n_points<T: TranscriptRead>(transcript: &mut T, n: usize) -> (r: Result<
    Vec<Point>,
    VerifyError,
>)
    ensures
        r is Ok ==> r->Ok_0@.len() == n && final(transcript).events() == old(transcript).events()
            + points_read(r->Ok_0@),
        r is Err ==> r->Err_0 == VerifyError::MalformedProof && failed_read(final(transcript).events()),
{
    let ghost e0 = transcript.events();
    let mut out: Vec<Point> = Vec::new();
    let mut i: usize = 0;
    while i < n
        invariant
            i <= n,
            out@.len() == i,
            transcript.events() == e0 + points_read(out@),
        decreases n - i,
    {
        let ghost before = out@;
        match transcript.read_point() {
            Some(p) => {
                out.push(p);
                assert(points_read(out@) =~= points_read(before).push(rp(p)));
            },
            None => {
                return Err(VerifyError::MalformedProof);
            },
        }
        i = i + 1;
    }
    Ok(out)
}

/// Reads `n` scalars: the scalars read, in order, or an error at the first
/// read that finds nothing.
pub fn read_n_scalars<T: TranscriptRead>(transcript: &mut T, n: usize) -> (r: Result<
    Vec<Scalar>,
    VerifyError,
>)
    ensures
        r is Ok ==> r->Ok_0@.len() == n && final(transcript).events() == old(transcript).events()
            + scalars_read(r->Ok_0@),
        r is Err ==> r->Err_0 == VerifyError::MalformedProof && failed_read(final(transcript).events()),
{
    let ghost e0 = transcript.events();
    let mut out: Vec<Scalar> = Vec::new();
    let mut i: usize = 0;
    while i < n
        invariant
            i <= n,
            out@.len() == i,
            transcript.events() == e0 + scalars_read(out@),
        decreases n - i,
    {
        let ghost before = out@;
        match transcript.read_scalar() {
            Some(s) => {
                out.push(s);
                assert(scalars_read(out@) =~= scalars_read(before).push(rs(s)));
            },
            None => {
                return Err(VerifyError::MalformedProof);
            },
        }
        i = i + 1;
    }
    Ok(out)
}

fn read_point<T: TranscriptRead>(transcript: &mut T) -> (r: Result<Point, VerifyError>)
    ensures
        r is Ok ==> final(transcript).events() == old(transcript).events().push(rp(r->Ok_0)),
        r is Err ==> r->Err_0 == VerifyError::MalformedProof && failed_read(final(transcript).events()),
{
    match transcript.read_point() {
        Some(p) => Ok(p),
        None => Err(VerifyError::MalformedProof),
    }
}

fn read_scalar<T: TranscriptRead>(transcript: &mut T) -> (r: Result<Scalar, VerifyError>)
    ensures
        r is Ok ==> final(transcript).events() == old(transcript).events().push(rs(r->Ok_0)),
        r is Err ==> r->Err_0 == VerifyError::MalformedProof && failed_read(final(transcript).events()),
{
    match transcript.read_scalar() {
        Some(s) => Ok(s),
        None => Err(VerifyError::MalformedProof),
    }
}

/// For each of `num` proof instances, reads `count` points.
fn read_points_per_proof<T: TranscriptRead>(transcript: &mut T, num: usize, count: usize) -> (r: Result<
    Vec<Vec<Point>>,
    VerifyError,
>)
    ensures
        r is Ok ==> {
            &&& r->Ok_0@.len() == num
            &&& forall|k: int| 0 <= k < num ==> (#[trigger] r->Ok_0@[k])@.len() == count
            &&& final(transcript).events() == old(transcript).events() + flat(
                Seq::new(num as nat, |k: int| points_read(r->Ok_0@[k]@)),
            )
        },
        r is Err ==> r->Err_0 == VerifyError::MalformedProof && failed_read(final(transcript).events()),
{
    let ghost e0 = transcript.events();
    let mut out: Vec<Vec<Point>> = Vec::new();
    let mut k: usize = 0;
    while k < num
        invariant
            k <= num,
            out@.len() == k,
            forall|j: int| 0 <= j < k ==> (#[trigger] out@[j])@.len() == count,
            transcript.events() == e0 + flat(Seq::new(k as nat, |j: int| points_read(out@[j]@))),
        decreases num - k,
    {
        let ghost before = out@;
        let ps = read_n_points(transcript, count)?;
        out.push(ps);
        proof {
            assert(Seq::new((k + 1) as nat, |j: int| points_read(out@[j]@)) =~= Seq::new(
                k as nat,
                |j: int| points_read(before[j]@),
            ).push(points_read(out@[k as int]@)));
            lemma_flat_step(Seq::new(k as nat, |j: int| points_read(before[j]@)), points_read(out@[k as int]@));
        }
        k = k + 1;
    }
    Ok(out)
}

/// For each of `num` proof instances, reads `count` scalars.
fn read_scalars_per_proof<T: TranscriptRead>(transcript: &mut T, num: usize, count: usize) -> (r: Result<
    Vec<Vec<Scalar>>,
    VerifyError,
>)
    ensures
        r is Ok ==> {
            &&& r->Ok_0@.len() == num
            &&& forall|k: int| 0 <= k < num ==> (#[trigger] r->Ok_0@[k])@.len() == count
            &&& final(transcript).events() == old(transcript).events() + flat(
                Seq::new(num as nat, |k: int| scalars_read(r->Ok_0@[k]@)),
            )
        },
        r is Err ==> r->Err_0 == VerifyError::MalformedProof && failed_read(final(transcript).events()),
{
    let ghost e0 = transcript.events();
    let mut out: Vec<Vec<Scalar>> = Vec::new();
    let mut k: usize = 0;
    while k < num
        invariant
            k <= num,
            out@.len() == k,
            forall|j: int| 0 <= j < k ==> (#[trigger] out@[j])@.len() == count,
            transcript.events() == e0 + flat(Seq::new(k as nat, |j: int| scalars_read(out@[j]@))),
        decreases num - k,
    {
        let ghost before = out@;
        let ss = read_n_scalars(transcript, count)?;
        out.push(ss);
        proof {
            assert(Seq::new((k + 1) as nat, |j: int| scalars_read(out@[j]@)) =~= Seq::new(
                k as nat,
                |j: int| scalars_read(before[j]@),
            ).push(scalars_read(out@[k as int]@)));
            lemma_flat_step(Seq::new(k as nat, |j: int| scalars_read(before[j]@)), scalars_read(out@[k as int]@));
        }
        k = k + 1;
    }
    Ok(out)
}

/// A copy of a gate polynomial, its constants lifted into the arithmetic.
pub fn from_expression(sgate: &FieldCode, e: &Expression) -> (r: Expression)
    ensures
        r == *e,
    decreases e,
{
    match e {
        Expression::Constant(c) => Expression::Constant(sgate.from_constant(c)),
        Expression::Selector(s) => Expression::Selector(*s),
        Expression::Fixed { query_index, column_index, rotation } => Expression::Fixed {
            query_index: *query_index,
            column_index: *column_index,
            rotation: *rotation,
        },
        Expression::Advice { query_index, column_index, rotation } => Expression::Advice {
            query_index: *query_index,
            column_index: *column_index,
            rotation: *rotation,
        },
        Expression::Instance { query_index, column_index, rotation } => Expression::Instance {
            query_index: *query_index,
            column_index: *column_index,
            rotation: *rotation,
        },
        Expression::Negated(a) => Expression::Negated(Box::new(from_expression(sgate, a))),
        Expression::Sum(a, b) => Expression::Sum(
            Box::new(from_expression(sgate, a)),
            Box::new(from_expression(sgate, b)),
        ),
        Expression::Product(a, b) => Expression::Product(
            Box::new(from_expression(sgate, a)),
            Box::new(from_expression(sgate, b)),
        ),
        Expression::Scaled(a, f) => Expression::Scaled(
            Box::new(from_expression(sgate, a)),
            sgate.from_constant(f),
        ),
    }
}

/// A copy of every gate's polynomials.
pub fn copy_gates(sgate: &FieldCode, gates: &Vec<Vec<Expression>>) -> (r: Vec<Vec<Expression>>)
    ensures
        r@.len() == gates@.len(),
        forall|i: int| 0 <= i < gates@.len() ==> (#[trigger] r@[i])@ == gates@[i]@,
{
    let mut out: Vec<Vec<Expression>> = Vec::new();
    let mut i: usize = 0;
    while i < gates.len()
        invariant
            i <= gates@.len(),
            out@.len() == i,
            forall|k: int| 0 <= k < i ==> (#[trigger] out@[k])@ == gates@[k]@,
        decreases gates@.len() - i,
    {
        let mut polys: Vec<Expression> = Vec::new();
        let mut j: usize = 0;
        while j < gates[i].len()
            invariant
                i < gates@.len(),
                j <= gates@[i as int]@.len(),
                polys@ == gates@[i as int]@.subrange(0, j as int),
            decreases gates@[i as int]@.len() - j,
        {
            polys.push(from_expression(sgate, &gates[i][j]));
            j = j + 1;
            assert(polys@ =~= gates@[i as int]@.subrange(0, j as int));
        }
        assert(gates@[i as int]@.subrange(0, j as int) =~= gates@[i as int]@);
        out.push(polys);
        i = i + 1;
    }
    out
}

pub open spec fn set_evals_read(set: PermutationEvaluatedSet) -> Seq<TranscriptEvent> {
    seq![rs(set.product_eval), rs(set.product_next_eval)] + match set.product_last_eval {
        Some(l) => seq![rs(l)],
        None => Seq::<TranscriptEvent>::empty(),
    }
}

/// The reads of a permutation's evaluations, set after set.
pub open spec fn sets_read(sets: Seq<PermutationEvaluatedSet>) -> Seq<TranscriptEvent> {
    flat(Seq::new(sets.len(), |i: int| set_evals_read(sets[i])))
}

pub open spec fn set_commitments(sets: Seq<PermutationEvaluatedSet>) -> Seq<Point> {
    Seq::new(sets.len(), |i: int| sets[i].product_commitment)
}

pub open spec fn lookup_evals_read(l: LookupEvaluated) -> Seq<TranscriptEvent> {
    seq![
        rs(l.product_eval),
        rs(l.product_next_eval),
        rs(l.permuted_input_eval),
        rs(l.permuted_input_inv_eval),
        rs(l.permuted_table_eval),
    ]
}

/// The reads of the lookups' evaluations, lookup after lookup.
pub open spec fn lookups_evals_read(ls: Seq<LookupEvaluated>) -> Seq<TranscriptEvent> {
    flat(Seq::new(ls.len(), |i: int| lookup_evals_read(ls[i])))
}

/// The reads of the lookups' permuted input and table commitments.
pub open spec fn lookups_permuted_read(ls: Seq<LookupEvaluated>) -> Seq<TranscriptEvent> {
    flat(
        Seq::new(
            ls.len(),
            |i: int| seq![rp(ls[i].permuted_input_commitment), rp(ls[i].permuted_table_commitment)],
        ),
    )
}

pub open spec fn pairs_read(ps: Seq<(Point, Point)>) -> Seq<TranscriptEvent> {
    flat(Seq::new(ps.len(), |i: int| seq![rp(ps[i].0), rp(ps[i].1)]))
}

pub open spec fn lookup_products(ls: Seq<LookupEvaluated>) -> Seq<Point> {
    Seq::new(ls.len(), |i: int| ls[i].product_commitment)
}

/// Reads the evaluations of one proof instance's permutation product sets,
/// whose commitments were read before: the product at `x` and at `x_next`
/// for each set, and at the last usable row for every set but the last.
pub fn evaluate_permutation<T: TranscriptRead>(transcript: &mut T, commitments: &Vec<Point>) -> (r:
    Result<Vec<PermutationEvaluatedSet>, VerifyError>)
    ensures
        r is Err ==> r->Err_0 == VerifyError::MalformedProof && failed_read(final(transcript).events()),
        r is Ok ==> {
            &&& set_commitments(r->Ok_0@) == commitments@
            &&& forall|i: int|
                0 <= i < commitments@.len() ==> ((#[trigger] r->Ok_0@[i]).product_last_eval is Some
                    <==> i < commitments@.len() - 1)
            &&& permutation_sets_ok(r->Ok_0@)
            &&& final(transcript).events() == old(transcript).events() + sets_read(r->Ok_0@)
        },
{
    let ghost e0 = transcript.events();
    let mut out: Vec<PermutationEvaluatedSet> = Vec::new();
    let mut i: usize = 0;
    while i < commitments.len()
        invariant
            i <= commitments@.len(),
            out@.len() == i,
            forall|k: int| 0 <= k < i ==> (#[trigger] out@[k]).product_commitment == commitments@[k],
            forall|k: int|
                0 <= k < i ==> ((#[trigger] out@[k]).product_last_eval is Some <==> k < commitments@.len() - 1),
            transcript.events() == e0 + sets_read(out@),
        decreases commitments@.len() - i,
    {
        let ghost before = out@;
        let product_eval = read_scalar(transcript)?;
        let product_next_eval = read_scalar(transcript)?;
        let product_last_eval = if i + 1 < commitments.len() {
            Some(read_scalar(transcript)?)
        } else {
            None
        };
        let set = PermutationEvaluatedSet {
            product_commitment: commitments[i],
            product_eval,
            product_next_eval,
            product_last_eval,
        };
        out.push(set);
        proof {
            assert(Seq::new(out@.len(), |j: int| set_evals_read(out@[j])) =~= Seq::new(
                before.len(),
                |j: int| set_evals_read(before[j]),
            ).push(set_evals_read(set)));
            lemma_flat_step(Seq::new(before.len(), |j: int| set_evals_read(before[j])), set_evals_read(set));
        }
        i = i + 1;
    }
    assert(set_commitments(out@) =~= commitments@);
    Ok(out)
}

/// Reads one lookup argument's evaluations, whose commitments were read
/// before.
fn evaluate_lookup<T: TranscriptRead>(transcript: &mut T, permuted: (Point, Point), product: Point) -> (r:
    Result<LookupEvaluated, VerifyError>)
    ensures
        r is Err ==> r->Err_0 == VerifyError::MalformedProof && failed_read(final(transcript).events()),
        r is Ok ==> {
            &&& r->Ok_0.permuted_input_commitment == permuted.0
            &&& r->Ok_0.permuted_table_commitment == permuted.1
            &&& r->Ok_0.product_commitment == product
            &&& final(transcript).events() == old(transcript).events() + lookup_evals_read(r->Ok_0)
        },
{
    let ghost e0 = transcript.events();
    let product_eval = read_scalar(transcript)?;
    let product_next_eval = read_scalar(transcript)?;
    let permuted_input_eval = read_scalar(transcript)?;
    let permuted_input_inv_eval = read_scalar(transcript)?;
    let permuted_table_eval = read_scalar(transcript)?;
    let l = LookupEvaluated {
        permuted_input_commitment: permuted.0,
        permuted_table_commitment: permuted.1,
        product_commitment: product,
        product_eval,
        product_next_eval,
        permuted_input_eval,
        permuted_input_inv_eval,
        permuted_table_eval,
    };
    assert(transcript.events() =~= e0 + lookup_evals_read(l));
    Ok(l)
}

/// Each proof instance supplies one commitment and one value list per
/// instance column, and no column is longer than the rows that are not
/// blinded.
pub open spec fn instances_valid(
    vk: &VerifyingKey,
    instances: Seq<Vec<Vec<Scalar>>>,
    commitments: Seq<Vec<Point>>,
) -> bool {
    &&& instances.len() == commitments.len()
    &&& vk.n as int >= vk.blinding_factors as int + 1
    &&& forall|k: int|
        0 <= k < instances.len() ==> {
            &&& (#[trigger] instances[k])@.len() == vk.num_instance_columns
            &&& commitments[k]@.len() == vk.num_instance_columns
            &&& forall|c: int|
                0 <= c < instances[k]@.len() ==> (#[trigger] instances[k]@[c])@.len() <= vk.n
                    - (vk.blinding_factors + 1)
        }
}

fn check_instances(vk: &VerifyingKey, instances: &Vec<Vec<Vec<Scalar>>>, commitments: &Vec<Vec<Point>>) -> (r:
    bool)
    ensures
        r == instances_valid(vk, instances@, commitments@),
{
    if instances.len() != commitments.len() || vk.n < vk.blinding_factors || vk.n - vk.blinding_factors < 1 {
        return false;
    }
    let limit: u32 = vk.n - vk.blinding_factors - 1;
    let mut k: usize = 0;
    while k < instances.len()
        invariant
            instances@.len() == commitments@.len(),
            vk.n as int >= vk.blinding_factors as int + 1,
            limit == vk.n - (vk.blinding_factors + 1),
            k <= instances@.len(),
            forall|j: int|
                0 <= j < k ==> {
                    &&& (#[trigger] instances@[j])@.len() == vk.num_instance_columns
                    &&& commitments@[j]@.len() == vk.num_instance_columns
                    &&& forall|c: int|
                        0 <= c < instances@[j]@.len() ==> (#[trigger] instances@[j]@[c])@.len()
                            <= vk.n - (vk.blinding_factors + 1)
                },
        decreases instances@.len() - k,
    {
        if instances[k].len() != vk.num_instance_columns || commitments[k].len() != vk.num_instance_columns {
            return false;
        }
        let mut c: usize = 0;
        while c < instances[k].len()
            invariant
                k < instances@.len(),
                limit == vk.n - (vk.blinding_factors + 1),
                c <= instances@[k as int]@.len(),
                forall|d: int| 0 <= d < c ==> (#[trigger] instances@[k as int]@[d])@.len() <= limit,
            decreases instances@[k as int]@.len() - c,
        {
            if instances[k][c].len() > limit as usize {
                return false;
            }
            c = c + 1;
        }
        k = k + 1;
    }
    true
}

fn copy_vec<T: Copy>(v: &Vec<T>) -> (r: Vec<T>)
    ensures
        r@ == v@,
{
    let mut out: Vec<T> = Vec::new();
    let mut i: usize = 0;
    while i < v.len()
        invariant
            i <= v@.len(),
            out@ == v@.subrange(0, i as int),
        decreases v@.len() - i,
    {
        out.push(v[i]);
        i = i + 1;
        assert(out@ =~= v@.subrange(0, i as int));
    }
    assert(v@.subrange(0, v@.len() as int) =~= v@);
    out
}

/// The value of the field's `DELTA` constant.
pub open spec fn delta_value() -> nat {
    limbs_value(0x870e56bbe533e9a2, 0x5b5f898e5e963f25, 0x64ec26aad4c86e71, 0x09226b6e22c6f0ca)
}

/// What a reconstruction read, measured against the verifying key: one
/// entry per proof instance everywhere, every list as long as the key
/// declares, and the key's own data carried over.
pub open spec fn matches_key(
    r: &VerifierParams,
    vk: &VerifyingKey,
    instance_commitments: Seq<Vec<Point>>,
    u: Scalar,
    v: Scalar,
    xi: Scalar,
) -> bool {
    &&& r.instances_consistent()
    &&& r.advice_evals@.len() == instance_commitments.len()
    &&& r.instance_commitments@ == instance_commitments
    &&& forall|k: int|
        0 <= k < instance_commitments.len() ==> {
            &&& (#[trigger] r.advice_commitments@[k])@.len() == vk.num_advice_columns
            &&& r.instance_evals@[k]@.len() == vk.instance_queries@.len()
            &&& r.advice_evals@[k]@.len() == vk.advice_queries@.len()
            &&& r.permutation_evaluated@[k]@.len() == vk.permutation_chunks
            &&& permutation_sets_ok(r.permutation_evaluated@[k]@)
            &&& r.lookup_evaluated@[k]@.len() == vk.num_lookups
        }
    &&& r.fixed_evals@.len() == vk.fixed_queries@.len()
    &&& r.permutation_evals@.len() == vk.permutation_commitments@.len()
    &&& r.vanish_commitments@.len() == vk.quotient_poly_degree
    &&& r.instance_queries@ == vk.instance_queries@
    &&& r.advice_queries@ == vk.advice_queries@
    &&& r.fixed_queries@ == vk.fixed_queries@
    &&& r.fixed_commitments@ == vk.fixed_commitments@
    &&& r.permutation_commitments@ == vk.permutation_commitments@
    &&& r.gates@.len() == vk.gates@.len()
    &&& forall|i: int| 0 <= i < vk.gates@.len() ==> (#[trigger] r.gates@[i])@ == vk.gates@[i]@
    &&& r.common == PlonkCommonSetup { l: (vk.blinding_factors + 1) as u32, n: vk.n }
    &&& r.u == u && r.v == v && r.xi == xi
    &&& r.delta.val() == delta_value()
    &&& r.omega == vk.omega
}

/// The transcript log after a reconstruction that produced `r`, starting
/// from `start`: the key's fingerprint and the instance commitments are
/// absorbed; the advice commitments are read; `theta` is squeezed; the
/// lookups' permuted commitments are read; `beta` and `gamma` are squeezed;
/// the permutation and lookup product commitments and the random
/// commitment are read; `y` is squeezed; the quotient commitments are read;
/// `x` is squeezed; then the instance, advice, fixed and random
/// evaluations, the permutation's common evaluations, each instance's
/// permutation evaluations and its lookup evaluations are read.
pub open spec fn after_reconstruction(
    start: Seq<TranscriptEvent>,
    vk: &VerifyingKey,
    ic: Seq<Vec<Point>>,
    r: &VerifierParams,
) -> Seq<TranscriptEvent> {
    let num = ic.len();
    start + seq![TranscriptEvent::CommonScalar(vk.transcript_repr)] + flat(
        Seq::new(num, |k: int| points_absorbed(ic[k]@)),
    ) + flat(Seq::new(num, |k: int| points_read(r.advice_commitments@[k]@))) + seq![
        TranscriptEvent::Squeeze(r.theta),
    ] + flat(Seq::new(num, |k: int| lookups_permuted_read(r.lookup_evaluated@[k]@))) + seq![
        TranscriptEvent::Squeeze(r.beta),
        TranscriptEvent::Squeeze(r.gamma),
    ] + flat(Seq::new(num, |k: int| points_read(set_commitments(r.permutation_evaluated@[k]@))))
        + flat(Seq::new(num, |k: int| points_read(lookup_products(r.lookup_evaluated@[k]@)))) + seq![
        rp(r.random_commitment),
        TranscriptEvent::Squeeze(r.y),
    ] + points_read(r.vanish_commitments@) + seq![TranscriptEvent::Squeeze(r.x)] + flat(
        Seq::new(num, |k: int| scalars_read(r.instance_evals@[k]@)),
    ) + flat(Seq::new(num, |k: int| scalars_read(r.advice_evals@[k]@))) + scalars_read(
        r.fixed_evals@,
    ) + seq![rs(r.random_eval)] + scalars_read(r.permutation_evals@) + flat(
        Seq::new(num, |k: int| sets_read(r.permutation_evaluated@[k]@)),
    ) + flat(Seq::new(num, |k: int| lookups_evals_read(r.lookup_evaluated@[k]@)))
}

/// Absorbs every instance commitment, proof by proof.
fn absorb_instances<T: TranscriptRead>(transcript: &mut T, instance_commitments: &Vec<Vec<Point>>)
    ensures
        final(transcript).events() == old(transcript).events() + flat(
            Seq::new(instance_commitments@.len(), |k: int| points_absorbed(instance_commitments@[k]@)),
        ),
{
    let num_proofs = instance_commitments.len();
    let ghost ic = instance_commitments@;
    let ghost e1 = transcript.events();
        let mut k: usize = 0;
        while k < num_proofs
            invariant
                num_proofs == instance_commitments@.len(),
                ic == instance_commitments@,
                k <= num_proofs,
                transcript.events() == e1 + flat(Seq::new(k as nat, |j: int| points_absorbed(ic[j]@))),
            decreases num_proofs - k,
        {
            let ghost ek = transcript.events();
            let mut c: usize = 0;
            while c < instance_commitments[k].len()
                invariant
                    k < instance_commitments@.len(),
                    ic == instance_commitments@,
                    c <= instance_commitments@[k as int]@.len(),
                    transcript.events() == ek + points_absorbed(ic[k as int]@.subrange(0, c as int)),
                decreases instance_commitments@[k as int]@.len() - c,
            {
                transcript.common_point(&instance_commitments[k][c]);
                assert(points_absorbed(ic[k as int]@.subrange(0, c + 1)) =~= points_absorbed(
                    ic[k as int]@.subrange(0, c as int),
                ).push(TranscriptEvent::CommonPoint(ic[k as int]@[c as int])));
                c = c + 1;
            }
            proof {
                assert(ic[k as int]@.subrange(0, c as int) =~= ic[k as int]@);
                assert(Seq::new((k + 1) as nat, |j: int| points_absorbed(ic[j]@)) =~= Seq::new(
                    k as nat,
                    |j: int| points_absorbed(ic[j]@),
                ).push(points_absorbed(ic[k as int]@)));
                lemma_flat_step(Seq::new(k as nat, |j: int| points_absorbed(ic[j]@)), points_absorbed(ic[k as int]@));
            }
            k = k + 1;
        }
}

/// For each proof instance, reads the permuted input and table commitments
/// of each lookup.
fn read_lookups_permuted<T: TranscriptRead>(transcript: &mut T, num_proofs: usize, vk: &VerifyingKey) -> (r:
    Result<Vec<Vec<(Point, Point)>>, VerifyError>)
    ensures
        r is Err ==> r->Err_0 == VerifyError::MalformedProof && failed_read(final(transcript).events()),
        r is Ok ==> {
            &&& r->Ok_0@.len() == num_proofs
            &&& forall|j: int| 0 <= j < num_proofs ==> (#[trigger] r->Ok_0@[j])@.len() == vk.num_lookups
            &&& final(transcript).events() == old(transcript).events() + flat(
                Seq::new(num_proofs as nat, |j: int| pairs_read(r->Ok_0@[j]@)),
            )
        },
{
    let ghost e3 = transcript.events();
        let mut lookups_permuted: Vec<Vec<(Point, Point)>> = Vec::new();
        let mut k: usize = 0;
        while k < num_proofs
            invariant
                k <= num_proofs,
                lookups_permuted@.len() == k,
                forall|j: int| 0 <= j < k ==> (#[trigger] lookups_permuted@[j])@.len() == vk.num_lookups,
                transcript.events() == e3 + flat(Seq::new(k as nat, |j: int| pairs_read(lookups_permuted@[j]@))),
            decreases num_proofs - k,
        {
            let ghost ek = transcript.events();
            let mut permuted: Vec<(Point, Point)> = Vec::new();
            let mut i: usize = 0;
            while i < vk.num_lookups
                invariant
                    i <= vk.num_lookups,
                    permuted@.len() == i,
                    transcript.events() == ek + pairs_read(permuted@),
                decreases vk.num_lookups - i,
            {
                let ghost before = permuted@;
                let input = read_point(transcript)?;
                let table = read_point(transcript)?;
                permuted.push((input, table));
                proof {
                    assert(Seq::new(permuted@.len(), |j: int| seq![rp(permuted@[j].0), rp(permuted@[j].1)])
                        =~= Seq::new(before.len(), |j: int| seq![rp(before[j].0), rp(before[j].1)]).push(
                        seq![rp(input), rp(table)],
                    ));
                    lemma_flat_step(
                        Seq::new(before.len(), |j: int| seq![rp(before[j].0), rp(before[j].1)]),
                        seq![rp(input), rp(table)],
                    );
                    assert(transcript.events() =~= ek + pairs_read(permuted@));
                }
                i = i + 1;
            }
            let ghost before = lookups_permuted@;
            lookups_permuted.push(permuted);
            proof {
                assert(Seq::new((k + 1) as nat, |j: int| pairs_read(lookups_permuted@[j]@)) =~= Seq::new(
                    k as nat,
                    |j: int| pairs_read(before[j]@),
                ).push(pairs_read(lookups_permuted@[k as int]@)));
                lemma_flat_step(Seq::new(k as nat, |j: int| pairs_read(before[j]@)), pairs_read(lookups_permuted@[k as int]@));
            }
            k = k + 1;
        }
    Ok(lookups_permuted)
}

/// For each proof instance, reads the evaluations of its permutation sets.
fn evaluate_permutations<T: TranscriptRead>(
    transcript: &mut T,
    permutations_committed: &Vec<Vec<Point>>,
    vk: &VerifyingKey,
) -> (r: Result<Vec<Vec<PermutationEvaluatedSet>>, VerifyError>)
    requires
        forall|j: int|
            0 <= j < permutations_committed@.len() ==> (#[trigger] permutations_committed@[j])@.len()
                == vk.permutation_chunks,
    ensures
        r is Err ==> r->Err_0 == VerifyError::MalformedProof && failed_read(final(transcript).events()),
        r is Ok ==> {
            &&& r->Ok_0@.len() == permutations_committed@.len()
            &&& forall|j: int|
                0 <= j < permutations_committed@.len() ==> {
                    &&& set_commitments((#[trigger] r->Ok_0@[j])@) == permutations_committed@[j]@
                    &&& permutation_sets_ok(r->Ok_0@[j]@)
                }
            &&& final(transcript).events() == old(transcript).events() + flat(
                Seq::new(permutations_committed@.len(), |j: int| sets_read(r->Ok_0@[j]@)),
            )
        },
{
    let num_proofs = permutations_committed.len();
    let ghost e12 = transcript.events();
        let mut permutation_evaluated: Vec<Vec<PermutationEvaluatedSet>> = Vec::new();
        let mut k: usize = 0;
        while k < num_proofs
            invariant
                num_proofs == permutations_committed@.len(),
                forall|j: int| 0 <= j < num_proofs ==> (#[trigger] permutations_committed@[j])@.len() == vk.permutation_chunks,
                k <= num_proofs,
                permutation_evaluated@.len() == k,
                forall|j: int|
                    0 <= j < k ==> {
                        &&& set_commitments((#[trigger] permutation_evaluated@[j])@) == permutations_committed@[j]@
                        &&& permutation_sets_ok(permutation_evaluated@[j]@)
                    },
                transcript.events() == e12 + flat(Seq::new(k as nat, |j: int| sets_read(permutation_evaluated@[j]@))),
            decreases num_proofs - k,
        {
            let ghost before = permutation_evaluated@;
            let sets = evaluate_permutation(transcript, &permutations_committed[k])?;
            permutation_evaluated.push(sets);
            proof {
                assert(Seq::new((k + 1) as nat, |j: int| sets_read(permutation_evaluated@[j]@)) =~= Seq::new(
                    k as nat,
                    |j: int| sets_read(before[j]@),
                ).push(sets_read(permutation_evaluated@[k as int]@)));
                lemma_flat_step(Seq::new(k as nat, |j: int| sets_read(before[j]@)), sets_read(permutation_evaluated@[k as int]@));
            }
            k = k + 1;
        }
    Ok(permutation_evaluated)
}

/// For each proof instance, reads the evaluations of each lookup, whose
/// commitments were read before.
fn evaluate_lookups<T: TranscriptRead>(
    transcript: &mut T,
    lookups_permuted: &Vec<Vec<(Point, Point)>>,
    lookups_committed: &Vec<Vec<Point>>,
    vk: &VerifyingKey,
) -> (r: Result<Vec<Vec<LookupEvaluated>>, VerifyError>)
    requires
        lookups_permuted@.len() == lookups_committed@.len(),
        forall|j: int| 0 <= j < lookups_permuted@.len() ==> (#[trigger] lookups_permuted@[j])@.len() == vk.num_lookups,
        forall|j: int| 0 <= j < lookups_committed@.len() ==> (#[trigger] lookups_committed@[j])@.len() == vk.num_lookups,
    ensures
        r is Err ==> r->Err_0 == VerifyError::MalformedProof && failed_read(final(transcript).events()),
        r is Ok ==> {
            &&& r->Ok_0@.len() == lookups_permuted@.len()
            &&& forall|j: int| 0 <= j < lookups_permuted@.len() ==> (#[trigger] r->Ok_0@[j])@.len() == vk.num_lookups
            &&& forall|j: int, i: int|
                0 <= j < lookups_permuted@.len() && 0 <= i < vk.num_lookups ==> {
                    &&& (#[trigger] r->Ok_0@[j]@[i]).permuted_input_commitment == lookups_permuted@[j]@[i].0
                    &&& r->Ok_0@[j]@[i].permuted_table_commitment == lookups_permuted@[j]@[i].1
                    &&& r->Ok_0@[j]@[i].product_commitment == lookups_committed@[j]@[i]
                }
            &&& final(transcript).events() == old(transcript).events() + flat(
                Seq::new(lookups_permuted@.len(), |j: int| lookups_evals_read(r->Ok_0@[j]@)),
            )
        },
{
    let num_proofs = lookups_permuted.len();
    let ghost e13 = transcript.events();
        let mut lookup_evaluated: Vec<Vec<LookupEvaluated>> = Vec::new();
        let mut k: usize = 0;
        while k < num_proofs
            invariant
                num_proofs == lookups_permuted@.len(),
                num_proofs == lookups_committed@.len(),
                forall|j: int| 0 <= j < num_proofs ==> (#[trigger] lookups_permuted@[j])@.len() == vk.num_lookups,
                forall|j: int| 0 <= j < num_proofs ==> (#[trigger] lookups_committed@[j])@.len() == vk.num_lookups,
                k <= num_proofs,
                lookup_evaluated@.len() == k,
                forall|j: int| 0 <= j < k ==> (#[trigger] lookup_evaluated@[j])@.len() == vk.num_lookups,
                forall|j: int, i: int|
                    0 <= j < k && 0 <= i < vk.num_lookups ==> {
                        &&& (#[trigger] lookup_evaluated@[j]@[i]).permuted_input_commitment == lookups_permuted@[j]@[i].0
                        &&& lookup_evaluated@[j]@[i].permuted_table_commitment == lookups_permuted@[j]@[i].1
                        &&& lookup_evaluated@[j]@[i].product_commitment == lookups_committed@[j]@[i]
                    },
                transcript.events() == e13 + flat(Seq::new(k as nat, |j: int| lookups_evals_read(lookup_evaluated@[j]@))),
            decreases num_proofs - k,
        {
            let ghost ek = transcript.events();
            let mut evaluated: Vec<LookupEvaluated> = Vec::new();
            let mut i: usize = 0;
            while i < vk.num_lookups
                invariant
                    k < num_proofs,
                    num_proofs == lookups_permuted@.len(),
                    num_proofs == lookups_committed@.len(),
                    lookups_permuted@[k as int]@.len() == vk.num_lookups,
                    lookups_committed@[k as int]@.len() == vk.num_lookups,
                    i <= vk.num_lookups,
                    evaluated@.len() == i,
                    forall|m: int|
                        0 <= m < i ==> {
                            &&& (#[trigger] evaluated@[m]).permuted_input_commitment == lookups_permuted@[k as int]@[m].0
                            &&& evaluated@[m].permuted_table_commitment == lookups_permuted@[k as int]@[m].1
                            &&& evaluated@[m].product_commitment == lookups_committed@[k as int]@[m]
                        },
                    transcript.events() == ek + lookups_evals_read(evaluated@),
                decreases vk.num_lookups - i,
            {
                let ghost before = evaluated@;
                let l = evaluate_lookup(transcript, lookups_permuted[k][i], lookups_committed[k][i])?;
                evaluated.push(l);
                proof {
                    assert(Seq::new(evaluated@.len(), |j: int| lookup_evals_read(evaluated@[j])) =~= Seq::new(
                        before.len(),
                        |j: int| lookup_evals_read(before[j]),
                    ).push(lookup_evals_read(l)));
                    lemma_flat_step(Seq::new(before.len(), |j: int| lookup_evals_read(before[j])), lookup_evals_read(l));
                }
                i = i + 1;
            }
            let ghost before = lookup_evaluated@;
            lookup_evaluated.push(evaluated);
            proof {
                assert(Seq::new((k + 1) as nat, |j: int| lookups_evals_read(lookup_evaluated@[j]@)) =~= Seq::new(
                    k as nat,
                    |j: int| lookups_evals_read(before[j]@),
                ).push(lookups_evals_read(lookup_evaluated@[k as int]@)));
                lemma_flat_step(
                    Seq::new(k as nat, |j: int| lookups_evals_read(before[j]@)),
                    lookups_evals_read(lookup_evaluated@[k as int]@),
                );
            }
            k = k + 1;
        }

    Ok(lookup_evaluated)
}

impl VerifierParams {
    /// Replays a proof's transcript in the order the prover wrote it and
    /// collects what it holds. `instance_commitments` are the commitments
    /// to the instance columns in `instances`, one list per proof instance;
    /// `u`, `v` and `xi` are the opening challenges.
    pub fn from_transcript<T: TranscriptRead>(
        sgate: &FieldCode,
        u: &Scalar,
        v: &Scalar,
        xi: &Scalar,
        instances: &Vec<Vec<Vec<Scalar>>>,
        instance_commitments: Vec<Vec<Point>>,
        vk: &VerifyingKey,
        transcript: &mut T,
    ) -> (r: Result<VerifierParams, VerifyError>)
        ensures
            !instances_valid(vk, instances@, instance_commitments@) ==> r == Err::<
                VerifierParams,
                VerifyError,
            >(VerifyError::MalformedProof) && final(transcript).events() == old(transcript).events(),
            r is Err ==> r->Err_0 == VerifyError::MalformedProof,
            r is Err && instances_valid(vk, instances@, instance_commitments@) ==> failed_read(
                final(transcript).events(),
            ),
            r is Ok ==> matches_key(&r->Ok_0, vk, instance_commitments@, *u, *v, *xi),
            r is Ok ==> final(transcript).events() == after_reconstruction(
                old(transcript).events(),
                vk,
                instance_commitments@,
                &r->Ok_0,
            ),
    {
        if !check_instances(vk, instances, &instance_commitments) {
            return Err(VerifyError::MalformedProof);
        }
        Self::replay(sgate, u, v, xi, instance_commitments, vk, transcript)
    }

    /// The transcript replay itself, once the instances have been checked.
    #[verifier::rlimit(50)]
    fn replay<T: TranscriptRead>(
        sgate: &FieldCode,
        u: &Scalar,
        v: &Scalar,
        xi: &Scalar,
        instance_commitments: Vec<Vec<Point>>,
        vk: &VerifyingKey,
        transcript: &mut T,
    ) -> (r: Result<VerifierParams, VerifyError>)
        requires
            vk.n as int >= vk.blinding_factors as int + 1,
        ensures
            r is Err ==> r->Err_0 == VerifyError::MalformedProof && failed_read(final(transcript).events()),
            r is Ok ==> matches_key(&r->Ok_0, vk, instance_commitments@, *u, *v, *xi),
            r is Ok ==> final(transcript).events() == after_reconstruction(
                old(transcript).events(),
                vk,
                instance_commitments@,
                &r->Ok_0,
            ),
    {
        let num_proofs = instance_commitments.len();
        let ghost ic = instance_commitments@;
        let ghost e0 = transcript.events();

        transcript.common_scalar(&vk.transcript_repr);
        let ghost e1 = transcript.events();
        assert(e1 =~= e0 + seq![TranscriptEvent::CommonScalar(vk.transcript_repr)]);
        absorb_instances(transcript, &instance_commitments);
        let ghost e2 = transcript.events();

        let advice_commitments = read_points_per_proof(transcript, num_proofs, vk.num_advice_columns)?;
        let theta = transcript.squeeze_challenge_scalar();
        let ghost e3 = transcript.events();

        let lookups_permuted = read_lookups_permuted(transcript, num_proofs, vk)?;
        let ghost e4 = transcript.events();

        let beta = transcript.squeeze_challenge_scalar();
        let gamma = transcript.squeeze_challenge_scalar();
        let ghost e5 = transcript.events();
        let permutations_committed = read_points_per_proof(transcript, num_proofs, vk.permutation_chunks)?;
        let ghost e6 = transcript.events();
        let lookups_committed = read_points_per_proof(transcript, num_proofs, vk.num_lookups)?;
        let ghost e7 = transcript.events();

        let random_commitment = read_point(transcript)?;
        let y = transcript.squeeze_challenge_scalar();
        let ghost e8 = transcript.events();
        let vanish_commitments = read_n_points(transcript, vk.quotient_poly_degree)?;
        let x = transcript.squeeze_challenge_scalar();
        let ghost e9 = transcript.events();

        let instance_evals = read_scalars_per_proof(transcript, num_proofs, vk.instance_queries.len())?;
        let advice_evals = read_scalars_per_proof(transcript, num_proofs, vk.advice_queries.len())?;
        let ghost e10 = transcript.events();
        let fixed_evals = read_n_scalars(transcript, vk.fixed_queries.len())?;
        let random_eval = read_scalar(transcript)?;
        let ghost e11 = transcript.events();
        let permutation_evals = read_n_scalars(transcript, vk.permutation_commitments.len())?;
        let ghost e12 = transcript.events();

        let permutation_evaluated = evaluate_permutations(transcript, &permutations_committed, vk)?;
        let ghost e13 = transcript.events();

        let lookup_evaluated = evaluate_lookups(transcript, &lookups_permuted, &lookups_committed, vk)?;
        let r = VerifierParams {
            gates: copy_gates(sgate, &vk.gates),
            common: PlonkCommonSetup { l: vk.blinding_factors + 1, n: vk.n },
            lookup_evaluated,
            permutation_evaluated,
            instance_commitments,
            instance_evals,
            instance_queries: copy_vec(&vk.instance_queries),
            advice_commitments,
            advice_evals,
            advice_queries: copy_vec(&vk.advice_queries),
            fixed_commitments: copy_vec(&vk.fixed_commitments),
            fixed_evals,
            fixed_queries: copy_vec(&vk.fixed_queries),
            permutation_commitments: copy_vec(&vk.permutation_commitments),
            permutation_evals,
            vanish_commitments,
            random_commitment,
            random_eval,
            beta,
            gamma,
            theta,
            delta: Scalar::delta(),
            y,
            x,
            u: sgate.from_constant(u),
            v: sgate.from_constant(v),
            xi: sgate.from_constant(xi),
            omega: sgate.from_constant(&vk.omega),
        };
        proof {
            let num = num_proofs as nat;
            assert(Seq::new(num, |j: int| pairs_read(lookups_permuted@[j]@)) =~= Seq::new(
                num,
                |j: int| lookups_permuted_read(r.lookup_evaluated@[j]@),
            )) by {
                assert forall|j: int| 0 <= j < num implies pairs_read(lookups_permuted@[j]@)
                    == lookups_permuted_read(r.lookup_evaluated@[j]@) by {
                    assert(Seq::new(
                        lookups_permuted@[j]@.len(),
                        |i: int| seq![rp(lookups_permuted@[j]@[i].0), rp(lookups_permuted@[j]@[i].1)],
                    ) =~= Seq::new(
                        r.lookup_evaluated@[j]@.len(),
                        |i: int|
                            seq![
                                rp(r.lookup_evaluated@[j]@[i].permuted_input_commitment),
                                rp(r.lookup_evaluated@[j]@[i].permuted_table_commitment),
                            ],
                    ));
                }
            }
            assert(Seq::new(num, |j: int| points_read(permutations_committed@[j]@)) =~= Seq::new(
                num,
                |j: int| points_read(set_commitments(r.permutation_evaluated@[j]@)),
            ));
            assert(Seq::new(num, |j: int| points_read(lookups_committed@[j]@)) =~= Seq::new(
                num,
                |j: int| points_read(lookup_products(r.lookup_evaluated@[j]@)),
            )) by {
                assert forall|j: int| 0 <= j < num implies lookups_committed@[j]@ == lookup_products(
                    r.lookup_evaluated@[j]@,
                ) by {
                    assert(lookups_committed@[j]@ =~= lookup_products(r.lookup_evaluated@[j]@));
                }
            }
            assert(e4 == e3 + flat(Seq::new(num, |j: int| pairs_read(lookups_permuted@[j]@))));
            assert(transcript.events() =~= after_reconstruction(e0, vk, ic, &r));
        }
        Ok(r)
    }
}

} // verus!
