//! The group capability in its native form: commitments decoded as BN254
//! G1 points by `halo2curves`, and deferred combinations evaluated to points.
use vstd::prelude::*;
use group::{Curve, Group, GroupEncoding};
use halo2curves::bn256::{G1Affine, G1Compressed, G1};
use crate::error::VerifyError;
use crate::field::Scalar;
use crate::schema::{MultiOpenProof, Point, SchemaItem};

verus! {

/// Whether `G1Affine::from_bytes` accepts the encoding.
pub uninterp spec fn g1_decodes(b: Seq<u8>) -> bool;

/// The encoding of the sum of two points, as `G1 + G1` computes it.
pub uninterp spec fn g1_add_of(a: Seq<u8>, b: Seq<u8>) -> Seq<u8>;

/// The encoding of a point times a scalar, as `G1 * Fr` computes it.
pub uninterp spec fn g1_mul_of(p: Seq<u8>, k: nat) -> Seq<u8>;

/// The encoding of the group generator times a scalar.
pub uninterp spec fn g1_generator_mul_of(k: nat) -> Seq<u8>;

/// Relies on `GroupEncoding::from_bytes` of `G1Affine`: whether the bytes
/// are the compressed encoding of a curve point.
#[verifier::external_body]
fn decodes(p: &Point) -> (r: bool)
    ensures
        r == g1_decodes(p.bytes@),
{
    let mut c = G1Compressed::default();
    c.as_mut().copy_from_slice(&p.bytes);
    bool::from(G1Affine::from_bytes(&c).is_some())
}

/// Relies on `G1 + G1` and `GroupEncoding::to_bytes`: the sum of two
/// decodable points, whose encoding decodes again.
#[verifier::external_body]
fn point_add(a: &Point, b: &Point) -> (r: Point)
    requires
        g1_decodes(a.bytes@),
        g1_decodes(b.bytes@),
    ensures
        r.bytes@ == g1_add_of(a.bytes@, b.bytes@),
        g1_decodes(r.bytes@),
{
    let (mut ca, mut cb) = (G1Compressed::default(), G1Compressed::default());
    ca.as_mut().copy_from_slice(&a.bytes);
    cb.as_mut().copy_from_slice(&b.bytes);
    let s = G1::from_bytes(&ca).unwrap() + G1::from_bytes(&cb).unwrap();
    Point { bytes: s.to_affine().to_bytes().as_ref().try_into().unwrap() }
}

/// Relies on `G1 * Fr` and `GroupEncoding::to_bytes`: a decodable point
/// times a scalar, whose encoding decodes again.
#[verifier::external_body]
fn point_mul(p: &Point, k: &Scalar) -> (r: Point)
    requires
        g1_decodes(p.bytes@),
    ensures
        r.bytes@ == g1_mul_of(p.bytes@, k.val()),
        g1_decodes(r.bytes@),
{
    let mut c = G1Compressed::default();
    c.as_mut().copy_from_slice(&p.bytes);
    let f = halo2curves::bn256::Fr::from_bytes(&k.to_bytes()).unwrap();
    let s = G1::from_bytes(&c).unwrap() * f;
    Point { bytes: s.to_affine().to_bytes().as_ref().try_into().unwrap() }
}

/// Relies on `Group::generator` of `G1` and `G1 * Fr`: the generator times
/// a scalar, whose encoding decodes.
#[verifier::external_body]
fn generator_mul(k: &Scalar) -> (r: Point)
    ensures
        r.bytes@ == g1_generator_mul_of(k.val()),
        g1_decodes(r.bytes@),
{
    let f = halo2curves::bn256::Fr::from_bytes(&k.to_bytes()).unwrap();
    let s = G1::generator() * f;
    Point { bytes: s.to_affine().to_bytes().as_ref().try_into().unwrap() }
}

/// The point a combination stands for, or `None` when one of its
/// commitments is not the encoding of a point.
pub open spec fn schema_value(item: SchemaItem) -> Option<Seq<u8>>
    decreases item,
{
    match item {
        SchemaItem::Commit(p) => if g1_decodes(p.bytes@) {
            Some(p.bytes@)
        } else {
            None
        },
        SchemaItem::Generator(k) => Some(g1_generator_mul_of(k.val())),
        SchemaItem::Scale(k, a) => match schema_value(*a) {
            Some(v) => Some(g1_mul_of(v, k.val())),
            None => None,
        },
        SchemaItem::Add(a, b) => match schema_value(*a) {
            Some(x) => match schema_value(*b) {
                Some(y) => Some(g1_add_of(x, y)),
                None => None,
            },
            None => None,
        },
    }
}

/// Evaluates a combination to a point. A commitment that does not decode
/// makes the proof malformed.
pub fn eval_schema(item: &SchemaItem) -> (r: Result<Point, VerifyError>)
    ensures
        match schema_value(*item) {
            Some(v) => r is Ok && r->Ok_0.bytes@ == v,
            None => r == Err::<Point, VerifyError>(VerifyError::MalformedProof),
        },
        r is Ok ==> g1_decodes(r->Ok_0.bytes@),
    decreases item,
{
    match item {
        SchemaItem::Commit(p) => {
            if decodes(p) {
                Ok(*p)
            } else {
                Err(VerifyError::MalformedProof)
            }
        },
        SchemaItem::Generator(k) => Ok(generator_mul(k)),
        SchemaItem::Scale(k, a) => {
            let v = eval_schema(a)?;
            Ok(point_mul(&v, k))
        },
        SchemaItem::Add(a, b) => {
            let x = eval_schema(a)?;
            let y = eval_schema(b)?;
            Ok(point_add(&x, &y))
        },
    }
}

/// The two points of an aggregated opening, ready for the pairing check.
pub fn eval_multi_open(m: &MultiOpenProof) -> (r: Result<(Point, Point), VerifyError>)
    ensures
        r is Ok <==> (schema_value(m.w_x) is Some && schema_value(m.w_g) is Some),
        r is Err ==> r->Err_0 == VerifyError::MalformedProof,
        r is Ok ==> r->Ok_0.0.bytes@ == schema_value(m.w_x)->Some_0 && r->Ok_0.1.bytes@ == schema_value(
            m.w_g,
        )->Some_0,
{
    let w_x = eval_schema(&m.w_x)?;
    let w_g = eval_schema(&m.w_g)?;
    Ok((w_x, w_g))
}

} // verus!
