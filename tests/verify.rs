use group::ff::{Field, PrimeField};
use group::{Curve, GroupEncoding};
use halo2_snark_aggregator::curve::{eval_multi_open, eval_schema};
use halo2_snark_aggregator::arith::FieldCode;
use halo2_snark_aggregator::error::VerifyError;
use halo2_snark_aggregator::expression::{Evaluable, Expression};
use halo2_snark_aggregator::field::Scalar;
use halo2_snark_aggregator::multiopen::get_point_schemas;
use halo2_snark_aggregator::queries::{column_queries, flatten_blocks, gate_constraints};
use halo2_snark_aggregator::schema::{
    batch_proofs, fold_proof, seed_proof, EvaluationProof, EvaluationQuery, Point, SchemaItem,
};
use halo2_snark_aggregator::transcript::{read_n_scalars, TranscriptRead, VerifyingKey};
use halo2_snark_aggregator::verify::{
    expected_h_eval, PlonkCommonSetup, VerifierParams,
};
use halo2curves::bn256::{pairing, Fr, G1Affine, G2Affine, G1, G2};

fn hex_le(h: &str) -> Vec<u8> {
    let mut v: Vec<u8> = (0..h.len() / 2).map(|i| u8::from_str_radix(&h[2 * i..2 * i + 2], 16).unwrap()).collect();
    v.reverse();
    v
}

fn fr(s: &Scalar) -> Fr {
    Fr::from_bytes(&s.to_bytes()).unwrap()
}

fn sc(f: Fr) -> Scalar {
    Scalar::from_bytes(f.to_bytes()).unwrap()
}

fn s(v: u64) -> Scalar {
    Scalar::from_u64(v)
}

fn pt(b: u8) -> Point {
    Point { bytes: [b; 32] }
}

fn advice(q: usize) -> Box<Expression> {
    Box::new(Expression::Advice { query_index: q, column_index: q, rotation: 0 })
}

fn instance(q: usize) -> Box<Expression> {
    Box::new(Expression::Instance { query_index: q, column_index: q, rotation: 0 })
}

fn fixed(q: usize) -> Box<Expression> {
    Box::new(Expression::Fixed { query_index: q, column_index: q, rotation: 0 })
}

/// advice[0] * advice[1] - instance[0]
fn toy_gate() -> Expression {
    Expression::Sum(
        Box::new(Expression::Product(advice(0), advice(1))),
        Box::new(Expression::Negated(instance(0))),
    )
}

/// The same polynomial evaluated directly with the curve library's field.
fn direct(e: &Expression, f: &[Fr], a: &[Fr], i: &[Fr]) -> Fr {
    match e {
        Expression::Constant(c) => fr(c),
        Expression::Selector(_) => panic!("virtual selectors are removed during optimization"),
        Expression::Fixed { query_index, .. } => f[*query_index],
        Expression::Advice { query_index, .. } => a[*query_index],
        Expression::Instance { query_index, .. } => i[*query_index],
        Expression::Negated(x) => -direct(x, f, a, i),
        Expression::Sum(x, y) => direct(x, f, a, i) + direct(y, f, a, i),
        Expression::Product(x, y) => direct(x, f, a, i) * direct(y, f, a, i),
        Expression::Scaled(x, c) => direct(x, f, a, i) * fr(c),
    }
}

fn domain_generator(log_n: u32) -> Fr {
    Fr::ROOT_OF_UNITY.pow_vartime([1u64 << (Fr::S - log_n)])
}

fn params(x: Scalar, omega: Scalar, l: u32, n: u32) -> VerifierParams {
    VerifierParams {
        gates: vec![vec![toy_gate()]],
        common: PlonkCommonSetup { l, n },
        lookup_evaluated: vec![vec![]],
        permutation_evaluated: vec![vec![]],
        instance_commitments: vec![vec![pt(1)]],
        instance_evals: vec![vec![s(6)]],
        instance_queries: vec![(0, 0)],
        advice_commitments: vec![vec![pt(2), pt(3)]],
        advice_evals: vec![vec![s(2), s(3)]],
        advice_queries: vec![(0, 0), (1, 0)],
        fixed_commitments: vec![],
        fixed_evals: vec![],
        fixed_queries: vec![],
        permutation_commitments: vec![],
        permutation_evals: vec![],
        vanish_commitments: vec![pt(4), pt(5)],
        random_commitment: pt(6),
        random_eval: s(7),
        beta: s(11),
        gamma: s(12),
        theta: s(13),
        delta: Scalar::delta(),
        y: s(3),
        x,
        u: s(5),
        v: s(9),
        xi: s(10),
        omega,
    }
}

#[test]
fn test_ctx_evaluate() {
    let sgate = FieldCode {};
    let gates = vec![vec![
        toy_gate(),
        Expression::Scaled(
            Box::new(Expression::Sum(fixed(0), Box::new(Expression::Constant(s(5))))),
            s(7),
        ),
        Expression::Product(Box::new(Expression::Negated(advice(1))), fixed(1)),
    ]];
    let fixed_evals = vec![s(4), s(9)];
    let advice_sets = vec![vec![s(2), s(3)], vec![s(123456789), s(987654321)]];
    let instance_sets = vec![vec![s(6)], vec![s(42)]];
    for (advice_evals, instance_evals) in advice_sets.iter().zip(instance_sets.iter()) {
        for gate in gates.iter() {
            for poly in gate.iter() {
                let res = poly
                    .ctx_evaluate(&sgate, &fixed_evals, advice_evals, instance_evals)
                    .unwrap();
                let f: Vec<Fr> = fixed_evals.iter().map(fr).collect();
                let a: Vec<Fr> = advice_evals.iter().map(fr).collect();
                let i: Vec<Fr> = instance_evals.iter().map(fr).collect();
                let expected = direct(poly, &f, &a, &i);
                assert_eq!(fr(&res), expected);
            }
        }
    }
}

#[test]
fn toy_gate_is_satisfied_by_witness() {
    let sgate = FieldCode {};
    let r = toy_gate().ctx_evaluate(&sgate, &[], &[s(2), s(3)], &[s(6)]).unwrap();
    assert_eq!(fr(&r), Fr::zero());
    let r = toy_gate().ctx_evaluate(&sgate, &[], &[s(2), s(3)], &[s(7)]).unwrap();
    assert_eq!(fr(&r), -Fr::one());
}

#[test]
fn selector_is_unsupported() {
    let sgate = FieldCode {};
    let e = Expression::Sum(advice(0), Box::new(Expression::Selector(0)));
    assert_eq!(
        e.ctx_evaluate(&sgate, &[], &[s(1)], &[]).unwrap_err(),
        VerifyError::UnsupportedExpression
    );
}

#[test]
fn missing_evaluation_is_malformed() {
    let sgate = FieldCode {};
    assert_eq!(
        toy_gate().ctx_evaluate(&sgate, &[], &[s(1)], &[s(1)]).unwrap_err(),
        VerifyError::MalformedProof
    );
}

#[test]
fn field_operations_wrap_at_the_modulus() {
    let sgate = FieldCode {};
    let minus_one = sgate.sub(&s(0), &s(1));
    assert_eq!(fr(&minus_one), -Fr::one());
    assert_eq!(fr(&sgate.add(&minus_one, &s(1))), Fr::zero());
    assert_eq!(fr(&sgate.mul(&s(6), &s(7))), Fr::from(42));
    assert_eq!(fr(&sgate.neg(&s(5))), -Fr::from(5));
    assert_eq!(fr(&s(3).pow(4)), Fr::from(81));
    let q = sgate.div(&s(42), &s(6)).unwrap();
    assert_eq!(fr(&q), Fr::from(7));
    assert_eq!(sgate.div(&s(1), &s(0)).unwrap_err(), VerifyError::DivisionByZero);
    assert!(s(0).invert().is_none());
    assert_eq!(fr(&Scalar::delta()), Fr::DELTA);
    assert!(s(5).equals(&sgate.add(&s(2), &s(3))));
    assert!(!s(5).equals(&s(6)));
}

#[test]
fn non_canonical_bytes_are_rejected() {
    assert!(Scalar::from_bytes([0xff; 32]).is_none());
    let mut modulus = [0u8; 32];
    modulus.copy_from_slice(&hex_le("30644e72e131a029b85045b68181585d2833e84879b9709143e1f593f0000001"));
    assert!(Scalar::from_bytes(modulus).is_none());
    modulus[0] -= 1;
    assert_eq!(fr(&Scalar::from_bytes(modulus).unwrap()), -Fr::one());
}

#[test]
fn rotation_over_a_domain_of_eight() {
    let sgate = FieldCode {};
    let omega = domain_generator(3);
    let x = Fr::from(1234567);
    let p = params(sc(x), sc(omega), 4, 8);
    assert_eq!(fr(&p.rotate_omega(&sgate, 0).unwrap()), x);
    assert_eq!(fr(&p.rotate_omega(&sgate, 5).unwrap()), x * omega.pow_vartime([5]));
    // omega has order 8, so three steps back are five steps forward.
    assert_eq!(fr(&p.rotate_omega(&sgate, -3).unwrap()), x * omega.pow_vartime([5]));
    assert_eq!(fr(&p.x_next(&sgate)), x * omega);
    assert_eq!(fr(&p.x_last(&sgate).unwrap()), x * omega.pow_vartime([4]));
    assert_eq!(fr(&p.x_inv(&sgate).unwrap()), x * omega.pow_vartime([7]));
    assert_eq!(fr(&p.xn(&sgate)), x.pow_vartime([8]));
}

#[test]
fn rotation_backwards_by_zero_generator_fails() {
    let sgate = FieldCode {};
    let p = params(s(3), s(0), 1, 8);
    assert_eq!(p.rotate_omega(&sgate, -1).unwrap_err(), VerifyError::DivisionByZero);
    assert!(p.rotate_omega(&sgate, 0).is_ok());
}

fn opening(z: u64, w: u8) -> EvaluationProof {
    EvaluationProof { point: s(z), s: SchemaItem::Generator(s(z + 100)), w: pt(w) }
}

#[test]
fn batching_one_by_one_equals_batching_at_once() {
    let u = s(5);
    let all = batch_proofs(vec![opening(1, 1), opening(2, 2), opening(3, 3), opening(4, 4)], &u).unwrap();
    let mut acc = seed_proof(opening(4, 4));
    acc = fold_proof(acc, &u, opening(3, 3));
    acc = fold_proof(acc, &u, opening(2, 2));
    acc = fold_proof(acc, &u, opening(1, 1));
    assert_eq!(format!("{:?}", all), format!("{:?}", acc));
    let tail = batch_proofs(vec![opening(3, 3), opening(4, 4)], &u).unwrap();
    let split = fold_proof(fold_proof(tail, &u, opening(2, 2)), &u, opening(1, 1));
    assert_eq!(format!("{:?}", all), format!("{:?}", split));
}

#[test]
fn batching_a_single_proof_seeds_the_accumulator() {
    let r = batch_proofs(vec![opening(7, 9)], &s(5)).unwrap();
    match (r.w_x, r.w_g) {
        (SchemaItem::Commit(w), SchemaItem::Add(zw, rem)) => {
            assert_eq!(w, pt(9));
            assert!(matches!(*zw, SchemaItem::Scale(_, _)));
            assert!(matches!(*rem, SchemaItem::Generator(_)));
        }
        _ => panic!("unexpected aggregate shape"),
    }
    assert_eq!(batch_proofs(vec![], &s(5)).unwrap_err(), VerifyError::MalformedProof);
}

#[test]
fn vanishing_value_divides_by_xn_minus_one() {
    let sgate = FieldCode {};
    let cs = vec![s(1), s(2), s(3)];
    // ((1·10 + 2)·10 + 3) / (5 - 1)
    let h = expected_h_eval(&sgate, &cs, &s(10), &s(5)).unwrap();
    assert_eq!(fr(&h) * Fr::from(4), Fr::from(123));
    assert_eq!(
        expected_h_eval(&sgate, &cs, &s(10), &s(1)).unwrap_err(),
        VerifyError::DivisionByZero
    );
}

#[test]
fn column_queries_check_layout() {
    let sgate = FieldCode {};
    let qs = vec![(0usize, 0i32), (1, 1)];
    let q = column_queries(&sgate, &s(3), &s(2), &qs, &vec![pt(1), pt(2)], &vec![s(4), s(5)]).unwrap();
    assert_eq!(q.len(), 2);
    assert_eq!(fr(&q[1].point), Fr::from(6));
    assert!(matches!(q[1].commitment, SchemaItem::Commit(p) if p == pt(2)));
    let bad = column_queries(&sgate, &s(3), &s(2), &qs, &vec![pt(1)], &vec![s(4), s(5)]);
    assert_eq!(bad.unwrap_err(), VerifyError::MalformedProof);
}

#[test]
fn gate_values_feed_the_constraints() {
    let sgate = FieldCode {};
    let p = params(s(3), s(2), 1, 8);
    let blocks = p.constraints(&sgate, &vec![vec![s(9)]]).unwrap();
    assert_eq!(blocks.len(), 1);
    assert_eq!(fr(&blocks[0][0]), Fr::zero());
    assert_eq!(fr(&blocks[0][1]), Fr::from(9));
    let flat = flatten_blocks(&blocks);
    assert_eq!(flat.len(), 2);
    let g = gate_constraints(&sgate, &p.gates, &vec![], &vec![s(2), s(4)], &vec![s(6)]).unwrap();
    assert_eq!(fr(&g[0]), Fr::from(2));
    assert_eq!(p.constraints(&sgate, &vec![]).unwrap_err(), VerifyError::MalformedProof);
}

#[test]
fn queries_in_batching_order() {
    let sgate = FieldCode {};
    let omega = domain_generator(3);
    let p = params(s(3), sc(omega), 1, 8);
    let groups = p.queries(&sgate, &vec![s(0)]).unwrap();
    assert_eq!(groups.per_proof.len(), 1);
    assert_eq!(groups.per_proof[0].instance.len(), 1);
    assert_eq!(groups.per_proof[0].advice.len(), 2);
    assert_eq!(groups.vanishing.len(), 2);
    let ordered = groups.into_ordered();
    assert_eq!(ordered.len(), 5);
    assert!(matches!(ordered[0].commitment, SchemaItem::Commit(c) if c == pt(1)));
    assert!(matches!(ordered[4].commitment, SchemaItem::Commit(c) if c == pt(6)));
}

#[test]
fn one_opening_proof_per_point() {
    let sgate = FieldCode {};
    let q = |z: u64, c: u8, e: u64| EvaluationQuery {
        point: s(z),
        commitment: SchemaItem::Commit(pt(c)),
        eval: s(e),
    };
    let queries = vec![q(1, 1, 10), q(2, 2, 20), q(1, 3, 30)];
    let proofs = get_point_schemas(&sgate, queries, &s(5), &vec![pt(8), pt(9)]).unwrap();
    assert_eq!(proofs.len(), 2);
    assert!(proofs[0].point.equals(&s(1)));
    assert_eq!(proofs[0].w, pt(8));
    match &proofs[0].s {
        SchemaItem::Add(_, g) => match **g {
            // E = 10 + 5·30
            SchemaItem::Generator(e) => assert_eq!(fr(&e), -Fr::from(160)),
            _ => panic!("remainder without evaluation term"),
        },
        _ => panic!("unexpected remainder shape"),
    }
    let queries = vec![q(1, 1, 10)];
    let r = get_point_schemas(&sgate, queries, &s(5), &vec![]);
    assert_eq!(r.unwrap_err(), VerifyError::MalformedProof);
}

/// A transcript over a fixed list of items, with a counter for challenges.
struct ListTranscript {
    points: Vec<Point>,
    scalars: Vec<Scalar>,
    absorbed: u64,
}

impl TranscriptRead for ListTranscript {
    fn read_point(&mut self) -> Option<Point> {
        if self.points.is_empty() {
            None
        } else {
            Some(self.points.remove(0))
        }
    }

    fn read_scalar(&mut self) -> Option<Scalar> {
        if self.scalars.is_empty() {
            None
        } else {
            Some(self.scalars.remove(0))
        }
    }

    fn common_point(&mut self, _p: &Point) {
        self.absorbed += 1;
    }

    fn common_scalar(&mut self, _s: &Scalar) {
        self.absorbed += 1;
    }

    fn squeeze_challenge_scalar(&mut self) -> Scalar {
        self.absorbed += 1;
        Scalar::from_u64(1000 + self.absorbed)
    }
}

fn toy_key() -> VerifyingKey {
    VerifyingKey {
        num_instance_columns: 1,
        num_advice_columns: 2,
        instance_queries: vec![(0, 0)],
        advice_queries: vec![(0, 0), (1, 0)],
        fixed_queries: vec![],
        gates: vec![vec![toy_gate()]],
        num_lookups: 0,
        permutation_chunks: 1,
        quotient_poly_degree: 2,
        fixed_commitments: vec![],
        permutation_commitments: vec![pt(20)],
        transcript_repr: s(77),
        blinding_factors: 2,
        n: 8,
        omega: sc(domain_generator(3)),
    }
}

fn toy_transcript() -> ListTranscript {
    ListTranscript {
        // advice ×2, permutation product, random, quotient ×2
        points: vec![pt(2), pt(3), pt(30), pt(6), pt(4), pt(5)],
        // instance, advice ×2, random, permutation common, product, product next
        scalars: vec![s(6), s(2), s(3), s(7), s(8), s(1), s(1)],
        absorbed: 0,
    }
}

#[test]
fn reconstruction_reads_what_the_key_declares() {
    let sgate = FieldCode {};
    let vk = toy_key();
    let mut t = toy_transcript();
    let instances = vec![vec![vec![s(6)]]];
    let p = VerifierParams::from_transcript(&sgate, &s(5), &s(9), &s(10), &instances, vec![vec![pt(1)]], &vk, &mut t)
        .unwrap();
    assert_eq!(p.advice_commitments, vec![vec![pt(2), pt(3)]]);
    assert_eq!(p.vanish_commitments, vec![pt(4), pt(5)]);
    assert_eq!(p.random_commitment, pt(6));
    assert_eq!(fr(&p.advice_evals[0][1]), Fr::from(3));
    assert_eq!(fr(&p.random_eval), Fr::from(7));
    assert_eq!(p.permutation_evaluated[0].len(), 1);
    assert!(p.permutation_evaluated[0][0].product_last_eval.is_none());
    assert_eq!(p.common, PlonkCommonSetup { l: 3, n: 8 });
    // vk fingerprint, one instance commitment, then theta, beta, gamma, y, x.
    assert_eq!(fr(&p.theta), Fr::from(1003));
    assert_eq!(fr(&p.x), Fr::from(1007));
    assert!(t.points.is_empty() && t.scalars.is_empty());
    let blocks = p.constraints(&sgate, &vec![vec![]]).unwrap();
    assert_eq!(fr(&blocks[0][0]), Fr::zero());
}

#[test]
fn truncated_transcript_is_malformed() {
    let sgate = FieldCode {};
    let vk = toy_key();
    let mut t = toy_transcript();
    t.scalars.pop();
    let instances = vec![vec![vec![s(6)]]];
    let r = VerifierParams::from_transcript(&sgate, &s(5), &s(9), &s(10), &instances, vec![vec![pt(1)]], &vk, &mut t);
    assert_eq!(r.err(), Some(VerifyError::MalformedProof));
    let mut t = toy_transcript();
    t.points.truncate(1);
    assert!(read_n_scalars(&mut t, 8).is_err());
}

#[test]
fn oversized_instance_is_malformed() {
    let sgate = FieldCode {};
    let vk = toy_key();
    let mut t = toy_transcript();
    // only n - (blinding + 1) = 5 rows may hold instance values
    let instances = vec![vec![vec![s(1); 6]]];
    let r = VerifierParams::from_transcript(&sgate, &s(5), &s(9), &s(10), &instances, vec![vec![pt(1)]], &vk, &mut t);
    assert_eq!(r.err(), Some(VerifyError::MalformedProof));
    let instances = vec![vec![vec![s(1)], vec![s(2)]]];
    let mut t = toy_transcript();
    let r = VerifierParams::from_transcript(&sgate, &s(5), &s(9), &s(10), &instances, vec![vec![pt(1)]], &vk, &mut t);
    assert_eq!(r.err(), Some(VerifyError::MalformedProof));
}

fn g1(k: u64) -> Point {
    let p = (halo2curves::bn256::G1::generator() * Fr::from(k)).to_affine();
    Point { bytes: p.to_bytes().as_ref().try_into().unwrap() }
}

#[test]
fn combinations_evaluate_with_curve_arithmetic() {
    let sum = SchemaItem::Add(Box::new(SchemaItem::Commit(g1(1))), Box::new(SchemaItem::Commit(g1(2))));
    assert_eq!(eval_schema(&sum).unwrap(), g1(3));
    let scaled = SchemaItem::Scale(s(4), Box::new(SchemaItem::Commit(g1(5))));
    assert_eq!(eval_schema(&scaled).unwrap(), g1(20));
    assert_eq!(eval_schema(&SchemaItem::Generator(s(7))).unwrap(), g1(7));
    let bad = SchemaItem::Add(Box::new(SchemaItem::Commit(g1(1))), Box::new(SchemaItem::Commit(pt(0xff))));
    assert_eq!(eval_schema(&bad).unwrap_err(), VerifyError::MalformedProof);
}

#[test]
fn whole_reduction_to_one_opening() {
    let sgate = FieldCode {};
    let omega = domain_generator(3);
    let mut p = params(s(3), sc(omega), 1, 8);
    p.instance_commitments = vec![vec![g1(1)]];
    p.advice_commitments = vec![vec![g1(2), g1(3)]];
    p.vanish_commitments = vec![g1(4), g1(5)];
    p.random_commitment = g1(6);
    // every query of this key opens at x itself
    let m = reduce(&p, &vec![g1(9)]).unwrap();
    let (w_x, w_g) = eval_multi_open(&m).unwrap();
    assert_eq!(w_x, g1(9));
    assert_ne!(w_g, g1(9));
    let r = reduce(&p, &vec![g1(9), g1(10)]);
    assert_eq!(r.err(), Some(VerifyError::MalformedProof));
    p.random_commitment = pt(0xff);
    let m = reduce(&p, &vec![g1(9)]).unwrap();
    assert_eq!(eval_multi_open(&m).unwrap_err(), VerifyError::MalformedProof);
}

fn g1_of(k: Fr) -> Point {
    let p = (G1::generator() * k).to_affine();
    Point { bytes: p.to_bytes().as_ref().try_into().unwrap() }
}

fn affine(p: &Point) -> G1Affine {
    let mut c = <G1Affine as GroupEncoding>::Repr::default();
    c.as_mut().copy_from_slice(&p.bytes);
    G1Affine::from_bytes(&c).unwrap()
}

/// The discrete logarithm of a combination whose commitments are `g1(k)`
/// for small `k`.
fn dlog(item: &SchemaItem) -> Fr {
    match item {
        SchemaItem::Commit(p) => Fr::from((1..64u64).find(|k| g1(*k) == *p).unwrap()),
        SchemaItem::Generator(k) => fr(k),
        SchemaItem::Scale(k, a) => fr(k) * dlog(a),
        SchemaItem::Add(a, b) => dlog(a) + dlog(b),
    }
}

/// The reduction of a reconstructed proof to one aggregated opening:
/// constraint values, queries, one opening proof per point, and the fold.
fn reduce(p: &VerifierParams, ws: &Vec<Point>) -> Result<halo2_snark_aggregator::schema::MultiOpenProof, VerifyError> {
    let sgate = FieldCode {};
    let blocks = p.constraints(&sgate, &vec![vec![]; p.advice_evals.len()])?;
    let cs = flatten_blocks(&blocks);
    let ordered = p.queries(&sgate, &cs)?.into_ordered();
    let proofs = get_point_schemas(&sgate, ordered, &p.v, ws)?;
    p.batch_multi_open_proofs(proofs)
}

/// Opens every query of the toy proof with a trapdoor `tau` known to the
/// test, so that the aggregate must satisfy the pairing equation
/// `e(w_x, tau·H) == e(w_g, H)`.
fn toy_opening(p: &VerifierParams, tau: Fr) -> Point {
    let sgate = FieldCode {};
    let blocks = p.constraints(&sgate, &vec![vec![]]).unwrap();
    let cs = flatten_blocks(&blocks);
    let ordered = p.queries(&sgate, &cs).unwrap().into_ordered();
    let (v, z) = (fr(&p.v), fr(&p.x));
    let (mut c, mut e, mut vj) = (Fr::zero(), Fr::zero(), Fr::one());
    for q in ordered.iter() {
        assert!(q.point.equals(&p.x));
        c += vj * dlog(&q.commitment);
        e += vj * fr(&q.eval);
        vj *= v;
    }
    g1_of((c - e) * (tau - z).invert().unwrap())
}

fn pairing_holds(w_x: &Point, w_g: &Point, tau: Fr) -> bool {
    let h = G2Affine::generator();
    let h_tau = (G2::generator() * tau).to_affine();
    pairing(&affine(w_x), &h_tau) == pairing(&affine(w_g), &h)
}

#[test]
fn toy_proof_pairing_checks_and_tampering_fails() {
    let sgate = FieldCode {};
    let tau = Fr::from(987654321);
    let vk = toy_key();
    let mut t = toy_transcript();
    t.points = vec![g1(2), g1(3), g1(30), g1(6), g1(4), g1(5)];
    let instances = vec![vec![vec![s(6)]]];
    let mut p = VerifierParams::from_transcript(&sgate, &s(5), &s(9), &s(10), &instances, vec![vec![g1(1)]], &vk, &mut t)
        .unwrap();
    // the toy key has one permutation set whose queries open at x and x_next;
    // keep this check to the column and vanishing queries, all at x
    p.permutation_evaluated = vec![vec![]];
    p.permutation_commitments = vec![];
    p.permutation_evals = vec![];
    let w = toy_opening(&p, tau);
    let m = reduce(&p, &vec![w]).unwrap();
    let (w_x, w_g) = eval_multi_open(&m).unwrap();
    assert!(pairing_holds(&w_x, &w_g, tau));

    // a different claimed evaluation no longer pairs
    p.random_eval = s(8);
    let m = reduce(&p, &vec![w]).unwrap();
    let (w_x, w_g) = eval_multi_open(&m).unwrap();
    assert!(!pairing_holds(&w_x, &w_g, tau));

    // a byte flipped in the proof either fails to read or fails to pair
    let mut bad = toy_transcript();
    bad.points = vec![g1(2), g1(3), g1(30), g1(6), g1(4), g1(5)];
    bad.points[0].bytes[0] ^= 1;
    let r = VerifierParams::from_transcript(&sgate, &s(5), &s(9), &s(10), &instances, vec![vec![g1(1)]], &vk, &mut bad);
    let mut q = r.unwrap();
    q.permutation_evaluated = vec![vec![]];
    q.permutation_commitments = vec![];
    q.permutation_evals = vec![];
    match reduce(&q, &vec![w]).and_then(|m| eval_multi_open(&m)) {
        Err(e) => assert_eq!(e, VerifyError::MalformedProof),
        Ok((w_x, w_g)) => assert!(!pairing_holds(&w_x, &w_g, tau)),
    }
}
