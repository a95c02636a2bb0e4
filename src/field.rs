//! Elements of the BN254 scalar field, held as canonical little-endian bytes.
//!
//! The arithmetic itself is done by `halo2curves`; every operation here is
//! stated over the integer value of its operands modulo the field's prime.
use vstd::prelude::*;
use vstd::arithmetic::power::pow;
use vstd::arithmetic::div_mod::{lemma_mul_mod_noop_left, lemma_mul_mod_noop_right, lemma_small_mod};
use vstd::arithmetic::mul::lemma_mul_is_associative;
use group::ff::Field;
use halo2curves::bn256::Fr;

verus! {

pub open spec fn limb_base() -> nat {
    0x1_0000_0000_0000_0000
}

/// The integer whose little-endian 64-bit limbs are given.
pub open spec fn limbs_value(l0: u64, l1: u64, l2: u64, l3: u64) -> nat {
    (l0 + limb_base() * (l1 + limb_base() * (l2 + limb_base() * l3))) as nat
}

/// The prime order `r` of the BN254 scalar field.
pub open spec fn modulus() -> nat {
    limbs_value(0x43e1f593f0000001, 0x2833e84879b97091, 0xb85045b68181585d, 0x30644e72e131a029)
}

/// The value of a little-endian byte string.
pub open spec fn le_value(b: Seq<u8>) -> nat
    decreases b.len(),
{
    if b.len() == 0 {
        0
    } else {
        (b[0] + 256 * le_value(b.drop_first())) as nat
    }
}

pub open spec fn fadd(a: nat, b: nat) -> nat {
    (a + b) % modulus()
}

pub open spec fn fsub(a: nat, b: nat) -> nat {
    ((a - b) % (modulus() as int)) as nat
}

pub open spec fn fmul(a: nat, b: nat) -> nat {
    (a * b) % modulus()
}

pub open spec fn fneg(a: nat) -> nat {
    ((0 - a) % (modulus() as int)) as nat
}

pub open spec fn fpow(a: nat, e: nat) -> nat {
    (pow(a as int, e) % (modulus() as int)) as nat
}

pub proof fn lemma_modulus_bounds()
    ensures
        modulus() > limb_base() * limb_base() * limb_base(),
        modulus() < limb_base() * limb_base() * limb_base() * limb_base(),
{
}

/// Values below the modulus are their own residues.
pub proof fn lemma_reduced(a: nat)
    requires
        a < modulus(),
    ensures
        a % modulus() == a,
        fmul(a, 1) == a,
{
    lemma_modulus_bounds();
    lemma_small_mod(a, modulus());
}

/// Multiplying by `inv` and then by `b` gives back `a` when `inv * b` is one.
pub proof fn lemma_mul_by_inverse(a: nat, inv: nat, b: nat)
    requires
        a < modulus(),
        fmul(inv, b) == 1,
    ensures
        fmul(fmul(a, inv), b) == a,
{
    let m = modulus() as int;
    lemma_modulus_bounds();
    lemma_mul_mod_noop_left((a * inv) as int, b as int, m);
    lemma_mul_is_associative(a as int, inv as int, b as int);
    lemma_mul_mod_noop_right(a as int, (inv * b) as int, m);
    lemma_reduced(a);
}

/// The multiplicative inverse that `Field::invert` returns for a non-zero
/// element.
pub uninterp spec fn inverse_of(a: nat) -> nat;

/// An element of the scalar field: the canonical little-endian encoding of
/// an integer below the modulus.
#[derive(Clone, Copy, Debug, PartialEq, Eq, Hash)]
pub struct Scalar {
    repr: [u8; 32],
}

impl Scalar {
    /// The integer this element stands for.
    pub closed spec fn val(self) -> nat {
        le_value(self.repr@)
    }

    #[verifier::type_invariant]
    pub open spec fn canonical(self) -> bool {
        self.val() < modulus()
    }

    /// Relies on `Fr::from(u64)`: the element congruent to a machine integer.
    #[verifier::external_body]
    fn fr_from_u64(v: u64) -> (r: Scalar)
        ensures
            r.val() == v as nat % modulus(),
    {
        Scalar { repr: Fr::from(v).to_bytes() }
    }

    /// Relies on `PrimeField::DELTA` of `Fr`: the fixed generator power used
    /// to tell permutation columns apart, `0x09226b6e...e533e9a2`.
    #[verifier::external_body]
    fn fr_delta() -> (r: Scalar)
        ensures
            r.val() == limbs_value(
                0x870e56bbe533e9a2,
                0x5b5f898e5e963f25,
                0x64ec26aad4c86e71,
                0x09226b6e22c6f0ca,
            ),
    {
        Scalar { repr: <Fr as group::ff::PrimeField>::DELTA.to_bytes() }
    }

    /// Relies on `Fr::from_bytes`: the element with a canonical
    /// little-endian encoding, and `None` for an encoding of an integer not
    /// below the modulus.
    #[verifier::external_body]
    fn fr_from_bytes(bytes: [u8; 32]) -> (r: Option<Scalar>)
        ensures
            le_value(bytes@) < modulus() <==> r is Some,
            r is Some ==> r->Some_0.val() == le_value(bytes@),
    {
        Option::from(Fr::from_bytes(&bytes)).map(|f: Fr| Scalar { repr: f.to_bytes() })
    }

    /// The element congruent to a machine integer.
    pub fn from_u64(v: u64) -> (r: Scalar)
        ensures
            r.val() == v as nat % modulus(),
    {
        Scalar::fr_from_u64(v)
    }

    /// The fixed generator power that tells permutation columns apart.
    pub fn delta() -> (r: Scalar)
        ensures
            r.val() == limbs_value(
                0x870e56bbe533e9a2,
                0x5b5f898e5e963f25,
                0x64ec26aad4c86e71,
                0x09226b6e22c6f0ca,
            ),
    {
        Scalar::fr_delta()
    }

    /// The element with a canonical little-endian encoding; `None` for an
    /// encoding of an integer not below the modulus.
    pub fn from_bytes(bytes: [u8; 32]) -> (r: Option<Scalar>)
        ensures
            le_value(bytes@) < modulus() <==> r is Some,
            r is Some ==> r->Some_0.val() == le_value(bytes@),
    {
        Scalar::fr_from_bytes(bytes)
    }

    /// The multiplicative inverse, which exists exactly for the non-zero
    /// elements.
    pub fn invert(&self) -> (r: Option<Scalar>)
        ensures
            r is Some <==> self.val() != 0,
            r is Some ==> fmul(r->Some_0.val(), self.val()) == 1,
            r is Some ==> r->Some_0.val() == inverse_of(self.val()),
    {
        self.fr_invert()
    }

    /// This element raised to a machine integer.
    pub fn pow(&self, e: u64) -> (r: Scalar)
        ensures
            r.val() == fpow(self.val(), e as nat),
    {
        self.fr_pow(e)
    }

    /// The canonical little-endian encoding of this element.
    pub fn to_bytes(&self) -> (r: [u8; 32])
        ensures
            le_value(r@) == self.val(),
    {
        self.repr
    }

    /// Whether two elements are the same.
    pub fn equals(&self, o: &Scalar) -> (r: bool)
        ensures
            r == (*self == *o),
    {
        let mut i: usize = 0;
        while i < 32
            invariant
                i <= 32,
                forall|j: int| 0 <= j < i ==> self.repr[j] == o.repr[j],
            decreases 32 - i,
        {
            if self.repr[i] != o.repr[i] {
                return false;
            }
            i = i + 1;
        }
        assert(self.repr =~= o.repr);
        true
    }

    /// Relies on `Fr + Fr`: addition modulo the field's prime.
    #[verifier::external_body]
    pub(crate) fn fr_add(&self, o: &Scalar) -> (r: Scalar)
        ensures
            r.val() == fadd(self.val(), o.val()),
    {
        let v = Fr::from_bytes(&self.repr).unwrap() + Fr::from_bytes(&o.repr).unwrap();
        Scalar { repr: v.to_bytes() }
    }

    /// Relies on `Fr - Fr`: subtraction modulo the field's prime.
    #[verifier::external_body]
    pub(crate) fn fr_sub(&self, o: &Scalar) -> (r: Scalar)
        ensures
            r.val() == fsub(self.val(), o.val()),
    {
        let v = Fr::from_bytes(&self.repr).unwrap() - Fr::from_bytes(&o.repr).unwrap();
        Scalar { repr: v.to_bytes() }
    }

    /// Relies on `Fr * Fr`: multiplication modulo the field's prime.
    #[verifier::external_body]
    pub(crate) fn fr_mul(&self, o: &Scalar) -> (r: Scalar)
        ensures
            r.val() == fmul(self.val(), o.val()),
    {
        let v = Fr::from_bytes(&self.repr).unwrap() * Fr::from_bytes(&o.repr).unwrap();
        Scalar { repr: v.to_bytes() }
    }

    /// Relies on `-Fr`: the additive inverse modulo the field's prime.
    #[verifier::external_body]
    pub(crate) fn fr_neg(&self) -> (r: Scalar)
        ensures
            r.val() == fneg(self.val()),
    {
        Scalar { repr: (-Fr::from_bytes(&self.repr).unwrap()).to_bytes() }
    }

    /// Relies on `Field::invert`: the multiplicative inverse, which exists
    /// exactly for the non-zero elements.
    #[verifier::external_body]
    fn fr_invert(&self) -> (r: Option<Scalar>)
        ensures
            r is Some <==> self.val() != 0,
            r is Some ==> fmul(r->Some_0.val(), self.val()) == 1,
            r is Some ==> r->Some_0.val() == inverse_of(self.val()),
    {
        let v: Option<Fr> = Fr::from_bytes(&self.repr).unwrap().invert().into();
        v.map(|f: Fr| Scalar { repr: f.to_bytes() })
    }

    /// Relies on `Field::pow_vartime`: exponentiation by a machine integer.
    #[verifier::external_body]
    fn fr_pow(&self, e: u64) -> (r: Scalar)
        ensures
            r.val() == fpow(self.val(), e as nat),
    {
        Scalar { repr: Fr::from_bytes(&self.repr).unwrap().pow_vartime([e]).to_bytes() }
    }
}

} // verus!
