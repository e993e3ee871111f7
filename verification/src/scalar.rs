use vstd::prelude::*;
use ark_bls12_381::Fr;
use ark_ff::{BigInteger256, Field, PrimeField};
use ark_serialize::CanonicalSerialize;
use ark_std::UniformRand;

verus! {

/// Two to the power 64, the weight of one limb.
pub open spec fn limb_base() -> nat {
    0x1_0000_0000_0000_0000
}

/// The order of the scalar field, which is also the order of the group.
pub open spec fn modulus() -> nat {
    0xffffffff00000001 + limb_base() * (0x53bda402fffe5bfe + limb_base() * (0x3339d80809a1d805
        + limb_base() * 0x73eda753299d7d48))
}

/// The number that four limbs stand for, least significant limb first.
pub open spec fn limbs_value(limbs: Seq<u64>) -> nat
    recommends
        limbs.len() == 4,
{
    limbs[0] as nat + limb_base() * (limbs[1] as nat + limb_base() * (limbs[2] as nat + limb_base()
        * (limbs[3] as nat)))
}

/// The number that a byte string stands for, least significant byte first.
pub open spec fn le_bytes_value(bytes: Seq<u8>) -> nat
    decreases bytes.len(),
{
    if bytes.len() == 0 {
        0
    } else {
        bytes[0] as nat + 256 * le_bytes_value(bytes.drop_first())
    }
}

/// The first `n` bytes of a number, least significant byte first.
pub open spec fn le_bytes(v: nat, n: nat) -> Seq<u8>
    decreases n,
{
    if n == 0 {
        Seq::empty()
    } else {
        seq![(v % 256) as u8] + le_bytes(v / 256, (n - 1) as nat)
    }
}

/// The sum over all places of the product of the two entries there, in the
/// field. Scalars and group elements alike are counted in multiples of a
/// unit, so that this is the dot product of two vectors of scalars as well
/// as the combination of group elements by scalars.
pub open spec fn inner_product(a: Seq<nat>, b: Seq<nat>) -> nat
    recommends
        a.len() == b.len(),
    decreases a.len(),
{
    if a.len() == 0 || b.len() == 0 {
        0
    } else {
        fadd(inner_product(a.drop_last(), b.drop_last()), fmul(a.last(), b.last()))
    }
}

/// Sum in the field.
#[verifier::opaque]
pub open spec fn fadd(a: nat, b: nat) -> nat {
    (a + b) % modulus()
}

/// Difference in the field.
#[verifier::opaque]
pub open spec fn fsub(a: nat, b: nat) -> nat {
    ((a as int - b as int) % (modulus() as int)) as nat
}

/// Product in the field.
#[verifier::opaque]
pub open spec fn fmul(a: nat, b: nat) -> nat {
    (a * b) % modulus()
}

/// Whether `b` is the inverse of `a` in the field.
pub open spec fn is_inverse(a: nat, b: nat) -> bool {
    b < modulus() && fmul(a, b) == 1
}

/// Whether `a` has an inverse in the field, as every element has but
/// zero.
pub open spec fn has_inverse(a: nat) -> bool {
    is_inverse(a, finv(a))
}

/// The inverse of `a` in the field, where it has one.
pub open spec fn finv(a: nat) -> nat {
    choose|b: nat| is_inverse(a, b)
}

/// An element of the scalar field, held as the four limbs of its least
/// residue. The invariant of the type keeps the number that the limbs
/// stand for below the modulus; the calls into the field rely on it.
#[derive(Clone, Copy, Debug, PartialEq, Eq)]
pub struct Scalar {
    pub(crate) limbs: [u64; 4],
}

impl View for Scalar {
    type V = nat;

    closed spec fn view(&self) -> nat {
        limbs_value(self.limbs@)
    }
}

impl DeepView for Scalar {
    type V = nat;

    open spec fn deep_view(&self) -> nat {
        self@
    }
}

impl Scalar {
    /// Whether the limbs held are those of a number below the modulus.
    #[verifier::type_invariant]
    pub open spec fn is_reduced(&self) -> bool {
        self@ < modulus()
    }

    /// Calls `PrimeField::from_repr`, which takes the limbs of a number and
    /// gives the field element of that number, or nothing where the number
    /// is not below the modulus.
    #[verifier::external_body]
    fn from_repr(limbs: [u64; 4]) -> (r: Option<Scalar>)
        ensures
            r is Some <==> limbs_value(limbs@) < modulus(),
            r is Some ==> r.unwrap()@ == limbs_value(limbs@),
    {
        Fr::from_repr(BigInteger256(limbs)).map(|x| Scalar { limbs: x.into_repr().0 })
    }

    /// Calls `PrimeField::from_le_bytes_mod_order`, which reads the bytes
    /// as a number, least significant byte first, and reduces it.
    #[verifier::external_body]
    pub(crate) fn from_le_bytes_mod_order(bytes: &[u8]) -> (r: Scalar)
        ensures
            r@ == le_bytes_value(bytes@) % modulus(),
    {
        Scalar { limbs: Fr::from_le_bytes_mod_order(bytes).into_repr().0 }
    }

    /// Calls `CanonicalSerialize::serialize` of the field element, which
    /// writes its least residue in 32 bytes, least significant first.
    #[verifier::external_body]
    pub(crate) fn serialize(&self) -> (r: Vec<u8>)
        ensures
            r@ == le_bytes(self@, 32),
    {
        let mut out = Vec::new();
        Fr::from_repr(BigInteger256(self.limbs)).unwrap().serialize(&mut out).unwrap();
        out
    }

    /// Calls the field's `+`.
    #[verifier::external_body]
    pub(crate) fn add(&self, other: &Scalar) -> (r: Scalar)
        ensures
            r@ == fadd(self@, other@),
    {
        let a = Fr::from_repr(BigInteger256(self.limbs)).unwrap();
        let b = Fr::from_repr(BigInteger256(other.limbs)).unwrap();
        Scalar { limbs: (a + b).into_repr().0 }
    }

    /// Calls the field's `-`.
    #[verifier::external_body]
    pub(crate) fn sub(&self, other: &Scalar) -> (r: Scalar)
        ensures
            r@ == fsub(self@, other@),
    {
        let a = Fr::from_repr(BigInteger256(self.limbs)).unwrap();
        let b = Fr::from_repr(BigInteger256(other.limbs)).unwrap();
        Scalar { limbs: (a - b).into_repr().0 }
    }

    /// Calls the field's `*`.
    #[verifier::external_body]
    pub(crate) fn mul(&self, other: &Scalar) -> (r: Scalar)
        ensures
            r@ == fmul(self@, other@),
    {
        let a = Fr::from_repr(BigInteger256(self.limbs)).unwrap();
        let b = Fr::from_repr(BigInteger256(other.limbs)).unwrap();
        Scalar { limbs: (a * b).into_repr().0 }
    }

    /// Calls `Field::inverse`, which gives nothing for zero and otherwise
    /// the element whose product with the argument is one.
    #[verifier::external_body]
    fn field_inverse(&self) -> (r: Option<Scalar>)
        ensures
            r is None <==> self@ == 0,
            r is Some ==> fmul(self@, r.unwrap()@) == 1,
    {
        let a = Fr::from_repr(BigInteger256(self.limbs)).unwrap();
        a.inverse().map(|x| Scalar { limbs: x.into_repr().0 })
    }

    /// Calls `UniformRand::rand` of the field on the generator that
    /// `ark_std::test_rng` makes. Nothing is promised of the element drawn.
    #[verifier::external_body]
    pub(crate) fn sample() -> (r: Scalar)
    {
        Scalar { limbs: Fr::rand(&mut ark_std::test_rng()).into_repr().0 }
    }

    /// The element of a number given by its limbs, least significant first,
    /// where that number is below the modulus.
    pub fn from_limbs(limbs: [u64; 4]) -> (r: Option<Scalar>)
        ensures
            r is Some <==> limbs_value(limbs@) < modulus(),
            r is Some ==> r.unwrap()@ == limbs_value(limbs@),
    {
        Scalar::from_repr(limbs)
    }

    /// The limbs of the least residue, least significant first.
    pub fn to_limbs(&self) -> (r: [u64; 4])
        ensures
            limbs_value(r@) == self@,
    {
        self.limbs
    }

    /// The element of a small number.
    pub fn from_u64(x: u64) -> (r: Scalar)
        ensures
            r@ == x,
    {
        let limbs: [u64; 4] = [x, 0, 0, 0];
        let r = Scalar { limbs };
        r
    }

    /// The zero of the field.
    pub fn zero() -> (r: Scalar)
        ensures
            r@ == 0,
    {
        Scalar::from_u64(0)
    }

    /// The one of the field.
    pub fn one() -> (r: Scalar)
        ensures
            r@ == 1,
    {
        Scalar::from_u64(1)
    }

    /// Whether two elements are the same.
    pub fn equals(&self, other: &Scalar) -> (r: bool)
        ensures
            r == (self@ == other@),
    {
        self.limbs[0] == other.limbs[0] && self.limbs[1] == other.limbs[1] && self.limbs[2]
            == other.limbs[2] && self.limbs[3] == other.limbs[3]
    }

    /// The inverse, or nothing for zero.
    pub fn inverse(&self) -> (r: Option<Scalar>)
        ensures
            r is None <==> self@ == 0,
            r is Some <==> has_inverse(self@),
            r is Some ==> r.unwrap()@ == finv(self@),
    {
        let r = self.field_inverse();
        proof {
            if let Some(i) = r {
                use_type_invariant(&i);
                lemma_inverse_unique(self@, i@);
            } else {
                lemma_zero_has_no_inverse(finv(0));
            }
        }
        r
    }
}

/// Zero has no inverse in the field.
pub proof fn lemma_zero_has_no_inverse(b: nat)
    ensures
        !is_inverse(0, b),
{
    reveal(fmul);
    assert(0 * b == 0);
    vstd::arithmetic::div_mod::lemma_small_mod(0, modulus());
}

/// A number has at most one inverse in the field.
pub proof fn lemma_inverse_unique(a: nat, b: nat)
    requires
        is_inverse(a, b),
    ensures
        finv(a) == b,
{
    let c = finv(a);
    assert(is_inverse(a, c));
    reveal(fmul);
    let q = modulus() as int;
    let (ai, bi, ci) = (a as int, b as int, c as int);
    // b = b * (a * c) = (b * a) * c = c, all modulo q
    assert((bi * (ai * ci)) % q == bi % q) by {
        vstd::arithmetic::div_mod::lemma_mul_mod_noop_right(bi, ai * ci, q);
        assert(bi * 1 == bi);
    }
    assert(((bi * ai) * ci) % q == ci % q) by {
        vstd::arithmetic::div_mod::lemma_mul_mod_noop_left(bi * ai, ci, q);
        assert(bi * ai == ai * bi) by (nonlinear_arith);
        assert(1 * ci == ci);
    }
    assert(bi * (ai * ci) == (bi * ai) * ci) by (nonlinear_arith);
    vstd::arithmetic::div_mod::lemma_small_mod(b, modulus());
    vstd::arithmetic::div_mod::lemma_small_mod(c, modulus());
}

} // verus!
