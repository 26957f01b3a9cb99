use vstd::prelude::*;
use vstd::arithmetic::power::pow;
use curve25519_dalek::ristretto::{CompressedRistretto, RistrettoPoint};
use curve25519_dalek::scalar::Scalar as FieldScalar;
use curve25519_dalek::traits::Identity;
use sha2::Sha512;

verus! {

/// Whether 32 bytes are the encoding of a Ristretto group element.
pub uninterp spec fn is_point_encoding(b: Seq<u8>) -> bool;

/// Encoding of the group sum of two encoded points.
pub uninterp spec fn point_add(a: Seq<u8>, b: Seq<u8>) -> Seq<u8>;

/// Encoding of the product of a scalar (read modulo the group order) and an encoded point.
pub uninterp spec fn point_mul(s: Seq<u8>, p: Seq<u8>) -> Seq<u8>;

/// The order of the Ristretto group.
pub open spec fn group_order() -> nat {
    (pow(2, 252) + 27742317777372353535851937790883648493int) as nat
}

/// The number that bytes spell in little-endian order.
pub open spec fn le_value(s: Seq<u8>) -> nat
    decreases s.len(),
{
    if s.len() == 0 {
        0
    } else {
        s[0] as nat + 256 * le_value(s.subrange(1, s.len() as int))
    }
}

/// The 32 little-endian bytes of `x`.
pub open spec fn le_bytes32(x: nat) -> Seq<u8> {
    Seq::new(32, |i: int| ((x as int / pow(256, i as nat)) % 256) as u8)
}

/// Canonical encoding of the field sum of two scalars, each read modulo the group order.
pub open spec fn scalar_add(a: Seq<u8>, b: Seq<u8>) -> Seq<u8> {
    le_bytes32((le_value(a) + le_value(b)) % group_order())
}

/// `r` is the canonical encoding of the inverse of `a` modulo the group order,
/// zero where `a` is zero modulo the group order.
pub open spec fn is_scalar_inverse(r: Seq<u8>, a: Seq<u8>) -> bool {
    &&& le_value(r) < group_order()
    &&& le_value(a) % group_order() != 0 ==> (le_value(r) * le_value(a)) % group_order() == 1
    &&& le_value(a) % group_order() == 0 ==> le_value(r) == 0
}

/// Canonical encoding of the scalar derived from a byte string by SHA-512.
pub uninterp spec fn hash_to_scalar(b: Seq<u8>) -> Seq<u8>;

pub open spec fn zero_bytes() -> Seq<u8> {
    Seq::new(32, |i: int| 0u8)
}

/// Relies on `CompressedRistretto::decompress`: it succeeds exactly on encodings of points.
#[verifier::external_body]
fn decodes(b: &[u8; 32]) -> (r: bool)
    ensures
        r == is_point_encoding(b@),
{
    CompressedRistretto(*b).decompress().is_some()
}

/// Relies on `RistrettoPoint::identity` and `compress`: the identity encodes as 32 zero bytes.
#[verifier::external_body]
fn identity_encoding() -> (r: [u8; 32])
    ensures
        r@ == zero_bytes(),
        is_point_encoding(r@),
{
    RistrettoPoint::identity().compress().to_bytes()
}

/// Relies on `RistrettoPoint` addition, between `decompress` and `compress`.
#[verifier::external_body]
fn add_encoded(a: &[u8; 32], b: &[u8; 32]) -> (r: [u8; 32])
    requires
        is_point_encoding(a@),
        is_point_encoding(b@),
    ensures
        r@ == point_add(a@, b@),
        is_point_encoding(r@),
{
    let p = CompressedRistretto(*a).decompress().unwrap();
    let q = CompressedRistretto(*b).decompress().unwrap();
    (&p + &q).compress().to_bytes()
}

/// Relies on scalar-by-point multiplication of `RistrettoPoint`, the scalar taken
/// through `Scalar::from_bytes_mod_order`.
#[verifier::external_body]
fn mul_encoded(s: &[u8; 32], p: &[u8; 32]) -> (r: [u8; 32])
    requires
        is_point_encoding(p@),
    ensures
        r@ == point_mul(s@, p@),
        is_point_encoding(r@),
{
    let k = FieldScalar::from_bytes_mod_order(*s);
    let q = CompressedRistretto(*p).decompress().unwrap();
    (&k * &q).compress().to_bytes()
}

/// Relies on `Scalar` addition, which is modulo the group order, both operands taken through `Scalar::from_bytes_mod_order`.
#[verifier::external_body]
fn add_scalar_bytes(a: &[u8; 32], b: &[u8; 32]) -> (r: [u8; 32])
    ensures
        r@ == scalar_add(a@, b@),
{
    (FieldScalar::from_bytes_mod_order(*a) + FieldScalar::from_bytes_mod_order(*b)).to_bytes()
}

/// Relies on `Scalar::invert`, which raises to the power of the group order less two, the operand taken through `Scalar::from_bytes_mod_order`.
#[verifier::external_body]
fn invert_scalar_bytes(a: &[u8; 32]) -> (r: [u8; 32])
    ensures
        is_scalar_inverse(r@, a@),
{
    FieldScalar::from_bytes_mod_order(*a).invert().to_bytes()
}

/// Relies on `Scalar::hash_from_bytes::<Sha512>`: the scalar depends on the bytes alone.
#[verifier::external_body]
pub(crate) fn hash_bytes_to_scalar(b: &Vec<u8>) -> (r: [u8; 32])
    ensures
        r@ == hash_to_scalar(b@),
{
    FieldScalar::hash_from_bytes::<Sha512>(b.as_slice()).to_bytes()
}

/// An element of the scalar field, held as 32 little-endian bytes.
#[derive(Clone, Copy, PartialEq, Eq, Debug)]
pub struct Scalar {
    pub bytes: [u8; 32],
}

impl Scalar {
    pub fn zero() -> (r: Scalar)
        ensures
            r.bytes@ == zero_bytes(),
    {
        let r = Scalar { bytes: [0u8; 32] };
        assert(r.bytes@ =~= zero_bytes());
        r
    }

    pub fn from_bytes(bytes: [u8; 32]) -> (r: Scalar)
        ensures
            r.bytes == bytes,
    {
        Scalar { bytes }
    }

    /// Field addition.
    pub fn plus(&self, other: &Scalar) -> (r: Scalar)
        ensures
            r.bytes@ == scalar_add(self.bytes@, other.bytes@),
    {
        Scalar { bytes: add_scalar_bytes(&self.bytes, &other.bytes) }
    }

    /// The multiplicative inverse.
    pub fn inverse(&self) -> (r: Scalar)
        ensures
            is_scalar_inverse(r.bytes@, self.bytes@),
    {
        Scalar { bytes: invert_scalar_bytes(&self.bytes) }
    }
}

/// A Ristretto group element, held as its 32-byte encoding.
#[derive(Clone, Copy, PartialEq, Eq, Debug)]
pub struct Point {
    enc: [u8; 32],
}

impl Point {
    #[verifier::type_invariant]
    spec fn encodes_point(self) -> bool {
        is_point_encoding(self.enc@)
    }

    pub closed spec fn encoding(self) -> Seq<u8> {
        self.enc@
    }

    /// The identity element of the group.
    pub fn identity() -> (r: Point)
        ensures
            r.encoding() == zero_bytes(),
    {
        Point { enc: identity_encoding() }
    }

    /// The point that `bytes` encode, or `None` where they encode none.
    pub fn from_bytes(bytes: [u8; 32]) -> (r: Option<Point>)
        ensures
            r is Some <==> is_point_encoding(bytes@),
            r matches Some(p) ==> p.encoding() == bytes@,
    {
        if decodes(&bytes) {
            Some(Point { enc: bytes })
        } else {
            None
        }
    }

    pub fn to_bytes(&self) -> (r: [u8; 32])
        ensures
            r@ == self.encoding(),
    {
        self.enc
    }

    /// Group addition.
    pub fn plus(&self, other: &Point) -> (r: Point)
        ensures
            r.encoding() == point_add(self.encoding(), other.encoding()),
    {
        proof {
            use_type_invariant(self);
            use_type_invariant(other);
        }
        Point { enc: add_encoded(&self.enc, &other.enc) }
    }

    /// Multiplication by a scalar.
    pub fn times(&self, s: &Scalar) -> (r: Point)
        ensures
            r.encoding() == point_mul(s.bytes@, self.encoding()),
    {
        proof {
            use_type_invariant(self);
        }
        Point { enc: mul_encoded(&s.bytes, &self.enc) }
    }
}

} // verus!
