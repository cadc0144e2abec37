//! The Ristretto group.
use curve25519_dalek::constants::RISTRETTO_BASEPOINT_TABLE;
use curve25519_dalek::ristretto::{CompressedRistretto, RistrettoPoint as DalekPoint};
use curve25519_dalek::scalar::Scalar as DalekScalar;
use curve25519_dalek::traits::Identity;
use vstd::prelude::*;

use crate::field;
use crate::scalar::{same_bytes, Scalar};

verus! {

/// The canonical encoding of the basepoint multiplied by `k`, as the basepoint table of
/// curve25519-dalek computes it and `compress` writes it.
pub uninterp spec fn basepoint_multiple(k: int) -> Seq<u8>;

/// Whether a byte string is the canonical encoding of a group element.
///
/// The basepoint generates the group, so the elements are the multiples of the basepoint.
pub open spec fn is_point(encoding: Seq<u8>) -> bool {
    exists|k: int| is_log(encoding, k)
}

/// Whether `k` is the reduced discrete logarithm of an encoded group element.
pub open spec fn is_log(encoding: Seq<u8>, k: int) -> bool {
    0 <= k < field::group_order() && #[trigger] basepoint_multiple(k) == encoding
}

/// The discrete logarithm of an encoded group element to the basepoint.
pub open spec fn log(encoding: Seq<u8>) -> int {
    choose|k: int| is_log(encoding, k)
}

/// An element of the Ristretto group, held as its canonical encoding.
///
/// The view of an element is its discrete logarithm to the basepoint, an integer in
/// `0..group_order()`. Nobody can compute it, but it determines the element, turns the group
/// operation into addition modulo the group order, and so makes statements about elements
/// statements about integers.
#[derive(Clone, Copy, Debug)]
pub struct RistrettoPoint {
    bytes: [u8; 32],
}

impl View for RistrettoPoint {
    type V = int;

    closed spec fn view(&self) -> int {
        log(self.bytes@)
    }
}

impl RistrettoPoint {
    /// The bytes encode a group element.
    #[verifier::type_invariant]
    pub closed spec fn wf(self) -> bool {
        is_point(self.bytes@)
    }

    /// What a point's view says of it: it is the discrete logarithm of the encoding, it is reduced,
    /// and the encoding, of 32 bytes, is that of the multiple of the basepoint.
    pub proof fn lemma_view(self)
        requires
            self.wf(),
        ensures
            0 <= self@ < field::group_order(),
            self@ == log(self.encoding()),
            self.encoding() == basepoint_multiple(self@),
            self.encoding().len() == 32,
    {
        let k = choose|k: int| is_log(self.bytes@, k);
        assert(is_log(self.bytes@, k));
    }

    /// Elements with one view are one element, and elements with one encoding are.
    pub proof fn lemma_same(self, other: RistrettoPoint)
        requires
            self.wf(),
            other.wf(),
        ensures
            self@ == other@ <==> self == other,
            self.encoding() == other.encoding() <==> self == other,
    {
        self.lemma_view();
        other.lemma_view();
        if self.bytes@ == other.bytes@ {
            assert forall|i: int| 0 <= i < 32 implies self.bytes[i] == other.bytes[i] by {
                assert(self.bytes@[i] == other.bytes@[i]);
            }
            assert(self.bytes =~= other.bytes);
        }
    }

    /// The canonical encoding of the element.
    pub closed spec fn encoding(self) -> Seq<u8> {
        self.bytes@
    }

    /// The identity of the group, which the zero bytes encode.
    pub fn identity() -> (r: RistrettoPoint)
        ensures
            r@ == 0,
            forall|i: int| 0 <= i < 32 ==> #[trigger] r.encoding()[i] == 0,
    {
        let bytes = dalek_identity();
        RistrettoPoint { bytes }
    }

    /// The basepoint multiplied by a scalar.
    pub fn mul_base(scalar: &Scalar) -> (r: RistrettoPoint)
        ensures
            r@ == scalar@,
    {
        proof {
            use_type_invariant(scalar);
            field::lemma_reduce_small(scalar@);
        }
        let bytes = dalek_mul_base(scalar.to_bytes());
        RistrettoPoint { bytes }
    }

    /// The element that an encoding stands for, where there is one.
    pub fn from_bytes(bytes: [u8; 32]) -> (r: Option<RistrettoPoint>)
        ensures
            r is Some <==> is_point(bytes@),
            r matches Some(p) ==> p.encoding() == bytes@ && p@ == log(bytes@),
    {
        if dalek_decompresses(bytes) {
            Some(RistrettoPoint { bytes })
        } else {
            None
        }
    }

    /// The canonical encoding of the element.
    pub fn to_bytes(&self) -> (r: [u8; 32])
        ensures
            r@ == self.encoding(),
            r@ == basepoint_multiple(self@),
    {
        proof {
            use_type_invariant(self);
            self.lemma_view();
        }
        self.bytes
    }

    /// The sum of two elements.
    pub fn add(&self, other: &RistrettoPoint) -> (r: RistrettoPoint)
        ensures
            r@ == field::reduce(self@ + other@),
    {
        proof {
            use_type_invariant(self);
            use_type_invariant(other);
        }
        let bytes = dalek_point_add(self.bytes, other.bytes);
        RistrettoPoint { bytes }
    }

    /// The difference of two elements.
    pub fn sub(&self, other: &RistrettoPoint) -> (r: RistrettoPoint)
        ensures
            r@ == field::reduce(self@ - other@),
    {
        proof {
            use_type_invariant(self);
            use_type_invariant(other);
        }
        let bytes = dalek_point_sub(self.bytes, other.bytes);
        RistrettoPoint { bytes }
    }

    /// The element multiplied by a scalar.
    pub fn mul(&self, scalar: &Scalar) -> (r: RistrettoPoint)
        ensures
            r@ == field::reduce(self@ * scalar@),
    {
        proof {
            use_type_invariant(self);
        }
        let bytes = dalek_point_mul(self.bytes, scalar.to_bytes());
        RistrettoPoint { bytes }
    }
}

impl PartialEq for RistrettoPoint {
    /// Whether two elements are the same, which their canonical encodings tell.
    fn eq(&self, other: &RistrettoPoint) -> (r: bool) {
        let r = same_bytes(&self.bytes, &other.bytes);
        proof {
            use_type_invariant(self);
            use_type_invariant(other);
            self.lemma_view();
            other.lemma_view();
        }
        r
    }
}

impl vstd::std_specs::cmp::PartialEqSpecImpl for RistrettoPoint {
    open spec fn obeys_eq_spec() -> bool {
        true
    }

    open spec fn eq_spec(&self, other: &RistrettoPoint) -> bool {
        self@ == other@
    }
}

impl Eq for RistrettoPoint {

}

/// `RistrettoPoint::identity` of curve25519-dalek, encoded by `compress`: the element that has the
/// discrete logarithm zero, whose encoding is all zeros.
#[verifier::external_body]
fn dalek_identity() -> (r: [u8; 32])
    ensures
        is_point(r@),
        log(r@) == 0,
        forall|i: int| 0 <= i < 32 ==> #[trigger] r@[i] == 0,
{
    DalekPoint::identity().compress().to_bytes()
}

/// `RISTRETTO_BASEPOINT_TABLE * scalar` of curve25519-dalek, encoded by `compress`: the multiple
/// of the basepoint by the reduced scalar, which no other reduced scalar gives, since the
/// basepoint has the order of the group.
#[verifier::external_body]
fn dalek_mul_base(scalar: [u8; 32]) -> (r: [u8; 32])
    ensures
        r@ == basepoint_multiple(field::reduce(field::le_value(scalar@))),
        is_point(r@),
        log(r@) == field::reduce(field::le_value(scalar@)),
{
    (&RISTRETTO_BASEPOINT_TABLE * &DalekScalar::from_bytes_mod_order(scalar)).compress().to_bytes()
}

/// `CompressedRistretto::decompress` of curve25519-dalek: succeeds exactly on the canonical
/// encodings of the group elements.
#[verifier::external_body]
fn dalek_decompresses(bytes: [u8; 32]) -> (r: bool)
    ensures
        r == is_point(bytes@),
{
    CompressedRistretto(bytes).decompress().is_some()
}

/// `+` on the points of curve25519-dalek: the discrete logarithms add up.
#[verifier::external_body]
fn dalek_point_add(p: [u8; 32], q: [u8; 32]) -> (r: [u8; 32])
    requires
        is_point(p@),
        is_point(q@),
    ensures
        is_point(r@),
        log(r@) == field::reduce(log(p@) + log(q@)),
{
    let p = CompressedRistretto(p).decompress().unwrap();
    let q = CompressedRistretto(q).decompress().unwrap();
    (p + q).compress().to_bytes()
}

/// `-` on the points of curve25519-dalek: the discrete logarithms are subtracted.
#[verifier::external_body]
fn dalek_point_sub(p: [u8; 32], q: [u8; 32]) -> (r: [u8; 32])
    requires
        is_point(p@),
        is_point(q@),
    ensures
        is_point(r@),
        log(r@) == field::reduce(log(p@) - log(q@)),
{
    let p = CompressedRistretto(p).decompress().unwrap();
    let q = CompressedRistretto(q).decompress().unwrap();
    (p - q).compress().to_bytes()
}

/// `*` of a point and a scalar of curve25519-dalek: the discrete logarithm is multiplied.
#[verifier::external_body]
fn dalek_point_mul(p: [u8; 32], scalar: [u8; 32]) -> (r: [u8; 32])
    requires
        is_point(p@),
    ensures
        is_point(r@),
        log(r@) == field::reduce(log(p@) * field::le_value(scalar@)),
{
    let p = CompressedRistretto(p).decompress().unwrap();
    (p * DalekScalar::from_bytes_mod_order(scalar)).compress().to_bytes()
}

} // verus!
