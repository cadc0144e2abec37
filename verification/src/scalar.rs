//! Scalars of the Ristretto group.
use curve25519_dalek::scalar::Scalar as DalekScalar;
use rand::rngs::ThreadRng;
use vstd::prelude::*;

use crate::field;

verus! {

/// The random number generator of the `rand` crate that nonces are drawn from.
#[verifier::external_type_specification]
#[verifier::external_body]
pub struct ExThreadRng(rand::rngs::ThreadRng);

/// An integer modulo the group order, held as its canonical little-endian encoding.
///
/// The view of a scalar is the integer in `0..group_order()` that it stands for.
#[derive(Clone, Copy, Debug)]
pub struct Scalar {
    bytes: [u8; 32],
}

impl View for Scalar {
    type V = int;

    closed spec fn view(&self) -> int {
        field::le_value(self.bytes@)
    }
}

impl Scalar {
    /// A scalar is reduced.
    #[verifier::type_invariant]
    pub open spec fn wf(self) -> bool {
        0 <= self@ < field::group_order()
    }
}

impl Scalar {
    /// The scalar zero.
    pub fn zero() -> (r: Scalar)
        ensures
            r@ == 0,
    {
        let bytes: [u8; 32] = [0u8; 32];
        proof {
            field::lemma_le_value_zeros(bytes@);
            field::lemma_group_order_large();
        }
        Scalar { bytes }
    }

    /// The scalar that a small integer denotes.
    pub fn from_u32(x: u32) -> (r: Scalar)
        ensures
            r@ == x,
    {
        let bytes = dalek_from_u32(x);
        proof {
            field::lemma_group_order_large();
        }
        Scalar { bytes }
    }

    /// The scalar that a little-endian integer of 256 bits denotes, reduced modulo the group order.
    pub fn from_bytes_mod_order(bytes: [u8; 32]) -> (r: Scalar)
        ensures
            r@ == field::reduce(field::le_value(bytes@)),
    {
        let bytes = dalek_from_bytes_mod_order(bytes);
        proof {
            broadcast use field::lemma_reduce_bound;
        }
        Scalar { bytes }
    }

    /// The canonical little-endian encoding of the scalar.
    pub fn to_bytes(&self) -> (r: [u8; 32])
        ensures
            field::le_value(r@) == self@,
    {
        self.bytes
    }

    /// A scalar drawn at random: the outcome of one draw, which leaves the generator as it is
    /// after that draw. Which outcome it is, is left to chance.
    pub fn random(rng: &mut ThreadRng) -> (r: Scalar)
        ensures
            r.wf(),
            is_draw(*old(rng), r, *final(rng)),
    {
        let step = draw;
        let (r, after) = step(*rng);
        *rng = after;
        proof {
            use_type_invariant(&r);
        }
        r
    }

    /// The sum of two scalars.
    pub fn add(&self, other: &Scalar) -> (r: Scalar)
        ensures
            r@ == field::reduce(self@ + other@),
    {
        let bytes = dalek_add(self.bytes, other.bytes);
        proof {
            broadcast use field::lemma_reduce_bound;
        }
        Scalar { bytes }
    }

    /// The difference of two scalars.
    pub fn sub(&self, other: &Scalar) -> (r: Scalar)
        ensures
            r@ == field::reduce(self@ - other@),
    {
        let bytes = dalek_sub(self.bytes, other.bytes);
        proof {
            broadcast use field::lemma_reduce_bound;
        }
        Scalar { bytes }
    }

    /// The product of two scalars.
    pub fn mul(&self, other: &Scalar) -> (r: Scalar)
        ensures
            r@ == field::reduce(self@ * other@),
    {
        let bytes = dalek_mul(self.bytes, other.bytes);
        proof {
            broadcast use field::lemma_reduce_bound;
        }
        Scalar { bytes }
    }

    /// The inverse of a scalar other than zero.
    pub fn invert(&self) -> (r: Scalar)
        requires
            self@ != 0,
        ensures
            field::is_inverse(self@, r@),
    {
        proof {
            use_type_invariant(self);
            field::lemma_reduce_small(self@);
        }
        let bytes = dalek_invert(self.bytes);
        Scalar { bytes }
    }
}

impl PartialEq for Scalar {
    /// Whether two scalars stand for the same integer.
    fn eq(&self, other: &Scalar) -> (r: bool) {
        let r = same_bytes(&self.bytes, &other.bytes);
        proof {
            if self@ == other@ {
                field::lemma_le_value_injective(self.bytes@, other.bytes@);
            }
        }
        r
    }
}

impl vstd::std_specs::cmp::PartialEqSpecImpl for Scalar {
    open spec fn obeys_eq_spec() -> bool {
        true
    }

    open spec fn eq_spec(&self, other: &Scalar) -> bool {
        self@ == other@
    }
}

impl Eq for Scalar {

}

/// Whether `s` is an outcome of a draw from the generator `before`, and `after` the generator that
/// this draw leaves.
///
/// This says what was done, and not which scalar comes out: a generator may give any of many.
pub closed spec fn is_draw(before: ThreadRng, s: Scalar, after: ThreadRng) -> bool {
    call_ensures(draw, (before,), (s, after))
}

/// Draws a scalar from a generator, and hands the generator back as the draw left it.
fn draw(rng: ThreadRng) -> (r: (Scalar, ThreadRng))
    ensures
        ({
            let bytes = r.0.bytes;
            let after = r.1;
            exists|m: &mut ThreadRng|
                *m == rng && *final(m) == after && #[trigger] call_ensures(
                    dalek_random,
                    (m,),
                    bytes,
                )
        }),
{
    let mut after = rng;
    let outside = dalek_random;
    let bytes = outside(&mut after);
    assert(exists|m: &mut ThreadRng|
        *m == rng && *final(m) == after && #[trigger] call_ensures(dalek_random, (m,), bytes));
    let r = (Scalar { bytes }, after);
    assert(r.0.bytes == bytes && r.1 == after);
    r
}

/// A drawn scalar is what one call of the outside generator gave, from the state before to the
/// state after: it is neither made up nor taken from another draw.
pub(crate) proof fn law_draw_comes_from_the_generator(
    before: ThreadRng,
    s: Scalar,
    after: ThreadRng,
)
    requires
        is_draw(before, s, after),
    ensures
        exists|m: &mut ThreadRng, bytes: [u8; 32]|
            *m == before && *final(m) == after && field::le_value(bytes@) == s@
                && #[trigger] call_ensures(dalek_random, (m,), bytes),
{
}

/// Whether two encodings are the same byte for byte.
pub(crate) fn same_bytes(a: &[u8; 32], b: &[u8; 32]) -> (r: bool)
    ensures
        r == (a@ == b@),
{
    let mut i: usize = 0;
    while i < 32
        invariant
            i <= 32,
            forall|j: int| 0 <= j < i ==> a@[j] == b@[j],
        decreases 32 - i,
    {
        if a[i] != b[i] {
            return false;
        }
        i += 1;
    }
    assert(a@ =~= b@);
    true
}

/// `Scalar::from(u32)` of curve25519-dalek: the scalar with the value of the integer.
#[verifier::external_body]
fn dalek_from_u32(x: u32) -> (r: [u8; 32])
    ensures
        field::le_value(r@) == x,
{
    DalekScalar::from(x).to_bytes()
}

/// `Scalar::from_bytes_mod_order` of curve25519-dalek: the little-endian integer that the bytes
/// denote, reduced modulo the group order.
#[verifier::external_body]
fn dalek_from_bytes_mod_order(bytes: [u8; 32]) -> (r: [u8; 32])
    ensures
        field::le_value(r@) == field::reduce(field::le_value(bytes@)),
{
    DalekScalar::from_bytes_mod_order(bytes).to_bytes()
}

/// `Scalar::random` of curve25519-dalek: some reduced scalar, which one being left to chance.
#[verifier::external_body]
pub(crate) fn dalek_random(rng: &mut ThreadRng) -> (r: [u8; 32])
    ensures
        0 <= field::le_value(r@) < field::group_order(),
{
    DalekScalar::random(rng).to_bytes()
}

/// `+` on the scalars of curve25519-dalek: the sum modulo the group order.
#[verifier::external_body]
fn dalek_add(a: [u8; 32], b: [u8; 32]) -> (r: [u8; 32])
    ensures
        field::le_value(r@) == field::reduce(field::le_value(a@) + field::le_value(b@)),
{
    (DalekScalar::from_bytes_mod_order(a) + DalekScalar::from_bytes_mod_order(b)).to_bytes()
}

/// `-` on the scalars of curve25519-dalek: the difference modulo the group order.
#[verifier::external_body]
fn dalek_sub(a: [u8; 32], b: [u8; 32]) -> (r: [u8; 32])
    ensures
        field::le_value(r@) == field::reduce(field::le_value(a@) - field::le_value(b@)),
{
    (DalekScalar::from_bytes_mod_order(a) - DalekScalar::from_bytes_mod_order(b)).to_bytes()
}

/// `*` on the scalars of curve25519-dalek: the product modulo the group order.
#[verifier::external_body]
fn dalek_mul(a: [u8; 32], b: [u8; 32]) -> (r: [u8; 32])
    ensures
        field::le_value(r@) == field::reduce(field::le_value(a@) * field::le_value(b@)),
{
    (DalekScalar::from_bytes_mod_order(a) * DalekScalar::from_bytes_mod_order(b)).to_bytes()
}

/// `Scalar::invert` of curve25519-dalek: the multiplicative inverse of a scalar other than zero.
#[verifier::external_body]
fn dalek_invert(a: [u8; 32]) -> (r: [u8; 32])
    requires
        field::reduce(field::le_value(a@)) != 0,
    ensures
        field::is_inverse(field::le_value(a@), field::le_value(r@)),
{
    DalekScalar::from_bytes_mod_order(a).invert().to_bytes()
}

} // verus!
