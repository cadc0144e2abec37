//! Arithmetic modulo the order of the Ristretto group.
//!
//! Scalars are integers modulo the group order, and the model of a group element is its
//! discrete logarithm to the basepoint, so all the mathematics of the protocol takes place in
//! the ring of integers modulo `group_order()`.
use vstd::arithmetic::div_mod::*;
use vstd::prelude::*;

use crate::certificate;
use crate::prime;

verus! {

/// The order of the Ristretto group, the prime `2^252 + 27742317777372353535851937790883648493`.
#[verifier::opaque]
pub open spec fn group_order() -> int {
    0x1000000000000000000000000000000014def9dea2f79cd65812631a5cf5d3edint
}

/// The representative of `a` modulo the group order that lies in `0..group_order()`.
pub open spec fn reduce(a: int) -> int {
    a % group_order()
}

/// Whether `a` has an inverse modulo the group order.
pub open spec fn invertible(a: int) -> bool {
    exists|u: int| #[trigger] is_inverse(a, u)
}

/// Whether `u` is the reduced inverse of `a` modulo the group order.
pub open spec fn is_inverse(a: int, u: int) -> bool {
    0 <= u < group_order() && reduce(a * u) == 1
}

/// The reduced inverse of an invertible `a` modulo the group order.
pub open spec fn inverse(a: int) -> int {
    choose|u: int| #[trigger] is_inverse(a, u)
}

/// The integer that a little-endian byte string denotes.
pub open spec fn le_value(bytes: Seq<u8>) -> int
    decreases bytes.len(),
{
    if bytes.len() == 0 {
        0
    } else {
        bytes[0] as int + 256 * le_value(bytes.drop_first())
    }
}

/// The group order exceeds every `u32`.
pub proof fn lemma_group_order_large()
    ensures
        group_order() > 0x1_0000_0000,
{
    reveal(group_order);
}

/// Reduction lands below the group order.
pub broadcast proof fn lemma_reduce_bound(a: int)
    ensures
        0 <= #[trigger] reduce(a) < group_order(),
{
    lemma_group_order_large();
    lemma_mod_bound(a, group_order());
}

/// Reduction leaves what is already reduced alone.
pub proof fn lemma_reduce_small(a: int)
    requires
        0 <= a < group_order(),
    ensures
        reduce(a) == a,
{
    lemma_small_mod(a as nat, group_order() as nat);
}

/// What lies strictly between the negated group order and the group order is zero modulo the
/// group order only where it is zero.
pub proof fn lemma_reduce_nonzero(a: int)
    requires
        a != 0,
        -group_order() < a < group_order(),
    ensures
        reduce(a) != 0,
{
    lemma_group_order_large();
    if a > 0 {
        lemma_reduce_small(a);
    } else {
        lemma_mod_add_multiples_vanish(a, group_order());
        lemma_reduce_small(a + group_order());
    }
}

/// A summand may be reduced before the sum is.
pub proof fn lemma_reduce_add(a: int, b: int)
    ensures
        reduce(reduce(a) + b) == reduce(a + b),
        reduce(a + reduce(b)) == reduce(a + b),
        reduce(reduce(a) + reduce(b)) == reduce(a + b),
{
    lemma_group_order_large();
    lemma_add_mod_noop(a, b, group_order());
    lemma_add_mod_noop_right(a, b, group_order());
    lemma_add_mod_noop_right(b, a, group_order());
}

/// The operands of a difference may be reduced before the difference is.
pub proof fn lemma_reduce_sub(a: int, b: int)
    ensures
        reduce(reduce(a) - b) == reduce(a - b),
        reduce(a - reduce(b)) == reduce(a - b),
        reduce(reduce(a) - reduce(b)) == reduce(a - b),
{
    lemma_group_order_large();
    lemma_sub_mod_noop(a, b, group_order());
    lemma_sub_mod_noop_right(a, b, group_order());
    lemma_sub_mod_noop(reduce(a), b, group_order());
    lemma_sub_mod_noop_right(reduce(a), b, group_order());
}

/// A factor may be reduced before the product is.
pub proof fn lemma_reduce_mul(a: int, b: int)
    ensures
        reduce(reduce(a) * b) == reduce(a * b),
        reduce(a * reduce(b)) == reduce(a * b),
        reduce(reduce(a) * reduce(b)) == reduce(a * b),
{
    lemma_group_order_large();
    lemma_mul_mod_noop_general(a, b, group_order());
}

/// Whether two integers are the same modulo the group order.
pub open spec fn cong(a: int, b: int) -> bool {
    reduce(a) == reduce(b)
}

/// Congruence is kept by sums, differences and products.
pub proof fn lemma_cong_ops(a: int, b: int, c: int, d: int)
    requires
        cong(a, b),
        cong(c, d),
    ensures
        cong(a + c, b + d),
        cong(a - c, b - d),
        cong(a * c, b * d),
{
    lemma_reduce_add(a, c);
    lemma_reduce_add(b, d);
    lemma_reduce_sub(a, c);
    lemma_reduce_sub(b, d);
    lemma_reduce_mul(a, c);
    lemma_reduce_mul(b, d);
}

/// An integer is congruent to its reduction.
pub proof fn lemma_cong_reduce(a: int)
    ensures
        cong(reduce(a), a),
{
    lemma_reduce_bound(a);
    lemma_reduce_small(reduce(a));
}

/// An invertible factor may be cancelled.
pub proof fn lemma_cong_cancel(f: int, a: int, b: int)
    requires
        invertible(f),
        cong(f * a, f * b),
    ensures
        cong(a, b),
{
    let u = inverse(f);
    assert(is_inverse(f, u));
    lemma_group_order_large();
    lemma_reduce_small(1);
    lemma_cong_ops(f * u, 1, a, a);
    lemma_cong_ops(f * u, 1, b, b);
    lemma_cong_ops(f * a, f * b, u, u);
    assert((f * u) * a == (f * a) * u) by (nonlinear_arith);
    assert((f * u) * b == (f * b) * u) by (nonlinear_arith);
}

/// What is not zero modulo the group order is invertible, since the group order is prime.
pub proof fn lemma_nonzero_invertible(a: int)
    requires
        reduce(a) != 0,
    ensures
        invertible(a),
{
    certificate::lemma_group_order_prime();
    let u = prime::lemma_inverse_exists(group_order(), a);
    assert(is_inverse(a, u));
}

/// A product is zero modulo the group order only where one of the factors is.
pub proof fn lemma_product_nonzero(a: int, b: int)
    requires
        reduce(a) != 0,
        reduce(b) != 0,
    ensures
        reduce(a * b) != 0,
{
    lemma_group_order_large();
    lemma_reduce_small(0);
    if reduce(a * b) == 0 {
        lemma_nonzero_invertible(a);
        assert(a * 0 == 0) by (nonlinear_arith);
        lemma_cong_cancel(a, b, 0);
    }
}

/// The factors of an invertible product are invertible, and the product's inverse by one factor
/// is the inverse of the other.
pub proof fn lemma_factor_invertible(a: int, b: int)
    requires
        invertible(a * b),
    ensures
        invertible(a),
        cong(inverse(a), b * inverse(a * b)),
{
    let u = inverse(a * b);
    assert(is_inverse(a * b, u));
    let v = reduce(b * u);
    lemma_reduce_bound(b * u);
    lemma_reduce_mul(a, b * u);
    assert(a * (b * u) == (a * b) * u) by (nonlinear_arith);
    assert(is_inverse(a, v));
    lemma_inverse_is(a, v);
    lemma_cong_reduce(b * u);
}

/// There is at most one reduced inverse.
pub proof fn lemma_inverse_unique(a: int, u: int, v: int)
    requires
        is_inverse(a, u),
        is_inverse(a, v),
    ensures
        u == v,
{
    lemma_reduce_mul(a * u, v);
    lemma_reduce_mul(a * v, u);
    assert((a * u) * v == (a * v) * u) by (nonlinear_arith);
    lemma_reduce_small(u);
    lemma_reduce_small(v);
}

/// An inverse that was found is the inverse.
pub proof fn lemma_inverse_is(a: int, u: int)
    requires
        is_inverse(a, u),
    ensures
        invertible(a),
        inverse(a) == u,
{
    lemma_inverse_unique(a, u, inverse(a));
}

/// Two byte strings of one length that denote the same integer are the same.
pub proof fn lemma_le_value_injective(a: Seq<u8>, b: Seq<u8>)
    requires
        a.len() == b.len(),
        le_value(a) == le_value(b),
    ensures
        a == b,
    decreases a.len(),
{
    if a.len() > 0 {
        assert(a[0] == b[0] && le_value(a.drop_first()) == le_value(b.drop_first()));
        lemma_le_value_injective(a.drop_first(), b.drop_first());
        assert forall|i: int| 0 <= i < a.len() implies a[i] == b[i] by {
            if i > 0 {
                assert(a[i] == a.drop_first()[i - 1]);
                assert(b[i] == b.drop_first()[i - 1]);
            }
        }
        assert(a =~= b);
    } else {
        assert(a =~= b);
    }
}

/// A byte string of zeros denotes zero.
pub proof fn lemma_le_value_zeros(bytes: Seq<u8>)
    requires
        forall|i: int| 0 <= i < bytes.len() ==> bytes[i] == 0,
    ensures
        le_value(bytes) == 0,
    decreases bytes.len(),
{
    if bytes.len() > 0 {
        lemma_le_value_zeros(bytes.drop_first());
    }
}

} // verus!
