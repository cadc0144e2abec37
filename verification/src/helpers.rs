//! Lagrange coefficients.
use vstd::prelude::*;

use crate::field;
use crate::scalar::Scalar;

verus! {

/// The product of `j - x` over the indices `j` other than `i`.
pub open spec fn lagrange_product(x: int, i: u32, indices: Seq<u32>) -> int
    decreases indices.len(),
{
    if indices.len() == 0 {
        1
    } else if indices.last() == i {
        lagrange_product(x, i, indices.drop_last())
    } else {
        lagrange_product(x, i, indices.drop_last()) * (indices.last() - x)
    }
}

/// The value at `x` of the polynomial that is one at the index `i` and zero at the other indices:
/// the product of `(j - x) / (j - i)` over the indices `j` other than `i`.
pub open spec fn lagrange_coeff(x: int, i: u32, indices: Seq<u32>) -> int {
    field::reduce(
        lagrange_product(x, i, indices) * field::inverse(lagrange_product(i as int, i, indices)),
    )
}

/// The denominator of a Lagrange coefficient can be divided by: the differences of distinct
/// indices are not zero modulo the group order, and neither is a product of them.
pub proof fn lemma_denominator_invertible(i: u32, indices: Seq<u32>)
    ensures
        field::reduce(lagrange_product(i as int, i, indices)) != 0,
        field::invertible(lagrange_product(i as int, i, indices)),
    decreases indices.len(),
{
    let den = lagrange_product(i as int, i, indices);
    field::lemma_group_order_large();
    if indices.len() == 0 {
        field::lemma_reduce_small(1);
    } else {
        let init = indices.drop_last();
        lemma_denominator_invertible(i, init);
        if indices.last() != i {
            field::lemma_reduce_nonzero(indices.last() - i);
            field::lemma_product_nonzero(
                lagrange_product(i as int, i, init),
                indices.last() - i,
            );
        }
    }
    field::lemma_nonzero_invertible(den);
}

/// Computes the Lagrange coefficient of the participant `signer_index` at `x_coord`, among the
/// participants `all_signer_indices`. It always exists.
pub fn get_lagrange_coeff(x_coord: u32, signer_index: u32, all_signer_indices: &Vec<u32>) -> (r:
    Result<Scalar, &'static str>)
    ensures
        r is Ok,
        r->Ok_0@ == lagrange_coeff(x_coord as int, signer_index, all_signer_indices@),
{
    let x = Scalar::from_u32(x_coord);
    let i = Scalar::from_u32(signer_index);
    let mut num = Scalar::from_u32(1);
    let mut den = Scalar::from_u32(1);
    let ghost s = all_signer_indices@;
    let ghost xc = x_coord as int;
    let ghost ic = signer_index as int;
    proof {
        field::lemma_group_order_large();
        field::lemma_reduce_small(1);
    }
    let mut k: usize = 0;
    while k < all_signer_indices.len()
        invariant
            k <= all_signer_indices.len(),
            s == all_signer_indices@,
            xc == x_coord,
            ic == signer_index,
            x@ == x_coord,
            i@ == signer_index,
            num@ == field::reduce(lagrange_product(xc, signer_index, s.take(k as int))),
            den@ == field::reduce(lagrange_product(ic, signer_index, s.take(k as int))),
        decreases all_signer_indices.len() - k,
    {
        let j = all_signer_indices[k];
        proof {
            assert(s.take(k + 1).drop_last() =~= s.take(k as int));
            assert(s.take(k + 1).last() == j);
        }
        if j != signer_index {
            let jj = Scalar::from_u32(j);
            let from_x = jj.sub(&x);
            let from_i = jj.sub(&i);
            proof {
                field::lemma_reduce_mul(lagrange_product(xc, signer_index, s.take(k as int)), j - xc);
                field::lemma_reduce_mul(lagrange_product(ic, signer_index, s.take(k as int)), j - ic);
            }
            num = num.mul(&from_x);
            den = den.mul(&from_i);
        }
        k += 1;
    }
    proof {
        assert(s.take(k as int) =~= s);
        lemma_denominator_invertible(signer_index, s);
    }
    let inv = den.invert();
    proof {
        let n = lagrange_product(xc, signer_index, s);
        let d = lagrange_product(ic, signer_index, s);
        field::lemma_reduce_mul(d, inv@);
        assert(field::is_inverse(d, inv@));
        field::lemma_inverse_is(d, inv@);
        field::lemma_reduce_mul(n, inv@);
    }
    Ok(num.mul(&inv))
}

/// Whether a list of indices ascends.
pub open spec fn ascending(indices: Seq<u32>) -> bool {
    forall|i: int, j: int| 0 <= i <= j < indices.len() ==> indices[i] <= indices[j]
}

/// The indices of a list in ascending order, each as often as it occurs there.
pub(crate) fn sorted(list: &Vec<u32>) -> (r: Vec<u32>)
    ensures
        ascending(r@),
        r@.to_multiset() == list@.to_multiset(),
{
    let mut out: Vec<u32> = Vec::with_capacity(list.len());
    let mut i: usize = 0;
    assert(list@.take(0) =~= out@);
    while i < list.len()
        invariant
            i <= list.len(),
            ascending(out@),
            out@.to_multiset() == list@.take(i as int).to_multiset(),
        decreases list.len() - i,
    {
        let x: u32 = list[i];
        let mut p: usize = 0;
        while p < out.len() && out[p] <= x
            invariant
                p <= out.len(),
                forall|q: int| 0 <= q < p ==> out@[q] <= x,
            decreases out.len() - p,
        {
            p += 1;
        }
        proof {
            let before = out@;
            let after = before.insert(p as int, x);
            before.insert_ensures(p as int, x);
            after.to_multiset_ensures();
            before.to_multiset_ensures();
            assert(after.remove(p as int) =~= before);
            assert(after.to_multiset() =~= before.to_multiset().insert(x));
            list@.take(i as int).to_multiset_ensures();
            assert(list@.take(i + 1) =~= list@.take(i as int).push(x));
        }
        out.insert(p, x);
        i += 1;
    }
    assert(list@.take(i as int) =~= list@);
    out
}

/// Two ascending lists are the same exactly where they hold the same indices equally often.
pub proof fn lemma_ascending_unique(a: Seq<u32>, b: Seq<u32>)
    requires
        ascending(a),
        ascending(b),
    ensures
        a == b <==> a.to_multiset() == b.to_multiset(),
{
    if a.to_multiset() == b.to_multiset() {
        vstd::seq_lib::lemma_sorted_unique(a, b, |x: u32, y: u32| x <= y);
    }
}

} // verus!
