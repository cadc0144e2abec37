//! Lagrange interpolation: enough shares of a polynomial determine its value at zero.
use vstd::prelude::*;

use crate::field;
use crate::helpers;

verus! {

/// The sum of `f` over a list of indices.
pub open spec fn sum(indices: Seq<u32>, f: spec_fn(u32) -> int) -> int
    decreases indices.len(),
{
    if indices.len() == 0 {
        0
    } else {
        sum(indices.drop_last(), f) + f(indices.last())
    }
}

/// The value at `x` of the polynomial with the coefficients `coeffs`, the constant one first.
pub open spec fn eval(coeffs: Seq<int>, x: int) -> int
    decreases coeffs.len(),
{
    if coeffs.len() == 0 {
        0
    } else {
        coeffs[0] + x * eval(coeffs.drop_first(), x)
    }
}

/// The sum of what `f` is at each of the indices by the Lagrange coefficient of the index at zero.
pub open spec fn weighted_sum(indices: Seq<u32>, f: spec_fn(u32) -> int) -> int {
    sum(indices, |i: u32| f(i) * helpers::lagrange_coeff(0, i, indices))
}

/// Sums of congruent terms are congruent.
pub proof fn lemma_sum_cong(indices: Seq<u32>, f: spec_fn(u32) -> int, g: spec_fn(u32) -> int)
    requires
        forall|i: u32| #[trigger] indices.contains(i) ==> field::cong(f(i), g(i)),
    ensures
        field::cong(sum(indices, f), sum(indices, g)),
    decreases indices.len(),
{
    if indices.len() > 0 {
        let init = indices.drop_last();
        assert forall|i: u32| #[trigger] init.contains(i) implies field::cong(f(i), g(i)) by {
            let k = choose|k: int| 0 <= k < init.len() && init[k] == i;
            assert(indices[k] == i);
            assert(indices.contains(i));
        }
        lemma_sum_cong(init, f, g);
        assert(indices.contains(indices[indices.len() - 1]));
        field::lemma_cong_ops(
            sum(init, f),
            sum(init, g),
            f(indices.last()),
            g(indices.last()),
        );
    }
}

/// A sum of linear combinations is the linear combination of the sums.
pub proof fn lemma_sum_linear(
    indices: Seq<u32>,
    f: spec_fn(u32) -> int,
    a: int,
    g: spec_fn(u32) -> int,
    h: spec_fn(u32) -> int,
)
    requires
        forall|i: u32| #[trigger] f(i) == g(i) + a * h(i),
    ensures
        sum(indices, f) == sum(indices, g) + a * sum(indices, h),
    decreases indices.len(),
{
    if indices.len() > 0 {
        let init = indices.drop_last();
        lemma_sum_linear(init, f, a, g, h);
        assert(a * (sum(init, h) + h(indices.last())) == a * sum(init, h) + a * h(indices.last()))
            by (nonlinear_arith);
    } else {
        assert(a * 0 == 0) by (nonlinear_arith);
    }
}

/// Taking one place out of a list takes its term out of the sum.
pub proof fn lemma_sum_remove(indices: Seq<u32>, f: spec_fn(u32) -> int, m: int)
    requires
        0 <= m < indices.len(),
    ensures
        sum(indices, f) == sum(indices.remove(m), f) + f(indices[m]),
    decreases indices.len(),
{
    let rest = indices.remove(m);
    if m == indices.len() - 1 {
        assert(rest =~= indices.drop_last());
    } else {
        lemma_sum_remove(indices.drop_last(), f, m);
        assert(rest.drop_last() =~= indices.drop_last().remove(m));
        assert(rest.last() == indices.last());
    }
}

/// The order of the indices does not matter to a sum.
pub proof fn lemma_sum_permutation(a: Seq<u32>, b: Seq<u32>, f: spec_fn(u32) -> int)
    requires
        a.to_multiset() == b.to_multiset(),
    ensures
        sum(a, f) == sum(b, f),
    decreases a.len(),
{
    a.to_multiset_ensures();
    b.to_multiset_ensures();
    if a.len() > 0 {
        let x = a.last();
        assert(a[a.len() - 1] == x);
        assert(a.contains(x));
        assert(b.contains(x)) by {
            assert(a.to_multiset().count(x) > 0);
        }
        let m = choose|m: int| 0 <= m < b.len() && b[m] == x;
        assert(a.remove(a.len() - 1) =~= a.drop_last());
        assert(a.drop_last().to_multiset() =~= b.remove(m).to_multiset());
        lemma_sum_permutation(a.drop_last(), b.remove(m), f);
        lemma_sum_remove(b, f, m);
    }
}

/// Taking one place out of a list takes its factor out of the product.
pub proof fn lemma_product_remove(x: int, i: u32, indices: Seq<u32>, m: int)
    requires
        0 <= m < indices.len(),
        indices[m] != i,
    ensures
        helpers::lagrange_product(x, i, indices) == helpers::lagrange_product(
            x,
            i,
            indices.remove(m),
        ) * (indices[m] - x),
    decreases indices.len(),
{
    let rest = indices.remove(m);
    if m == indices.len() - 1 {
        assert(rest =~= indices.drop_last());
    } else {
        lemma_product_remove(x, i, indices.drop_last(), m);
        assert(rest.drop_last() =~= indices.drop_last().remove(m));
        assert(rest.last() == indices.last());
        let p = helpers::lagrange_product(x, i, rest.drop_last());
        let u = indices[m] - x;
        let v = indices.last() - x;
        assert((p * u) * v == (p * v) * u) by (nonlinear_arith);
    }
}

/// What taking out the place `m` does to the Lagrange coefficient of another index.
proof fn lemma_coeff_remove(i: u32, indices: Seq<u32>, m: int)
    requires
        0 <= m < indices.len(),
        indices[m] != i,
    ensures
        field::invertible(indices[m] - i),
        field::cong(
            (i - indices[m]) * helpers::lagrange_coeff(0, i, indices),
            -indices[m] * helpers::lagrange_coeff(0, i, indices.remove(m)),
        ),
{
    let rest = indices.remove(m);
    let x = indices[m] as int;
    let n = helpers::lagrange_product(0, i, rest);
    let d = helpers::lagrange_product(i as int, i, rest);
    let full = helpers::lagrange_product(i as int, i, indices);
    lemma_product_remove(0, i, indices, m);
    lemma_product_remove(i as int, i, indices, m);
    assert(full == d * (x - i));
    assert(full == (x - i) * d) by (nonlinear_arith)
        requires
            full == d * (x - i),
    ;
    helpers::lemma_denominator_invertible(i, indices);
    field::lemma_factor_invertible(d, x - i);
    field::lemma_factor_invertible(x - i, d);
    let u = field::inverse(full);
    let w = field::inverse(d);
    // The coefficient in the full list is congruent to `(n * x) * u`, and that in the rest to
    // `n * w`, where `w` is congruent to `(x - i) * u`.
    let big = helpers::lagrange_coeff(0, i, indices);
    let small = helpers::lagrange_coeff(0, i, rest);
    field::lemma_cong_reduce((n * x) * u);
    field::lemma_cong_reduce(n * w);
    assert(n * (x - 0) == n * x);
    field::lemma_cong_ops(i - x, i - x, big, (n * x) * u);
    field::lemma_cong_ops(-x, -x, small, n * w);
    field::lemma_cong_ops(-x * n, -x * n, w, (x - i) * u);
    assert((i - x) * ((n * x) * u) == (-x * n) * ((x - i) * u)) by (nonlinear_arith);
    assert(-x * (n * w) == (-x * n) * w) by (nonlinear_arith);
}

/// A factor that vanishes at the place `m` takes the place out of the weighted sum.
proof fn lemma_weighted_remove(
    indices: Seq<u32>,
    m: int,
    f: spec_fn(u32) -> int,
    q: spec_fn(u32) -> int,
)
    requires
        0 <= m < indices.len(),
        indices.no_duplicates(),
        forall|i: u32| #[trigger] f(i) == (i - indices[m]) * q(i),
    ensures
        indices.remove(m).no_duplicates(),
        field::cong(weighted_sum(indices, f), -indices[m] * weighted_sum(indices.remove(m), q)),
{
    let rest = indices.remove(m);
    let x = indices[m] as int;
    let terms = |i: u32| f(i) * helpers::lagrange_coeff(0, i, indices);
    let rest_terms = |i: u32| q(i) * helpers::lagrange_coeff(0, i, rest);
    let scaled = |i: u32| 0 + -x * rest_terms(i);
    let zero = |i: u32| 0int;
    lemma_sum_remove(indices, terms, m);
    assert(terms(indices[m]) == 0) by {
        assert(f(indices[m]) == 0 * q(indices[m]));
        assert(0 * q(indices[m]) == 0) by (nonlinear_arith);
        assert(0 * helpers::lagrange_coeff(0, indices[m], indices) == 0) by (nonlinear_arith);
    }
    assert forall|k: int, l: int| 0 <= k < rest.len() && 0 <= l < rest.len() && k != l implies rest[k]
        != rest[l] by {
        let k2 = if k < m { k } else { k + 1 };
        let l2 = if l < m { l } else { l + 1 };
        assert(rest[k] == indices[k2] && rest[l] == indices[l2]);
    }
    assert forall|i: u32| #[trigger] rest.contains(i) implies field::cong(
        terms(i),
        scaled(i),
    ) by {
        let k = choose|k: int| 0 <= k < rest.len() && rest[k] == i;
        let k2 = if k < m { k } else { k + 1 };
        assert(indices[k2] == i && k2 != m);
        assert(indices.contains(i));
        lemma_coeff_remove(i, indices, m);
        let big = helpers::lagrange_coeff(0, i, indices);
        let small = helpers::lagrange_coeff(0, i, rest);
        field::lemma_cong_ops(q(i), q(i), (i - x) * big, -x * small);
        let a = i - x;
        let b = q(i);
        assert((a * b) * big == b * (a * big)) by (nonlinear_arith);
        assert(b * (-x * small) == -x * (b * small)) by (nonlinear_arith);
    }
    lemma_sum_cong(rest, terms, scaled);
    lemma_sum_linear(rest, scaled, -x, zero, rest_terms);
    lemma_sum_zero(rest, zero);
    assert(weighted_sum(indices, f) == sum(indices, terms));
    assert(weighted_sum(rest, q) == sum(rest, rest_terms));
}

/// A sum of zeros is zero.
proof fn lemma_sum_zero(indices: Seq<u32>, f: spec_fn(u32) -> int)
    requires
        forall|i: u32| #[trigger] f(i) == 0,
    ensures
        sum(indices, f) == 0,
    decreases indices.len(),
{
    if indices.len() > 0 {
        lemma_sum_zero(indices.drop_last(), f);
    }
}

/// The Lagrange coefficients add up to one.
pub proof fn lemma_coeffs_sum_to_one(indices: Seq<u32>)
    requires
        indices.len() > 0,
        indices.no_duplicates(),
    ensures
        field::cong(weighted_sum(indices, |i: u32| 1), 1),
    decreases indices.len(), 1int,
{
    let one = |i: u32| 1int;
    let x = indices[0] as int;
    assert(indices.contains(indices[0]));
    if indices.len() == 1 {
        let i = indices[0];
        let rest = indices.drop_last();
        assert(rest.len() == 0);
        let terms = |j: u32| one(j) * helpers::lagrange_coeff(0, j, indices);
        assert(sum(indices, terms) == sum(rest, terms) + terms(i));
        assert(helpers::lagrange_product(0, i, rest) == 1);
        assert(helpers::lagrange_product(i as int, i, rest) == 1);
        assert(helpers::lagrange_product(0, i, indices) == 1);
        assert(helpers::lagrange_product(i as int, i, indices) == 1);
        field::lemma_group_order_large();
        field::lemma_reduce_small(1);
        assert(field::is_inverse(1, 1)) by {
            assert(1int * 1int == 1) by (nonlinear_arith);
        }
        field::lemma_inverse_is(1, 1);
        assert(weighted_sum(indices, one) == 1);
    } else {
        let y = indices[1] as int;
        let s0 = weighted_sum(indices, one);
        lemma_coeffs_sum_without(indices, 0);
        lemma_coeffs_sum_without(indices, 1);
        let s1 = weighted_sum(indices, |i: u32| i as int);
        // The two differences `s1 - x * s0` and `s1 - y * s0` are congruent to `-x` and `-y`.
        field::lemma_cong_ops(s1 - x * s0, -x, s1 - y * s0, -y);
        assert((s1 - x * s0) - (s1 - y * s0) == (y - x) * s0) by (nonlinear_arith);
        assert(-x - -y == (y - x) * 1);
        lemma_coeff_remove(indices[0], indices, 1);
        field::lemma_cong_cancel(y - x, s0, 1);
    }
}

/// What the Lagrange coefficients without the place `m` adding up to one says of those with it.
proof fn lemma_coeffs_sum_without(indices: Seq<u32>, m: int)
    requires
        0 <= m < indices.len(),
        indices.len() > 1,
        indices.no_duplicates(),
    ensures
        field::cong(
            weighted_sum(indices, |i: u32| i as int) - indices[m] * weighted_sum(
                indices,
                |i: u32| 1,
            ),
            -(indices[m] as int),
        ),
    decreases indices.len(), 0int,
{
    let x = indices[m] as int;
    let one = |i: u32| 1int;
    let id = |i: u32| i as int;
    let rest = indices.remove(m);
    let f = |i: u32| (i - indices[m]) * one(i);
    lemma_weighted_remove(indices, m, f, one);
    lemma_coeffs_sum_to_one(rest);
    field::lemma_cong_ops(-x, -x, weighted_sum(rest, one), 1);
    assert(-x * 1 == -x);
    let lam = |i: u32| helpers::lagrange_coeff(0, i, indices);
    let f_terms = |i: u32| f(i) * helpers::lagrange_coeff(0, i, indices);
    let id_terms = |i: u32| id(i) * helpers::lagrange_coeff(0, i, indices);
    let one_terms = |i: u32| one(i) * helpers::lagrange_coeff(0, i, indices);
    assert forall|i: u32| #[trigger] f_terms(i) == id_terms(i) + -x * one_terms(i) by {
        let a = i as int;
        let l = lam(i);
        assert(((a - x) * 1) * l == a * l + -x * (1 * l)) by (nonlinear_arith);
    }
    lemma_sum_linear(indices, f_terms, -x, id_terms, one_terms);
    assert(weighted_sum(indices, f) == sum(indices, f_terms));
    assert(weighted_sum(indices, id) == sum(indices, id_terms));
    assert(weighted_sum(indices, one) == sum(indices, one_terms));
    let s0 = sum(indices, one_terms);
    assert(-x * s0 == -(x * s0)) by (nonlinear_arith);
}

/// The coefficients of the quotient of a polynomial, less its value at `x`, by the linear
/// polynomial that vanishes at `x`.
pub open spec fn quotient(coeffs: Seq<int>, x: int) -> Seq<int>
    decreases coeffs.len(),
{
    if coeffs.len() <= 1 {
        seq![]
    } else {
        seq![eval(coeffs.drop_first(), x)] + quotient(coeffs.drop_first(), x)
    }
}

/// The quotient has one coefficient less, and multiplying it out gives the polynomial back.
pub proof fn lemma_quotient(coeffs: Seq<int>, x: int, i: int)
    ensures
        coeffs.len() > 0 ==> quotient(coeffs, x).len() == coeffs.len() - 1,
        eval(coeffs, i) == eval(coeffs, x) + (i - x) * eval(quotient(coeffs, x), i),
    decreases coeffs.len(),
{
    if coeffs.len() == 0 {
        assert(eval(quotient(coeffs, x), i) == 0);
        assert((i - x) * 0 == 0) by (nonlinear_arith);
    } else if coeffs.len() == 1 {
        assert(eval(coeffs.drop_first(), i) == 0 && eval(coeffs.drop_first(), x) == 0);
        assert(eval(quotient(coeffs, x), i) == 0);
        assert((i - x) * 0 == 0 && i * 0 == 0 && x * 0 == 0) by (nonlinear_arith);
    } else {
        let rest = coeffs.drop_first();
        lemma_quotient(rest, x, i);
        let q = quotient(coeffs, x);
        assert(q.drop_first() =~= quotient(rest, x));
        assert(eval(q, i) == eval(rest, x) + i * eval(quotient(rest, x), i));
        let r_x = eval(rest, x);
        let r_i = eval(rest, i);
        let t = eval(quotient(rest, x), i);
        assert(i * r_i == x * r_x + (i - x) * (r_x + i * t)) by (nonlinear_arith)
            requires
                r_i == r_x + (i - x) * t,
        ;
    }
}

/// The shares of a polynomial add up to its value at the first index, plus the negated index by
/// what the shares of the quotient add up to without that index.
proof fn lemma_weighted_split(indices: Seq<u32>, coeffs: Seq<int>)
    requires
        indices.len() > 0,
        indices.no_duplicates(),
        coeffs.len() > 0,
    ensures
        indices.remove(0).no_duplicates(),
        field::cong(
            weighted_sum(indices, |i: u32| eval(coeffs, i as int)),
            eval(coeffs, indices[0] as int) + -indices[0] * weighted_sum(
                indices.remove(0),
                |i: u32| eval(quotient(coeffs, indices[0] as int), i as int),
            ),
        ),
{
    let x = indices[0] as int;
    let rest = indices.remove(0);
    let quot = quotient(coeffs, x);
    let v = eval(coeffs, x);
    let p = |i: u32| eval(coeffs, i as int);
    let q = |i: u32| eval(quot, i as int);
    let f = |i: u32| (i - indices[0]) * q(i);
    let one = |i: u32| 1int;
    let p_terms = |i: u32| p(i) * helpers::lagrange_coeff(0, i, indices);
    let f_terms = |i: u32| f(i) * helpers::lagrange_coeff(0, i, indices);
    let one_terms = |i: u32| one(i) * helpers::lagrange_coeff(0, i, indices);
    lemma_weighted_remove(indices, 0, f, q);
    lemma_coeffs_sum_to_one(indices);
    assert forall|i: u32| #[trigger] p_terms(i) == f_terms(i) + v * one_terms(i) by {
        lemma_quotient(coeffs, x, i as int);
        let l = helpers::lagrange_coeff(0, i, indices);
        let w = f(i);
        assert((v + w) * l == w * l + v * (1 * l)) by (nonlinear_arith);
    }
    lemma_sum_linear(indices, p_terms, v, f_terms, one_terms);
    assert(weighted_sum(indices, p) == sum(indices, p_terms));
    assert(weighted_sum(indices, f) == sum(indices, f_terms));
    assert(weighted_sum(indices, one) == sum(indices, one_terms));
    let s0 = weighted_sum(indices, one);
    let sq = weighted_sum(rest, q);
    field::lemma_cong_ops(v, v, s0, 1);
    field::lemma_cong_ops(v * s0, v * 1, weighted_sum(indices, f), -x * sq);
}

/// As many shares of a polynomial as it has coefficients, or more, determine its value at zero:
/// the shares, each by the Lagrange coefficient of its index, add up to that value.
pub proof fn law_shares_determine_secret(indices: Seq<u32>, coeffs: Seq<int>)
    requires
        indices.no_duplicates(),
        coeffs.len() <= indices.len(),
    ensures
        field::cong(weighted_sum(indices, |i: u32| eval(coeffs, i as int)), eval(coeffs, 0)),
    decreases indices.len(),
{
    let p = |i: u32| eval(coeffs, i as int);
    let p_terms = |i: u32| p(i) * helpers::lagrange_coeff(0, i, indices);
    assert(weighted_sum(indices, p) == sum(indices, p_terms));
    if indices.len() == 0 {
    } else if coeffs.len() == 0 {
        assert forall|i: u32| #[trigger] p_terms(i) == 0 by {
            let l = helpers::lagrange_coeff(0, i, indices);
            assert(0 * l == 0) by (nonlinear_arith);
        }
        lemma_sum_zero(indices, p_terms);
    } else {
        let x = indices[0] as int;
        let rest = indices.remove(0);
        let quot = quotient(coeffs, x);
        let q = |i: u32| eval(quot, i as int);
        let v = eval(coeffs, x);
        lemma_weighted_split(indices, coeffs);
        lemma_quotient(coeffs, x, 0);
        law_shares_determine_secret(rest, quot);
        field::lemma_cong_ops(-x, -x, weighted_sum(rest, q), eval(quot, 0));
        field::lemma_cong_ops(v, v, -x * weighted_sum(rest, q), -x * eval(quot, 0));
        assert((0 - x) * eval(quot, 0) == -x * eval(quot, 0));
    }
}

/// The product of the negated indices.
pub open spec fn negated_product(indices: Seq<u32>) -> int
    decreases indices.len(),
{
    if indices.len() == 0 {
        1
    } else {
        -indices[0] * negated_product(indices.drop_first())
    }
}

/// The product of negated indices is zero modulo the group order only where an index is zero.
proof fn lemma_negated_product_nonzero(indices: Seq<u32>)
    requires
        !indices.contains(0),
    ensures
        field::reduce(negated_product(indices)) != 0,
    decreases indices.len(),
{
    field::lemma_group_order_large();
    if indices.len() == 0 {
        field::lemma_reduce_small(1);
    } else {
        let rest = indices.drop_first();
        assert forall|k: int| 0 <= k < rest.len() implies rest[k] != 0 by {
            assert(indices[k + 1] == rest[k]);
        }
        lemma_negated_product_nonzero(rest);
        assert(indices[0] != 0);
        field::lemma_reduce_nonzero(-(indices[0] as int));
        field::lemma_product_nonzero(-(indices[0] as int), negated_product(rest));
    }
}

/// The quotient has the leading coefficient of the polynomial.
proof fn lemma_quotient_last(coeffs: Seq<int>, x: int)
    requires
        coeffs.len() > 1,
    ensures
        quotient(coeffs, x).len() == coeffs.len() - 1,
        quotient(coeffs, x).last() == coeffs.last(),
    decreases coeffs.len(),
{
    let rest = coeffs.drop_first();
    lemma_quotient(coeffs, x, 0);
    if coeffs.len() == 2 {
        assert(quotient(rest, x).len() == 0);
        assert(eval(rest.drop_first(), x) == 0);
        assert(x * 0 == 0) by (nonlinear_arith);
    } else {
        lemma_quotient_last(rest, x);
        assert(quotient(coeffs, x).last() == quotient(rest, x).last());
    }
}

/// With one share less than the polynomial has coefficients, what the shares add up to is off by
/// the leading coefficient by the product of the negated indices.
proof fn lemma_one_share_too_few(indices: Seq<u32>, coeffs: Seq<int>)
    requires
        indices.no_duplicates(),
        coeffs.len() == indices.len() + 1,
    ensures
        field::cong(
            weighted_sum(indices, |i: u32| eval(coeffs, i as int)),
            eval(coeffs, 0) - coeffs.last() * negated_product(indices),
        ),
    decreases indices.len(),
{
    let p = |i: u32| eval(coeffs, i as int);
    if indices.len() == 0 {
        let p_terms = |i: u32| p(i) * helpers::lagrange_coeff(0, i, indices);
        assert(weighted_sum(indices, p) == sum(indices, p_terms));
        assert(eval(coeffs.drop_first(), 0) == 0);
        assert(coeffs.last() * 1 == coeffs.last());
    } else {
        let x = indices[0] as int;
        let rest = indices.remove(0);
        let quot = quotient(coeffs, x);
        let q = |i: u32| eval(quot, i as int);
        let v = eval(coeffs, x);
        let lead = coeffs.last();
        let prod = negated_product(rest);
        assert(rest =~= indices.drop_first());
        lemma_weighted_split(indices, coeffs);
        lemma_quotient_last(coeffs, x);
        lemma_quotient(coeffs, x, 0);
        lemma_one_share_too_few(rest, quot);
        field::lemma_cong_ops(-x, -x, weighted_sum(rest, q), eval(quot, 0) - lead * prod);
        field::lemma_cong_ops(
            v,
            v,
            -x * weighted_sum(rest, q),
            -x * (eval(quot, 0) - lead * prod),
        );
        let e = eval(quot, 0);
        assert(v + -x * (e - lead * prod) == v + (0 - x) * e - lead * (-x * prod))
            by (nonlinear_arith);
    }
}

/// One share less than the polynomial has coefficients does not determine its value at zero: where
/// the leading coefficient is not zero, and no share is the one at zero, what the shares add up to
/// is another value.
pub proof fn law_one_share_too_few(indices: Seq<u32>, coeffs: Seq<int>)
    requires
        indices.no_duplicates(),
        !indices.contains(0),
        coeffs.len() == indices.len() + 1,
        field::reduce(coeffs.last()) != 0,
    ensures
        !field::cong(weighted_sum(indices, |i: u32| eval(coeffs, i as int)), eval(coeffs, 0)),
{
    let s = weighted_sum(indices, |i: u32| eval(coeffs, i as int));
    let e = eval(coeffs, 0);
    let off = coeffs.last() * negated_product(indices);
    lemma_one_share_too_few(indices, coeffs);
    lemma_negated_product_nonzero(indices);
    field::lemma_product_nonzero(coeffs.last(), negated_product(indices));
    if field::cong(s, e) {
        field::lemma_cong_ops(e, e, e, e - off);
        field::lemma_group_order_large();
        field::lemma_reduce_small(0);
    }
}

} // verus!
