use itertools::Itertools;
use vstd::prelude::*;

verus! {

/// The pair at position `i` of the cartesian product of `[a_lo, ..]` and
/// `[b_lo, b_lo + nb)`, the first component varying slowest.
pub open spec fn product_pair(a_lo: int, b_lo: int, nb: int, i: int) -> (int, int) {
    (a_lo + i / nb, b_lo + i % nb)
}

/// Every pair of the two inclusive ranges, in row-major order.
///
/// Relies on `itertools::Itertools::cartesian_product`, whose iterator walks the
/// second iterator in full for each item of the first, in order.
#[verifier::external_body]
pub(crate) fn range_product(a_lo: i32, a_hi: i32, b_lo: i32, b_hi: i32) -> (r: Vec<(i32, i32)>)
    requires
        a_lo <= a_hi,
        b_lo <= b_hi,
        (a_hi - a_lo + 1) * (b_hi - b_lo + 1) <= usize::MAX,
    ensures
        r@.len() == (a_hi - a_lo + 1) * (b_hi - b_lo + 1),
        forall|i: int|
            0 <= i < r@.len() ==> (#[trigger] r@[i]).0 == product_pair(a_lo as int, b_lo as int, b_hi - b_lo + 1, i).0
                && r@[i].1 == product_pair(a_lo as int, b_lo as int, b_hi - b_lo + 1, i).1,
{
    (a_lo..=a_hi).cartesian_product(b_lo..=b_hi).collect()
}

} // verus!

verus! {

/// Distinct positions of a product walk give distinct pairs.
pub proof fn lemma_product_pair_injective(nb: int, i: int, j: int)
    requires
        nb > 0,
        0 <= i,
        0 <= j,
        i != j,
    ensures
        i / nb != j / nb || i % nb != j % nb,
{
    vstd::arithmetic::div_mod::lemma_fundamental_div_mod(i, nb);
    vstd::arithmetic::div_mod::lemma_fundamental_div_mod(j, nb);
}

/// The pair `(p, q)` with `0 <= p < na` and `0 <= q < nb` stands at position `p * nb + q`.
pub proof fn lemma_product_pair_at(na: int, nb: int, p: int, q: int)
    requires
        nb > 0,
        0 <= p < na,
        0 <= q < nb,
    ensures
        0 <= p * nb + q < na * nb,
        (p * nb + q) / nb == p,
        (p * nb + q) % nb == q,
{
    vstd::arithmetic::div_mod::lemma_fundamental_div_mod_converse(p * nb + q, nb, p, q);
    assert(0 <= p * nb + q < na * nb) by (nonlinear_arith)
        requires
            nb > 0,
            0 <= p < na,
            0 <= q < nb,
    ;
}

/// Position `i` of a product walk over `na * nb` pairs lands inside both ranges.
pub proof fn lemma_product_pair_bounds(na: int, nb: int, i: int)
    requires
        nb > 0,
        0 <= i < na * nb,
    ensures
        0 <= i / nb < na,
        0 <= i % nb < nb,
{
    vstd::arithmetic::div_mod::lemma_fundamental_div_mod(i, nb);
    assert(0 <= i / nb < na) by (nonlinear_arith)
        requires
            nb > 0,
            0 <= i < na * nb,
            i == nb * (i / nb) + i % nb,
            0 <= i % nb < nb,
    ;
}

} // verus!
