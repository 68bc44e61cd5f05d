//! Arithmetic modulo the group order, as used by every contract of this crate.
use vstd::prelude::*;
use vstd::arithmetic::div_mod::{
    lemma_add_mod_noop, lemma_mod_twice, lemma_mul_mod_noop_general, lemma_small_mod,
    lemma_sub_mod_noop,
};

verus! {

/// The order of the prime-order group in which all scalar arithmetic takes place:
/// `2^252 + 27742317777372353535851937790883648493`.
pub open spec fn group_order() -> int {
    7237005577332262213973186563042994240857116359379907606001950938285454250989int
}

/// The least non-negative residue of `x` modulo the group order.
pub open spec fn reduce(x: int) -> int {
    x % group_order()
}

/// `a` and `b` denote the same field element.
pub open spec fn congruent(a: int, b: int) -> bool {
    reduce(a) == reduce(b)
}

pub proof fn lemma_reduce_range(x: int)
    ensures
        0 <= reduce(x) < group_order(),
        reduce(reduce(x)) == reduce(x),
        congruent(reduce(x), x),
{
    lemma_mod_twice(x, group_order());
}

pub proof fn lemma_reduce_small(x: int)
    requires
        0 <= x < group_order(),
    ensures
        reduce(x) == x,
{
    lemma_small_mod(x as nat, group_order() as nat);
}

/// Sums of congruent terms are congruent.
pub proof fn lemma_congruent_add(a: int, a2: int, b: int, b2: int)
    requires
        congruent(a, a2),
        congruent(b, b2),
    ensures
        congruent(a + b, a2 + b2),
{
    lemma_add_mod_noop(a, b, group_order());
    lemma_add_mod_noop(a2, b2, group_order());
}

/// Differences of congruent terms are congruent.
pub proof fn lemma_congruent_sub(a: int, a2: int, b: int, b2: int)
    requires
        congruent(a, a2),
        congruent(b, b2),
    ensures
        congruent(a - b, a2 - b2),
{
    lemma_sub_mod_noop(a, b, group_order());
    lemma_sub_mod_noop(a2, b2, group_order());
}

/// Products of congruent factors are congruent.
pub proof fn lemma_congruent_mul(a: int, a2: int, b: int, b2: int)
    requires
        congruent(a, a2),
        congruent(b, b2),
    ensures
        congruent(a * b, a2 * b2),
{
    lemma_mul_mod_noop_general(a, b, group_order());
    lemma_mul_mod_noop_general(a2, b2, group_order());
}

/// Reducing the operands of a sum changes nothing.
pub proof fn lemma_reduce_add(a: int, b: int)
    ensures
        reduce(reduce(a) + reduce(b)) == reduce(a + b),
        reduce(reduce(a) + b) == reduce(a + b),
        reduce(a + reduce(b)) == reduce(a + b),
{
    lemma_reduce_range(a);
    lemma_reduce_range(b);
    lemma_congruent_add(reduce(a), a, reduce(b), b);
    lemma_congruent_add(reduce(a), a, b, b);
    lemma_congruent_add(a, a, reduce(b), b);
}

/// Reducing the operands of a difference changes nothing.
pub proof fn lemma_reduce_sub(a: int, b: int)
    ensures
        reduce(reduce(a) - reduce(b)) == reduce(a - b),
        reduce(reduce(a) - b) == reduce(a - b),
        reduce(a - reduce(b)) == reduce(a - b),
{
    lemma_reduce_range(a);
    lemma_reduce_range(b);
    lemma_congruent_sub(reduce(a), a, reduce(b), b);
    lemma_congruent_sub(reduce(a), a, b, b);
    lemma_congruent_sub(a, a, reduce(b), b);
}

/// Reducing the factors of a product changes nothing.
pub proof fn lemma_reduce_mul(a: int, b: int)
    ensures
        reduce(reduce(a) * reduce(b)) == reduce(a * b),
        reduce(reduce(a) * b) == reduce(a * b),
        reduce(a * reduce(b)) == reduce(a * b),
{
    lemma_mul_mod_noop_general(a, b, group_order());
}

/// One step of Horner's rule, computed on residues.
pub proof fn lemma_horner_step(c: int, x: int, e: int)
    ensures
        reduce(c + reduce(x * reduce(e))) == reduce(c + x * e),
{
    lemma_reduce_mul(x, e);
    lemma_reduce_add(c, x * e);
}

/// A residue that has an inverse has only one.
pub proof fn lemma_inverse_unique(x: int, r: int, s: int)
    requires
        0 <= r < group_order(),
        0 <= s < group_order(),
        reduce(x * r) == 1,
        reduce(x * s) == 1,
    ensures
        r == s,
{
    lemma_reduce_small(r);
    lemma_reduce_small(s);
    lemma_reduce_small(1);
    // r == r * (x * s) == (x * r) * s == s, all modulo the group order
    lemma_reduce_range(r);
    lemma_congruent_mul(r, r, x * s, 1);
    lemma_congruent_mul(x * r, 1, s, s);
    assert(r * (x * s) == (x * r) * s) by (nonlinear_arith);
    assert(r * 1 == r);
    assert(1 * s == s);
}

} // verus!
