//! Vectors of scalars and the polynomials of the proof.
use vstd::prelude::*;
use vstd::arithmetic::power::{lemma_pow0, lemma_pow1, lemma_pow_adds, pow};
use vstd::arithmetic::power2::is_pow2;
use crate::field::{
    congruent, lemma_congruent_add, lemma_congruent_mul, lemma_horner_step, lemma_reduce_add,
    lemma_reduce_mul, lemma_reduce_range, lemma_reduce_small, reduce,
};
use crate::scalar::{scalar_add, scalar_mul, values, Scalar};

verus! {

/// The sum of `a[i] * b[i]` over the first `n` indices.
pub open spec fn dot_upto(a: Seq<int>, b: Seq<int>, n: nat) -> int
    decreases n,
{
    if n == 0 {
        0
    } else {
        dot_upto(a, b, (n - 1) as nat) + a[n - 1] * b[n - 1]
    }
}

/// The inner product of two vectors of one length.
pub open spec fn dot(a: Seq<int>, b: Seq<int>) -> int {
    dot_upto(a, b, a.len())
}

/// The first `n` powers of `x`, reduced: `1, x, x^2, ...`.
pub open spec fn powers(x: int, n: nat) -> Seq<int> {
    Seq::new(n, |i: int| reduce(pow(x, i as nat)))
}

/// A vector of `n` zeros.
pub open spec fn zeros(n: nat) -> Seq<int> {
    Seq::new(n, |i: int| 0int)
}

/// The least power of two that is at least `n`, and zero for zero.
pub open spec fn padded_len(n: nat) -> nat
    decreases n,
{
    if n <= 1 {
        n
    } else {
        2 * padded_len((n + 1) / 2)
    }
}

/// `padded_len(n)` is a power of two between `n` and `2 * n`, which makes it
/// the least one that is at least `n`; only zero and the powers of two are
/// their own padded length.
pub proof fn lemma_padded_len(n: nat)
    ensures
        n == 0 ==> padded_len(n) == 0,
        n >= 1 ==> is_pow2(padded_len(n) as int) && n <= padded_len(n) < 2 * n,
        padded_len(n) == n <==> n == 0 || is_pow2(n as int),
    decreases n,
{
    reveal(is_pow2);
    if n > 1 {
        let half = (n + 1) / 2;
        lemma_padded_len(half as nat);
        let p = padded_len(half as nat);
        assert((2 * p) % 2 == 0);
        assert((2 * p) / 2 == p);
        if n % 2 == 0 {
            assert(n / 2 == half);
        } else {
            assert(!is_pow2(n as int));
            assert(2 * p != n);
        }
    }
}

/// The least power of two that is at least `n`, and zero for zero.
pub fn next_power_of_two(n: usize) -> (p: usize)
    requires
        2 * n <= usize::MAX,
    ensures
        p == padded_len(n as nat),
    decreases n,
{
    if n <= 1 {
        n
    } else {
        let half = n / 2 + n % 2;
        proof {
            lemma_padded_len(half as nat);
        }
        2 * next_power_of_two(half)
    }
}

/// Appends a copy of `src` to `out`.
pub fn extend<T: Copy>(out: &mut Vec<T>, src: &Vec<T>)
    ensures
        final(out)@ == old(out)@ + src@,
{
    let mut i: usize = 0;
    while i < src.len()
        invariant
            i <= src.len(),
            out@ == old(out)@ + src@.take(i as int),
        decreases src.len() - i,
    {
        out.push(src[i]);
        assert(src@.take(i + 1) =~= src@.take(i as int).push(src@[i as int]));
        i += 1;
    }
    assert(src@.take(src.len() as int) =~= src@);
}

/// A copy of the entries of `src` from `from` up to `to`.
pub fn slice<T: Copy>(src: &Vec<T>, from: usize, to: usize) -> (out: Vec<T>)
    requires
        from <= to <= src.len(),
    ensures
        out@ == src@.subrange(from as int, to as int),
{
    let mut out: Vec<T> = Vec::with_capacity(to - from);
    let mut i: usize = from;
    while i < to
        invariant
            from <= i <= to <= src.len(),
            out@ == src@.subrange(from as int, i as int),
        decreases to - i,
    {
        out.push(src[i]);
        assert(src@.subrange(from as int, i + 1) =~= src@.subrange(from as int, i as int).push(
            src@[i as int],
        ));
        i += 1;
    }
    out
}

/// The vector of `n` zeros.
pub fn zero_vector(n: usize) -> (out: Vec<Scalar>)
    ensures
        out.len() == n,
        values(out@) == zeros(n as nat),
{
    let zero = Scalar::zero();
    let mut out: Vec<Scalar> = Vec::with_capacity(n);
    let mut i: usize = 0;
    while i < n
        invariant
            i <= n,
            out.len() == i,
            zero@ == 0,
            forall|j: int| 0 <= j < i ==> (#[trigger] out@[j])@ == 0,
        decreases n - i,
    {
        out.push(zero);
        i += 1;
    }
    assert(values(out@) =~= zeros(n as nat));
    out
}

/// The first `n` powers of `x`, starting with one.
pub fn exp_iter(x: &Scalar, n: usize) -> (out: Vec<Scalar>)
    ensures
        out.len() == n,
        values(out@) == powers(x@, n as nat),
{
    let mut out: Vec<Scalar> = Vec::with_capacity(n);
    let mut next = Scalar::one();
    let mut i: usize = 0;
    proof {
        lemma_reduce_small(1);
        lemma_pow0(x@);
    }
    while i < n
        invariant
            i <= n,
            out.len() == i,
            next@ == reduce(pow(x@, i as nat)),
            forall|j: int| 0 <= j < i ==> (#[trigger] out@[j])@ == reduce(pow(x@, j as nat)),
        decreases n - i,
    {
        out.push(next);
        next = scalar_mul(&next, x);
        proof {
            let p = pow(x@, i as nat);
            lemma_reduce_mul(p, x@);
            lemma_pow_adds(x@, i as nat, 1);
            lemma_pow1(x@);
        }
        i += 1;
    }
    assert(values(out@) =~= powers(x@, n as nat));
    out
}

/// The inner product of two vectors of one length.
pub fn inner_product(a: &Vec<Scalar>, b: &Vec<Scalar>) -> (r: Scalar)
    requires
        a.len() == b.len(),
    ensures
        r@ == reduce(dot(values(a@), values(b@))),
{
    let mut acc = Scalar::zero();
    let mut i: usize = 0;
    proof {
        lemma_reduce_small(0);
    }
    while i < a.len()
        invariant
            i <= a.len() == b.len(),
            acc@ == reduce(dot_upto(values(a@), values(b@), i as nat)),
        decreases a.len() - i,
    {
        let t = scalar_mul(&a[i], &b[i]);
        proof {
            lemma_reduce_add(
                dot_upto(values(a@), values(b@), i as nat),
                values(a@)[i as int] * values(b@)[i as int],
            );
        }
        acc = scalar_add(&acc, &t);
        i += 1;
    }
    acc
}

/// A polynomial of degree three whose coefficients are vectors of one length.
pub struct VecPoly3(pub Vec<Scalar>, pub Vec<Scalar>, pub Vec<Scalar>, pub Vec<Scalar>);

/// The coefficients of a vector polynomial, by degree.
pub struct VecPoly3Model {
    pub c0: Seq<int>,
    pub c1: Seq<int>,
    pub c2: Seq<int>,
    pub c3: Seq<int>,
}

/// A polynomial of degree six without a constant term.
#[derive(Clone, Copy, Debug)]
pub struct Poly6 {
    pub t1: Scalar,
    pub t2: Scalar,
    pub t3: Scalar,
    pub t4: Scalar,
    pub t5: Scalar,
    pub t6: Scalar,
}

/// The coefficients of a scalar polynomial, from degree one to degree six.
pub struct Poly6Model {
    pub t1: int,
    pub t2: int,
    pub t3: int,
    pub t4: int,
    pub t5: int,
    pub t6: int,
}

impl VecPoly3Model {
    /// All four coefficients have length `n`.
    pub open spec fn has_len(self, n: nat) -> bool {
        self.c0.len() == n && self.c1.len() == n && self.c2.len() == n && self.c3.len() == n
    }

    /// The value at `x`, entry by entry.
    pub open spec fn eval(self, x: int) -> Seq<int> {
        Seq::new(
            self.c0.len(),
            |i: int| reduce(self.c0[i] + x * (self.c1[i] + x * (self.c2[i] + x * self.c3[i]))),
        )
    }

    /// The inner product with `rhs` as a polynomial: the coefficient of each
    /// degree from one to six is the sum of the inner products of the pairs of
    /// coefficients whose degrees add up to it.
    pub open spec fn inner_product(self, rhs: VecPoly3Model) -> Poly6Model {
        Poly6Model {
            t1: reduce(dot(self.c0, rhs.c1) + dot(self.c1, rhs.c0)),
            t2: reduce(dot(self.c0, rhs.c2) + dot(self.c1, rhs.c1) + dot(self.c2, rhs.c0)),
            t3: reduce(
                dot(self.c0, rhs.c3) + dot(self.c1, rhs.c2) + dot(self.c2, rhs.c1) + dot(
                    self.c3,
                    rhs.c0,
                ),
            ),
            t4: reduce(dot(self.c1, rhs.c3) + dot(self.c2, rhs.c2) + dot(self.c3, rhs.c1)),
            t5: reduce(dot(self.c2, rhs.c3) + dot(self.c3, rhs.c2)),
            t6: reduce(dot(self.c3, rhs.c3)),
        }
    }
}

impl Poly6Model {
    /// The value at `x`.
    pub open spec fn eval(self, x: int) -> int {
        reduce(
            x * (self.t1 + x * (self.t2 + x * (self.t3 + x * (self.t4 + x * (self.t5 + x
                * self.t6))))),
        )
    }
}

/// `d0 + d1 x + ... + d6 x^6`, by Horner's rule.
pub open spec fn horner7(d0: int, d1: int, d2: int, d3: int, d4: int, d5: int, d6: int, x: int) -> int {
    d0 + x * (d1 + x * (d2 + x * (d3 + x * (d4 + x * (d5 + x * d6)))))
}

/// The entry `i` of a vector polynomial at `x`, not reduced.
pub open spec fn entry_at(p: VecPoly3Model, i: int, x: int) -> int {
    horner4(p.c0[i], p.c1[i], p.c2[i], p.c3[i], x)
}

/// The sum over the first `k` entries of the product of the two polynomials at `x`.
pub open spec fn product_upto(l: VecPoly3Model, r: VecPoly3Model, x: int, k: nat) -> int
    decreases k,
{
    if k == 0 {
        0
    } else {
        product_upto(l, r, x, (k - 1) as nat) + entry_at(l, k - 1, x) * entry_at(r, k - 1, x)
    }
}

/// `d0 + d1 x + d2 x^2 + d3 x^3`, by Horner's rule.
pub open spec fn horner4(d0: int, d1: int, d2: int, d3: int, x: int) -> int {
    d0 + x * (d1 + x * (d2 + x * d3))
}

proof fn lemma_horner4_scaled(a: int, b0: int, b1: int, b2: int, b3: int, x: int)
    ensures
        a * horner4(b0, b1, b2, b3, x) == horner7(a * b0, a * b1, a * b2, a * b3, 0, 0, 0, x),
{
    let e2 = b2 + x * b3;
    let e1 = b1 + x * e2;
    assert(a * e2 == a * b2 + x * (a * b3)) by (nonlinear_arith)
        requires
            e2 == b2 + x * b3,
    ;
    assert(a * e1 == a * b1 + x * (a * e2)) by (nonlinear_arith)
        requires
            e1 == b1 + x * e2,
    ;
    assert(a * (b0 + x * e1) == a * b0 + x * (a * e1)) by (nonlinear_arith);
    assert(x * 0 == 0);
    assert(a * b3 + x * (0 + x * (0 + x * 0)) == a * b3) by (nonlinear_arith);
}

proof fn lemma_horner7_shifted(d0: int, d1: int, d2: int, d3: int, d4: int, d5: int, x: int)
    ensures
        x * horner7(d0, d1, d2, d3, d4, d5, 0, x) == horner7(0, d0, d1, d2, d3, d4, d5, x),
{
    assert(d5 + x * 0 == d5) by (nonlinear_arith);
}

proof fn lemma_horner7_adds(
    a0: int,
    a1: int,
    a2: int,
    a3: int,
    a4: int,
    a5: int,
    a6: int,
    b0: int,
    b1: int,
    b2: int,
    b3: int,
    b4: int,
    b5: int,
    b6: int,
    x: int,
)
    ensures
        horner7(a0 + b0, a1 + b1, a2 + b2, a3 + b3, a4 + b4, a5 + b5, a6 + b6, x) == horner7(
            a0,
            a1,
            a2,
            a3,
            a4,
            a5,
            a6,
            x,
        ) + horner7(b0, b1, b2, b3, b4, b5, b6, x),
{
    let p5 = a5 + x * a6;
    let q5 = b5 + x * b6;
    assert(x * (a6 + b6) == x * a6 + x * b6) by (nonlinear_arith);
    let p4 = a4 + x * p5;
    let q4 = b4 + x * q5;
    assert(x * (p5 + q5) == x * p5 + x * q5) by (nonlinear_arith);
    let p3 = a3 + x * p4;
    let q3 = b3 + x * q4;
    assert(x * (p4 + q4) == x * p4 + x * q4) by (nonlinear_arith);
    let p2 = a2 + x * p3;
    let q2 = b2 + x * q3;
    assert(x * (p3 + q3) == x * p3 + x * q3) by (nonlinear_arith);
    let p1 = a1 + x * p2;
    let q1 = b1 + x * q2;
    assert(x * (p2 + q2) == x * p2 + x * q2) by (nonlinear_arith);
    assert(x * (p1 + q1) == x * p1 + x * q1) by (nonlinear_arith);
    assert(a5 + b5 + x * (a6 + b6) == p5 + q5);
    assert(a4 + b4 + x * (p5 + q5) == p4 + q4);
    assert(a3 + b3 + x * (p4 + q4) == p3 + q3);
    assert(a2 + b2 + x * (p3 + q3) == p2 + q2);
    assert(a1 + b1 + x * (p2 + q2) == p1 + q1);
}

proof fn lemma_entry_product(
    a0: int,
    a1: int,
    a2: int,
    a3: int,
    b0: int,
    b1: int,
    b2: int,
    b3: int,
    x: int,
)
    ensures
        horner4(a0, a1, a2, a3, x) * horner4(b0, b1, b2, b3, x) == horner7(
            a0 * b0,
            a0 * b1 + a1 * b0,
            a0 * b2 + a1 * b1 + a2 * b0,
            a0 * b3 + a1 * b2 + a2 * b1 + a3 * b0,
            a1 * b3 + a2 * b2 + a3 * b1,
            a2 * b3 + a3 * b2,
            a3 * b3,
            x,
        ),
{
    let b = horner4(b0, b1, b2, b3, x);
    let e2 = a2 + x * a3;
    let e1 = a1 + x * e2;
    // multiply out the left factor, one coefficient at a time
    assert(e2 * b == a2 * b + x * (a3 * b)) by (nonlinear_arith)
        requires
            e2 == a2 + x * a3,
    ;
    assert(e1 * b == a1 * b + x * (e2 * b)) by (nonlinear_arith)
        requires
            e1 == a1 + x * e2,
    ;
    assert((a0 + x * e1) * b == a0 * b + x * (e1 * b)) by (nonlinear_arith);
    lemma_horner4_scaled(a0, b0, b1, b2, b3, x);
    lemma_horner4_scaled(a1, b0, b1, b2, b3, x);
    lemma_horner4_scaled(a2, b0, b1, b2, b3, x);
    lemma_horner4_scaled(a3, b0, b1, b2, b3, x);
    // collect the shifted multiples, from the highest coefficient down
    lemma_horner7_shifted(a3 * b0, a3 * b1, a3 * b2, a3 * b3, 0, 0, x);
    lemma_horner7_adds(
        a2 * b0,
        a2 * b1,
        a2 * b2,
        a2 * b3,
        0,
        0,
        0,
        0,
        a3 * b0,
        a3 * b1,
        a3 * b2,
        a3 * b3,
        0,
        0,
        x,
    );
    let s2 = horner7(
        a2 * b0,
        a2 * b1 + a3 * b0,
        a2 * b2 + a3 * b1,
        a2 * b3 + a3 * b2,
        a3 * b3,
        0,
        0,
        x,
    );
    assert(e2 * b == s2);
    lemma_horner7_shifted(
        a2 * b0,
        a2 * b1 + a3 * b0,
        a2 * b2 + a3 * b1,
        a2 * b3 + a3 * b2,
        a3 * b3,
        0,
        x,
    );
    lemma_horner7_adds(
        a1 * b0,
        a1 * b1,
        a1 * b2,
        a1 * b3,
        0,
        0,
        0,
        0,
        a2 * b0,
        a2 * b1 + a3 * b0,
        a2 * b2 + a3 * b1,
        a2 * b3 + a3 * b2,
        a3 * b3,
        0,
        x,
    );
    let s1 = horner7(
        a1 * b0,
        a1 * b1 + a2 * b0,
        a1 * b2 + a2 * b1 + a3 * b0,
        a1 * b3 + a2 * b2 + a3 * b1,
        a2 * b3 + a3 * b2,
        a3 * b3,
        0,
        x,
    );
    assert(e1 * b == s1);
    lemma_horner7_shifted(
        a1 * b0,
        a1 * b1 + a2 * b0,
        a1 * b2 + a2 * b1 + a3 * b0,
        a1 * b3 + a2 * b2 + a3 * b1,
        a2 * b3 + a3 * b2,
        a3 * b3,
        x,
    );
    lemma_horner7_adds(
        a0 * b0,
        a0 * b1,
        a0 * b2,
        a0 * b3,
        0,
        0,
        0,
        0,
        a1 * b0,
        a1 * b1 + a2 * b0,
        a1 * b2 + a2 * b1 + a3 * b0,
        a1 * b3 + a2 * b2 + a3 * b1,
        a2 * b3 + a3 * b2,
        a3 * b3,
        x,
    );
}

/// The sum of the products of the entries is the polynomial whose
/// coefficients are the sums of inner products, degree by degree.
proof fn lemma_product_upto(l: VecPoly3Model, r: VecPoly3Model, x: int, k: nat)
    ensures
        product_upto(l, r, x, k) == horner7(
            dot_upto(l.c0, r.c0, k),
            dot_upto(l.c0, r.c1, k) + dot_upto(l.c1, r.c0, k),
            dot_upto(l.c0, r.c2, k) + dot_upto(l.c1, r.c1, k) + dot_upto(l.c2, r.c0, k),
            dot_upto(l.c0, r.c3, k) + dot_upto(l.c1, r.c2, k) + dot_upto(l.c2, r.c1, k) + dot_upto(
                l.c3,
                r.c0,
                k,
            ),
            dot_upto(l.c1, r.c3, k) + dot_upto(l.c2, r.c2, k) + dot_upto(l.c3, r.c1, k),
            dot_upto(l.c2, r.c3, k) + dot_upto(l.c3, r.c2, k),
            dot_upto(l.c3, r.c3, k),
            x,
        ),
    decreases k,
{
    if k == 0 {
        assert(x * 0 == 0);
    } else {
        let j = (k - 1) as nat;
        let i = k - 1;
        lemma_product_upto(l, r, x, j);
        lemma_entry_product(
            l.c0[i],
            l.c1[i],
            l.c2[i],
            l.c3[i],
            r.c0[i],
            r.c1[i],
            r.c2[i],
            r.c3[i],
            x,
        );
        lemma_horner7_adds(
            dot_upto(l.c0, r.c0, j),
            dot_upto(l.c0, r.c1, j) + dot_upto(l.c1, r.c0, j),
            dot_upto(l.c0, r.c2, j) + dot_upto(l.c1, r.c1, j) + dot_upto(l.c2, r.c0, j),
            dot_upto(l.c0, r.c3, j) + dot_upto(l.c1, r.c2, j) + dot_upto(l.c2, r.c1, j) + dot_upto(
                l.c3,
                r.c0,
                j,
            ),
            dot_upto(l.c1, r.c3, j) + dot_upto(l.c2, r.c2, j) + dot_upto(l.c3, r.c1, j),
            dot_upto(l.c2, r.c3, j) + dot_upto(l.c3, r.c2, j),
            dot_upto(l.c3, r.c3, j),
            l.c0[i] * r.c0[i],
            l.c0[i] * r.c1[i] + l.c1[i] * r.c0[i],
            l.c0[i] * r.c2[i] + l.c1[i] * r.c1[i] + l.c2[i] * r.c0[i],
            l.c0[i] * r.c3[i] + l.c1[i] * r.c2[i] + l.c2[i] * r.c1[i] + l.c3[i] * r.c0[i],
            l.c1[i] * r.c3[i] + l.c2[i] * r.c2[i] + l.c3[i] * r.c1[i],
            l.c2[i] * r.c3[i] + l.c3[i] * r.c2[i],
            l.c3[i] * r.c3[i],
            x,
        );
    }
}

/// The inner product of the evaluations is congruent to the sum of the
/// products of the entries.
proof fn lemma_dot_of_evaluations(l: VecPoly3Model, r: VecPoly3Model, x: int, k: nat)
    requires
        k <= l.c0.len(),
        l.c0.len() == r.c0.len(),
    ensures
        congruent(dot_upto(l.eval(x), r.eval(x), k), product_upto(l, r, x, k)),
    decreases k,
{
    if k > 0 {
        let i = k - 1;
        lemma_dot_of_evaluations(l, r, x, (k - 1) as nat);
        lemma_reduce_range(entry_at(l, i, x));
        lemma_reduce_range(entry_at(r, i, x));
        lemma_congruent_mul(l.eval(x)[i], entry_at(l, i, x), r.eval(x)[i], entry_at(r, i, x));
        lemma_congruent_add(
            dot_upto(l.eval(x), r.eval(x), (k - 1) as nat),
            product_upto(l, r, x, (k - 1) as nat),
            l.eval(x)[i] * r.eval(x)[i],
            entry_at(l, i, x) * entry_at(r, i, x),
        );
    }
}

/// The polynomial identity behind the proof: the product polynomial at `x`,
/// together with the constant coefficient that it does not keep, is the inner
/// product of the two vector polynomials at `x`.
pub proof fn lemma_eval_of_inner_product(l: VecPoly3Model, r: VecPoly3Model, x: int)
    requires
        l.has_len(l.c0.len()),
        r.has_len(l.c0.len()),
    ensures
        congruent(l.inner_product(r).eval(x) + dot(l.c0, r.c0), dot(l.eval(x), r.eval(x))),
{
    let n = l.c0.len();
    let t = l.inner_product(r);
    let d1 = dot(l.c0, r.c1) + dot(l.c1, r.c0);
    let d2 = dot(l.c0, r.c2) + dot(l.c1, r.c1) + dot(l.c2, r.c0);
    let d3 = dot(l.c0, r.c3) + dot(l.c1, r.c2) + dot(l.c2, r.c1) + dot(l.c3, r.c0);
    let d4 = dot(l.c1, r.c3) + dot(l.c2, r.c2) + dot(l.c3, r.c1);
    let d5 = dot(l.c2, r.c3) + dot(l.c3, r.c2);
    let d6 = dot(l.c3, r.c3);
    lemma_dot_of_evaluations(l, r, x, n);
    lemma_product_upto(l, r, x, n);
    // the reduced coefficients evaluate to what the unreduced ones do
    lemma_reduce_range(d6);
    lemma_congruent_mul(x, x, t.t6, d6);
    lemma_reduce_range(d5);
    lemma_congruent_add(t.t5, d5, x * t.t6, x * d6);
    let e5 = d5 + x * d6;
    lemma_congruent_mul(x, x, t.t5 + x * t.t6, e5);
    lemma_reduce_range(d4);
    lemma_congruent_add(t.t4, d4, x * (t.t5 + x * t.t6), x * e5);
    let e4 = d4 + x * e5;
    lemma_congruent_mul(x, x, t.t4 + x * (t.t5 + x * t.t6), e4);
    lemma_reduce_range(d3);
    lemma_congruent_add(t.t3, d3, x * (t.t4 + x * (t.t5 + x * t.t6)), x * e4);
    let e3 = d3 + x * e4;
    lemma_congruent_mul(x, x, t.t3 + x * (t.t4 + x * (t.t5 + x * t.t6)), e3);
    lemma_reduce_range(d2);
    lemma_congruent_add(t.t2, d2, x * (t.t3 + x * (t.t4 + x * (t.t5 + x * t.t6))), x * e3);
    let e2 = d2 + x * e3;
    lemma_congruent_mul(x, x, t.t2 + x * (t.t3 + x * (t.t4 + x * (t.t5 + x * t.t6))), e2);
    lemma_reduce_range(d1);
    lemma_congruent_add(
        t.t1,
        d1,
        x * (t.t2 + x * (t.t3 + x * (t.t4 + x * (t.t5 + x * t.t6)))),
        x * e2,
    );
    let e1 = d1 + x * e2;
    lemma_congruent_mul(
        x,
        x,
        t.t1 + x * (t.t2 + x * (t.t3 + x * (t.t4 + x * (t.t5 + x * t.t6)))),
        e1,
    );
    lemma_reduce_range(
        x * (t.t1 + x * (t.t2 + x * (t.t3 + x * (t.t4 + x * (t.t5 + x * t.t6))))),
    );
    lemma_congruent_add(t.eval(x), x * e1, dot(l.c0, r.c0), dot(l.c0, r.c0));
}

impl View for VecPoly3 {
    type V = VecPoly3Model;

    open spec fn view(&self) -> VecPoly3Model {
        VecPoly3Model {
            c0: values(self.0@),
            c1: values(self.1@),
            c2: values(self.2@),
            c3: values(self.3@),
        }
    }
}

impl View for Poly6 {
    type V = Poly6Model;

    open spec fn view(&self) -> Poly6Model {
        Poly6Model {
            t1: self.t1@,
            t2: self.t2@,
            t3: self.t3@,
            t4: self.t4@,
            t5: self.t5@,
            t6: self.t6@,
        }
    }
}

/// The sum of two, three or four inner products of vectors of one length.
fn sum_of_products(pairs: &Vec<(&Vec<Scalar>, &Vec<Scalar>)>) -> (r: Scalar)
    requires
        forall|k: int| 0 <= k < pairs.len() ==> (#[trigger] pairs[k]).0.len() == pairs[k].1.len(),
    ensures
        r@ == reduce(dot_sum(pairs@, pairs.len() as nat)),
{
    let mut acc = Scalar::zero();
    let mut k: usize = 0;
    proof {
        lemma_reduce_small(0);
    }
    while k < pairs.len()
        invariant
            k <= pairs.len(),
            forall|k: int|
                0 <= k < pairs.len() ==> (#[trigger] pairs[k]).0.len() == pairs[k].1.len(),
            acc@ == reduce(dot_sum(pairs@, k as nat)),
        decreases pairs.len() - k,
    {
        let d = inner_product(pairs[k].0, pairs[k].1);
        proof {
            lemma_reduce_add(
                dot_sum(pairs@, k as nat),
                dot(values(pairs[k as int].0@), values(pairs[k as int].1@)),
            );
        }
        acc = scalar_add(&acc, &d);
        k += 1;
    }
    acc
}

/// The sum of the inner products of the first `n` pairs.
spec fn dot_sum(pairs: Seq<(&Vec<Scalar>, &Vec<Scalar>)>, n: nat) -> int
    decreases n,
{
    if n == 0 {
        0
    } else {
        dot_sum(pairs, (n - 1) as nat) + dot(values(pairs[n - 1].0@), values(pairs[n - 1].1@))
    }
}

impl VecPoly3 {
    /// The polynomial whose coefficients are vectors of `n` zeros.
    pub fn zero(n: usize) -> (p: VecPoly3)
        ensures
            p@.c0 == zeros(n as nat),
            p@.c1 == zeros(n as nat),
            p@.c2 == zeros(n as nat),
            p@.c3 == zeros(n as nat),
    {
        VecPoly3(zero_vector(n), zero_vector(n), zero_vector(n), zero_vector(n))
    }

    /// The inner product with `rhs`, as a polynomial.  The constant
    /// coefficient is not kept.
    pub fn inner_product(&self, rhs: &VecPoly3) -> (t: Poly6)
        requires
            self@.has_len(self@.c0.len()),
            rhs@.has_len(self@.c0.len()),
        ensures
            t@ == self@.inner_product(rhs@),
    {
        let t1 = sum_of_products(&vec![(&self.0, &rhs.1), (&self.1, &rhs.0)]);
        let t2 = sum_of_products(&vec![(&self.0, &rhs.2), (&self.1, &rhs.1), (&self.2, &rhs.0)]);
        let t3 = sum_of_products(
            &vec![(&self.0, &rhs.3), (&self.1, &rhs.2), (&self.2, &rhs.1), (&self.3, &rhs.0)],
        );
        let t4 = sum_of_products(&vec![(&self.1, &rhs.3), (&self.2, &rhs.2), (&self.3, &rhs.1)]);
        let t5 = sum_of_products(&vec![(&self.2, &rhs.3), (&self.3, &rhs.2)]);
        let t6 = sum_of_products(&vec![(&self.3, &rhs.3)]);
        proof {
            reveal_with_fuel(dot_sum, 5);
        }
        Poly6 { t1, t2, t3, t4, t5, t6 }
    }

    /// The value at `x`, entry by entry.
    pub fn eval(&self, x: &Scalar) -> (out: Vec<Scalar>)
        requires
            self@.has_len(self@.c0.len()),
        ensures
            out.len() == self.0.len(),
            values(out@) == self@.eval(x@),
    {
        let n = self.0.len();
        let mut out: Vec<Scalar> = Vec::with_capacity(n);
        let mut i: usize = 0;
        while i < n
            invariant
                i <= n,
                n == self.0.len(),
                self@.has_len(n as nat),
                out.len() == i,
                forall|j: int| 0 <= j < i ==> (#[trigger] out@[j])@ == self@.eval(x@)[j],
            decreases n - i,
        {
            let e2 = scalar_add(&self.2[i], &scalar_mul(x, &self.3[i]));
            let e1 = scalar_add(&self.1[i], &scalar_mul(x, &e2));
            let e0 = scalar_add(&self.0[i], &scalar_mul(x, &e1));
            proof {
                let c0 = self@.c0[i as int];
                let c1 = self@.c1[i as int];
                let c2 = self@.c2[i as int];
                let c3 = self@.c3[i as int];
                lemma_reduce_add(c2, x@ * c3);
                lemma_horner_step(c1, x@, c2 + x@ * c3);
                lemma_horner_step(c0, x@, c1 + x@ * (c2 + x@ * c3));
            }
            out.push(e0);
            i += 1;
        }
        assert(values(out@) =~= self@.eval(x@));
        out
    }
}

impl Poly6 {
    /// The value at `x`.
    pub fn eval(&self, x: &Scalar) -> (r: Scalar)
        ensures
            r@ == self@.eval(x@),
    {
        let e5 = scalar_add(&self.t5, &scalar_mul(x, &self.t6));
        let e4 = scalar_add(&self.t4, &scalar_mul(x, &e5));
        let e3 = scalar_add(&self.t3, &scalar_mul(x, &e4));
        let e2 = scalar_add(&self.t2, &scalar_mul(x, &e3));
        let e1 = scalar_add(&self.t1, &scalar_mul(x, &e2));
        proof {
            let m = self@;
            lemma_reduce_add(m.t5, x@ * m.t6);
            lemma_horner_step(m.t4, x@, m.t5 + x@ * m.t6);
            lemma_horner_step(m.t3, x@, m.t4 + x@ * (m.t5 + x@ * m.t6));
            lemma_horner_step(m.t2, x@, m.t3 + x@ * (m.t4 + x@ * (m.t5 + x@ * m.t6)));
            lemma_horner_step(m.t1, x@, m.t2 + x@ * (m.t3 + x@ * (m.t4 + x@ * (m.t5 + x@ * m.t6))));
            lemma_reduce_mul(
                x@,
                m.t1 + x@ * (m.t2 + x@ * (m.t3 + x@ * (m.t4 + x@ * (m.t5 + x@ * m.t6)))),
            );
        }
        scalar_mul(x, &e1)
    }
}

} // verus!
