//! What flattening computes, and why it is sound.
//!
//! The constraints of a circuit are batched with the powers of one challenge
//! `z`: the `q`-th constraint is scaled by `z^(q+1)`, and the scaled
//! coefficients are collected per wire.
use vstd::prelude::*;
use vstd::arithmetic::power::pow;
use crate::field::{
    congruent, lemma_congruent_add, lemma_congruent_mul, lemma_congruent_sub, lemma_reduce_range,
    reduce,
};
use crate::util::{dot, dot_upto};
use crate::variable::{lc_in_range, var_in_range, Variable};

verus! {

/// The coefficient of `var` in a linear combination, its terms merged.
pub open spec fn lc_weight(terms: Seq<(Variable, int)>, var: Variable) -> int
    decreases terms.len(),
{
    if terms.len() == 0 {
        0
    } else {
        lc_weight(terms.drop_last(), var) + if terms.last().0 == var {
            terms.last().1
        } else {
            0
        }
    }
}

/// The coefficient of `var` in the batch: the sum over the constraints `q` of
/// `z^(q+1)` times the coefficient of `var` in constraint `q`.
pub open spec fn flat_weight(cs: Seq<Seq<(Variable, int)>>, z: int, var: Variable) -> int
    decreases cs.len(),
{
    if cs.len() == 0 {
        0
    } else {
        flat_weight(cs.drop_last(), z, var) + pow(z, cs.len()) * lc_weight(cs.last(), var)
    }
}

/// The four vectors that flattening yields.
pub struct Flattened {
    pub w_l: Seq<int>,
    pub w_r: Seq<int>,
    pub w_o: Seq<int>,
    pub w_v: Seq<int>,
}

/// The flattened constraints of a circuit with `n` gates and `m` committed
/// values: per gate the batched weights of its three wires, and per committed
/// value the negated batched weight.  The constant terms take no part.
pub open spec fn flattened(cs: Seq<Seq<(Variable, int)>>, z: int, n: nat, m: nat) -> Flattened {
    Flattened {
        w_l: Seq::new(n, |i: int| reduce(flat_weight(cs, z, Variable::MultiplierLeft(i as usize)))),
        w_r: Seq::new(n, |i: int| reduce(flat_weight(cs, z, Variable::MultiplierRight(i as usize)))),
        w_o: Seq::new(
            n,
            |i: int| reduce(flat_weight(cs, z, Variable::MultiplierOutput(i as usize))),
        ),
        w_v: Seq::new(m, |j: int| reduce(-flat_weight(cs, z, Variable::Committed(j as usize)))),
    }
}

/// The batched weight after the first `q` constraints and the first `k`
/// terms of constraint `q`.
pub open spec fn partial_weight(
    cs: Seq<Seq<(Variable, int)>>,
    z: int,
    q: int,
    k: int,
    var: Variable,
) -> int {
    flat_weight(cs.take(q), z, var) + pow(z, (q + 1) as nat) * lc_weight(cs[q].take(k), var)
}

pub proof fn lemma_lc_weight_push(terms: Seq<(Variable, int)>, term: (Variable, int), var: Variable)
    ensures
        lc_weight(terms.push(term), var) == lc_weight(terms, var) + if term.0 == var {
            term.1
        } else {
            0
        },
{
    assert(terms.push(term).drop_last() =~= terms);
}

pub proof fn lemma_partial_weight_start(cs: Seq<Seq<(Variable, int)>>, z: int, q: int, var: Variable)
    requires
        0 <= q < cs.len(),
    ensures
        partial_weight(cs, z, q, 0, var) == flat_weight(cs.take(q), z, var),
{
    assert(cs[q].take(0) =~= Seq::<(Variable, int)>::empty());
    assert(pow(z, (q + 1) as nat) * 0 == 0);
}

pub proof fn lemma_partial_weight_step(
    cs: Seq<Seq<(Variable, int)>>,
    z: int,
    q: int,
    k: int,
    var: Variable,
)
    requires
        0 <= q < cs.len(),
        0 <= k < cs[q].len(),
    ensures
        partial_weight(cs, z, q, k + 1, var) == partial_weight(cs, z, q, k, var) + if cs[q][k].0
            == var {
            pow(z, (q + 1) as nat) * cs[q][k].1
        } else {
            0
        },
{
    let p = pow(z, (q + 1) as nat);
    assert(cs[q].take(k + 1) =~= cs[q].take(k).push(cs[q][k]));
    lemma_lc_weight_push(cs[q].take(k), cs[q][k], var);
    let w = lc_weight(cs[q].take(k), var);
    let c = cs[q][k].1;
    assert(p * (w + c) == p * w + p * c) by (nonlinear_arith);
    assert(p * (w + 0) == p * w);
}

pub proof fn lemma_partial_weight_end(cs: Seq<Seq<(Variable, int)>>, z: int, q: int, var: Variable)
    requires
        0 <= q < cs.len(),
    ensures
        partial_weight(cs, z, q, cs[q].len() as int, var) == flat_weight(cs.take(q + 1), z, var),
{
    assert(cs[q].take(cs[q].len() as int) =~= cs[q]);
    assert(cs.take(q + 1).drop_last() =~= cs.take(q));
    assert(cs.take(q + 1).last() == cs[q]);
}

/// The values of all wires of a circuit.
pub struct Witness {
    pub a_l: Seq<int>,
    pub a_r: Seq<int>,
    pub a_o: Seq<int>,
    pub v: Seq<int>,
}

/// The value of a wire.
pub open spec fn var_value(w: Witness, var: Variable) -> int {
    match var {
        Variable::Committed(j) => w.v[j as int],
        Variable::MultiplierLeft(i) => w.a_l[i as int],
        Variable::MultiplierRight(i) => w.a_r[i as int],
        Variable::MultiplierOutput(i) => w.a_o[i as int],
        Variable::One => 1,
    }
}

/// The value of a linear combination, constant terms included.
pub open spec fn lc_eval(terms: Seq<(Variable, int)>, w: Witness) -> int
    decreases terms.len(),
{
    if terms.len() == 0 {
        0
    } else {
        lc_eval(terms.drop_last(), w) + terms.last().1 * var_value(w, terms.last().0)
    }
}

/// The four families of wires that carry an index.
pub enum Wire {
    Left,
    Right,
    Output,
    Committed,
}

/// The wire of a family at an index.
pub open spec fn wire(kind: Wire, i: int) -> Variable {
    match kind {
        Wire::Left => Variable::MultiplierLeft(i as usize),
        Wire::Right => Variable::MultiplierRight(i as usize),
        Wire::Output => Variable::MultiplierOutput(i as usize),
        Wire::Committed => Variable::Committed(i as usize),
    }
}

/// The sum over the first `n` wires of a family of weight times value.
pub open spec fn weighted_sum(
    weight: spec_fn(Variable) -> int,
    kind: Wire,
    xs: Seq<int>,
    n: nat,
) -> int
    decreases n,
{
    if n == 0 {
        0
    } else {
        weighted_sum(weight, kind, xs, (n - 1) as nat) + weight(wire(kind, n - 1)) * xs[n - 1]
    }
}

/// The sum over all wires of weight times value, the constant one included.
pub open spec fn total(weight: spec_fn(Variable) -> int, w: Witness) -> int {
    weighted_sum(weight, Wire::Left, w.a_l, w.a_l.len()) + weighted_sum(
        weight,
        Wire::Right,
        w.a_r,
        w.a_l.len(),
    ) + weighted_sum(weight, Wire::Output, w.a_o, w.a_l.len()) + weighted_sum(
        weight,
        Wire::Committed,
        w.v,
        w.v.len(),
    ) + weight(Variable::One)
}

/// The batch of all constraints, evaluated: the sum over the constraints `q`
/// of `z^(q+1)` times the value of constraint `q`.
pub open spec fn batched(cs: Seq<Seq<(Variable, int)>>, z: int, w: Witness) -> int
    decreases cs.len(),
{
    if cs.len() == 0 {
        0
    } else {
        batched(cs.drop_last(), z, w) + pow(z, cs.len()) * lc_eval(cs.last(), w)
    }
}

/// The witness has one value per wire, each index within `usize`.
pub open spec fn witness_shaped(w: Witness) -> bool {
    &&& w.a_l.len() == w.a_r.len() == w.a_o.len()
    &&& w.a_l.len() <= usize::MAX
    &&& w.v.len() <= usize::MAX
}

proof fn lemma_weighted_sum_zero(weight: spec_fn(Variable) -> int, kind: Wire, xs: Seq<int>, n: nat)
    requires
        forall|var: Variable| #[trigger] weight(var) == 0,
    ensures
        weighted_sum(weight, kind, xs, n) == 0,
    decreases n,
{
    if n > 0 {
        lemma_weighted_sum_zero(weight, kind, xs, (n - 1) as nat);
        assert(weight(wire(kind, n - 1)) == 0);
        assert(0 * xs[n - 1] == 0);
    }
}

proof fn lemma_weighted_sum_linear(
    f: spec_fn(Variable) -> int,
    g: spec_fn(Variable) -> int,
    h: spec_fn(Variable) -> int,
    c: int,
    kind: Wire,
    xs: Seq<int>,
    n: nat,
)
    requires
        forall|var: Variable| #[trigger] h(var) == f(var) + c * g(var),
    ensures
        weighted_sum(h, kind, xs, n) == weighted_sum(f, kind, xs, n) + c * weighted_sum(
            g,
            kind,
            xs,
            n,
        ),
    decreases n,
{
    if n == 0 {
        assert(c * 0 == 0);
    } else {
        lemma_weighted_sum_linear(f, g, h, c, kind, xs, (n - 1) as nat);
        let var = wire(kind, n - 1);
        let x = xs[n - 1];
        let sg = weighted_sum(g, kind, xs, (n - 1) as nat);
        assert(h(var) == f(var) + c * g(var));
        assert((f(var) + c * g(var)) * x == f(var) * x + c * (g(var) * x)) by (nonlinear_arith);
        assert(c * (sg + g(var) * x) == c * sg + c * (g(var) * x)) by (nonlinear_arith);
    }
}

/// The weight that is one on `target` and zero elsewhere.
pub open spec fn indicator(target: Variable) -> spec_fn(Variable) -> int {
    |var: Variable|
        if var == target {
            1int
        } else {
            0int
        }
}

proof fn lemma_weighted_sum_misses(target: Variable, kind: Wire, xs: Seq<int>, n: nat)
    requires
        forall|j: int| 0 <= j < n ==> wire(kind, j) != target,
    ensures
        weighted_sum(indicator(target), kind, xs, n) == 0,
    decreases n,
{
    if n > 0 {
        lemma_weighted_sum_misses(target, kind, xs, (n - 1) as nat);
        assert(wire(kind, n - 1) != target);
        assert(0 * xs[n - 1] == 0);
    }
}

proof fn lemma_weighted_sum_hits(target: Variable, kind: Wire, xs: Seq<int>, n: nat, j: int)
    requires
        n <= usize::MAX,
        0 <= j < n,
        wire(kind, j) == target,
    ensures
        weighted_sum(indicator(target), kind, xs, n) == xs[j],
    decreases n,
{
    let last = n - 1;
    if j == last {
        assert forall|i: int| 0 <= i < last implies wire(kind, i) != target by {}
        lemma_weighted_sum_misses(target, kind, xs, last as nat);
        assert(1 * xs[last] == xs[last]);
    } else {
        lemma_weighted_sum_hits(target, kind, xs, last as nat, j);
        assert(wire(kind, last) != target);
        assert(0 * xs[last] == 0);
    }
}

proof fn lemma_total_indicator(target: Variable, w: Witness)
    requires
        witness_shaped(w),
        var_in_range(target, w.a_l.len(), w.v.len()),
    ensures
        total(indicator(target), w) == var_value(w, target),
{
    let n = w.a_l.len();
    let m = w.v.len();
    if !(target is MultiplierLeft) {
        lemma_weighted_sum_misses(target, Wire::Left, w.a_l, n);
    }
    if !(target is MultiplierRight) {
        lemma_weighted_sum_misses(target, Wire::Right, w.a_r, n);
    }
    if !(target is MultiplierOutput) {
        lemma_weighted_sum_misses(target, Wire::Output, w.a_o, n);
    }
    if !(target is Committed) {
        lemma_weighted_sum_misses(target, Wire::Committed, w.v, m);
    }
    match target {
        Variable::MultiplierLeft(i) => {
            lemma_weighted_sum_hits(target, Wire::Left, w.a_l, n, i as int);
        },
        Variable::MultiplierRight(i) => {
            lemma_weighted_sum_hits(target, Wire::Right, w.a_r, n, i as int);
        },
        Variable::MultiplierOutput(i) => {
            lemma_weighted_sum_hits(target, Wire::Output, w.a_o, n, i as int);
        },
        Variable::Committed(i) => {
            lemma_weighted_sum_hits(target, Wire::Committed, w.v, m, i as int);
        },
        Variable::One => {},
    }
}

proof fn lemma_total_linear(
    f: spec_fn(Variable) -> int,
    g: spec_fn(Variable) -> int,
    h: spec_fn(Variable) -> int,
    c: int,
    w: Witness,
)
    requires
        forall|var: Variable| #[trigger] h(var) == f(var) + c * g(var),
    ensures
        total(h, w) == total(f, w) + c * total(g, w),
{
    let n = w.a_l.len();
    lemma_weighted_sum_linear(f, g, h, c, Wire::Left, w.a_l, n);
    lemma_weighted_sum_linear(f, g, h, c, Wire::Right, w.a_r, n);
    lemma_weighted_sum_linear(f, g, h, c, Wire::Output, w.a_o, n);
    lemma_weighted_sum_linear(f, g, h, c, Wire::Committed, w.v, w.v.len());
    let gl = weighted_sum(g, Wire::Left, w.a_l, n);
    let gr = weighted_sum(g, Wire::Right, w.a_r, n);
    let go = weighted_sum(g, Wire::Output, w.a_o, n);
    let gv = weighted_sum(g, Wire::Committed, w.v, w.v.len());
    let g1 = g(Variable::One);
    assert(h(Variable::One) == f(Variable::One) + c * g1);
    assert(c * (gl + gr + go + gv + g1) == c * gl + c * gr + c * go + c * gv + c * g1)
        by (nonlinear_arith);
}

/// Every entry of `w` is the signed batched weight of its wire in `cs`.
pub open spec fn settled(
    w: Seq<int>,
    kind: Wire,
    sign: int,
    cs: Seq<Seq<(Variable, int)>>,
    z: int,
) -> bool {
    forall|i: int|
        0 <= i < w.len() ==> #[trigger] w[i] == reduce(sign * flat_weight(cs, z, wire(kind, i)))
}

/// Every entry of `w` is the signed batched weight of its wire after the
/// first `q` constraints and the first `k` terms of constraint `q`.
pub open spec fn tracks(
    w: Seq<int>,
    kind: Wire,
    sign: int,
    cs: Seq<Seq<(Variable, int)>>,
    z: int,
    q: int,
    k: int,
) -> bool {
    forall|i: int|
        0 <= i < w.len() ==> #[trigger] w[i] == reduce(
            sign * partial_weight(cs, z, q, k, wire(kind, i)),
        )
}

pub proof fn lemma_tracks_start(
    w: Seq<int>,
    kind: Wire,
    sign: int,
    cs: Seq<Seq<(Variable, int)>>,
    z: int,
    q: int,
)
    requires
        0 <= q < cs.len(),
        settled(w, kind, sign, cs.take(q), z),
    ensures
        tracks(w, kind, sign, cs, z, q, 0),
{
    assert forall|i: int| 0 <= i < w.len() implies #[trigger] w[i] == reduce(
        sign * partial_weight(cs, z, q, 0, wire(kind, i)),
    ) by {
        lemma_partial_weight_start(cs, z, q, wire(kind, i));
    }
}

pub proof fn lemma_tracks_end(
    w: Seq<int>,
    kind: Wire,
    sign: int,
    cs: Seq<Seq<(Variable, int)>>,
    z: int,
    q: int,
)
    requires
        0 <= q < cs.len(),
        tracks(w, kind, sign, cs, z, q, cs[q].len() as int),
    ensures
        settled(w, kind, sign, cs.take(q + 1), z),
{
    assert forall|i: int| 0 <= i < w.len() implies #[trigger] w[i] == reduce(
        sign * flat_weight(cs.take(q + 1), z, wire(kind, i)),
    ) by {
        lemma_partial_weight_end(cs, z, q, wire(kind, i));
    }
}

/// A term on a wire of another family leaves the weights of this one alone.
pub proof fn lemma_tracks_skip(
    w: Seq<int>,
    kind: Wire,
    sign: int,
    cs: Seq<Seq<(Variable, int)>>,
    z: int,
    q: int,
    k: int,
)
    requires
        0 <= q < cs.len(),
        0 <= k < cs[q].len(),
        tracks(w, kind, sign, cs, z, q, k),
        forall|i: int| 0 <= i < w.len() ==> wire(kind, i) != cs[q][k].0,
    ensures
        tracks(w, kind, sign, cs, z, q, k + 1),
{
    assert forall|i: int| 0 <= i < w.len() implies #[trigger] w[i] == reduce(
        sign * partial_weight(cs, z, q, k + 1, wire(kind, i)),
    ) by {
        lemma_partial_weight_step(cs, z, q, k, wire(kind, i));
    }
}

/// A term on wire `j` of this family adds its scaled coefficient to entry `j`.
pub proof fn lemma_tracks_hit(
    w: Seq<int>,
    kind: Wire,
    sign: int,
    cs: Seq<Seq<(Variable, int)>>,
    z: int,
    q: int,
    k: int,
    j: int,
    e: int,
)
    requires
        0 <= q < cs.len(),
        0 <= k < cs[q].len(),
        0 <= j < w.len() <= usize::MAX,
        tracks(w, kind, sign, cs, z, q, k),
        cs[q][k].0 == wire(kind, j),
        congruent(e, pow(z, (q + 1) as nat)),
    ensures
        tracks(
            w.update(j, reduce(w[j] + sign * reduce(e * cs[q][k].1))),
            kind,
            sign,
            cs,
            z,
            q,
            k + 1,
        ),
{
    let c = cs[q][k].1;
    let p = pow(z, (q + 1) as nat);
    let w2 = w.update(j, reduce(w[j] + sign * reduce(e * c)));
    assert forall|i: int| 0 <= i < w2.len() implies #[trigger] w2[i] == reduce(
        sign * partial_weight(cs, z, q, k + 1, wire(kind, i)),
    ) by {
        lemma_partial_weight_step(cs, z, q, k, wire(kind, i));
        if i == j {
            let before = partial_weight(cs, z, q, k, wire(kind, j));
            assert(w[j] == reduce(sign * before));
            lemma_reduce_range(sign * before);
            lemma_reduce_range(e * c);
            lemma_congruent_mul(e, p, c, c);
            lemma_congruent_mul(sign, sign, reduce(e * c), p * c);
            lemma_congruent_add(w[j], sign * before, sign * reduce(e * c), sign * (p * c));
            assert(sign * before + sign * (p * c) == sign * (before + p * c)) by (nonlinear_arith);
        } else {
            assert(wire(kind, i) != wire(kind, j));
            assert(w2[i] == w[i]);
        }
    }
}

/// A linear combination, evaluated, is the sum over all wires of merged
/// coefficient times value.
pub proof fn lemma_lc_eval_by_wire(terms: Seq<(Variable, int)>, w: Witness)
    requires
        witness_shaped(w),
        lc_in_range(terms, w.a_l.len(), w.v.len()),
    ensures
        total(|var: Variable| lc_weight(terms, var), w) == lc_eval(terms, w),
    decreases terms.len(),
{
    let h = |var: Variable| lc_weight(terms, var);
    if terms.len() == 0 {
        let n = w.a_l.len();
        lemma_weighted_sum_zero(h, Wire::Left, w.a_l, n);
        lemma_weighted_sum_zero(h, Wire::Right, w.a_r, n);
        lemma_weighted_sum_zero(h, Wire::Output, w.a_o, n);
        lemma_weighted_sum_zero(h, Wire::Committed, w.v, w.v.len());
    } else {
        let rest = terms.drop_last();
        let (target, c) = terms.last();
        assert(var_in_range(terms[terms.len() - 1].0, w.a_l.len(), w.v.len()));
        assert forall|k: int| 0 <= k < rest.len() implies var_in_range(
            #[trigger] rest[k].0,
            w.a_l.len(),
            w.v.len(),
        ) by {
            assert(rest[k] == terms[k]);
        }
        lemma_lc_eval_by_wire(rest, w);
        let f = |var: Variable| lc_weight(rest, var);
        let g = indicator(target);
        assert forall|var: Variable| #[trigger] h(var) == f(var) + c * g(var) by {
            assert(c * 1 == c);
            assert(c * 0 == 0);
        }
        lemma_total_linear(f, g, h, c, w);
        lemma_total_indicator(target, w);
    }
}

/// The batch, evaluated, is the sum over all wires of batched weight times value.
pub proof fn lemma_batched_by_wire(cs: Seq<Seq<(Variable, int)>>, z: int, w: Witness)
    requires
        witness_shaped(w),
        forall|q: int| 0 <= q < cs.len() ==> lc_in_range(#[trigger] cs[q], w.a_l.len(), w.v.len()),
    ensures
        total(|var: Variable| flat_weight(cs, z, var), w) == batched(cs, z, w),
    decreases cs.len(),
{
    let h = |var: Variable| flat_weight(cs, z, var);
    if cs.len() == 0 {
        let n = w.a_l.len();
        lemma_weighted_sum_zero(h, Wire::Left, w.a_l, n);
        lemma_weighted_sum_zero(h, Wire::Right, w.a_r, n);
        lemma_weighted_sum_zero(h, Wire::Output, w.a_o, n);
        lemma_weighted_sum_zero(h, Wire::Committed, w.v, w.v.len());
    } else {
        let rest = cs.drop_last();
        assert forall|q: int| 0 <= q < rest.len() implies lc_in_range(
            #[trigger] rest[q],
            w.a_l.len(),
            w.v.len(),
        ) by {
            assert(rest[q] == cs[q]);
        }
        lemma_batched_by_wire(rest, z, w);
        assert(lc_in_range(cs[cs.len() - 1], w.a_l.len(), w.v.len()));
        lemma_lc_eval_by_wire(cs.last(), w);
        let f = |var: Variable| flat_weight(rest, z, var);
        let g = |var: Variable| lc_weight(cs.last(), var);
        let c = pow(z, cs.len());
        assert forall|var: Variable| #[trigger] h(var) == f(var) + c * g(var) by {}
        lemma_total_linear(f, g, h, c, w);
    }
}

/// A batch of constraints that all hold, holds.
pub proof fn lemma_batched_vanishes(cs: Seq<Seq<(Variable, int)>>, z: int, w: Witness)
    requires
        forall|q: int| 0 <= q < cs.len() ==> congruent(lc_eval(#[trigger] cs[q], w), 0),
    ensures
        congruent(batched(cs, z, w), 0),
    decreases cs.len(),
{
    if cs.len() > 0 {
        let rest = cs.drop_last();
        assert forall|q: int| 0 <= q < rest.len() implies congruent(
            lc_eval(#[trigger] rest[q], w),
            0,
        ) by {
            assert(rest[q] == cs[q]);
        }
        lemma_batched_vanishes(rest, z, w);
        let p = pow(z, cs.len());
        assert(congruent(lc_eval(cs[cs.len() - 1], w), 0));
        lemma_congruent_mul(p, p, lc_eval(cs.last(), w), 0);
        assert(p * 0 == 0);
        lemma_congruent_add(batched(rest, z, w), 0, p * lc_eval(cs.last(), w), 0);
    }
}

/// Where each entry of `a` is congruent to `c` times the weight of its wire,
/// the inner product with `xs` is congruent to `c` times the weighted sum.
proof fn lemma_dot_by_weight(
    a: Seq<int>,
    weight: spec_fn(Variable) -> int,
    c: int,
    kind: Wire,
    xs: Seq<int>,
    n: nat,
)
    requires
        forall|i: int| 0 <= i < n ==> congruent(#[trigger] a[i], c * weight(wire(kind, i))),
    ensures
        congruent(dot_upto(a, xs, n), c * weighted_sum(weight, kind, xs, n)),
    decreases n,
{
    if n == 0 {
        assert(c * 0 == 0);
    } else {
        lemma_dot_by_weight(a, weight, c, kind, xs, (n - 1) as nat);
        let i = n - 1;
        let wt = weight(wire(kind, i));
        let s = weighted_sum(weight, kind, xs, (n - 1) as nat);
        assert(congruent(a[i], c * wt));
        lemma_congruent_mul(a[i], c * wt, xs[i], xs[i]);
        lemma_congruent_add(dot_upto(a, xs, (n - 1) as nat), c * s, a[i] * xs[i], (c * wt) * xs[i]);
        assert(c * (s + wt * xs[i]) == c * s + (c * wt) * xs[i]) by (nonlinear_arith);
    }
}

/// What the flattened vectors add up to: for every witness, the weighted wire
/// values and the batched constants together are congruent to the batch of the
/// constraints, each evaluated on the witness.
pub proof fn lemma_flattened_is_batch(cs: Seq<Seq<(Variable, int)>>, z: int, w: Witness)
    requires
        witness_shaped(w),
        forall|q: int| 0 <= q < cs.len() ==> lc_in_range(#[trigger] cs[q], w.a_l.len(), w.v.len()),
    ensures
        ({
            let f = flattened(cs, z, w.a_l.len(), w.v.len());
            congruent(
                dot(f.w_l, w.a_l) + dot(f.w_r, w.a_r) + dot(f.w_o, w.a_o) - dot(f.w_v, w.v)
                    + flat_weight(cs, z, Variable::One),
                batched(cs, z, w),
            )
        }),
{
    let n = w.a_l.len();
    let m = w.v.len();
    let f = flattened(cs, z, n, m);
    let weight = |var: Variable| flat_weight(cs, z, var);
    assert forall|i: int| 0 <= i < n implies congruent(
        #[trigger] f.w_l[i],
        1 * weight(wire(Wire::Left, i)),
    ) by {
        lemma_reduce_range(weight(wire(Wire::Left, i)));
    }
    assert forall|i: int| 0 <= i < n implies congruent(
        #[trigger] f.w_r[i],
        1 * weight(wire(Wire::Right, i)),
    ) by {
        lemma_reduce_range(weight(wire(Wire::Right, i)));
    }
    assert forall|i: int| 0 <= i < n implies congruent(
        #[trigger] f.w_o[i],
        1 * weight(wire(Wire::Output, i)),
    ) by {
        lemma_reduce_range(weight(wire(Wire::Output, i)));
    }
    assert forall|j: int| 0 <= j < m implies congruent(
        #[trigger] f.w_v[j],
        (-1) * weight(wire(Wire::Committed, j)),
    ) by {
        lemma_reduce_range(-weight(wire(Wire::Committed, j)));
    }
    lemma_dot_by_weight(f.w_l, weight, 1, Wire::Left, w.a_l, n);
    lemma_dot_by_weight(f.w_r, weight, 1, Wire::Right, w.a_r, n);
    lemma_dot_by_weight(f.w_o, weight, 1, Wire::Output, w.a_o, n);
    lemma_dot_by_weight(f.w_v, weight, -1, Wire::Committed, w.v, m);
    let sl = weighted_sum(weight, Wire::Left, w.a_l, n);
    let sr = weighted_sum(weight, Wire::Right, w.a_r, n);
    let so = weighted_sum(weight, Wire::Output, w.a_o, n);
    let sv = weighted_sum(weight, Wire::Committed, w.v, m);
    lemma_congruent_add(dot(f.w_l, w.a_l), sl, dot(f.w_r, w.a_r), sr);
    lemma_congruent_add(dot(f.w_l, w.a_l) + dot(f.w_r, w.a_r), sl + sr, dot(f.w_o, w.a_o), so);
    lemma_congruent_sub(
        dot(f.w_l, w.a_l) + dot(f.w_r, w.a_r) + dot(f.w_o, w.a_o),
        sl + sr + so,
        dot(f.w_v, w.v),
        (-1) * sv,
    );
    let one = flat_weight(cs, z, Variable::One);
    lemma_congruent_add(
        dot(f.w_l, w.a_l) + dot(f.w_r, w.a_r) + dot(f.w_o, w.a_o) - dot(f.w_v, w.v),
        sl + sr + so - (-1) * sv,
        one,
        one,
    );
    lemma_batched_by_wire(cs, z, w);
}

/// Flattening is sound.  Where every constraint evaluates to zero on the
/// witness, the flattened vectors satisfy
/// `<w_l, a_l> + <w_r, a_r> + <w_o, a_o> - <w_v, v> + c == 0` in the field,
/// with `c` the batched constant terms of the constraints.
pub proof fn lemma_flattening_sound(cs: Seq<Seq<(Variable, int)>>, z: int, w: Witness)
    requires
        witness_shaped(w),
        forall|q: int| 0 <= q < cs.len() ==> lc_in_range(#[trigger] cs[q], w.a_l.len(), w.v.len()),
        forall|q: int| 0 <= q < cs.len() ==> congruent(lc_eval(#[trigger] cs[q], w), 0),
    ensures
        ({
            let f = flattened(cs, z, w.a_l.len(), w.v.len());
            congruent(
                dot(f.w_l, w.a_l) + dot(f.w_r, w.a_r) + dot(f.w_o, w.a_o) - dot(f.w_v, w.v)
                    + flat_weight(cs, z, Variable::One),
                0,
            )
        }),
{
    lemma_flattened_is_batch(cs, z, w);
    lemma_batched_vanishes(cs, z, w);
}

/// Flattening is sound for constraints whose batched constant terms vanish:
/// where every constraint evaluates to zero on the witness, the flattened
/// vectors satisfy `<w_l, a_l> + <w_r, a_r> + <w_o, a_o> - <w_v, v> == 0` in
/// the field.
pub proof fn lemma_flattening_sound_without_constants(
    cs: Seq<Seq<(Variable, int)>>,
    z: int,
    w: Witness,
)
    requires
        witness_shaped(w),
        forall|q: int| 0 <= q < cs.len() ==> lc_in_range(#[trigger] cs[q], w.a_l.len(), w.v.len()),
        forall|q: int| 0 <= q < cs.len() ==> congruent(lc_eval(#[trigger] cs[q], w), 0),
        congruent(flat_weight(cs, z, Variable::One), 0),
    ensures
        ({
            let f = flattened(cs, z, w.a_l.len(), w.v.len());
            congruent(
                dot(f.w_l, w.a_l) + dot(f.w_r, w.a_r) + dot(f.w_o, w.a_o) - dot(f.w_v, w.v),
                0,
            )
        }),
{
    lemma_flattening_sound(cs, z, w);
    let f = flattened(cs, z, w.a_l.len(), w.v.len());
    let s = dot(f.w_l, w.a_l) + dot(f.w_r, w.a_r) + dot(f.w_o, w.a_o) - dot(f.w_v, w.v);
    let one = flat_weight(cs, z, Variable::One);
    lemma_congruent_sub(s + one, 0, one, 0);
}

} // verus!
