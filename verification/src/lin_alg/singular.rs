use vstd::prelude::*;
use crate::algebra::{
    lemma_mul_zero, lemma_neg_zero, lemma_sub_zero, lemma_sum_ext, lemma_sum_zero,
    lemma_sum_zero_tail, lemma_zero_add, sum, Field, Ring,
};
use crate::lin_alg::exact::{
    all_canonical, eliminated, lemma_back_canonical, lemma_back_len, lemma_back_solves,
    lemma_forward, lemma_forward_ignores_rhs, lemma_no_two_solutions, lemma_pivot_row_range,
    lemma_regular_ignores_rhs, proper, row_sum, satisfies,
};
use crate::lin_alg::mat::MatrixView;
use crate::lin_alg::solve::SystemView;
use crate::scalar::{magnitude_spec, negligible_spec, Scalar};

verus! {

/// The system with the same coefficients and nothing on the right-hand side.
pub open spec fn homogeneous<T: Scalar>(s: SystemView<T>) -> SystemView<T> {
    SystemView { a: s.a, b: MatrixView::zeros(s.a.rows, 1) }
}

/// The triangular system that agrees with `u` in the equations before `k`,
/// asks for one as unknown `k`, and asks for zero as every unknown after it.
pub open spec fn null_system<T: Scalar>(u: SystemView<T>, k: int) -> SystemView<T> {
    SystemView {
        a: MatrixView {
            rows: u.a.rows,
            cols: u.a.cols,
            cells: Seq::new(
                u.a.rows,
                |i: int|
                    if i < k {
                        u.a.cells[i]
                    } else {
                        Seq::new(
                            u.a.cols,
                            |j: int|
                                if j == i {
                                    T::one_spec()
                                } else {
                                    T::zero_spec()
                                },
                        )
                    },
            ),
        },
        b: MatrixView {
            rows: u.a.rows,
            cols: 1,
            cells: Seq::new(
                u.a.rows,
                |i: int|
                    Seq::new(
                        1,
                        |c: int|
                            if i == k {
                                T::one_spec()
                            } else {
                                T::zero_spec()
                            },
                    ),
            ),
        },
    }
}

/// In exact arithmetic, where the elimination meets no negligible pivot the
/// coefficients take no canonical column to zero but the column of zeros.
pub proof fn lemma_regular_has_no_null_vector<T: Field>(s: SystemView<T>, v: Seq<T>)
    requires
        s.wf(),
        all_canonical(s.a),
        s.regular(),
        forall|j: int| 0 <= j < s.n() ==> (#[trigger] v[j]).canonical(),
        satisfies(homogeneous(s), v),
    ensures
        forall|j: int| 0 <= j < s.n() ==> v[j] == T::zero_spec(),
{
    let h = homogeneous(s);
    let zero = T::zero_spec();
    let zeros = Seq::new(s.n() as nat, |j: int| zero);
    T::lemma_canonical_results(zero, zero);
    lemma_regular_ignores_rhs(s, h);
    assert forall|r: int| 0 <= r < h.n() implies #[trigger] row_sum(h, zeros, r, h.n() as nat)
        == h.b.cells[r][0] by {
        let terms = |c: int| h.a.cells[r][c].mul_spec(zeros[c]);
        assert forall|c: int| 0 <= c < h.n() implies #[trigger] terms(c) == zero by {
            lemma_mul_zero(h.a.cells[r][c]);
        }
        lemma_sum_zero(terms, h.n() as nat);
    }
    lemma_no_two_solutions(h, v, zeros);
}

/// Where a step of the elimination meets a negligible pivot, there is a first
/// such step.
pub proof fn lemma_first_negligible_pivot<T: Scalar>(s: SystemView<T>, k: nat) -> (first: nat)
    requires
        negligible_spec(s.pivot(k)),
    ensures
        first <= k,
        negligible_spec(s.pivot(first)),
        forall|j: nat| j < first ==> !negligible_spec(#[trigger] s.pivot(j)),
    decreases k,
{
    if exists|j: nat| j < k && negligible_spec(#[trigger] s.pivot(j)) {
        let j = choose|j: nat| j < k && negligible_spec(#[trigger] s.pivot(j));
        lemma_first_negligible_pivot(s, j)
    } else {
        k
    }
}

/// Where the pivot chosen among the rows from `k` up to `upto` is negligible,
/// column `k` is zero in all of those rows.
pub proof fn lemma_pivot_column_zero<T: Field>(u: SystemView<T>, k: int, upto: int)
    requires
        u.wf(),
        all_canonical(u.a),
        0 <= k < upto <= u.n(),
        negligible_spec(u.a.cells[u.pivot_row(k, upto)][k]),
    ensures
        forall|i: int| k <= i < upto ==> #[trigger] u.a.cells[i][k] == T::zero_spec(),
    decreases upto - k,
{
    let zero = T::zero_spec();
    lemma_pivot_row_range(u, k, upto);
    T::lemma_negligible_is_zero(u.a.cells[u.pivot_row(k, upto)][k]);
    if upto > k + 1 {
        let best = u.pivot_row(k, upto - 1);
        let last = u.a.cells[upto - 1][k];
        lemma_pivot_row_range(u, k, upto - 1);
        if magnitude_spec(u.a.cells[best][k]).lt_spec(magnitude_spec(last)) {
            T::lemma_zero_is_least(u.a.cells[best][k]);
        } else {
            lemma_pivot_column_zero(u, k, upto - 1);
            T::lemma_tolerance_exact();
            assert(last.canonical());
            T::lemma_negligible_is_zero(last);
        }
    }
}

/// Elimination leaves a right-hand side of zeros as it is.
pub proof fn lemma_forward_keeps_zero_rhs<T: Ring>(s: SystemView<T>, k: nat)
    requires
        s.wf(),
        s.b == MatrixView::<T>::zeros(s.a.rows, 1),
        k <= s.n(),
    ensures
        s.forward(k).wf(),
        s.forward(k).n() == s.n(),
        s.forward(k).b == s.b,
    decreases k,
{
    if k > 0 {
        let before = s.forward((k - 1) as nat);
        let zero = T::zero_spec();
        lemma_forward_keeps_zero_rhs(s, (k - 1) as nat);
        lemma_pivot_row_range(before, k - 1, before.n());
        let p = before.pivot_row(k - 1, before.n());
        let t = before.swapped(k - 1, p);
        assert(t.b =~~= s.b);
        assert forall|i: int| 0 <= i < s.n() implies #[trigger] t.reduced(k - 1, t.n()).b.cells[i]
            =~= s.b.cells[i] by {
            lemma_mul_zero(t.factor(k - 1, i));
            T::lemma_canonical_results(zero, zero);
            lemma_sub_zero(zero);
        }
        assert(t.reduced(k - 1, t.n()).b =~~= s.b);
        assert(t.reduced(k - 1, t.n()).wf());
    }
}

/// A sum whose terms are zero but for one is that one term, if it is
/// canonical.
pub proof fn lemma_sum_single<T: Ring>(f: spec_fn(int) -> T, at: int, n: nat)
    requires
        0 <= at < n,
        f(at).canonical(),
        forall|j: int| 0 <= j < n && j != at ==> #[trigger] f(j) == T::zero_spec(),
    ensures
        sum(f, n) == f(at),
{
    lemma_sum_zero(f, at as nat);
    lemma_zero_add(f(at));
    assert(sum(f, (at + 1) as nat) == f(at));
    lemma_sum_zero_tail(f, (at + 1) as nat, n);
}

/// In exact arithmetic, where the elimination meets a negligible pivot the
/// coefficients take some canonical column other than zero to zero: the
/// system has no solution or more than one.
pub proof fn lemma_singular_has_null_vector<T: Field>(s: SystemView<T>) -> (v: Seq<T>)
    requires
        s.wf(),
        all_canonical(s.a),
        !s.regular(),
    ensures
        v.len() == s.n(),
        forall|j: int| 0 <= j < s.n() ==> (#[trigger] v[j]).canonical(),
        exists|j: int| 0 <= j < s.n() && #[trigger] v[j] != T::zero_spec(),
        satisfies(homogeneous(s), v),
{
    let n = s.n();
    let zero = T::zero_spec();
    let one = T::one_spec();
    let h = homogeneous(s);
    let failing = choose|k: nat| k < s.n() && negligible_spec(#[trigger] s.pivot(k));
    let first = lemma_first_negligible_pivot(s, failing);
    let k = first as int;
    T::lemma_canonical_results(zero, zero);
    T::lemma_one_not_zero();
    // The homogeneous system after the steps before the failing one.
    assert(all_canonical(h.b));
    assert forall|j: nat| j < first implies !negligible_spec(#[trigger] h.pivot(j)) by {
        lemma_forward_ignores_rhs(s, h, j);
        assert(!negligible_spec(s.pivot(j)));
    }
    let u = h.forward(first);
    lemma_forward_keeps_zero_rhs(h, first);
    lemma_forward_ignores_rhs(s, h, first);
    // Its column `k` is zero from row `k` on.
    assert(negligible_spec(u.a.cells[u.pivot_row(k, u.n())][k]));
    let w = null_system(u, k);
    let v = w.back(0);
    lemma_forward(h, first, v);
    lemma_pivot_column_zero(u, k, n);
    // The triangular system that the column solves.
    assert(w.wf());
    assert(all_canonical(w.a)) by {
        assert forall|r: int, c: int| 0 <= r < w.a.rows && 0 <= c < w.a.cols implies (
        #[trigger] w.a.cells[r][c]).canonical() by {
            if r < k {
                assert(w.a.cells[r][c] == u.a.cells[r][c]);
            }
        }
    }
    assert(eliminated(w, w.n())) by {
        assert forall|r: int, c: int|
            0 <= c < w.n() && c < r < w.n() implies #[trigger] w.a.cells[r][c] == zero by {
            if r < k {
                assert(w.a.cells[r][c] == u.a.cells[r][c]);
            }
        }
        assert forall|c: int| 0 <= c < w.n() && c < w.n() implies #[trigger] w.a.cells[c][c]
            != zero by {
            if c < k {
                assert(w.a.cells[c][c] == u.a.cells[c][c]);
            }
        }
    }
    assert(proper(w, w.n()));
    lemma_back_solves(w);
    lemma_back_len(w, 0);
    assert forall|j: int| 0 <= j < n implies (#[trigger] v[j]).canonical() by {
        lemma_back_canonical(w, 0, j);
    }
    // From unknown `k` on the column is one and then zeros.
    assert forall|i: int| k <= i < n implies #[trigger] v[i] == w.b.cells[i][0] by {
        let terms = |j: int| w.a.cells[i][j].mul_spec(v[j]);
        assert(row_sum(w, v, i, w.n() as nat) == w.b.cells[i][0]);
        assert forall|j: int| 0 <= j < n && j != i implies #[trigger] terms(j) == zero by {
            lemma_mul_zero(v[j]);
        }
        T::lemma_mul_commutative(one, v[i]);
        T::lemma_mul_one(v[i]);
        lemma_sum_single(terms, i, n as nat);
    }
    assert(v[k] == one);
    // The column solves the homogeneous system after the first steps.
    assert forall|i: int| 0 <= i < u.n() implies #[trigger] row_sum(u, v, i, u.n() as nat)
        == u.b.cells[i][0] by {
        let terms = |j: int| u.a.cells[i][j].mul_spec(v[j]);
        if i < k {
            assert(row_sum(w, v, i, w.n() as nat) == w.b.cells[i][0]);
            assert(w.a.cells[i] == u.a.cells[i]);
            lemma_sum_ext(|j: int| w.a.cells[i][j].mul_spec(v[j]), terms, n as nat);
        } else {
            assert forall|j: int| 0 <= j < n implies #[trigger] terms(j) == zero by {
                if j <= k {
                    assert(u.a.cells[i][j] == zero);
                    lemma_mul_zero(v[j]);
                } else {
                    assert(v[j] == w.b.cells[j][0]);
                    lemma_mul_zero(u.a.cells[i][j]);
                }
            }
            lemma_sum_zero(terms, n as nat);
        }
    }
    assert(satisfies(u, v));
    v
}

} // verus!
