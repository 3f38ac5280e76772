use vstd::prelude::*;
use crate::algebra::{
    lemma_add_cancel_right, lemma_add_sub_regroup, lemma_mul_cancel, lemma_mul_zero,
    lemma_sub_cancel_right, lemma_sub_mul, lemma_sub_self, lemma_sub_zero, lemma_sum_canonical,
    lemma_sum_ext, lemma_sum_scale_left, lemma_sum_sub, lemma_sum_zero, lemma_zero_add, sum, Field,
    Ring,
};
use crate::lin_alg::laws::lemma_inner_is_sum;
use crate::lin_alg::mat::MatrixView;
use crate::lin_alg::solve::SystemView;
use crate::scalar::{negligible_spec, Scalar};

verus! {

/// The left side of equation `i` with `x` for the unknowns, up to column `n`.
pub open spec fn row_sum<T: Scalar>(s: SystemView<T>, x: Seq<T>, i: int, n: nat) -> T {
    sum(|j: int| s.a.cells[i][j].mul_spec(x[j]), n)
}

/// `x` solves every equation of the system.
pub open spec fn satisfies<T: Scalar>(s: SystemView<T>, x: Seq<T>) -> bool {
    forall|i: int| 0 <= i < s.n() ==> #[trigger] row_sum(s, x, i, s.n() as nat) == s.b.cells[i][0]
}

/// Every entry is canonical.
pub open spec fn all_canonical<T: Ring>(m: MatrixView<T>) -> bool {
    forall|r: int, c: int|
        0 <= r < m.rows && 0 <= c < m.cols ==> (#[trigger] m.cells[r][c]).canonical()
}

/// The columns before `k` are zero below the diagonal and not zero on it.
pub open spec fn eliminated<T: Ring>(s: SystemView<T>, k: int) -> bool {
    &&& forall|r: int, c: int|
        0 <= c < k && c < r < s.n() ==> #[trigger] s.a.cells[r][c] == T::zero_spec()
    &&& forall|c: int| 0 <= c < k && c < s.n() ==> #[trigger] s.a.cells[c][c] != T::zero_spec()
}

/// A system of canonical entries whose columns before `k` are eliminated.
pub open spec fn proper<T: Ring>(s: SystemView<T>, k: int) -> bool {
    &&& s.wf()
    &&& all_canonical(s.a)
    &&& all_canonical(s.b)
    &&& eliminated(s, k)
}

/// The pivot row lies among the rows it was chosen from.
pub proof fn lemma_pivot_row_range<T: Scalar>(s: SystemView<T>, k: int, upto: int)
    requires
        k < upto,
    ensures
        k <= s.pivot_row(k, upto) < upto,
    decreases upto - k,
{
    if upto > k + 1 {
        lemma_pivot_row_range(s, k, upto - 1);
    }
}

/// Exchanging two equations at or below `k` keeps the system proper, and what
/// solves the system after solves it before.
pub proof fn lemma_swap_back<T: Ring>(s: SystemView<T>, k: int, p: int, x: Seq<T>)
    requires
        proper(s, k),
        0 <= k <= p < s.n(),
    ensures
        proper(s.swapped(k, p), k),
        s.swapped(k, p).n() == s.n(),
        s.swapped(k, p).a.cells[k][k] == s.a.cells[p][k],
        satisfies(s.swapped(k, p), x) ==> satisfies(s, x),
{
    let t = s.swapped(k, p);
    let n = s.n() as nat;
    assert forall|r: int, c: int| 0 <= r < t.a.rows && 0 <= c < t.a.cols implies (
    #[trigger] t.a.cells[r][c]).canonical() by {
        let from = if r == k {
            p
        } else if r == p {
            k
        } else {
            r
        };
        assert(t.a.cells[r][c] == s.a.cells[from][c]);
    }
    assert forall|r: int, c: int| 0 <= r < t.b.rows && 0 <= c < t.b.cols implies (
    #[trigger] t.b.cells[r][c]).canonical() by {
        let from = if r == k {
            p
        } else if r == p {
            k
        } else {
            r
        };
        assert(t.b.cells[r][c] == s.b.cells[from][c]);
    }
    assert forall|r: int, c: int| 0 <= c < k && c < r < t.n() implies #[trigger] t.a.cells[r][c]
        == T::zero_spec() by {
        let from = if r == k {
            p
        } else if r == p {
            k
        } else {
            r
        };
        assert(t.a.cells[r][c] == s.a.cells[from][c]);
    }
    assert forall|c: int| 0 <= c < k && c < t.n() implies #[trigger] t.a.cells[c][c]
        != T::zero_spec() by {
        assert(t.a.cells[c][c] == s.a.cells[c][c]);
    }
    if satisfies(t, x) {
        assert forall|i: int| 0 <= i < s.n() implies #[trigger] row_sum(s, x, i, n)
            == s.b.cells[i][0] by {
            let to = if i == k {
                p
            } else if i == p {
                k
            } else {
                i
            };
            assert(t.a.cells[to] == s.a.cells[i]);
            assert(t.b.cells[to] == s.b.cells[i]);
            lemma_sum_ext(
                |j: int| s.a.cells[i][j].mul_spec(x[j]),
                |j: int| t.a.cells[to][j].mul_spec(x[j]),
                n,
            );
            assert(0 <= to < t.n());
            assert(row_sum(t, x, to, t.n() as nat) == t.b.cells[to][0]);
        }
    }
}

/// Exchanging two equations at or below `k` keeps the system proper and
/// changes nothing about what solves it.
pub proof fn lemma_swap<T: Ring>(s: SystemView<T>, k: int, p: int, x: Seq<T>)
    requires
        proper(s, k),
        0 <= k <= p < s.n(),
    ensures
        proper(s.swapped(k, p), k),
        s.swapped(k, p).n() == s.n(),
        s.swapped(k, p).a.cells[k][k] == s.a.cells[p][k],
        satisfies(s.swapped(k, p), x) <==> satisfies(s, x),
{
    let t = s.swapped(k, p);
    lemma_swap_back(s, k, p, x);
    lemma_swap_back(t, k, p, x);
    assert(t.swapped(k, p) =~~= s);
}

/// After the equations below `k` have lost their multiples of equation `k`,
/// each of their coefficients is what it was less the multiple of the
/// coefficient above it, in every column.
pub proof fn lemma_reduced_entry<T: Field>(s: SystemView<T>, k: int, i: int, j: int)
    requires
        proper(s, k),
        0 <= k < i < s.n(),
        0 <= j < s.n(),
    ensures
        s.reduced(k, s.n()).a.cells[i][j] == s.a.cells[i][j].sub_spec(
            s.factor(k, i).mul_spec(s.a.cells[k][j]),
        ),
        s.reduced(k, s.n()).a.cells[i][j].canonical(),
        s.reduced(k, s.n()).b.cells[i][0] == s.b.cells[i][0].sub_spec(
            s.factor(k, i).mul_spec(s.b.cells[k][0]),
        ),
        s.reduced(k, s.n()).b.cells[i][0].canonical(),
{
    let f = s.factor(k, i);
    T::lemma_canonical_results(s.a.cells[i][j], f.mul_spec(s.a.cells[k][j]));
    T::lemma_canonical_results(s.b.cells[i][0], f.mul_spec(s.b.cells[k][0]));
    if j < k {
        assert(s.a.cells[k][j] == T::zero_spec());
        lemma_mul_zero(f);
        lemma_sub_zero(s.a.cells[i][j]);
    }
}

/// The left side of a reduced equation is the left side it had less the
/// multiple of the left side of equation `k`.
pub proof fn lemma_reduced_row_sum<T: Field>(s: SystemView<T>, k: int, i: int, x: Seq<T>)
    requires
        proper(s, k),
        0 <= k < i < s.n(),
    ensures
        row_sum(s.reduced(k, s.n()), x, i, s.n() as nat) == row_sum(
            s,
            x,
            i,
            s.n() as nat,
        ).sub_spec(s.factor(k, i).mul_spec(row_sum(s, x, k, s.n() as nat))),
{
    let t = s.reduced(k, s.n());
    let n = s.n() as nat;
    let f = s.factor(k, i);
    let above = |j: int| s.a.cells[k][j].mul_spec(x[j]);
    let here = |j: int| s.a.cells[i][j].mul_spec(x[j]);
    let after = |j: int| t.a.cells[i][j].mul_spec(x[j]);
    let scaled = |j: int| f.mul_spec(above(j));
    assert forall|j: int| 0 <= j < n implies #[trigger] after(j) == here(j).sub_spec(
        scaled(j),
    ) by {
        lemma_reduced_entry(s, k, i, j);
        lemma_sub_mul(s.a.cells[i][j], f.mul_spec(s.a.cells[k][j]), x[j]);
        T::lemma_mul_associative(f, s.a.cells[k][j], x[j]);
    }
    assert forall|j: int| 0 <= j < n implies (#[trigger] here(j)).canonical() by {
        T::lemma_canonical_results(s.a.cells[i][j], x[j]);
    }
    lemma_sum_sub(here, scaled, after, n);
    lemma_sum_scale_left(f, above, scaled, n);
}

/// Taking from every equation below `k` its multiple of equation `k`
/// eliminates column `k` and changes nothing about what solves the system.
pub proof fn lemma_reduce<T: Field>(s: SystemView<T>, k: int, x: Seq<T>)
    requires
        proper(s, k),
        0 <= k < s.n(),
        s.a.cells[k][k] != T::zero_spec(),
    ensures
        proper(s.reduced(k, s.n()), k + 1),
        s.reduced(k, s.n()).n() == s.n(),
        satisfies(s.reduced(k, s.n()), x) <==> satisfies(s, x),
{
    let t = s.reduced(k, s.n());
    let n = s.n() as nat;
    let zero = T::zero_spec();
    assert(t.wf());
    assert forall|r: int, c: int| 0 <= r < t.a.rows && 0 <= c < t.a.cols implies (
    #[trigger] t.a.cells[r][c]).canonical() by {
        if r > k {
            lemma_reduced_entry(s, k, r, c);
        } else {
            assert(t.a.cells[r][c] == s.a.cells[r][c]);
        }
    }
    assert forall|r: int, c: int| 0 <= r < t.b.rows && 0 <= c < t.b.cols implies (
    #[trigger] t.b.cells[r][c]).canonical() by {
        if r > k {
            lemma_reduced_entry(s, k, r, 0);
        } else {
            assert(t.b.cells[r][c] == s.b.cells[r][c]);
        }
    }
    assert forall|r: int, c: int| 0 <= c < k + 1 && c < r < t.n() implies #[trigger] t.a.cells[r][c]
        == zero by {
        if r > k {
            lemma_reduced_entry(s, k, r, c);
            if c == k {
                T::lemma_div_mul(s.a.cells[r][k], s.a.cells[k][k]);
                lemma_sub_self(s.a.cells[r][k]);
            } else {
                assert(s.a.cells[k][c] == zero);
                lemma_mul_zero(s.factor(k, r));
                assert(s.a.cells[r][c] == zero);
                lemma_sub_zero(zero);
            }
        } else {
            assert(t.a.cells[r][c] == s.a.cells[r][c]);
        }
    }
    assert forall|c: int| 0 <= c < k + 1 && c < t.n() implies #[trigger] t.a.cells[c][c]
        != zero by {
        assert(t.a.cells[c][c] == s.a.cells[c][c]);
    }
    if satisfies(t, x) {
        assert(row_sum(t, x, k, t.n() as nat) == t.b.cells[k][0]);
        assert(t.a.cells[k] == s.a.cells[k]);
        lemma_sum_ext(
            |j: int| t.a.cells[k][j].mul_spec(x[j]),
            |j: int| s.a.cells[k][j].mul_spec(x[j]),
            n,
        );
        assert forall|i: int| 0 <= i < s.n() implies #[trigger] row_sum(s, x, i, n)
            == s.b.cells[i][0] by {
            assert(row_sum(t, x, i, t.n() as nat) == t.b.cells[i][0]);
            if i > k {
                lemma_reduced_row_sum(s, k, i, x);
                lemma_reduced_entry(s, k, i, 0);
                lemma_sum_canonical(|j: int| s.a.cells[i][j].mul_spec(x[j]), n);
                lemma_sub_cancel_right(
                    row_sum(s, x, i, n),
                    s.b.cells[i][0],
                    s.factor(k, i).mul_spec(s.b.cells[k][0]),
                );
            } else {
                assert(t.a.cells[i] == s.a.cells[i]);
                assert(t.b.cells[i] == s.b.cells[i]);
                lemma_sum_ext(
                    |j: int| s.a.cells[i][j].mul_spec(x[j]),
                    |j: int| t.a.cells[i][j].mul_spec(x[j]),
                    n,
                );
            }
        }
    }
    if satisfies(s, x) {
        assert(row_sum(s, x, k, n) == s.b.cells[k][0]);
        assert forall|i: int| 0 <= i < t.n() implies #[trigger] row_sum(t, x, i, t.n() as nat)
            == t.b.cells[i][0] by {
            assert(row_sum(s, x, i, n) == s.b.cells[i][0]);
            if i > k {
                lemma_reduced_row_sum(s, k, i, x);
                lemma_reduced_entry(s, k, i, 0);
            } else {
                assert(t.a.cells[i] == s.a.cells[i]);
                assert(t.b.cells[i] == s.b.cells[i]);
                lemma_sum_ext(
                    |j: int| s.a.cells[i][j].mul_spec(x[j]),
                    |j: int| t.a.cells[i][j].mul_spec(x[j]),
                    n,
                );
            }
        }
    }
}

/// One step of elimination with a pivot that is not negligible eliminates
/// column `k` and changes nothing about what solves the system.
pub proof fn lemma_step<T: Field>(s: SystemView<T>, k: int, x: Seq<T>)
    requires
        proper(s, k),
        0 <= k < s.n(),
        !negligible_spec(s.a.cells[s.pivot_row(k, s.n())][k]),
    ensures
        proper(s.step(k), k + 1),
        s.step(k).n() == s.n(),
        satisfies(s.step(k), x) <==> satisfies(s, x),
{
    let p = s.pivot_row(k, s.n());
    lemma_pivot_row_range(s, k, s.n());
    T::lemma_zero_negligible();
    lemma_swap(s, k, p, x);
    lemma_reduce(s.swapped(k, p), k, x);
}

/// Where none of the first `k` steps meets a negligible pivot, they eliminate
/// the first `k` columns and change nothing about what solves the system.
pub proof fn lemma_forward<T: Field>(s: SystemView<T>, k: nat, x: Seq<T>)
    requires
        proper(s, 0),
        forall|j: nat| j < k ==> !negligible_spec(#[trigger] s.pivot(j)),
        k <= s.n(),
    ensures
        proper(s.forward(k), k as int),
        s.forward(k).n() == s.n(),
        satisfies(s.forward(k), x) <==> satisfies(s, x),
    decreases k,
{
    if k > 0 {
        let before = s.forward((k - 1) as nat);
        lemma_forward(s, (k - 1) as nat, x);
        assert(!negligible_spec(s.pivot((k - 1) as nat)));
        lemma_step(before, k - 1, x);
    }
}

/// Back-substitution keeps one place for each unknown.
pub proof fn lemma_back_len<T: Scalar>(u: SystemView<T>, i: int)
    requires
        0 <= i <= u.n(),
    ensures
        u.back(i).len() == u.n(),
    decreases u.n() - i,
{
    if i < u.n() {
        lemma_back_len(u, i + 1);
    }
}

/// Once back-substitution has found an unknown, the steps for the equations
/// above leave it alone.
pub proof fn lemma_back_stable<T: Scalar>(u: SystemView<T>, i: int, j: int, q: int)
    requires
        0 <= i <= j <= q < u.n(),
    ensures
        u.back(i)[q] == u.back(j)[q],
    decreases j - i,
{
    if i < j {
        lemma_back_len(u, i + 1);
        lemma_back_stable(u, i + 1, j, q);
    }
}

/// What is left of the right-hand side of equation `i` depends only on the
/// unknowns after `i`.
pub proof fn lemma_rest_ext<T: Scalar>(u: SystemView<T>, x: Seq<T>, y: Seq<T>, i: int, j: int)
    requires
        forall|q: int| i < q < j ==> x[q] == y[q],
    ensures
        u.rest(x, i, j) == u.rest(y, i, j),
    decreases j - i,
{
    if j > i + 1 {
        lemma_rest_ext(u, x, y, i, j - 1);
    }
}

/// What is left of a canonical right-hand side is canonical.
pub proof fn lemma_rest_canonical<T: Ring>(u: SystemView<T>, x: Seq<T>, i: int, j: int)
    requires
        u.wf(),
        all_canonical(u.b),
        0 <= i < u.n(),
    ensures
        u.rest(x, i, j).canonical(),
{
    if j > i + 1 {
        T::lemma_canonical_results(
            u.rest(x, i, j - 1),
            u.a.cells[i][j - 1].mul_spec(x[j - 1]),
        );
    } else {
        assert(u.b.cells[i][0].canonical());
    }
}

/// In a triangular system, the left side of equation `i` up to column `j`
/// and what is left of its right-hand side add up to the term on the
/// diagonal and the right-hand side.
pub proof fn lemma_row_and_rest<T: Field>(u: SystemView<T>, x: Seq<T>, i: int, j: int)
    requires
        proper(u, u.n()),
        0 <= i < j <= u.n(),
    ensures
        row_sum(u, x, i, j as nat).add_spec(u.rest(x, i, j)) == u.a.cells[i][i].mul_spec(
            x[i],
        ).add_spec(u.b.cells[i][0]),
    decreases j - i,
{
    let terms = |q: int| u.a.cells[i][q].mul_spec(x[q]);
    if j == i + 1 {
        assert forall|q: int| 0 <= q < i implies #[trigger] terms(q) == T::zero_spec() by {
            assert(u.a.cells[i][q] == T::zero_spec());
            lemma_mul_zero(x[q]);
        }
        lemma_sum_zero(terms, i as nat);
        T::lemma_canonical_results(u.a.cells[i][i], x[i]);
        lemma_zero_add(terms(i));
        assert(row_sum(u, x, i, j as nat) == terms(i));
    } else {
        lemma_row_and_rest(u, x, i, j - 1);
        lemma_add_sub_regroup(row_sum(u, x, i, (j - 1) as nat), u.rest(x, i, j - 1), terms(j - 1));
    }
}

/// Back-substitution solves a triangular system whose diagonal holds no zero.
pub proof fn lemma_back_solves<T: Field>(u: SystemView<T>)
    requires
        proper(u, u.n()),
    ensures
        satisfies(u, u.back(0)),
{
    let n = u.n();
    let x = u.back(0);
    assert forall|i: int| 0 <= i < n implies #[trigger] row_sum(u, x, i, n as nat)
        == u.b.cells[i][0] by {
        let next = u.back(i + 1);
        let left = u.rest(x, i, n);
        let pivot = u.a.cells[i][i];
        lemma_back_len(u, i + 1);
        lemma_back_stable(u, 0, i, i);
        assert(x[i] == u.rest(next, i, n).div_spec(pivot));
        assert forall|q: int| i < q < n implies next[q] == x[q] by {
            lemma_back_stable(u, 0, i + 1, q);
        }
        lemma_rest_ext(u, next, x, i, n);
        lemma_rest_canonical(u, x, i, n);
        T::lemma_div_mul(left, pivot);
        T::lemma_mul_commutative(pivot, x[i]);
        lemma_row_and_rest(u, x, i, n);
        T::lemma_add_commutative(left, u.b.cells[i][0]);
        lemma_sum_canonical(|j: int| u.a.cells[i][j].mul_spec(x[j]), n as nat);
        lemma_add_cancel_right(row_sum(u, x, i, n as nat), u.b.cells[i][0], left);
    }
}

/// In a triangular system whose diagonal holds no zero, the term on the
/// diagonal of an equation that `x` solves is what is left of its right-hand
/// side.
pub proof fn lemma_diagonal_term<T: Field>(u: SystemView<T>, x: Seq<T>, i: int)
    requires
        proper(u, u.n()),
        0 <= i < u.n(),
        row_sum(u, x, i, u.n() as nat) == u.b.cells[i][0],
    ensures
        u.a.cells[i][i].mul_spec(x[i]) == u.rest(x, i, u.n()),
{
    let n = u.n();
    let left = u.rest(x, i, n);
    let term = u.a.cells[i][i].mul_spec(x[i]);
    lemma_row_and_rest(u, x, i, n);
    lemma_rest_canonical(u, x, i, n);
    T::lemma_canonical_results(u.a.cells[i][i], x[i]);
    T::lemma_add_commutative(u.b.cells[i][0], left);
    lemma_add_cancel_right(left, term, u.b.cells[i][0]);
}

/// Two canonical solutions of a triangular system whose diagonal holds no
/// zero agree from unknown `i` on.
pub proof fn lemma_triangular_unique<T: Field>(u: SystemView<T>, x: Seq<T>, y: Seq<T>, i: int)
    requires
        proper(u, u.n()),
        satisfies(u, x),
        satisfies(u, y),
        forall|j: int| 0 <= j < u.n() ==> (#[trigger] x[j]).canonical(),
        forall|j: int| 0 <= j < u.n() ==> (#[trigger] y[j]).canonical(),
        0 <= i <= u.n(),
    ensures
        forall|j: int| i <= j < u.n() ==> x[j] == y[j],
    decreases u.n() - i,
{
    if i < u.n() {
        let n = u.n();
        lemma_triangular_unique(u, x, y, i + 1);
        assert(row_sum(u, x, i, n as nat) == u.b.cells[i][0]);
        assert(row_sum(u, y, i, n as nat) == u.b.cells[i][0]);
        lemma_diagonal_term(u, x, i);
        lemma_diagonal_term(u, y, i);
        lemma_rest_ext(u, x, y, i, n);
        assert(x[i].canonical() && y[i].canonical());
        assert(u.a.cells[i][i].canonical());
        lemma_mul_cancel(u.a.cells[i][i], x[i], y[i]);
    }
}

/// Every unknown that back-substitution finds is canonical.
pub proof fn lemma_back_canonical<T: Field>(u: SystemView<T>, i: int, j: int)
    requires
        0 <= i <= u.n(),
        0 <= j < u.n(),
    ensures
        u.back(i)[j].canonical(),
    decreases u.n() - i,
{
    T::lemma_canonical_results(T::zero_spec(), T::zero_spec());
    if i < u.n() {
        lemma_back_len(u, i + 1);
        lemma_back_canonical(u, i + 1, j);
        T::lemma_div_canonical(u.rest(u.back(i + 1), i, u.n()), u.a.cells[i][i]);
    }
}

/// The choice of the pivot row does not depend on the right-hand side.
pub proof fn lemma_pivot_row_ignores_rhs<T: Scalar>(
    s: SystemView<T>,
    t: SystemView<T>,
    k: int,
    upto: int,
)
    requires
        s.a == t.a,
    ensures
        s.pivot_row(k, upto) == t.pivot_row(k, upto),
    decreases upto - k,
{
    if upto > k + 1 {
        lemma_pivot_row_ignores_rhs(s, t, k, upto - 1);
    }
}

/// What elimination does to the coefficients, and so whether it meets a
/// negligible pivot, does not depend on the right-hand side.
pub proof fn lemma_forward_ignores_rhs<T: Scalar>(s: SystemView<T>, t: SystemView<T>, k: nat)
    requires
        s.a == t.a,
    ensures
        s.forward(k).a == t.forward(k).a,
        s.pivot(k) == t.pivot(k),
    decreases k,
{
    if k > 0 {
        lemma_forward_ignores_rhs(s, t, (k - 1) as nat);
        let s1 = s.forward((k - 1) as nat);
        let t1 = t.forward((k - 1) as nat);
        lemma_pivot_row_ignores_rhs(s1, t1, k - 1, s1.n());
        assert(s1.step(k - 1).a =~~= t1.step(k - 1).a);
    }
    lemma_pivot_row_ignores_rhs(s.forward(k), t.forward(k), k as int, s.forward(k).n());
}

/// Whether elimination meets a negligible pivot depends on the coefficients
/// alone.
pub proof fn lemma_regular_ignores_rhs<T: Scalar>(s: SystemView<T>, t: SystemView<T>)
    requires
        s.a == t.a,
        s.regular(),
    ensures
        t.regular(),
{
    assert forall|k: nat| k < t.n() implies !negligible_spec(#[trigger] t.pivot(k)) by {
        lemma_forward_ignores_rhs(s, t, k);
        assert(!negligible_spec(s.pivot(k)));
    }
}

/// In exact arithmetic, a system that elimination carries through has no
/// two canonical solutions.
pub proof fn lemma_no_two_solutions<T: Field>(s: SystemView<T>, x: Seq<T>, y: Seq<T>)
    requires
        s.wf(),
        all_canonical(s.a),
        all_canonical(s.b),
        s.regular(),
        satisfies(s, x),
        satisfies(s, y),
        forall|j: int| 0 <= j < s.n() ==> (#[trigger] x[j]).canonical(),
        forall|j: int| 0 <= j < s.n() ==> (#[trigger] y[j]).canonical(),
    ensures
        forall|j: int| 0 <= j < s.n() ==> x[j] == y[j],
{
    let n = s.n() as nat;
    lemma_forward(s, n, x);
    lemma_forward(s, n, y);
    lemma_triangular_unique(s.forward(n), x, y, 0);
}

/// The left sides of the equations with `x` for the unknowns are the entries
/// of the product of the coefficients and the column of `x`.
pub proof fn lemma_product_is_row_sums<T: Scalar>(s: SystemView<T>, x: Seq<T>, i: int)
    requires
        s.wf(),
        x.len() == s.n(),
        0 <= i < s.n(),
    ensures
        s.a.times(MatrixView::column(x)).cells[i][0] == row_sum(s, x, i, s.n() as nat),
{
    let d = MatrixView::column(x);
    let n = s.n() as nat;
    lemma_inner_is_sum(s.a, d, i, 0, n);
    lemma_sum_ext(
        |q: int| s.a.cells[i][q].mul_spec(d.cells[q][0]),
        |q: int| s.a.cells[i][q].mul_spec(x[q]),
        n,
    );
}

/// In exact arithmetic, what the solver finds is the only solution: every
/// canonical column that the coefficients take to the right-hand side is the
/// one that the solver finds.
pub proof fn lemma_solution_unique<T: Field>(s: SystemView<T>, y: Seq<T>)
    requires
        s.wf(),
        all_canonical(s.a),
        all_canonical(s.b),
        s.regular(),
        y.len() == s.n(),
        forall|j: int| 0 <= j < s.n() ==> (#[trigger] y[j]).canonical(),
        s.a.times(MatrixView::column(y)) == s.b,
    ensures
        MatrixView::column(y) == s.solution(),
{
    let n = s.n() as nat;
    let u = s.forward(n);
    let x = u.back(0);
    assert forall|i: int| 0 <= i < s.n() implies #[trigger] row_sum(s, y, i, n)
        == s.b.cells[i][0] by {
        lemma_product_is_row_sums(s, y, i);
    }
    assert(satisfies(s, y));
    lemma_forward(s, n, y);
    lemma_forward(s, n, x);
    lemma_back_solves(u);
    lemma_back_len(u, 0);
    assert forall|j: int| 0 <= j < u.n() implies (#[trigger] x[j]).canonical() by {
        lemma_back_canonical(u, 0, j);
    }
    lemma_triangular_unique(u, x, y, 0);
    assert(MatrixView::column(y) =~~= s.solution());
}

/// In exact arithmetic, what the solver finds solves the system: the
/// coefficients times the solution give the right-hand side.
pub proof fn lemma_solution_solves<T: Field>(s: SystemView<T>)
    requires
        s.wf(),
        all_canonical(s.a),
        all_canonical(s.b),
        s.regular(),
    ensures
        s.a.times(s.solution()) == s.b,
{
    let n = s.n() as nat;
    let u = s.forward(n);
    let x = u.back(0);
    let d = s.solution();
    let product = s.a.times(d);
    lemma_forward(s, n, x);
    lemma_back_solves(u);
    assert(satisfies(s, x));
    assert forall|i: int| 0 <= i < n implies #[trigger] product.cells[i] == s.b.cells[i] by {
        lemma_inner_is_sum(s.a, d, i, 0, n);
        lemma_sum_ext(
            |q: int| s.a.cells[i][q].mul_spec(d.cells[q][0]),
            |q: int| s.a.cells[i][q].mul_spec(x[q]),
            n,
        );
        assert(row_sum(s, x, i, n) == s.b.cells[i][0]);
        assert(product.cells[i] =~= s.b.cells[i]);
    }
    assert(product =~~= s.b);
}

} // verus!
