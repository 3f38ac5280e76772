use vstd::prelude::*;
use crate::error::FemError;
use crate::lin_alg::mat::{Matrix, MatrixView};
use crate::scalar::{magnitude, magnitude_spec, negligible, negligible_spec, zeros, Scalar};

verus! {

/// A square system of linear equations: the coefficients `a` and the right-hand
/// side `b`, a single column.
#[verifier::ext_equal]
pub struct SystemView<T> {
    pub a: MatrixView<T>,
    pub b: MatrixView<T>,
}

/// Row `target` less `factor` times row `source`, in the columns from `from` on.
pub open spec fn row_less<T: Scalar>(target: Seq<T>, source: Seq<T>, factor: T, from: int) -> Seq<
    T,
> {
    Seq::new(
        target.len(),
        |j: int|
            if from <= j {
                target[j].sub_spec(factor.mul_spec(source[j]))
            } else {
                target[j]
            },
    )
}

/// Rows `i` and `j` exchanged.
pub open spec fn rows_swapped<T: Scalar>(m: MatrixView<T>, i: int, j: int) -> MatrixView<T> {
    MatrixView {
        rows: m.rows,
        cols: m.cols,
        cells: m.cells.update(i, m.cells[j]).update(j, m.cells[i]),
    }
}

impl<T: Scalar> SystemView<T> {
    /// As many equations as unknowns, and one right-hand side for each.
    pub open spec fn wf(self) -> bool {
        &&& self.a.wf()
        &&& self.b.wf()
        &&& self.a.rows == self.a.cols
        &&& self.b.rows == self.a.rows
        &&& self.b.cols == 1
    }

    /// The number of unknowns.
    pub open spec fn n(self) -> int {
        self.a.rows as int
    }

    /// Among the rows from `k` up to, not including, `upto`, the first whose
    /// entry in column `k` has the greatest magnitude.
    pub open spec fn pivot_row(self, k: int, upto: int) -> int
        decreases upto - k,
    {
        if upto <= k + 1 {
            k
        } else {
            let best = self.pivot_row(k, upto - 1);
            if magnitude_spec(self.a.cells[best][k]).lt_spec(
                magnitude_spec(self.a.cells[upto - 1][k]),
            ) {
                upto - 1
            } else {
                best
            }
        }
    }

    /// Equations `i` and `j` exchanged.
    pub open spec fn swapped(self, i: int, j: int) -> Self {
        SystemView { a: rows_swapped(self.a, i, j), b: rows_swapped(self.b, i, j) }
    }

    /// The multiple of equation `k` that is taken from equation `i`.
    pub open spec fn factor(self, k: int, i: int) -> T {
        self.a.cells[i][k].div_spec(self.a.cells[k][k])
    }

    /// Each equation below `k` and above `upto` less its multiple of equation
    /// `k`, in the columns from `k` on.
    pub open spec fn reduced(self, k: int, upto: int) -> Self {
        SystemView {
            a: MatrixView {
                rows: self.a.rows,
                cols: self.a.cols,
                cells: Seq::new(
                    self.a.rows,
                    |i: int|
                        if k < i < upto {
                            row_less(self.a.cells[i], self.a.cells[k], self.factor(k, i), k)
                        } else {
                            self.a.cells[i]
                        },
                ),
            },
            b: MatrixView {
                rows: self.b.rows,
                cols: self.b.cols,
                cells: Seq::new(
                    self.b.rows,
                    |i: int|
                        if k < i < upto {
                            row_less(self.b.cells[i], self.b.cells[k], self.factor(k, i), 0)
                        } else {
                            self.b.cells[i]
                        },
                ),
            },
        }
    }

    /// One step of elimination: the pivot row of column `k` comes to row `k`,
    /// and every equation below loses its multiple of it.
    pub open spec fn step(self, k: int) -> Self {
        self.swapped(k, self.pivot_row(k, self.n())).reduced(k, self.n())
    }

    /// The system after the first `k` steps of elimination.
    pub open spec fn forward(self, k: nat) -> Self
        decreases k,
    {
        if k == 0 {
            self
        } else {
            self.forward((k - 1) as nat).step(k - 1)
        }
    }

    /// The pivot that step `k` of the elimination divides by.
    pub open spec fn pivot(self, k: nat) -> T {
        let s = self.forward(k);
        s.a.cells[s.pivot_row(k as int, s.n())][k as int]
    }

    /// No step of the elimination meets a negligible pivot.
    pub open spec fn regular(self) -> bool {
        forall|k: nat| k < self.n() ==> !negligible_spec(#[trigger] self.pivot(k))
    }

    /// The right-hand side of equation `i` less the terms of the columns
    /// after `i` and before `j`, taken from the left, with `x` for the unknowns.
    pub open spec fn rest(self, x: Seq<T>, i: int, j: int) -> T
        decreases j - i,
    {
        if j <= i + 1 {
            self.b.cells[i][0]
        } else {
            self.rest(x, i, j - 1).sub_spec(self.a.cells[i][j - 1].mul_spec(x[j - 1]))
        }
    }

    /// The unknowns from `i` on as back-substitution finds them in a
    /// triangular system, with zero in the places before `i`.
    pub open spec fn back(self, i: int) -> Seq<T>
        decreases self.n() - i,
    {
        if i >= self.n() || i < 0 {
            Seq::new(self.n() as nat, |j: int| T::zero_spec())
        } else {
            let x = self.back(i + 1);
            x.update(i, self.rest(x, i, self.n()).div_spec(self.a.cells[i][i]))
        }
    }

    /// What elimination with partial pivoting and back-substitution find for
    /// the unknowns, as a single column.
    pub open spec fn solution(self) -> MatrixView<T> {
        let x = self.forward(self.n() as nat).back(0);
        MatrixView {
            rows: self.a.rows,
            cols: 1,
            cells: Seq::new(self.a.rows, |r: int| Seq::new(1, |c: int| x[r])),
        }
    }
}

/// Among the rows from `k` on, the first whose entry in column `k` has the
/// greatest magnitude.
pub fn find_pivot<T: Scalar>(a: &Matrix<T>, b: &Matrix<T>, k: usize) -> (p: usize)
    requires
        (SystemView { a: a@, b: b@ }).wf(),
        k < a@.rows,
    ensures
        k <= p < a@.rows,
        p == (SystemView { a: a@, b: b@ }).pivot_row(k as int, a@.rows as int),
{
    let n: usize = a.get_dim().0;
    let ghost s = SystemView { a: a@, b: b@ };
    let mut p: usize = k;
    let mut i: usize = k + 1;
    while i < n
        invariant
            n == a@.rows,
            n == a@.cols,
            s == (SystemView { a: a@, b: b@ }),
            k < i <= n,
            k <= p < i,
            p == s.pivot_row(k as int, i as int),
        decreases n - i,
    {
        if magnitude(a.cell(p, k)).lt(magnitude(a.cell(i, k))) {
            p = i;
        }
        i += 1;
    }
    p
}

/// Exchanges rows `i` and `j`.
pub fn swap_rows<T: Scalar>(m: &mut Matrix<T>, i: usize, j: usize)
    requires
        i < old(m)@.rows,
        j < old(m)@.rows,
    ensures
        final(m)@ == rows_swapped(old(m)@, i as int, j as int),
{
    proof {
        m.lemma_view_wf();
    }
    let cols: usize = m.get_dim().1;
    let mut c: usize = 0;
    while c < cols
        invariant
            c <= cols,
            m@.wf(),
            m@.rows == old(m)@.rows,
            m@.cols == old(m)@.cols,
            cols == m@.cols,
            i < m@.rows,
            j < m@.rows,
            old(m)@.wf(),
            forall|r: int, q: int|
                0 <= r < m@.rows && 0 <= q < cols ==> #[trigger] m@.cells[r][q] == (if q < c && r
                    == i {
                    old(m)@.cells[j as int][q]
                } else if q < c && r == j {
                    old(m)@.cells[i as int][q]
                } else {
                    old(m)@.cells[r][q]
                }),
        decreases cols - c,
    {
        let x = m.cell(i, c);
        let y = m.cell(j, c);
        m.put(i, c, y);
        m.put(j, c, x);
        proof {
            m.lemma_view_wf();
        }
        c += 1;
    }
    proof {
        assert(m@ =~~= rows_swapped(old(m)@, i as int, j as int));
    }
}

/// Takes from row `i` of `m` the multiple `factor` of row `k`, in the columns
/// from `from` on.
pub fn reduce_row<T: Scalar>(m: &mut Matrix<T>, k: usize, i: usize, factor: T, from: usize)
    requires
        k < old(m)@.rows,
        i < old(m)@.rows,
        k != i,
    ensures
        final(m)@.rows == old(m)@.rows,
        final(m)@.cols == old(m)@.cols,
        final(m)@.cells == old(m)@.cells.update(
            i as int,
            row_less(old(m)@.cells[i as int], old(m)@.cells[k as int], factor, from as int),
        ),
{
    proof {
        m.lemma_view_wf();
    }
    let cols: usize = m.get_dim().1;
    let mut c: usize = from;
    while c < cols
        invariant
            m@.wf(),
            m@.rows == old(m)@.rows,
            m@.cols == old(m)@.cols,
            cols == m@.cols,
            i < m@.rows,
            k < m@.rows,
            k != i,
            from <= c,
            old(m)@.wf(),
            forall|r: int, q: int|
                0 <= r < m@.rows && 0 <= q < cols ==> #[trigger] m@.cells[r][q] == (if r == i
                    && from <= q < c {
                    old(m)@.cells[r][q].sub_spec(factor.mul_spec(old(m)@.cells[k as int][q]))
                } else {
                    old(m)@.cells[r][q]
                }),
        decreases cols - c,
    {
        let v = m.cell(i, c).sub(factor.mul(m.cell(k, c)));
        m.put(i, c, v);
        proof {
            m.lemma_view_wf();
        }
        c += 1;
    }
    proof {
        let target = old(m)@.cells.update(
            i as int,
            row_less(old(m)@.cells[i as int], old(m)@.cells[k as int], factor, from as int),
        );
        assert forall|r: int| 0 <= r < m@.rows implies m@.cells[r] =~= target[r] by {}
        assert(m@.cells =~= target);
    }
}

/// One step of elimination at column `k`: brings the pivot row to row `k` and
/// takes from every equation below its multiple of it. Where the pivot is
/// negligible, nothing is divided and the answer is `false`.
pub fn eliminate_step<T: Scalar>(a: &mut Matrix<T>, b: &mut Matrix<T>, k: usize) -> (ok: bool)
    requires
        (SystemView { a: old(a)@, b: old(b)@ }).wf(),
        k < old(a)@.rows,
    ensures
        ok == !negligible_spec(
            old(a)@.cells[(SystemView { a: old(a)@, b: old(b)@ }).pivot_row(
                k as int,
                old(a)@.rows as int,
            )][k as int],
        ),
        ok ==> (SystemView { a: final(a)@, b: final(b)@ }) == (SystemView {
            a: old(a)@,
            b: old(b)@,
        }).step(k as int),
        (SystemView { a: final(a)@, b: final(b)@ }).wf(),
        final(a)@.rows == old(a)@.rows,
{
    let ghost s = SystemView { a: a@, b: b@ };
    let n: usize = a.get_dim().0;
    let p: usize = find_pivot(a, b, k);
    if negligible(a.cell(p, k)) {
        return false;
    }
    swap_rows(a, k, p);
    swap_rows(b, k, p);
    let ghost t = s.swapped(k as int, p as int);
    proof {
        a.lemma_view_wf();
        b.lemma_view_wf();
        assert((SystemView { a: a@, b: b@ }) =~~= t.reduced(k as int, k + 1));
    }
    let mut i: usize = k + 1;
    while i < n
        invariant
            k < i <= n,
            n == t.a.rows,
            t.wf(),
            a@.wf(),
            b@.wf(),
            (SystemView { a: a@, b: b@ }) == t.reduced(k as int, i as int),
        decreases n - i,
    {
        let factor = a.cell(i, k).div(a.cell(k, k));
        reduce_row(a, k, i, factor, k);
        reduce_row(b, k, i, factor, 0);
        proof {
            a.lemma_view_wf();
            b.lemma_view_wf();
            assert((SystemView { a: a@, b: b@ }) =~~= t.reduced(k as int, i + 1));
        }
        i += 1;
    }
    true
}

/// The unknowns of a triangular system, found from the last equation up.
pub fn back_substitute<T: Scalar>(a: &Matrix<T>, b: &Matrix<T>) -> (x: Vec<T>)
    requires
        (SystemView { a: a@, b: b@ }).wf(),
    ensures
        x@ == (SystemView { a: a@, b: b@ }).back(0),
        x@.len() == a@.rows,
{
    let ghost s = SystemView { a: a@, b: b@ };
    let n: usize = a.get_dim().0;
    let mut x: Vec<T> = zeros(n);
    let mut i: usize = n;
    proof {
        assert(x@ =~= s.back(n as int));
    }
    while i > 0
        invariant
            i <= n,
            n == s.n(),
            s == (SystemView { a: a@, b: b@ }),
            s.wf(),
            x@.len() == n,
            x@ == s.back(i as int),
        decreases i,
    {
        i -= 1;
        let mut acc: T = b.cell(i, 0);
        let mut j: usize = i + 1;
        while j < n
            invariant
                i < j <= n,
                n == s.n(),
                s == (SystemView { a: a@, b: b@ }),
                s.wf(),
                x@.len() == n,
                acc == s.rest(x@, i as int, j as int),
            decreases n - j,
        {
            acc = acc.sub(a.cell(i, j).mul(x[j]));
            j += 1;
        }
        x[i] = acc.div(a.cell(i, i));
    }
    x
}

/// Solves `k * d = f` for `d` by elimination with partial pivoting and
/// back-substitution, on copies of `k` and `f`.
///
/// The answer is `DimensionMismatch` unless `k` is square and `f` is one
/// column of as many rows, and `SingularSystem` where a step of the
/// elimination meets a negligible pivot.
pub fn lin_solve<T: Scalar>(k: &Matrix<T>, f: &Matrix<T>) -> (res: Result<Matrix<T>, FemError>)
    ensures
        match res {
            Ok(d) => (SystemView { a: k@, b: f@ }).wf() && (SystemView { a: k@, b: f@ }).regular()
                && d@ == (SystemView { a: k@, b: f@ }).solution(),
            Err(e) => if (SystemView { a: k@, b: f@ }).wf() {
                e == FemError::SingularSystem && !(SystemView { a: k@, b: f@ }).regular()
            } else {
                e == FemError::DimensionMismatch
            },
        },
{
    proof {
        k.lemma_view_wf();
        f.lemma_view_wf();
    }
    let (k_rows, k_cols) = k.get_dim();
    let (f_rows, f_cols) = f.get_dim();
    if k_rows != k_cols || f_rows != k_rows || f_cols != 1 {
        return Err(FemError::DimensionMismatch);
    }
    let ghost s = SystemView { a: k@, b: f@ };
    let n: usize = k_rows;
    // The elimination works on copies; `k` and `f` stay as they are.
    let mut a: Matrix<T> = k.clone();
    let mut b: Matrix<T> = f.clone();
    let mut step: usize = 0;
    while step < n
        invariant
            step <= n,
            n == s.n(),
            s == (SystemView { a: k@, b: f@ }),
            s.wf(),
            (SystemView { a: a@, b: b@ }).wf(),
            a@.rows == n,
            (SystemView { a: a@, b: b@ }) == s.forward(step as nat),
            forall|j: nat| j < step ==> !negligible_spec(#[trigger] s.pivot(j)),
        decreases n - step,
    {
        if !eliminate_step(&mut a, &mut b, step) {
            proof {
                assert(negligible_spec(s.pivot(step as nat)));
            }
            return Err(FemError::SingularSystem);
        }
        step += 1;
    }
    let x: Vec<T> = back_substitute(&a, &b);
    let d = Matrix::from_column(&x);
    proof {
        assert(d@ =~~= s.solution());
    }
    Ok(d)
}

} // verus!
