use vstd::prelude::*;
use crate::algebra::{
    lemma_sum_exchange, lemma_sum_ext, lemma_sum_scale_left, lemma_sum_scale_right, sum, Ring,
};
use crate::lin_alg::mat::MatrixView;
use crate::scalar::Scalar;

verus! {

/// Transposing a matrix twice gives the matrix back.
pub proof fn lemma_transpose_involutive<T: Scalar>(m: MatrixView<T>)
    requires
        m.wf(),
    ensures
        m.transpose().transpose() == m,
{
    assert(m.transpose().transpose() =~~= m);
}

/// The transpose of a matrix has its rows for columns: the extents change
/// places, and so does every pair of indices.
pub proof fn lemma_transpose_entries<T: Scalar>(m: MatrixView<T>, r: int, c: int)
    requires
        m.wf(),
        0 <= r < m.cols,
        0 <= c < m.rows,
    ensures
        m.transpose().wf(),
        m.transpose().rows == m.cols,
        m.transpose().cols == m.rows,
        m.transpose().at(r, c) == m.at(c, r),
{
}

/// A matrix of zeros has zero at every place.
pub proof fn lemma_zeros_entries<T: Scalar>(rows: nat, cols: nat, r: int, c: int)
    requires
        0 <= r < rows,
        0 <= c < cols,
    ensures
        MatrixView::<T>::zeros(rows, cols).wf(),
        MatrixView::<T>::zeros(rows, cols).at(r, c) == T::zero_spec(),
{
}

/// The first `n` terms of row `i` of `a` against column `j` of `b` add up to
/// the sum of their products.
pub proof fn lemma_inner_is_sum<T: Scalar>(
    a: MatrixView<T>,
    b: MatrixView<T>,
    i: int,
    j: int,
    n: nat,
)
    ensures
        a.inner(b, i, j, n) == sum(|q: int| a.cells[i][q].mul_spec(b.cells[q][j]), n),
    decreases n,
{
    if n > 0 {
        lemma_inner_is_sum(a, b, i, j, (n - 1) as nat);
    }
}

/// The extent and the entries of a product.
pub proof fn lemma_times_entries<T: Scalar>(a: MatrixView<T>, b: MatrixView<T>, i: int, j: int)
    requires
        0 <= i < a.rows,
        0 <= j < b.cols,
    ensures
        a.times(b).wf(),
        a.times(b).rows == a.rows,
        a.times(b).cols == b.cols,
        a.times(b).cells[i][j] == a.inner(b, i, j, a.cols),
{
}

/// Where the extents fit, so that both sides are defined, the product of
/// three matrices does not depend on which two are multiplied first, and its
/// extent is the rows of the first by the columns of the last.
pub proof fn lemma_product_associative<T: Ring>(
    a: MatrixView<T>,
    b: MatrixView<T>,
    c: MatrixView<T>,
)
    requires
        a.wf(),
        b.wf(),
        c.wf(),
        a.cols == b.rows,
        b.cols == c.rows,
    ensures
        a.times(b).times(c) == a.times(b.times(c)),
        a.times(b).times(c).rows == a.rows,
        a.times(b).times(c).cols == c.cols,
{
    let left = a.times(b).times(c);
    let right = a.times(b.times(c));
    let n = a.cols;
    let p = b.cols;
    assert forall|i: int, l: int| 0 <= i < a.rows && 0 <= l < c.cols implies left.cells[i][l]
        == right.cells[i][l] by {
        let ab = a.times(b);
        let bc = b.times(c);
        let h = |j: int, k: int| a.cells[i][j].mul_spec(b.cells[j][k]).mul_spec(c.cells[k][l]);
        // The left side, term by term.
        let left_terms = |k: int| ab.cells[i][k].mul_spec(c.cells[k][l]);
        let left_sums = |k: int| sum(|j: int| h(j, k), n);
        lemma_inner_is_sum(ab, c, i, l, p);
        assert forall|k: int| 0 <= k < p implies #[trigger] left_terms(k) == left_sums(k) by {
            let row = |j: int| a.cells[i][j].mul_spec(b.cells[j][k]);
            lemma_inner_is_sum(a, b, i, k, n);
            assert(ab.cells[i][k] == sum(row, n));
            lemma_sum_scale_right(row, c.cells[k][l], |j: int| h(j, k), n);
        }
        lemma_sum_ext(left_terms, left_sums, p);
        assert(left.cells[i][l] == sum(left_sums, p));
        // The right side, term by term.
        let right_terms = |j: int| a.cells[i][j].mul_spec(bc.cells[j][l]);
        let right_sums = |j: int| sum(|k: int| h(j, k), p);
        lemma_inner_is_sum(a, bc, i, l, n);
        assert forall|j: int| 0 <= j < n implies #[trigger] right_terms(j) == right_sums(j) by {
            let col = |k: int| b.cells[j][k].mul_spec(c.cells[k][l]);
            lemma_inner_is_sum(b, c, j, l, p);
            assert(bc.cells[j][l] == sum(col, p));
            assert forall|k: int| 0 <= k < p implies #[trigger] h(j, k) == a.cells[i][j].mul_spec(
                col(k),
            ) by {
                T::lemma_mul_associative(a.cells[i][j], b.cells[j][k], c.cells[k][l]);
            }
            lemma_sum_scale_left(a.cells[i][j], col, |k: int| h(j, k), p);
        }
        lemma_sum_ext(right_terms, right_sums, n);
        assert(right.cells[i][l] == sum(right_sums, n));
        lemma_sum_exchange(h, n, p);
    }
    assert(left =~~= right);
}

} // verus!
