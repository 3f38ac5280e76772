use vstd::prelude::*;
use crate::error::FemError;
use crate::scalar::Scalar;

verus! {

/// What a matrix is: its extent and its entries, row by row.
#[verifier::ext_equal]
pub struct MatrixView<T> {
    pub rows: nat,
    pub cols: nat,
    pub cells: Seq<Seq<T>>,
}

impl<T: Scalar> MatrixView<T> {
    /// There are `rows` rows of `cols` entries each.
    pub open spec fn wf(self) -> bool {
        &&& self.cells.len() == self.rows
        &&& forall|r: int| 0 <= r < self.rows ==> (#[trigger] self.cells[r]).len() == self.cols
    }

    /// The entry in row `r` and column `c`.
    pub open spec fn at(self, r: int, c: int) -> T {
        self.cells[r][c]
    }

    /// The matrix of the given extent whose entries are all zero.
    pub open spec fn zeros(rows: nat, cols: nat) -> Self {
        MatrixView {
            rows,
            cols,
            cells: Seq::new(rows, |r: int| Seq::new(cols, |c: int| T::zero_spec())),
        }
    }

    /// This matrix with the entry at `(r, c)` replaced by `v`.
    pub open spec fn update(self, r: int, c: int, v: T) -> Self {
        MatrixView {
            rows: self.rows,
            cols: self.cols,
            cells: self.cells.update(r, self.cells[r].update(c, v)),
        }
    }

    /// Rows and columns exchanged.
    pub open spec fn transpose(self) -> Self {
        MatrixView {
            rows: self.cols,
            cols: self.rows,
            cells: Seq::new(self.cols, |r: int| Seq::new(self.rows, |c: int| self.cells[c][r])),
        }
    }

    /// The entrywise sum.
    pub open spec fn plus(self, rhs: Self) -> Self {
        MatrixView {
            rows: self.rows,
            cols: self.cols,
            cells: Seq::new(
                self.rows,
                |r: int| Seq::new(self.cols, |c: int| self.cells[r][c].add_spec(rhs.cells[r][c])),
            ),
        }
    }

    /// The entrywise difference.
    pub open spec fn minus(self, rhs: Self) -> Self {
        MatrixView {
            rows: self.rows,
            cols: self.cols,
            cells: Seq::new(
                self.rows,
                |r: int| Seq::new(self.cols, |c: int| self.cells[r][c].sub_spec(rhs.cells[r][c])),
            ),
        }
    }

    /// The sum of the first `k` terms of row `i` of `self` against column `j`
    /// of `rhs`, taken from the left.
    pub open spec fn inner(self, rhs: Self, i: int, j: int, k: nat) -> T
        decreases k,
    {
        if k == 0 {
            T::zero_spec()
        } else {
            self.inner(rhs, i, j, (k - 1) as nat).add_spec(
                self.cells[i][k - 1].mul_spec(rhs.cells[k - 1][j]),
            )
        }
    }

    /// The matrix product.
    pub open spec fn times(self, rhs: Self) -> Self {
        MatrixView {
            rows: self.rows,
            cols: rhs.cols,
            cells: Seq::new(
                self.rows,
                |i: int| Seq::new(rhs.cols, |j: int| self.inner(rhs, i, j, self.cols)),
            ),
        }
    }

    /// The sum of the products of the first `k` pairs of entries, counted row
    /// by row and taken from the left.
    pub open spec fn dot_prefix(self, rhs: Self, k: nat) -> T
        decreases k,
    {
        if k == 0 || self.cols == 0 {
            T::zero_spec()
        } else {
            let r = (k - 1) / (self.cols as int);
            let c = (k - 1) % (self.cols as int);
            self.dot_prefix(rhs, (k - 1) as nat).add_spec(
                self.cells[r][c].mul_spec(rhs.cells[r][c]),
            )
        }
    }

    /// The matrix of a single column that holds the entries of `s`.
    pub open spec fn column(s: Seq<T>) -> Self {
        MatrixView {
            rows: s.len(),
            cols: 1,
            cells: Seq::new(s.len(), |r: int| Seq::new(1, |c: int| s[r])),
        }
    }

    /// The entries of column `c`, from the top.
    pub open spec fn column_at(self, c: int) -> Seq<T> {
        Seq::new(self.rows, |r: int| self.cells[r][c])
    }

    /// The sum of the products of all pairs of entries.
    pub open spec fn dot(self, rhs: Self) -> T {
        self.dot_prefix(rhs, self.rows * self.cols)
    }
}

/// A dense matrix in row-major order.
#[derive(Debug, PartialEq)]
pub struct Matrix<T> {
    data: Vec<T>,
    n_rows: usize,
    n_cols: usize,
}

/// Where the entry of row `r` and column `c` lies in a row-major store.
pub open spec fn flat_index(cols: int, r: int, c: int) -> int {
    r * cols + c
}

/// Row `r`, column `c` lies inside a flat store of `rows * cols` entries, and
/// no other row and column lie at the same place.
pub proof fn lemma_flat_index(rows: int, cols: int, r: int, c: int)
    requires
        0 <= r < rows,
        0 <= c < cols,
    ensures
        0 <= r * cols <= flat_index(cols, r, c) < rows * cols,
        flat_index(cols, r, c) / cols == r,
        flat_index(cols, r, c) % cols == c,
{
    assert(r * cols + c < rows * cols) by (nonlinear_arith)
        requires
            0 <= r < rows,
            0 <= c < cols,
    ;
    assert(0 <= r * cols) by (nonlinear_arith)
        requires
            0 <= r,
            0 <= cols,
    ;
    vstd::arithmetic::div_mod::lemma_fundamental_div_mod_converse(r * cols + c, cols, r, c);
}

impl<T: Scalar> View for Matrix<T> {
    type V = MatrixView<T>;

    closed spec fn view(&self) -> MatrixView<T> {
        MatrixView {
            rows: self.n_rows as nat,
            cols: self.n_cols as nat,
            cells: Seq::new(
                self.n_rows as nat,
                |r: int|
                    Seq::new(
                        self.n_cols as nat,
                        |c: int| self.data@[flat_index(self.n_cols as int, r, c)],
                    ),
            ),
        }
    }
}

impl<T> Matrix<T> {
    #[verifier::type_invariant]
    spec fn inv(self) -> bool {
        self.data@.len() == self.n_rows * self.n_cols
    }
}

impl<T: Scalar> Clone for Matrix<T> {
    fn clone(&self) -> (m: Self)
        ensures
            m@ == self@,
    {
        proof {
            use_type_invariant(self);
        }
        let n: usize = self.data.len();
        let mut data: Vec<T> = Vec::new();
        let mut i: usize = 0;
        while i < n
            invariant
                i <= n,
                n == self.data@.len(),
                data@ == self.data@.take(i as int),
            decreases n - i,
        {
            data.push(self.data[i]);
            proof {
                assert(data@ =~= self.data@.take(i + 1));
            }
            i += 1;
        }
        proof {
            assert(data@ =~= self.data@);
        }
        Matrix { data, n_rows: self.n_rows, n_cols: self.n_cols }
    }
}

impl<T: Scalar> Matrix<T> {
    /// The view of a matrix is well formed, and its extent fits the machine.
    pub proof fn lemma_view_wf(self)
        ensures
            self@.wf(),
            self@.rows <= usize::MAX,
            self@.cols <= usize::MAX,
    {
    }

    /// Whether the machine can count the entries of a matrix of `dim.0` rows
    /// and `dim.1` columns.
    pub fn fits(dim: (usize, usize)) -> (ok: bool)
        ensures
            ok == (dim.0 * dim.1 <= usize::MAX),
    {
        dim.0.checked_mul(dim.1).is_some()
    }

    /// A matrix of `dim.0` rows and `dim.1` columns, every entry zero.
    pub fn new(dim: (usize, usize)) -> (m: Self)
        requires
            dim.0 * dim.1 <= usize::MAX,
        ensures
            m@ == MatrixView::<T>::zeros(dim.0 as nat, dim.1 as nat),
    {
        let n: usize = dim.0 * dim.1;
        let mut data: Vec<T> = Vec::new();
        let mut i: usize = 0;
        while i < n
            invariant
                i <= n,
                data@.len() == i,
                forall|k: int| 0 <= k < i ==> data@[k] == T::zero_spec(),
            decreases n - i,
        {
            data.push(T::zero());
            i += 1;
        }
        let m = Matrix { data, n_rows: dim.0, n_cols: dim.1 };
        proof {
            assert forall|r: int, c: int|
                0 <= r < dim.0 && 0 <= c < dim.1 implies m.data@[#[trigger] flat_index(
                dim.1 as int,
                r,
                c,
            )] == T::zero_spec() by {
                lemma_flat_index(dim.0 as int, dim.1 as int, r, c);
            }
            assert(m@ =~~= MatrixView::<T>::zeros(dim.0 as nat, dim.1 as nat));
        }
        m
    }

    /// The matrix of a single column that holds the entries of `v`.
    pub fn from_column(v: &Vec<T>) -> (m: Self)
        ensures
            m@ == MatrixView::<T>::column(v@),
    {
        let n: usize = v.len();
        let mut data: Vec<T> = Vec::new();
        let mut i: usize = 0;
        while i < n
            invariant
                i <= n,
                n == v@.len(),
                data@ == v@.take(i as int),
            decreases n - i,
        {
            data.push(v[i]);
            proof {
                assert(data@ =~= v@.take(i + 1));
            }
            i += 1;
        }
        proof {
            assert(data@ =~= v@);
        }
        let m = Matrix { data, n_rows: n, n_cols: 1 };
        proof {
            assert forall|r: int| 0 <= r < n implies flat_index(1, r, 0) == r by {}
            assert(m@ =~~= MatrixView::<T>::column(v@));
        }
        m
    }

    /// The entries of column `c`, which lies inside the matrix, from the top.
    pub fn to_column(&self, c: usize) -> (v: Vec<T>)
        requires
            c < self@.cols,
        ensures
            v@ == self@.column_at(c as int),
    {
        let n: usize = self.n_rows;
        let mut v: Vec<T> = Vec::new();
        let mut r: usize = 0;
        while r < n
            invariant
                r <= n,
                n == self@.rows,
                c < self@.cols,
                v@.len() == r,
                forall|i: int| 0 <= i < r ==> v@[i] == self@.cells[i][c as int],
            decreases n - r,
        {
            v.push(self.cell(r, c));
            r += 1;
        }
        proof {
            assert(v@ =~= self@.column_at(c as int));
        }
        v
    }

    /// The number of rows and the number of columns.
    pub fn get_dim(&self) -> (d: (usize, usize))
        ensures
            d.0 == self@.rows,
            d.1 == self@.cols,
    {
        (self.n_rows, self.n_cols)
    }

    /// The entry at `(r, c)`, which lies inside the matrix.
    pub fn cell(&self, r: usize, c: usize) -> (v: T)
        requires
            r < self@.rows,
            c < self@.cols,
        ensures
            v == self@.at(r as int, c as int),
    {
        proof {
            use_type_invariant(self);
            lemma_flat_index(self.n_rows as int, self.n_cols as int, r as int, c as int);
            assert(self.data.len() == self.n_rows * self.n_cols);
        }
        self.data[r * self.n_cols + c]
    }

    /// Replaces the entry at `(r, c)`, which lies inside the matrix.
    pub fn put(&mut self, r: usize, c: usize, val: T)
        requires
            r < old(self)@.rows,
            c < old(self)@.cols,
        ensures
            final(self)@ == old(self)@.update(r as int, c as int, val),
            final(self)@.wf(),
            final(self)@.rows == old(self)@.rows,
            final(self)@.cols == old(self)@.cols,
            forall|i: int, j: int|
                0 <= i < old(self)@.rows && 0 <= j < old(self)@.cols
                    ==> #[trigger] final(self)@.cells[i][j] == (if i == r && j == c {
                    val
                } else {
                    old(self)@.cells[i][j]
                }),
    {
        proof {
            use_type_invariant(&*self);
            lemma_flat_index(self.n_rows as int, self.n_cols as int, r as int, c as int);
            assert(self.data.len() == self.n_rows * self.n_cols);
        }
        let idx: usize = r * self.n_cols + c;
        self.data[idx] = val;
        proof {
            let rows = self.n_rows as int;
            let cols = self.n_cols as int;
            assert forall|r2: int, c2: int| 0 <= r2 < rows && 0 <= c2 < cols implies (
            #[trigger] flat_index(cols, r2, c2) == idx <==> r2 == r && c2 == c) by {
                lemma_flat_index(rows, cols, r2, c2);
            }
            let before = old(self)@;
            let after = before.update(r as int, c as int, val);
            assert forall|r2: int| 0 <= r2 < rows implies self@.cells[r2] =~= after.cells[r2] by {
                assert forall|c2: int| 0 <= c2 < cols implies self@.cells[r2][c2]
                    == after.cells[r2][c2] by {
                    lemma_flat_index(rows, cols, r2, c2);
                }
            }
            assert(self@ =~~= after);
        }
    }

    /// The entry at `(r, c)`, or `IndexOutOfBounds` where there is none.
    pub fn get(&self, r: usize, c: usize) -> (res: Result<T, FemError>)
        ensures
            r < self@.rows && c < self@.cols ==> res == Ok::<T, FemError>(
                self@.at(r as int, c as int),
            ),
            !(r < self@.rows && c < self@.cols) ==> res == Err::<T, FemError>(
                FemError::IndexOutOfBounds,
            ),
    {
        if r >= self.n_rows || c >= self.n_cols {
            return Err(FemError::IndexOutOfBounds);
        }
        Ok(self.cell(r, c))
    }

    /// Replaces the entry at `(r, c)`; where there is none, the matrix stays as
    /// it is and the answer is `IndexOutOfBounds`.
    pub fn set(&mut self, r: usize, c: usize, val: T) -> (res: Result<(), FemError>)
        ensures
            r < old(self)@.rows && c < old(self)@.cols ==> res == Ok::<(), FemError>(())
                && final(self)@ == old(self)@.update(r as int, c as int, val),
            !(r < old(self)@.rows && c < old(self)@.cols) ==> res == Err::<(), FemError>(
                FemError::IndexOutOfBounds,
            ) && final(self)@ == old(self)@,
    {
        if r >= self.n_rows || c >= self.n_cols {
            return Err(FemError::IndexOutOfBounds);
        }
        self.put(r, c, val);
        Ok(())
    }

    /// A new matrix with rows and columns exchanged.
    pub fn transpose(&self) -> (t: Self)
        ensures
            t@ == self@.transpose(),
    {
        proof {
            use_type_invariant(self);
            assert(self.n_cols * self.n_rows == self.n_rows * self.n_cols) by (nonlinear_arith);
            assert(self.data.len() == self.n_rows * self.n_cols);
        }
        let rows: usize = self.n_rows;
        let cols: usize = self.n_cols;
        let mut result: Matrix<T> = Matrix::new((cols, rows));
        let mut r: usize = 0;
        while r < rows
            invariant
                r <= rows,
                rows == self@.rows,
                cols == self@.cols,
                result@.rows == cols,
                result@.cols == rows,
                result@.wf(),
                forall|i: int, j: int|
                    0 <= i < cols && 0 <= j < r ==> result@.cells[i][j] == self@.cells[j][i],
            decreases rows - r,
        {
            let mut c: usize = 0;
            while c < cols
                invariant
                    r < rows,
                    c <= cols,
                    rows == self@.rows,
                    cols == self@.cols,
                    result@.rows == cols,
                    result@.cols == rows,
                    result@.wf(),
                    forall|i: int, j: int|
                        0 <= i < cols && 0 <= j < r ==> result@.cells[i][j] == self@.cells[j][i],
                    forall|i: int|
                        0 <= i < c ==> result@.cells[i][r as int] == self@.cells[r as int][i],
                decreases cols - c,
            {
                let v = self.cell(r, c);
                result.put(c, r, v);
                c += 1;
            }
            r += 1;
        }
        proof {
            assert(result@ =~~= self@.transpose());
        }
        result
    }

    /// The sum of the products of all pairs of entries that stand at the same
    /// place, or `DimensionMismatch` where the extents differ.
    pub fn dot_product(&self, rhs: &Self) -> (res: Result<T, FemError>)
        ensures
            res == if self@.rows == rhs@.rows && self@.cols == rhs@.cols {
                Ok::<T, FemError>(self@.dot(rhs@))
            } else {
                Err::<T, FemError>(FemError::DimensionMismatch)
            },
    {
        if self.n_rows != rhs.n_rows || self.n_cols != rhs.n_cols {
            return Err(FemError::DimensionMismatch);
        }
        proof {
            use_type_invariant(self);
            assert(self.data.len() == self.n_rows * self.n_cols);
        }
        let rows: usize = self.n_rows;
        let cols: usize = self.n_cols;
        let mut sum: T = T::zero();
        let mut r: usize = 0;
        while r < rows
            invariant
                r <= rows,
                rows == self@.rows,
                cols == self@.cols,
                rows == rhs@.rows,
                cols == rhs@.cols,
                rows * cols <= usize::MAX,
                sum == self@.dot_prefix(rhs@, (r * cols) as nat),
            decreases rows - r,
        {
            let mut c: usize = 0;
            while c < cols
                invariant
                    r < rows,
                    c <= cols,
                    rows == self@.rows,
                    cols == self@.cols,
                    rows == rhs@.rows,
                    cols == rhs@.cols,
                    rows * cols <= usize::MAX,
                    sum == self@.dot_prefix(rhs@, (r * cols + c) as nat),
                decreases cols - c,
            {
                proof {
                    lemma_flat_index(rows as int, cols as int, r as int, c as int);
                }
                sum = sum.add(self.cell(r, c).mul(rhs.cell(r, c)));
                c += 1;
            }
            proof {
                assert(r * cols + cols == (r + 1) * cols) by (nonlinear_arith);
            }
            r += 1;
        }
        Ok(sum)
    }

    /// The entrywise sum, or `DimensionMismatch` where the extents differ.
    pub fn add(self, rhs: Self) -> (res: Result<Self, FemError>)
        ensures
            match res {
                Ok(m) => self@.rows == rhs@.rows && self@.cols == rhs@.cols && m@ == self@.plus(
                    rhs@,
                ),
                Err(e) => e == FemError::DimensionMismatch && !(self@.rows == rhs@.rows
                    && self@.cols == rhs@.cols),
            },
    {
        if self.n_rows != rhs.n_rows || self.n_cols != rhs.n_cols {
            return Err(FemError::DimensionMismatch);
        }
        proof {
            use_type_invariant(&self);
            assert(self.data.len() == self.n_rows * self.n_cols);
        }
        let rows: usize = self.n_rows;
        let cols: usize = self.n_cols;
        let mut result: Matrix<T> = Matrix::new((rows, cols));
        let mut r: usize = 0;
        while r < rows
            invariant
                r <= rows,
                rows == self@.rows,
                cols == self@.cols,
                rows == rhs@.rows,
                cols == rhs@.cols,
                result@.rows == rows,
                result@.cols == cols,
                result@.wf(),
                forall|i: int, j: int|
                    0 <= i < r && 0 <= j < cols ==> #[trigger] result@.cells[i][j]
                        == self@.cells[i][j].add_spec(rhs@.cells[i][j]),
            decreases rows - r,
        {
            let mut c: usize = 0;
            while c < cols
                invariant
                    r < rows,
                    c <= cols,
                    rows == self@.rows,
                    cols == self@.cols,
                    rows == rhs@.rows,
                    cols == rhs@.cols,
                    result@.rows == rows,
                    result@.cols == cols,
                    result@.wf(),
                    forall|i: int, j: int|
                        0 <= i < r && 0 <= j < cols ==> #[trigger] result@.cells[i][j]
                            == self@.cells[i][j].add_spec(rhs@.cells[i][j]),
                    forall|j: int|
                        0 <= j < c ==> #[trigger] result@.cells[r as int][j]
                            == self@.cells[r as int][j].add_spec(rhs@.cells[r as int][j]),
                decreases cols - c,
            {
                let v = self.cell(r, c).add(rhs.cell(r, c));
                result.put(r, c, v);
                c += 1;
            }
            r += 1;
        }
        proof {
            assert(result@ =~~= self@.plus(rhs@));
        }
        Ok(result)
    }

    /// The entrywise difference, or `DimensionMismatch` where the extents
    /// differ.
    pub fn sub(self, rhs: Self) -> (res: Result<Self, FemError>)
        ensures
            match res {
                Ok(m) => self@.rows == rhs@.rows && self@.cols == rhs@.cols && m@
                    == self@.minus(rhs@),
                Err(e) => e == FemError::DimensionMismatch && !(self@.rows == rhs@.rows
                    && self@.cols == rhs@.cols),
            },
    {
        if self.n_rows != rhs.n_rows || self.n_cols != rhs.n_cols {
            return Err(FemError::DimensionMismatch);
        }
        proof {
            use_type_invariant(&self);
            assert(self.data.len() == self.n_rows * self.n_cols);
        }
        let rows: usize = self.n_rows;
        let cols: usize = self.n_cols;
        let mut result: Matrix<T> = Matrix::new((rows, cols));
        let mut r: usize = 0;
        while r < rows
            invariant
                r <= rows,
                rows == self@.rows,
                cols == self@.cols,
                rows == rhs@.rows,
                cols == rhs@.cols,
                result@.rows == rows,
                result@.cols == cols,
                result@.wf(),
                forall|i: int, j: int|
                    0 <= i < r && 0 <= j < cols ==> #[trigger] result@.cells[i][j]
                        == self@.cells[i][j].sub_spec(rhs@.cells[i][j]),
            decreases rows - r,
        {
            let mut c: usize = 0;
            while c < cols
                invariant
                    r < rows,
                    c <= cols,
                    rows == self@.rows,
                    cols == self@.cols,
                    rows == rhs@.rows,
                    cols == rhs@.cols,
                    result@.rows == rows,
                    result@.cols == cols,
                    result@.wf(),
                    forall|i: int, j: int|
                        0 <= i < r && 0 <= j < cols ==> #[trigger] result@.cells[i][j]
                            == self@.cells[i][j].sub_spec(rhs@.cells[i][j]),
                    forall|j: int|
                        0 <= j < c ==> #[trigger] result@.cells[r as int][j]
                            == self@.cells[r as int][j].sub_spec(rhs@.cells[r as int][j]),
                decreases cols - c,
            {
                let v = self.cell(r, c).sub(rhs.cell(r, c));
                result.put(r, c, v);
                c += 1;
            }
            r += 1;
        }
        proof {
            assert(result@ =~~= self@.minus(rhs@));
        }
        Ok(result)
    }

    /// The matrix product, or `DimensionMismatch` unless `self` has as many
    /// columns as `rhs` has rows.
    pub fn mul(self, rhs: Self) -> (res: Result<Self, FemError>)
        requires
            self@.cols == rhs@.rows ==> self@.rows * rhs@.cols <= usize::MAX,
        ensures
            match res {
                Ok(m) => self@.cols == rhs@.rows && m@ == self@.times(rhs@),
                Err(e) => e == FemError::DimensionMismatch && self@.cols != rhs@.rows,
            },
    {
        if self.n_cols != rhs.n_rows {
            return Err(FemError::DimensionMismatch);
        }
        let rows: usize = self.n_rows;
        let cols: usize = rhs.n_cols;
        let inner: usize = self.n_cols;
        let mut result: Matrix<T> = Matrix::new((rows, cols));
        let mut r: usize = 0;
        while r < rows
            invariant
                r <= rows,
                rows == self@.rows,
                inner == self@.cols,
                inner == rhs@.rows,
                cols == rhs@.cols,
                result@.rows == rows,
                result@.cols == cols,
                result@.wf(),
                forall|i: int, j: int|
                    0 <= i < r && 0 <= j < cols ==> #[trigger] result@.cells[i][j] == self@.inner(
                        rhs@,
                        i,
                        j,
                        inner as nat,
                    ),
            decreases rows - r,
        {
            let mut c: usize = 0;
            while c < cols
                invariant
                    r < rows,
                    c <= cols,
                    rows == self@.rows,
                    inner == self@.cols,
                    inner == rhs@.rows,
                    cols == rhs@.cols,
                    result@.rows == rows,
                    result@.cols == cols,
                    result@.wf(),
                    forall|i: int, j: int|
                        0 <= i < r && 0 <= j < cols ==> #[trigger] result@.cells[i][j]
                            == self@.inner(rhs@, i, j, inner as nat),
                    forall|j: int|
                        0 <= j < c ==> #[trigger] result@.cells[r as int][j] == self@.inner(
                            rhs@,
                            r as int,
                            j,
                            inner as nat,
                        ),
                decreases cols - c,
            {
                let mut sum: T = T::zero();
                let mut q: usize = 0;
                while q < inner
                    invariant
                        r < rows,
                        c < cols,
                        q <= inner,
                        rows == self@.rows,
                        inner == self@.cols,
                        inner == rhs@.rows,
                        cols == rhs@.cols,
                        sum == self@.inner(rhs@, r as int, c as int, q as nat),
                    decreases inner - q,
                {
                    sum = sum.add(self.cell(r, q).mul(rhs.cell(q, c)));
                    q += 1;
                }
                result.put(r, c, sum);
                c += 1;
            }
            r += 1;
        }
        proof {
            assert(result@ =~~= self@.times(rhs@));
        }
        Ok(result)
    }
}

} // verus!
