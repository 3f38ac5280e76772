use finite_element_method::error::FemError;
use finite_element_method::lin_alg::mat::Matrix;
use finite_element_method::lin_alg::solve::{
    back_substitute, eliminate_step, find_pivot, lin_solve, reduce_row, swap_rows,
};
use finite_element_method::scalar::Scalar;

/// Double-precision numbers as the scalars of the kernel.
#[derive(Debug, Clone, Copy, PartialEq)]
struct Real(f64);

impl Scalar for Real {
    fn zero() -> Self {
        Real(0.0)
    }
    fn one() -> Self {
        Real(1.0)
    }
    fn from_usize(n: usize) -> Self {
        Real(n as f64)
    }
    fn tolerance() -> Self {
        Real(1e-12)
    }
    fn add(self, rhs: Self) -> Self {
        Real(self.0 + rhs.0)
    }
    fn sub(self, rhs: Self) -> Self {
        Real(self.0 - rhs.0)
    }
    fn mul(self, rhs: Self) -> Self {
        Real(self.0 * rhs.0)
    }
    fn div(self, rhs: Self) -> Self {
        Real(self.0 / rhs.0)
    }
    fn neg(self) -> Self {
        Real(-self.0)
    }
    fn lt(self, rhs: Self) -> bool {
        self.0 < rhs.0
    }
    fn zero_spec() -> Self {
        Self::zero()
    }
    fn one_spec() -> Self {
        Self::one()
    }
    fn from_usize_spec(n: usize) -> Self {
        Self::from_usize(n)
    }
    fn tolerance_spec() -> Self {
        Self::tolerance()
    }
    fn add_spec(self, rhs: Self) -> Self {
        self.add(rhs)
    }
    fn sub_spec(self, rhs: Self) -> Self {
        self.sub(rhs)
    }
    fn mul_spec(self, rhs: Self) -> Self {
        self.mul(rhs)
    }
    fn div_spec(self, rhs: Self) -> Self {
        self.div(rhs)
    }
    fn neg_spec(self) -> Self {
        self.neg()
    }
    fn lt_spec(self, rhs: Self) -> bool {
        self.lt(rhs)
    }
}

fn filled(rows: usize, cols: usize, entries: &[f64]) -> Matrix<Real> {
    let mut m: Matrix<Real> = Matrix::<Real>::new((rows, cols));
    for r in 0..rows {
        for c in 0..cols {
            m.set(r, c, Real(entries[r * cols + c])).unwrap();
        }
    }
    m
}

fn column(entries: &[f64]) -> Matrix<Real> {
    filled(entries.len(), 1, entries)
}

#[test]
fn solves_a_system_of_two() {
    // 2x + y = 5, x + 3y = 10
    let k = filled(2, 2, &[2.0, 1.0, 1.0, 3.0]);
    let f = column(&[5.0, 10.0]);
    let d = lin_solve(&k, &f).unwrap();
    assert_eq!(d, column(&[1.0, 3.0]));
}

#[test]
fn solving_leaves_the_inputs_alone() {
    let k = filled(2, 2, &[2.0, 1.0, 1.0, 3.0]);
    let f = column(&[5.0, 10.0]);
    let _ = lin_solve(&k, &f).unwrap();
    assert_eq!(k, filled(2, 2, &[2.0, 1.0, 1.0, 3.0]));
    assert_eq!(f, column(&[5.0, 10.0]));
}

#[test]
fn solves_where_the_first_pivot_is_zero() {
    // y = 2, x + y = 3
    let k = filled(2, 2, &[0.0, 1.0, 1.0, 1.0]);
    let f = column(&[2.0, 3.0]);
    assert_eq!(lin_solve(&k, &f), Ok(column(&[1.0, 2.0])));
}

#[test]
fn solves_a_system_of_three() {
    let k = filled(3, 3, &[2.0, 1.0, -1.0, -3.0, -1.0, 2.0, -2.0, 1.0, 2.0]);
    let f = column(&[8.0, -11.0, -3.0]);
    let d = lin_solve(&k, &f).unwrap();
    let x = d.to_column(0);
    assert!((x[0].0 - 2.0).abs() < 1e-12);
    assert!((x[1].0 - 3.0).abs() < 1e-12);
    assert!((x[2].0 + 1.0).abs() < 1e-12);
}

#[test]
fn solves_a_system_of_one() {
    assert_eq!(lin_solve(&filled(1, 1, &[4.0]), &column(&[2.0])), Ok(column(&[0.5])));
}

#[test]
fn solves_a_system_of_none() {
    let k: Matrix<Real> = Matrix::new((0, 0));
    let f: Matrix<Real> = Matrix::new((0, 1));
    let d = lin_solve(&k, &f).unwrap();
    assert_eq!(d.get_dim(), (0, 1));
}

#[test]
fn singular_system_is_turned_down() {
    let k = filled(2, 2, &[1.0, 2.0, 2.0, 4.0]);
    let f = column(&[1.0, 2.0]);
    assert_eq!(lin_solve(&k, &f), Err(FemError::SingularSystem));
    let zero = filled(1, 1, &[0.0]);
    assert_eq!(lin_solve(&zero, &column(&[1.0])), Err(FemError::SingularSystem));
}

#[test]
fn shapes_that_are_no_system() {
    let f = column(&[1.0, 2.0]);
    assert_eq!(
        lin_solve(&filled(2, 3, &[1.0, 0.0, 0.0, 0.0, 1.0, 0.0]), &f),
        Err(FemError::DimensionMismatch)
    );
    assert_eq!(
        lin_solve(&filled(2, 2, &[1.0, 0.0, 0.0, 1.0]), &column(&[1.0, 2.0, 3.0])),
        Err(FemError::DimensionMismatch)
    );
    assert_eq!(
        lin_solve(&filled(2, 2, &[1.0, 0.0, 0.0, 1.0]), &filled(2, 2, &[1.0, 0.0, 0.0, 1.0])),
        Err(FemError::DimensionMismatch)
    );
}

#[test]
fn pivot_is_the_first_of_the_greatest() {
    let a = filled(3, 3, &[1.0, 0.0, 0.0, -5.0, 2.0, 0.0, 5.0, -3.0, 1.0]);
    let b = column(&[0.0, 0.0, 0.0]);
    assert_eq!(find_pivot(&a, &b, 0), 1);
    assert_eq!(find_pivot(&a, &b, 1), 2);
    assert_eq!(find_pivot(&a, &b, 2), 2);
}

#[test]
fn rows_change_places() {
    let mut m = filled(3, 2, &[1.0, 2.0, 3.0, 4.0, 5.0, 6.0]);
    swap_rows(&mut m, 0, 2);
    assert_eq!(m, filled(3, 2, &[5.0, 6.0, 3.0, 4.0, 1.0, 2.0]));
    swap_rows(&mut m, 1, 1);
    assert_eq!(m, filled(3, 2, &[5.0, 6.0, 3.0, 4.0, 1.0, 2.0]));
}

#[test]
fn row_loses_a_multiple_of_another() {
    let mut m = filled(2, 3, &[1.0, 2.0, 3.0, 4.0, 5.0, 6.0]);
    reduce_row(&mut m, 0, 1, Real(2.0), 1);
    assert_eq!(m, filled(2, 3, &[1.0, 2.0, 3.0, 4.0, 1.0, 0.0]));
}

#[test]
fn one_step_of_elimination() {
    let mut a = filled(2, 2, &[1.0, 1.0, 2.0, 4.0]);
    let mut b = column(&[3.0, 10.0]);
    assert!(eliminate_step(&mut a, &mut b, 0));
    assert_eq!(a, filled(2, 2, &[2.0, 4.0, 0.0, -1.0]));
    assert_eq!(b, column(&[10.0, -2.0]));
    let mut z = filled(2, 2, &[0.0, 1.0, 0.0, 1.0]);
    let mut w = column(&[1.0, 1.0]);
    assert!(!eliminate_step(&mut z, &mut w, 0));
}

#[test]
fn back_substitution_in_a_triangle() {
    let a = filled(2, 2, &[2.0, 4.0, 0.0, -1.0]);
    let b = column(&[10.0, -2.0]);
    assert_eq!(back_substitute(&a, &b), vec![Real(1.0), Real(2.0)]);
}
