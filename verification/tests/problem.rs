use finite_element_method::error::FemError;
use finite_element_method::lin_alg::mat::Matrix;
use finite_element_method::meshing::Mesh1D;
use finite_element_method::problem::{accumulate, deduct, BoundaryCondition, Problem1D};
use finite_element_method::scalar::Scalar;

/// Double-precision numbers as the scalars of the kernel.
#[derive(Debug, Clone, Copy, PartialEq)]
struct Real(f64);

impl Scalar for Real {
    fn zero() -> Self {
        Real(0.0)
    }
    fn one() -> Self {
        Real(1.0)
    }
    fn from_usize(n: usize) -> Self {
        Real(n as f64)
    }
    fn tolerance() -> Self {
        Real(1e-12)
    }
    fn add(self, rhs: Self) -> Self {
        Real(self.0 + rhs.0)
    }
    fn sub(self, rhs: Self) -> Self {
        Real(self.0 - rhs.0)
    }
    fn mul(self, rhs: Self) -> Self {
        Real(self.0 * rhs.0)
    }
    fn div(self, rhs: Self) -> Self {
        Real(self.0 / rhs.0)
    }
    fn neg(self) -> Self {
        Real(-self.0)
    }
    fn lt(self, rhs: Self) -> bool {
        self.0 < rhs.0
    }
    fn zero_spec() -> Self {
        Self::zero()
    }
    fn one_spec() -> Self {
        Self::one()
    }
    fn from_usize_spec(n: usize) -> Self {
        Self::from_usize(n)
    }
    fn tolerance_spec() -> Self {
        Self::tolerance()
    }
    fn add_spec(self, rhs: Self) -> Self {
        self.add(rhs)
    }
    fn sub_spec(self, rhs: Self) -> Self {
        self.sub(rhs)
    }
    fn mul_spec(self, rhs: Self) -> Self {
        self.mul(rhs)
    }
    fn div_spec(self, rhs: Self) -> Self {
        self.div(rhs)
    }
    fn neg_spec(self) -> Self {
        self.neg()
    }
    fn lt_spec(self, rhs: Self) -> bool {
        self.lt(rhs)
    }
}

fn unit_mesh(n: usize) -> Mesh1D<Real> {
    let mut mesh: Mesh1D<Real> = Mesh1D::uniform_mesh(Real(n as f64), n).unwrap(); // To ensure elements are of size 1

    // Set all material properties to 1 for simplicity
    mesh.set_elasticity(Real(1.0));
    mesh.set_area(Real(1.0));
    mesh.set_internal_force(Real(1.0));
    mesh
}

fn filled(rows: usize, cols: usize, entries: &[f64]) -> Matrix<Real> {
    let mut m: Matrix<Real> = Matrix::<Real>::new((rows, cols));
    for r in 0..rows {
        for c in 0..cols {
            m.set(r, c, Real(entries[r * cols + c])).unwrap();
        }
    }
    m
}

fn mirrored(m: &Matrix<Real>) -> Matrix<Real> {
    let (rows, cols) = m.get_dim();
    let mut out: Matrix<Real> = Matrix::new((rows, cols));
    for r in 0..rows {
        for c in 0..cols {
            let to_c = if cols == 1 { 0 } else { cols - 1 - c };
            out.set(rows - 1 - r, to_c, m.get(r, c).unwrap()).unwrap();
        }
    }
    out
}

fn node_values(mesh: &Mesh1D<Real>) -> Vec<f64> {
    let mut v = Vec::new();
    let mut i = 0;
    while let Some(Real(x)) = mesh.get_node_values(i) {
        v.push(x);
        i += 1;
    }
    v
}

#[test]
fn test_bc_enum() {
    let dirichlet = BoundaryCondition::Dirichlet(Real(100.0));
    let neumann = BoundaryCondition::Neumann(Real(50.0));

    match dirichlet {
        BoundaryCondition::Dirichlet(val) => assert_eq!(val, Real(100.0)),
        _ => panic!("Expected Dirichlet condition"),
    }

    match neumann {
        BoundaryCondition::Neumann(val) => assert_eq!(val, Real(50.0)),
        _ => panic!("Expected Neumann condition"),
    }
}

#[test]
fn test_problem_construction_dirichlet_neumann() {
    let mut mesh: Mesh1D<Real> = Mesh1D::uniform_mesh(Real(5.0), 5).unwrap(); // To ensure elements are of size 1

    // Set all material properties to 1 for simplicity
    mesh.set_elasticity(Real(1.0));
    mesh.set_area(Real(1.0));
    mesh.set_internal_force(Real(1.0));

    let left_bc = BoundaryCondition::Dirichlet(Real(273.15));
    let right_bc = BoundaryCondition::Neumann(Real(100.0));

    let problem: Problem1D<Real> = Problem1D::new(mesh, left_bc, right_bc);
    assert_eq!(problem.mesh.get_n_elements(), 5);

    let mut k_expected: Matrix<Real> = Matrix::new((5, 5));
    k_expected.set(0, 0, Real(2.0)).unwrap();
    k_expected.set(0, 1, Real(-1.0)).unwrap();
    k_expected.set(1, 0, Real(-1.0)).unwrap();
    k_expected.set(1, 1, Real(2.0)).unwrap();
    k_expected.set(1, 2, Real(-1.0)).unwrap();
    k_expected.set(2, 1, Real(-1.0)).unwrap();
    k_expected.set(2, 2, Real(2.0)).unwrap();
    k_expected.set(2, 3, Real(-1.0)).unwrap();
    k_expected.set(3, 2, Real(-1.0)).unwrap();
    k_expected.set(3, 3, Real(2.0)).unwrap();
    k_expected.set(3, 4, Real(-1.0)).unwrap();
    k_expected.set(4, 3, Real(-1.0)).unwrap();
    k_expected.set(4, 4, Real(1.0)).unwrap();

    let mut f_expected: Matrix<Real> = Matrix::new((5, 1));
    f_expected.set(0, 0, Real(273.15 + 2.0)).unwrap();
    f_expected.set(1, 0, Real(2.0)).unwrap();
    f_expected.set(2, 0, Real(2.0)).unwrap();
    f_expected.set(3, 0, Real(2.0)).unwrap();
    f_expected.set(4, 0, Real(1.0 + 100.0)).unwrap();

    let (k, f) = problem.construct_matrices().unwrap();
    assert_eq!(k, k_expected);
    assert_eq!(f, f_expected);
}

#[test]
fn test_problem_construction_neumann_dirichlet() {
    let mut mesh: Mesh1D<Real> = Mesh1D::uniform_mesh(Real(5.0), 5).unwrap(); // To ensure elements are of size 1

    // Set all material properties to 1 for simplicity
    mesh.set_elasticity(Real(1.0));
    mesh.set_area(Real(1.0));
    mesh.set_internal_force(Real(1.0));

    let left_bc = BoundaryCondition::Neumann(Real(50.0));
    let right_bc = BoundaryCondition::Dirichlet(Real(373.15));

    let problem: Problem1D<Real> = Problem1D::new(mesh, left_bc, right_bc);
    assert_eq!(problem.mesh.get_n_elements(), 5);

    let mut k_expected: Matrix<Real> = Matrix::new((5, 5));
    k_expected.set(0, 0, Real(1.0)).unwrap();
    k_expected.set(0, 1, Real(-1.0)).unwrap();
    k_expected.set(1, 0, Real(-1.0)).unwrap();
    k_expected.set(1, 1, Real(2.0)).unwrap();
    k_expected.set(1, 2, Real(-1.0)).unwrap();
    k_expected.set(2, 1, Real(-1.0)).unwrap();
    k_expected.set(2, 2, Real(2.0)).unwrap();
    k_expected.set(2, 3, Real(-1.0)).unwrap();
    k_expected.set(3, 2, Real(-1.0)).unwrap();
    k_expected.set(3, 3, Real(2.0)).unwrap();
    k_expected.set(3, 4, Real(-1.0)).unwrap();
    k_expected.set(4, 3, Real(-1.0)).unwrap();
    k_expected.set(4, 4, Real(2.0)).unwrap();

    let mut f_expected: Matrix<Real> = Matrix::new((5, 1));
    f_expected.set(0, 0, Real(50.0 + 1.0)).unwrap();
    f_expected.set(1, 0, Real(2.0)).unwrap();
    f_expected.set(2, 0, Real(2.0)).unwrap();
    f_expected.set(3, 0, Real(2.0)).unwrap();
    f_expected.set(4, 0, Real(2.0 + 373.15)).unwrap();

    let (k, f) = problem.construct_matrices().unwrap();
    assert_eq!(k, k_expected);
    assert_eq!(f, f_expected);
}

#[test]
fn test_problem_construction_pure_dirichlet() {
    let mut mesh: Mesh1D<Real> = Mesh1D::uniform_mesh(Real(5.0), 5).unwrap(); // To ensure elements are of size 1

    // Set all material properties to 1 for simplicity
    mesh.set_elasticity(Real(1.0));
    mesh.set_area(Real(1.0));
    mesh.set_internal_force(Real(1.0));

    let left_bc = BoundaryCondition::Dirichlet(Real(273.15));
    let right_bc = BoundaryCondition::Dirichlet(Real(373.15));

    let problem: Problem1D<Real> = Problem1D::new(mesh, left_bc, right_bc);
    assert_eq!(problem.mesh.get_n_elements(), 5);

    let mut k_expected: Matrix<Real> = Matrix::new((4, 4));
    k_expected.set(0, 0, Real(2.0)).unwrap();
    k_expected.set(0, 1, Real(-1.0)).unwrap();
    k_expected.set(1, 0, Real(-1.0)).unwrap();
    k_expected.set(1, 1, Real(2.0)).unwrap();
    k_expected.set(1, 2, Real(-1.0)).unwrap();
    k_expected.set(2, 1, Real(-1.0)).unwrap();
    k_expected.set(2, 2, Real(2.0)).unwrap();
    k_expected.set(2, 3, Real(-1.0)).unwrap();
    k_expected.set(3, 2, Real(-1.0)).unwrap();
    k_expected.set(3, 3, Real(2.0)).unwrap();

    let mut f_expected: Matrix<Real> = Matrix::new((4, 1));
    f_expected.set(0, 0, Real(273.15 + 2.0)).unwrap();
    f_expected.set(1, 0, Real(2.0)).unwrap();
    f_expected.set(2, 0, Real(2.0)).unwrap();
    f_expected.set(3, 0, Real(373.15 + 2.0)).unwrap();

    let (k, f) = problem.construct_matrices().unwrap();
    assert_eq!(k, k_expected);
    assert_eq!(f, f_expected);
}

#[test]
fn test_problem_construction_pure_neumann() {
    let mut mesh: Mesh1D<Real> = Mesh1D::uniform_mesh(Real(5.0), 5).unwrap(); // To ensure elements are of size 1

    // Set all material properties to 1 for simplicity
    mesh.set_elasticity(Real(1.0));
    mesh.set_area(Real(1.0));
    mesh.set_internal_force(Real(1.0));

    let left_bc = BoundaryCondition::Neumann(Real(50.0));
    let right_bc = BoundaryCondition::Neumann(Real(100.0));

    let problem: Problem1D<Real> = Problem1D::new(mesh, left_bc, right_bc);
    assert_eq!(problem.mesh.get_n_elements(), 5);

    let mut k_expected: Matrix<Real> = Matrix::new((6, 6));
    k_expected.set(0, 0, Real(1.0)).unwrap();
    k_expected.set(0, 1, Real(-1.0)).unwrap();
    k_expected.set(1, 0, Real(-1.0)).unwrap();
    k_expected.set(1, 1, Real(2.0)).unwrap();
    k_expected.set(1, 2, Real(-1.0)).unwrap();
    k_expected.set(2, 1, Real(-1.0)).unwrap();
    k_expected.set(2, 2, Real(2.0)).unwrap();
    k_expected.set(2, 3, Real(-1.0)).unwrap();
    k_expected.set(3, 2, Real(-1.0)).unwrap();
    k_expected.set(3, 3, Real(2.0)).unwrap();
    k_expected.set(3, 4, Real(-1.0)).unwrap();
    k_expected.set(4, 3, Real(-1.0)).unwrap();
    k_expected.set(4, 4, Real(2.0)).unwrap();
    k_expected.set(4, 5, Real(-1.0)).unwrap();
    k_expected.set(5, 4, Real(-1.0)).unwrap();
    k_expected.set(5, 5, Real(1.0)).unwrap();

    let mut f_expected: Matrix<Real> = Matrix::new((6, 1));
    f_expected.set(0, 0, Real(50.0 + 1.0)).unwrap();
    f_expected.set(1, 0, Real(2.0)).unwrap();
    f_expected.set(2, 0, Real(2.0)).unwrap();
    f_expected.set(3, 0, Real(2.0)).unwrap();
    f_expected.set(4, 0, Real(2.0)).unwrap();
    f_expected.set(5, 0, Real(1.0 + 100.0)).unwrap();

    let (k, f) = problem.construct_matrices().unwrap();
    assert_eq!(k, k_expected);
    assert_eq!(f, f_expected);
}

#[test]
fn swapped_ends_give_the_mirror_image() {
    let one = Problem1D::new(
        unit_mesh(5),
        BoundaryCondition::Dirichlet(Real(273.15)),
        BoundaryCondition::Neumann(Real(100.0)),
    );
    let other = Problem1D::new(
        unit_mesh(5),
        BoundaryCondition::Neumann(Real(100.0)),
        BoundaryCondition::Dirichlet(Real(273.15)),
    );
    let (k1, f1) = one.construct_matrices().unwrap();
    let (k2, f2) = other.construct_matrices().unwrap();
    assert_eq!(k2, mirrored(&k1));
    assert_eq!(f2, mirrored(&f1));
    assert_eq!(f2.get(4, 0), Ok(Real(275.15)));
    assert_eq!(f2.get(0, 0), Ok(Real(101.0)));
}

#[test]
fn dirichlet_at_both_ends_takes_two_unknowns() {
    let neumann = Problem1D::new(
        unit_mesh(7),
        BoundaryCondition::Neumann(Real(1.0)),
        BoundaryCondition::Neumann(Real(2.0)),
    );
    let dirichlet = Problem1D::new(
        unit_mesh(7),
        BoundaryCondition::Dirichlet(Real(1.0)),
        BoundaryCondition::Dirichlet(Real(2.0)),
    );
    let mixed = Problem1D::new(
        unit_mesh(7),
        BoundaryCondition::Dirichlet(Real(1.0)),
        BoundaryCondition::Neumann(Real(2.0)),
    );
    assert_eq!(neumann.n_dof(), 8);
    assert_eq!(mixed.n_dof(), 7);
    assert_eq!(dirichlet.n_dof(), 6);
    assert_eq!(dirichlet.n_dof() + 2, neumann.n_dof());
    let (k, f) = dirichlet.construct_matrices().unwrap();
    assert_eq!(k.get_dim(), (6, 6));
    assert_eq!(f.get_dim(), (6, 1));
    let (k, f) = neumann.construct_matrices().unwrap();
    assert_eq!(k.get_dim(), (8, 8));
    assert_eq!(f.get_dim(), (8, 1));
}

#[test]
fn one_element_between_two_fixed_ends_is_degenerate() {
    let mut problem = Problem1D::new(
        unit_mesh(1),
        BoundaryCondition::Dirichlet(Real(1.0)),
        BoundaryCondition::Dirichlet(Real(2.0)),
    );
    assert_eq!(problem.n_dof(), 0);
    assert_eq!(problem.construct_matrices(), Err(FemError::DegenerateSystem));
    assert_eq!(problem.solve(), Err(FemError::DegenerateSystem));
    assert_eq!(node_values(&problem.mesh), vec![0.0, 0.0]);
}

#[test]
fn two_elements_between_two_fixed_ends() {
    let problem = Problem1D::new(
        unit_mesh(2),
        BoundaryCondition::Dirichlet(Real(10.0)),
        BoundaryCondition::Dirichlet(Real(20.0)),
    );
    let (k, f) = problem.construct_matrices().unwrap();
    assert_eq!(k, filled(1, 1, &[2.0]));
    // ((1 + 10) + 1) + 20
    assert_eq!(f, filled(1, 1, &[32.0]));
}

#[test]
fn one_element_with_one_fixed_end() {
    let left = Problem1D::new(
        unit_mesh(1),
        BoundaryCondition::Dirichlet(Real(10.0)),
        BoundaryCondition::Neumann(Real(3.0)),
    );
    let (k, f) = left.construct_matrices().unwrap();
    assert_eq!(k, filled(1, 1, &[1.0]));
    assert_eq!(f, filled(1, 1, &[14.0]));
    let right = Problem1D::new(
        unit_mesh(1),
        BoundaryCondition::Neumann(Real(3.0)),
        BoundaryCondition::Dirichlet(Real(10.0)),
    );
    let (k, f) = right.construct_matrices().unwrap();
    assert_eq!(k, filled(1, 1, &[1.0]));
    assert_eq!(f, filled(1, 1, &[14.0]));
}

#[test]
fn each_element_enters_with_its_own_length() {
    // Elements of length 1 and 2, elasticity 2, area 3, source 5.
    let mut mesh = Mesh1D::general_mesh(vec![Real(0.0), Real(1.0), Real(3.0)]).unwrap();
    mesh.set_elasticity(Real(2.0));
    mesh.set_area(Real(3.0));
    mesh.set_internal_force(Real(5.0));
    let problem = Problem1D::new(
        mesh,
        BoundaryCondition::Dirichlet(Real(7.0)),
        BoundaryCondition::Neumann(Real(11.0)),
    );
    let (k, f) = problem.construct_matrices().unwrap();
    // k_fac = 24; element 0: 24/1/4 = 6; element 1: 24/2/4 = 3.
    assert_eq!(k, filled(2, 2, &[9.0, -3.0, -3.0, 3.0]));
    // f_fac = 15; element 0: 15; element 1: 30.
    // node 1: (15 + 6*7) + 30; node 2: 30 + 11*3.
    assert_eq!(f, filled(2, 1, &[87.0, 63.0]));
}

#[test]
fn solve_writes_every_node() {
    // -u'' = 1 on [0, 5], u(0) = 273.15, u'(5) = 100 / (E A).
    let mut problem = Problem1D::new(
        unit_mesh(5),
        BoundaryCondition::Dirichlet(Real(273.15)),
        BoundaryCondition::Neumann(Real(100.0)),
    );
    assert_eq!(problem.solve(), Ok(()));
    let values = node_values(&problem.mesh);
    assert_eq!(values.len(), 6);
    assert_eq!(values[0], 273.15);
    // K u = F with K = tridiag(-1, 2, -1) and the rows of F given above.
    let expected = [273.15, 382.15, 489.15, 594.15, 697.15, 798.15];
    for i in 0..6 {
        assert!((values[i] - expected[i]).abs() < 1e-9, "node {}: {}", i, values[i]);
    }
}

#[test]
fn solve_with_the_right_end_fixed() {
    let mut problem = Problem1D::new(
        unit_mesh(2),
        BoundaryCondition::Neumann(Real(0.0)),
        BoundaryCondition::Dirichlet(Real(5.0)),
    );
    assert_eq!(problem.solve(), Ok(()));
    // [[1, -1], [-1, 2]] u = [1, 2 + 5]
    assert_eq!(node_values(&problem.mesh), vec![9.0, 8.0, 5.0]);
}

#[test]
fn solve_with_both_ends_fixed() {
    let mut problem = Problem1D::new(
        unit_mesh(2),
        BoundaryCondition::Dirichlet(Real(10.0)),
        BoundaryCondition::Dirichlet(Real(20.0)),
    );
    assert_eq!(problem.solve(), Ok(()));
    assert_eq!(node_values(&problem.mesh), vec![10.0, 16.0, 20.0]);
}

#[test]
fn flux_at_both_ends_is_singular() {
    let mut problem = Problem1D::new(
        unit_mesh(5),
        BoundaryCondition::Neumann(Real(50.0)),
        BoundaryCondition::Neumann(Real(100.0)),
    );
    assert_eq!(problem.solve(), Err(FemError::SingularSystem));
    assert_eq!(node_values(&problem.mesh), vec![0.0; 6]);
}

#[test]
fn heat_rod_from_end_to_end() {
    let n_elements: usize = 100;
    let mut mesh: Mesh1D<Real> = Mesh1D::uniform_mesh(Real(0.1), n_elements).unwrap();
    mesh.set_elasticity(Real(45.0));
    mesh.set_area(Real(0.01));
    mesh.set_internal_force(Real(-25.0));
    let mut problem = Problem1D::new(
        mesh,
        BoundaryCondition::Dirichlet(Real(373.15)),
        BoundaryCondition::Neumann(Real(-1000.0)),
    );
    assert_eq!(problem.n_dof(), 100);
    assert_eq!(problem.solve(), Ok(()));
    let values = node_values(&problem.mesh);
    assert_eq!(values.len(), n_elements + 1);
    assert_eq!(values[0], 373.15);
    for i in 0..n_elements {
        assert!(values[i + 1] < values[i], "not falling at node {}", i);
    }
    assert!(values.iter().all(|v| v.is_finite()));
}

#[test]
fn problems_of_ordinary_size_fit() {
    let problem = Problem1D::new(
        unit_mesh(7),
        BoundaryCondition::Neumann(Real(1.0)),
        BoundaryCondition::Neumann(Real(2.0)),
    );
    assert!(problem.fits());
}

#[test]
fn errors_say_what_went_wrong() {
    assert_eq!(FemError::IndexOutOfBounds.message(), "index out of bounds");
    assert_eq!(FemError::DimensionMismatch.message(), "matrix dimensions do not match");
    assert_eq!(FemError::DegenerateSystem.message(), "the problem leaves no free unknown");
    assert_eq!(FemError::SingularSystem.message(), "the system is singular");
    assert_eq!(FemError::InvalidMeshSpec.message(), "the mesh is not valid");
}

#[test]
fn entries_are_added_to_and_taken_from() {
    let mut m = filled(2, 2, &[1.0, 2.0, 3.0, 4.0]);
    accumulate(&mut m, 0, 1, Real(5.0));
    deduct(&mut m, 1, 0, Real(1.0));
    assert_eq!(m, filled(2, 2, &[1.0, 7.0, 2.0, 4.0]));
}
