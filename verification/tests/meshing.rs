use finite_element_method::error::FemError;
use finite_element_method::meshing::{is_all_positive, is_strictly_increasing, Mesh1D};
use finite_element_method::scalar::Scalar;

/// Double-precision numbers as the scalars of the kernel.
#[derive(Debug, Clone, Copy, PartialEq)]
struct Real(f64);

impl Scalar for Real {
    fn zero() -> Self {
        Real(0.0)
    }
    fn one() -> Self {
        Real(1.0)
    }
    fn from_usize(n: usize) -> Self {
        Real(n as f64)
    }
    fn tolerance() -> Self {
        Real(1e-12)
    }
    fn add(self, rhs: Self) -> Self {
        Real(self.0 + rhs.0)
    }
    fn sub(self, rhs: Self) -> Self {
        Real(self.0 - rhs.0)
    }
    fn mul(self, rhs: Self) -> Self {
        Real(self.0 * rhs.0)
    }
    fn div(self, rhs: Self) -> Self {
        Real(self.0 / rhs.0)
    }
    fn neg(self) -> Self {
        Real(-self.0)
    }
    fn lt(self, rhs: Self) -> bool {
        self.0 < rhs.0
    }
    fn zero_spec() -> Self {
        Self::zero()
    }
    fn one_spec() -> Self {
        Self::one()
    }
    fn from_usize_spec(n: usize) -> Self {
        Self::from_usize(n)
    }
    fn tolerance_spec() -> Self {
        Self::tolerance()
    }
    fn add_spec(self, rhs: Self) -> Self {
        self.add(rhs)
    }
    fn sub_spec(self, rhs: Self) -> Self {
        self.sub(rhs)
    }
    fn mul_spec(self, rhs: Self) -> Self {
        self.mul(rhs)
    }
    fn div_spec(self, rhs: Self) -> Self {
        self.div(rhs)
    }
    fn neg_spec(self) -> Self {
        self.neg()
    }
    fn lt_spec(self, rhs: Self) -> bool {
        self.lt(rhs)
    }
}

fn element_sizes(mesh: &Mesh1D<Real>) -> Vec<f64> {
    let mut v = Vec::new();
    let mut i = 0;
    while let Some(Real(x)) = mesh.get_element_size(i) {
        v.push(x);
        i += 1;
    }
    v
}

fn node_coordinates(mesh: &Mesh1D<Real>) -> Vec<f64> {
    let mut v = Vec::new();
    let mut i = 0;
    while let Some(Real(x)) = mesh.get_node_coordinates(i) {
        v.push(x);
        i += 1;
    }
    v
}

fn node_values(mesh: &Mesh1D<Real>) -> Vec<f64> {
    let mut v = Vec::new();
    let mut i = 0;
    while let Some(Real(x)) = mesh.get_node_values(i) {
        v.push(x);
        i += 1;
    }
    v
}

#[test]
fn test_uniform_mesh() {
    let mesh = Mesh1D::uniform_mesh(Real(10.0), 5).unwrap();
    assert_eq!(mesh.get_n_elements(), 5);
    assert_eq!(element_sizes(&mesh), vec![2.0, 2.0, 2.0, 2.0, 2.0]);
    assert_eq!(node_coordinates(&mesh), vec![0.0, 2.0, 4.0, 6.0, 8.0, 10.0]);
    assert_eq!(node_values(&mesh), vec![0.0; 6]);
}

#[test]
fn test_general_mesh() {
    let mesh = Mesh1D::general_mesh(vec![
        Real(0.0),
        Real(2.0),
        Real(4.0),
        Real(6.0),
        Real(8.0),
        Real(10.0),
    ])
    .unwrap();
    assert_eq!(mesh.get_n_elements(), 5);
    assert_eq!(element_sizes(&mesh), vec![2.0, 2.0, 2.0, 2.0, 2.0]);
    assert_eq!(node_coordinates(&mesh), vec![0.0, 2.0, 4.0, 6.0, 8.0, 10.0]);
    assert_eq!(node_values(&mesh), vec![0.0; 6]);
}

#[test]
fn test_getters() {
    let mesh = Mesh1D::uniform_mesh(Real(10.0), 5).unwrap();
    assert_eq!(mesh.get_n_elements(), 5);
    assert_eq!(mesh.get_element_size(0), Some(Real(2.0)));
    assert_eq!(mesh.get_node_coordinates(0), Some(Real(0.0)));
    assert_eq!(mesh.get_node_values(0), Some(Real(0.0)));
}

#[test]
fn getters_beyond_the_mesh() {
    let mesh = Mesh1D::uniform_mesh(Real(10.0), 5).unwrap();
    assert_eq!(mesh.get_element_size(4), Some(Real(2.0)));
    assert_eq!(mesh.get_element_size(5), None);
    assert_eq!(mesh.get_node_coordinates(5), Some(Real(10.0)));
    assert_eq!(mesh.get_node_coordinates(6), None);
    assert_eq!(mesh.get_node_values(5), Some(Real(0.0)));
    assert_eq!(mesh.get_node_values(6), None);
}

#[test]
fn uniform_mesh_is_an_arithmetic_sequence() {
    let mesh = Mesh1D::uniform_mesh(Real(3.0), 4).unwrap();
    assert_eq!(element_sizes(&mesh), vec![0.75; 4]);
    assert_eq!(node_coordinates(&mesh), vec![0.0, 0.75, 1.5, 2.25, 3.0]);
}

#[test]
fn uniform_mesh_without_elements() {
    assert_eq!(Mesh1D::uniform_mesh(Real(10.0), 0), Err(FemError::InvalidMeshSpec));
}

#[test]
fn uniform_mesh_that_does_not_advance() {
    assert_eq!(Mesh1D::uniform_mesh(Real(0.0), 3), Err(FemError::InvalidMeshSpec));
    assert_eq!(Mesh1D::uniform_mesh(Real(-1.0), 3), Err(FemError::InvalidMeshSpec));
    assert_eq!(Mesh1D::uniform_mesh(Real(f64::NAN), 3), Err(FemError::InvalidMeshSpec));
}

#[test]
fn general_mesh_of_uneven_elements() {
    let mesh = Mesh1D::general_mesh(vec![Real(0.0), Real(1.0), Real(4.0)]).unwrap();
    assert_eq!(mesh.get_n_elements(), 2);
    assert_eq!(element_sizes(&mesh), vec![1.0, 3.0]);
    assert_eq!(node_values(&mesh), vec![0.0; 3]);
}

#[test]
fn general_mesh_with_too_few_nodes() {
    assert_eq!(Mesh1D::<Real>::general_mesh(vec![]), Err(FemError::InvalidMeshSpec));
    assert_eq!(Mesh1D::general_mesh(vec![Real(1.0)]), Err(FemError::InvalidMeshSpec));
}

#[test]
fn general_mesh_that_does_not_increase() {
    assert_eq!(
        Mesh1D::general_mesh(vec![Real(0.0), Real(1.0), Real(1.0)]),
        Err(FemError::InvalidMeshSpec)
    );
    assert_eq!(
        Mesh1D::general_mesh(vec![Real(0.0), Real(2.0), Real(1.0)]),
        Err(FemError::InvalidMeshSpec)
    );
}

#[test]
fn material_starts_at_zero_and_can_be_set() {
    let mut mesh = Mesh1D::uniform_mesh(Real(1.0), 2).unwrap();
    assert_eq!(mesh.get_elasticity(), Real(0.0));
    assert_eq!(mesh.get_area(), Real(0.0));
    assert_eq!(mesh.get_internal_force(), Real(0.0));
    mesh.set_elasticity(Real(45.0));
    mesh.set_area(Real(0.01));
    mesh.set_internal_force(Real(-25.0));
    assert_eq!(mesh.get_elasticity(), Real(45.0));
    assert_eq!(mesh.get_area(), Real(0.01));
    assert_eq!(mesh.get_internal_force(), Real(-25.0));
    assert_eq!(element_sizes(&mesh), vec![0.5, 0.5]);
}

#[test]
fn node_values_can_be_replaced() {
    let mut mesh = Mesh1D::uniform_mesh(Real(1.0), 2).unwrap();
    mesh.set_node_values(vec![Real(1.0), Real(2.0), Real(3.0)]);
    assert_eq!(node_values(&mesh), vec![1.0, 2.0, 3.0]);
    assert_eq!(node_coordinates(&mesh), vec![0.0, 0.5, 1.0]);
}

#[test]
fn order_checks() {
    assert!(is_strictly_increasing::<Real>(&vec![]));
    assert!(is_strictly_increasing(&vec![Real(1.0)]));
    assert!(is_strictly_increasing(&vec![Real(1.0), Real(2.0)]));
    assert!(!is_strictly_increasing(&vec![Real(1.0), Real(2.0), Real(2.0)]));
    assert!(is_all_positive::<Real>(&vec![]));
    assert!(is_all_positive(&vec![Real(1.0), Real(0.5)]));
    assert!(!is_all_positive(&vec![Real(1.0), Real(0.0)]));
}
