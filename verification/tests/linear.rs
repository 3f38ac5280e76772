use finite_element_method::basis_functions::linear::{dN1, dN2, N1, N2};
use finite_element_method::scalar::{magnitude, negligible, zeros, Scalar};

/// Double-precision numbers as the scalars of the kernel.
#[derive(Debug, Clone, Copy, PartialEq)]
struct Real(f64);

impl Scalar for Real {
    fn zero() -> Self {
        Real(0.0)
    }
    fn one() -> Self {
        Real(1.0)
    }
    fn from_usize(n: usize) -> Self {
        Real(n as f64)
    }
    fn tolerance() -> Self {
        Real(1e-12)
    }
    fn add(self, rhs: Self) -> Self {
        Real(self.0 + rhs.0)
    }
    fn sub(self, rhs: Self) -> Self {
        Real(self.0 - rhs.0)
    }
    fn mul(self, rhs: Self) -> Self {
        Real(self.0 * rhs.0)
    }
    fn div(self, rhs: Self) -> Self {
        Real(self.0 / rhs.0)
    }
    fn neg(self) -> Self {
        Real(-self.0)
    }
    fn lt(self, rhs: Self) -> bool {
        self.0 < rhs.0
    }
    fn zero_spec() -> Self {
        Self::zero()
    }
    fn one_spec() -> Self {
        Self::one()
    }
    fn from_usize_spec(n: usize) -> Self {
        Self::from_usize(n)
    }
    fn tolerance_spec() -> Self {
        Self::tolerance()
    }
    fn add_spec(self, rhs: Self) -> Self {
        self.add(rhs)
    }
    fn sub_spec(self, rhs: Self) -> Self {
        self.sub(rhs)
    }
    fn mul_spec(self, rhs: Self) -> Self {
        self.mul(rhs)
    }
    fn div_spec(self, rhs: Self) -> Self {
        self.div(rhs)
    }
    fn neg_spec(self) -> Self {
        self.neg()
    }
    fn lt_spec(self, rhs: Self) -> bool {
        self.lt(rhs)
    }
}

#[test]
#[allow(non_snake_case)]
fn test_N1() {
    assert_eq!(N1(Real(-1.0)), Real(1.0));
    assert_eq!(N1(Real(0.0)), Real(0.5));
    assert_eq!(N1(Real(1.0)), Real(0.0));
}

#[test]
#[allow(non_snake_case)]
fn test_dN1() {
    assert_eq!(dN1(Real(-1.0)), Real(-0.5));
    assert_eq!(dN1(Real(0.0)), Real(-0.5));
    assert_eq!(dN1(Real(1.0)), Real(-0.5));
}

#[test]
#[allow(non_snake_case)]
fn test_N2() {
    assert_eq!(N2(Real(-1.0)), Real(0.0));
    assert_eq!(N2(Real(0.0)), Real(0.5));
    assert_eq!(N2(Real(1.0)), Real(1.0));
}

#[test]
#[allow(non_snake_case)]
fn test_dN2() {
    assert_eq!(dN2(Real(-1.0)), Real(0.5));
    assert_eq!(dN2(Real(0.0)), Real(0.5));
    assert_eq!(dN2(Real(1.0)), Real(0.5));
}

#[test]
fn magnitude_drops_the_sign() {
    assert_eq!(magnitude(Real(-2.5)), Real(2.5));
    assert_eq!(magnitude(Real(2.5)), Real(2.5));
    assert_eq!(magnitude(Real(0.0)), Real(0.0));
}

#[test]
fn negligible_at_and_below_the_tolerance() {
    assert!(negligible(Real(0.0)));
    assert!(negligible(Real(1e-12)));
    assert!(negligible(Real(-1e-13)));
    assert!(negligible(Real(f64::NAN)));
    assert!(!negligible(Real(1e-11)));
    assert!(!negligible(Real(-1.0)));
}

#[test]
fn zeros_of_a_length() {
    assert_eq!(zeros::<Real>(0), vec![]);
    assert_eq!(zeros::<Real>(3), vec![Real(0.0); 3]);
}
