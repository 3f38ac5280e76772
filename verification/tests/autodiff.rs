use finite_element_method::maths::autodiff::DualNumber;
use finite_element_method::scalar::Scalar;

/// Double-precision numbers as the scalars of the kernel.
#[derive(Debug, Clone, Copy, PartialEq)]
struct Real(f64);

impl Scalar for Real {
    fn zero() -> Self {
        Real(0.0)
    }
    fn one() -> Self {
        Real(1.0)
    }
    fn from_usize(n: usize) -> Self {
        Real(n as f64)
    }
    fn tolerance() -> Self {
        Real(1e-12)
    }
    fn add(self, rhs: Self) -> Self {
        Real(self.0 + rhs.0)
    }
    fn sub(self, rhs: Self) -> Self {
        Real(self.0 - rhs.0)
    }
    fn mul(self, rhs: Self) -> Self {
        Real(self.0 * rhs.0)
    }
    fn div(self, rhs: Self) -> Self {
        Real(self.0 / rhs.0)
    }
    fn neg(self) -> Self {
        Real(-self.0)
    }
    fn lt(self, rhs: Self) -> bool {
        self.0 < rhs.0
    }
    fn zero_spec() -> Self {
        Self::zero()
    }
    fn one_spec() -> Self {
        Self::one()
    }
    fn from_usize_spec(n: usize) -> Self {
        Self::from_usize(n)
    }
    fn tolerance_spec() -> Self {
        Self::tolerance()
    }
    fn add_spec(self, rhs: Self) -> Self {
        self.add(rhs)
    }
    fn sub_spec(self, rhs: Self) -> Self {
        self.sub(rhs)
    }
    fn mul_spec(self, rhs: Self) -> Self {
        self.mul(rhs)
    }
    fn div_spec(self, rhs: Self) -> Self {
        self.div(rhs)
    }
    fn neg_spec(self) -> Self {
        self.neg()
    }
    fn lt_spec(self, rhs: Self) -> bool {
        self.lt(rhs)
    }
}

#[test]
fn addition_with_scalar() {
    let x = DualNumber::new(Real(2.0), Real(1.0));
    let y = x.add_scalar(Real(3.0));
    assert_eq!(y.f, Real(5.0));
    assert_eq!(y.d, Real(1.0));
}

#[test]
fn subtraction_with_scalar() {
    let x = DualNumber::new(Real(2.0), Real(1.0));
    let y = x.sub_scalar(Real(3.0));
    assert_eq!(y.f, Real(-1.0));
    assert_eq!(y.d, Real(1.0));
}

#[test]
fn multiplication_with_scalar() {
    let x = DualNumber::new(Real(2.0), Real(1.0));
    let y = x.mul_scalar(Real(3.0));
    assert_eq!(y.f, Real(6.0));
    assert_eq!(y.d, Real(3.0));
}

#[test]
fn division_with_scalar() {
    let x = DualNumber::new(Real(2.0), Real(1.0));
    let y = x.div_scalar(Real(2.0));
    assert_eq!(y.f, Real(1.0));
    assert_eq!(y.d, Real(0.5));
}

#[test]
fn linear_function() {
    let x = DualNumber::new(Real(3.0), Real(1.0));
    let y = x.rmul(Real(2.0)).add_scalar(Real(5.0));
    assert_eq!(y.f, Real(11.0));
    assert_eq!(y.d, Real(2.0));
}

#[test]
fn quadratic_function_mult() {
    let x = DualNumber::new(Real(3.0), Real(1.0));
    let y = x.mul(x).add(x.rmul(Real(2.0))).add_scalar(Real(1.0)); // (x + 1)^2
    assert_eq!(y.f, Real(16.0));
    assert_eq!(y.d, Real(8.0)); // dy/dx = 2x + 2 = 8 at x=3
}

#[test]
fn sum_and_difference_of_duals() {
    let x = DualNumber::new(Real(3.0), Real(1.0));
    let y = DualNumber::new(Real(5.0), Real(4.0));
    assert_eq!(x.add(y), DualNumber::new(Real(8.0), Real(5.0)));
    assert_eq!(x.sub(y), DualNumber::new(Real(-2.0), Real(-3.0)));
    assert_eq!(x.neg(), DualNumber::new(Real(-3.0), Real(-1.0)));
}

#[test]
fn product_and_quotient_of_duals() {
    let x = DualNumber::new(Real(3.0), Real(1.0));
    let y = DualNumber::new(Real(2.0), Real(4.0));
    // (3 * 2, 3 * 4 + 1 * 2)
    assert_eq!(x.mul(y), DualNumber::new(Real(6.0), Real(14.0)));
    // (3 / 2, (1 * 2 - 3 * 4) / (2 * 2))
    assert_eq!(x.div(y), DualNumber::new(Real(1.5), Real(-2.5)));
}

#[test]
fn constants_on_the_left() {
    let x = DualNumber::new(Real(2.0), Real(3.0));
    assert_eq!(x.radd(Real(5.0)), DualNumber::new(Real(7.0), Real(3.0)));
    assert_eq!(x.rsub(Real(5.0)), DualNumber::new(Real(3.0), Real(-3.0)));
    assert_eq!(x.rmul(Real(5.0)), DualNumber::new(Real(10.0), Real(15.0)));
    // (8 / 2, -8 * 3 / (2 * 2))
    assert_eq!(x.rdiv(Real(8.0)), DualNumber::new(Real(4.0), Real(-6.0)));
}
