use vstd::prelude::*;

verus! {

/// The numbers that matrices, meshes and problems are made of.
///
/// Every operation is total and is a function of its operands alone. Its
/// result is named by the spec function that stands beside it, and the
/// contracts of the crate are written over those names. Nothing else is asked
/// of a scalar here: rounding arithmetic qualifies as well as exact
/// arithmetic. What holds in exact arithmetic only is stated for the scalars
/// that are a `Ring` or a `Field`.
///
/// Whoever implements the trait for a type of their own answers for its
/// operations being such functions; `Residue` is the implementation that this
/// crate proves.
pub trait Scalar: Copy {
    /// The additive unit.
    spec fn zero_spec() -> Self;

    /// The multiplicative unit.
    spec fn one_spec() -> Self;

    /// The scalar that stands for the count `n`.
    spec fn from_usize_spec(n: usize) -> Self;

    /// The magnitude that a pivot must exceed for a division by it to count
    /// as safe.
    spec fn tolerance_spec() -> Self;

    /// The sum.
    spec fn add_spec(self, rhs: Self) -> Self;

    /// The difference.
    spec fn sub_spec(self, rhs: Self) -> Self;

    /// The product.
    spec fn mul_spec(self, rhs: Self) -> Self;

    /// The quotient.
    spec fn div_spec(self, rhs: Self) -> Self;

    /// The negation.
    spec fn neg_spec(self) -> Self;

    /// Strictly less than.
    spec fn lt_spec(self, rhs: Self) -> bool;

    /// The additive unit.
    fn zero() -> (r: Self)
        ensures
            r == Self::zero_spec(),
    ;

    /// The multiplicative unit.
    fn one() -> (r: Self)
        ensures
            r == Self::one_spec(),
    ;

    /// The scalar that stands for the count `n`.
    fn from_usize(n: usize) -> (r: Self)
        ensures
            r == Self::from_usize_spec(n),
    ;

    /// The magnitude that a pivot must exceed.
    fn tolerance() -> (r: Self)
        ensures
            r == Self::tolerance_spec(),
    ;

    /// The sum.
    fn add(self, rhs: Self) -> (r: Self)
        ensures
            r == self.add_spec(rhs),
    ;

    /// The difference.
    fn sub(self, rhs: Self) -> (r: Self)
        ensures
            r == self.sub_spec(rhs),
    ;

    /// The product.
    fn mul(self, rhs: Self) -> (r: Self)
        ensures
            r == self.mul_spec(rhs),
    ;

    /// The quotient, whatever the divisor.
    fn div(self, rhs: Self) -> (r: Self)
        ensures
            r == self.div_spec(rhs),
    ;

    /// The negation.
    fn neg(self) -> (r: Self)
        ensures
            r == self.neg_spec(),
    ;

    /// Whether `self` lies strictly below `rhs`.
    fn lt(self, rhs: Self) -> (r: bool)
        ensures
            r == self.lt_spec(rhs),
    ;
}

/// The magnitude of `x`: `x` itself unless it lies below zero, in which case
/// its negation.
pub open spec fn magnitude_spec<T: Scalar>(x: T) -> T {
    if x.lt_spec(T::zero_spec()) {
        x.neg_spec()
    } else {
        x
    }
}

/// The magnitude of `x`.
pub fn magnitude<T: Scalar>(x: T) -> (r: T)
    ensures
        r == magnitude_spec(x),
{
    if x.lt(T::zero()) {
        x.neg()
    } else {
        x
    }
}

/// Whether `x` is too small to serve as a pivot: its magnitude does not exceed
/// the tolerance of the scalar type.
pub open spec fn negligible_spec<T: Scalar>(x: T) -> bool {
    !T::tolerance_spec().lt_spec(magnitude_spec(x))
}

/// Whether `x` is too small to serve as a pivot.
pub fn negligible<T: Scalar>(x: T) -> (r: bool)
    ensures
        r == negligible_spec(x),
{
    !T::tolerance().lt(magnitude(x))
}

/// `n` zeros.
pub fn zeros<T: Scalar>(n: usize) -> (v: Vec<T>)
    ensures
        v@ == Seq::new(n as nat, |i: int| T::zero_spec()),
{
    let mut v: Vec<T> = Vec::new();
    let mut i: usize = 0;
    while i < n
        invariant
            i <= n,
            v@.len() == i,
            forall|k: int| 0 <= k < i ==> v@[k] == T::zero_spec(),
        decreases n - i,
    {
        v.push(T::zero());
        i += 1;
    }
    proof {
        assert(v@ =~= Seq::new(n as nat, |i: int| T::zero_spec()));
    }
    v
}

} // verus!
