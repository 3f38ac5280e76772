#![allow(non_snake_case)]

use vstd::prelude::*;
use crate::scalar::Scalar;

verus! {

/// One half, as the quotient of one and two.
pub open spec fn half_spec<T: Scalar>() -> T {
    T::one_spec().div_spec(T::from_usize_spec(2))
}

/// The first linear shape function on the reference element: `(1 - xi) / 2`.
pub open spec fn N1_spec<T: Scalar>(xi: T) -> T {
    T::one_spec().sub_spec(xi).div_spec(T::from_usize_spec(2))
}

/// The slope of the first linear shape function: minus one half.
pub open spec fn dN1_spec<T: Scalar>() -> T {
    half_spec::<T>().neg_spec()
}

/// The second linear shape function on the reference element: `(1 + xi) / 2`.
pub open spec fn N2_spec<T: Scalar>(xi: T) -> T {
    T::one_spec().add_spec(xi).div_spec(T::from_usize_spec(2))
}

/// The slope of the second linear shape function: one half.
pub open spec fn dN2_spec<T: Scalar>() -> T {
    half_spec::<T>()
}

/// The first linear shape function at `xi`: one at the left node, zero at the
/// right node.
pub fn N1<T: Scalar>(xi: T) -> (r: T)
    ensures
        r == N1_spec(xi),
{
    T::one().sub(xi).div(T::from_usize(2))
}

/// The slope of the first linear shape function, the same at every `_xi`.
pub fn dN1<T: Scalar>(_xi: T) -> (r: T)
    ensures
        r == dN1_spec::<T>(),
{
    T::one().div(T::from_usize(2)).neg()
}

/// The second linear shape function at `xi`: zero at the left node, one at the
/// right node.
pub fn N2<T: Scalar>(xi: T) -> (r: T)
    ensures
        r == N2_spec(xi),
{
    T::one().add(xi).div(T::from_usize(2))
}

/// The slope of the second linear shape function, the same at every `_xi`.
pub fn dN2<T: Scalar>(_xi: T) -> (r: T)
    ensures
        r == dN2_spec::<T>(),
{
    T::one().div(T::from_usize(2))
}

} // verus!
