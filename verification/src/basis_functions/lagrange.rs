use vstd::prelude::*;
use crate::error::FemError;
use crate::scalar::Scalar;

verus! {

/// Where node `i` of the `order + 1` evenly spaced nodes lies on the
/// reference element: `2 * (i / order) - 1`.
pub open spec fn node_spec<T: Scalar>(order: usize, i: usize) -> T {
    T::from_usize_spec(2).mul_spec(
        T::from_usize_spec(i).div_spec(T::from_usize_spec(order)),
    ).sub_spec(T::one_spec())
}

/// The product of `x - node` over the first `m` nodes but the `n`-th.
pub open spec fn numerator_spec<T: Scalar>(x: T, order: usize, n: usize, m: nat) -> T
    decreases m,
{
    if m == 0 {
        T::one_spec()
    } else if m == n {
        numerator_spec(x, order, n, (m - 1) as nat)
    } else {
        numerator_spec(x, order, n, (m - 1) as nat).mul_spec(
            x.sub_spec(node_spec(order, (m - 1) as usize)),
        )
    }
}

/// The product of `node_n - node` over the first `m` nodes but the `n`-th.
pub open spec fn denominator_spec<T: Scalar>(order: usize, n: usize, m: nat) -> T
    decreases m,
{
    if m == 0 {
        T::one_spec()
    } else if m == n {
        denominator_spec(order, n, (m - 1) as nat)
    } else {
        denominator_spec::<T>(order, n, (m - 1) as nat).mul_spec(
            node_spec::<T>(order, (n - 1) as usize).sub_spec(node_spec(order, (m - 1) as usize)),
        )
    }
}

/// The value at `x` of the `n`-th Lagrange polynomial of the given order on
/// evenly spaced nodes, counted from one.
pub open spec fn lagrange_spec<T: Scalar>(x: T, order: usize, n: usize) -> T {
    numerator_spec(x, order, n, (order + 1) as nat).div_spec(
        denominator_spec(order, n, (order + 1) as nat),
    )
}

/// Where node `i` of the evenly spaced nodes of the given order lies.
pub fn node<T: Scalar>(order: usize, i: usize) -> (r: T)
    ensures
        r == node_spec::<T>(order, i),
{
    T::from_usize(2).mul(T::from_usize(i).div(T::from_usize(order))).sub(T::one())
}

/// The value at `x` of the `n`-th Lagrange polynomial of the given order on
/// the reference element, with `n` counted from one, or `IndexOutOfBounds`
/// where the order has no such polynomial.
pub fn lagrange<T: Scalar>(x: T, order: usize, n: usize) -> (res: Result<T, FemError>)
    requires
        order < usize::MAX,
    ensures
        res == if 1 <= n <= order + 1 {
            Ok::<T, FemError>(lagrange_spec(x, order, n))
        } else {
            Err::<T, FemError>(FemError::IndexOutOfBounds)
        },
{
    if n == 0 || n > order + 1 {
        return Err(FemError::IndexOutOfBounds);
    }
    let own: T = node(order, n - 1);
    let mut numerator: T = T::one();
    let mut denominator: T = T::one();
    let mut i: usize = 0;
    while i < order + 1
        invariant
            i <= order + 1,
            order < usize::MAX,
            1 <= n <= order + 1,
            own == node_spec::<T>(order, (n - 1) as usize),
            numerator == numerator_spec(x, order, n, i as nat),
            denominator == denominator_spec::<T>(order, n, i as nat),
        decreases order + 1 - i,
    {
        if i + 1 != n {
            let at: T = node(order, i);
            numerator = numerator.mul(x.sub(at));
            denominator = denominator.mul(own.sub(at));
        }
        i += 1;
    }
    Ok(numerator.div(denominator))
}

} // verus!
