use vstd::prelude::*;
use crate::scalar::Scalar;

verus! {

/// A value together with its derivative, for differentiating as one computes.
#[derive(Debug, Copy, PartialEq)]
pub struct DualNumber<T> {
    /// The value.
    pub f: T,
    /// The derivative.
    pub d: T,
}

impl<T: Copy> Clone for DualNumber<T> {
    fn clone(&self) -> (r: Self)
        ensures
            r == *self,
    {
        *self
    }
}

impl<T: Scalar> DualNumber<T> {
    /// The dual number of value `f` and derivative `d`.
    pub fn new(f: T, d: T) -> (r: Self)
        ensures
            r == (DualNumber { f, d }),
    {
        DualNumber { f, d }
    }

    /// The sum: values and derivatives add.
    pub fn add(self, other: Self) -> (r: Self)
        ensures
            r == (DualNumber { f: self.f.add_spec(other.f), d: self.d.add_spec(other.d) }),
    {
        DualNumber { f: self.f.add(other.f), d: self.d.add(other.d) }
    }

    /// The difference: values and derivatives subtract.
    pub fn sub(self, other: Self) -> (r: Self)
        ensures
            r == (DualNumber { f: self.f.sub_spec(other.f), d: self.d.sub_spec(other.d) }),
    {
        DualNumber { f: self.f.sub(other.f), d: self.d.sub(other.d) }
    }

    /// The product, by the product rule.
    pub fn mul(self, other: Self) -> (r: Self)
        ensures
            r == (DualNumber {
                f: self.f.mul_spec(other.f),
                d: self.f.mul_spec(other.d).add_spec(self.d.mul_spec(other.f)),
            }),
    {
        DualNumber {
            f: self.f.mul(other.f),
            d: self.f.mul(other.d).add(self.d.mul(other.f)),
        }
    }

    /// The quotient, by the quotient rule.
    pub fn div(self, other: Self) -> (r: Self)
        ensures
            r == (DualNumber {
                f: self.f.div_spec(other.f),
                d: self.d.mul_spec(other.f).sub_spec(self.f.mul_spec(other.d)).div_spec(
                    other.f.mul_spec(other.f),
                ),
            }),
    {
        DualNumber {
            f: self.f.div(other.f),
            d: self.d.mul(other.f).sub(self.f.mul(other.d)).div(other.f.mul(other.f)),
        }
    }

    /// The negation: value and derivative change sign.
    pub fn neg(self) -> (r: Self)
        ensures
            r == (DualNumber { f: self.f.neg_spec(), d: self.d.neg_spec() }),
    {
        DualNumber { f: self.f.neg(), d: self.d.neg() }
    }

    /// The dual number plus the constant `s`.
    pub fn add_scalar(self, s: T) -> (r: Self)
        ensures
            r == (DualNumber { f: self.f.add_spec(s), d: self.d }),
    {
        DualNumber { f: self.f.add(s), d: self.d }
    }

    /// The dual number less the constant `s`.
    pub fn sub_scalar(self, s: T) -> (r: Self)
        ensures
            r == (DualNumber { f: self.f.sub_spec(s), d: self.d }),
    {
        DualNumber { f: self.f.sub(s), d: self.d }
    }

    /// The dual number times the constant `s`.
    pub fn mul_scalar(self, s: T) -> (r: Self)
        ensures
            r == (DualNumber { f: self.f.mul_spec(s), d: self.d.mul_spec(s) }),
    {
        DualNumber { f: self.f.mul(s), d: self.d.mul(s) }
    }

    /// The dual number over the constant `s`.
    pub fn div_scalar(self, s: T) -> (r: Self)
        ensures
            r == (DualNumber { f: self.f.div_spec(s), d: self.d.div_spec(s) }),
    {
        DualNumber { f: self.f.div(s), d: self.d.div(s) }
    }

    /// The constant `s` plus the dual number.
    pub fn radd(self, s: T) -> (r: Self)
        ensures
            r == (DualNumber { f: s.add_spec(self.f), d: self.d }),
    {
        DualNumber { f: s.add(self.f), d: self.d }
    }

    /// The constant `s` less the dual number.
    pub fn rsub(self, s: T) -> (r: Self)
        ensures
            r == (DualNumber { f: s.sub_spec(self.f), d: self.d.neg_spec() }),
    {
        DualNumber { f: s.sub(self.f), d: self.d.neg() }
    }

    /// The constant `s` times the dual number.
    pub fn rmul(self, s: T) -> (r: Self)
        ensures
            r == (DualNumber { f: s.mul_spec(self.f), d: s.mul_spec(self.d) }),
    {
        DualNumber { f: s.mul(self.f), d: s.mul(self.d) }
    }

    /// The constant `s` over the dual number.
    pub fn rdiv(self, s: T) -> (r: Self)
        ensures
            r == (DualNumber {
                f: s.div_spec(self.f),
                d: s.neg_spec().mul_spec(self.d).div_spec(self.f.mul_spec(self.f)),
            }),
    {
        DualNumber { f: s.div(self.f), d: s.neg().mul(self.d).div(self.f.mul(self.f)) }
    }
}

} // verus!
