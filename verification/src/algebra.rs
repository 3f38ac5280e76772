use vstd::prelude::*;
use crate::scalar::{magnitude_spec, negligible_spec, Scalar};

verus! {

/// Scalars whose arithmetic is exact: addition and multiplication obey the
/// laws of a commutative ring.
///
/// A type may hold values that stand for no element of the ring, such as a
/// residue written with a number above the modulus. `canonical` tells the
/// proper values from those. Every operation gives a canonical result
/// whatever it is given, so only the two laws of the units, which speak of an
/// operand as it stands, ask for a canonical operand.
pub trait Ring: Scalar {
    /// Whether the value is the proper way to write an element of the ring.
    spec fn canonical(self) -> bool;

    /// The units and the result of every operation are canonical.
    proof fn lemma_canonical_results(a: Self, b: Self)
        ensures
            Self::zero_spec().canonical(),
            Self::one_spec().canonical(),
            a.add_spec(b).canonical(),
            a.sub_spec(b).canonical(),
            a.mul_spec(b).canonical(),
            a.neg_spec().canonical(),
    ;

    /// A sum does not depend on the order of its terms.
    proof fn lemma_add_commutative(a: Self, b: Self)
        ensures
            a.add_spec(b) == b.add_spec(a),
    ;

    /// A sum of three does not depend on which two are added first.
    proof fn lemma_add_associative(a: Self, b: Self, c: Self)
        ensures
            a.add_spec(b).add_spec(c) == a.add_spec(b.add_spec(c)),
    ;

    /// Adding zero changes nothing.
    proof fn lemma_add_zero(a: Self)
        requires
            a.canonical(),
        ensures
            a.add_spec(Self::zero_spec()) == a,
    ;

    /// A value and its negation add up to zero.
    proof fn lemma_add_neg(a: Self)
        ensures
            a.add_spec(a.neg_spec()) == Self::zero_spec(),
    ;

    /// Taking away is adding the negation.
    proof fn lemma_sub_is_add_neg(a: Self, b: Self)
        ensures
            a.sub_spec(b) == a.add_spec(b.neg_spec()),
    ;

    /// A product does not depend on the order of its factors.
    proof fn lemma_mul_commutative(a: Self, b: Self)
        ensures
            a.mul_spec(b) == b.mul_spec(a),
    ;

    /// A product of three does not depend on which two are multiplied first.
    proof fn lemma_mul_associative(a: Self, b: Self, c: Self)
        ensures
            a.mul_spec(b).mul_spec(c) == a.mul_spec(b.mul_spec(c)),
    ;

    /// Multiplying by one changes nothing.
    proof fn lemma_mul_one(a: Self)
        requires
            a.canonical(),
        ensures
            a.mul_spec(Self::one_spec()) == a,
    ;

    /// Multiplication distributes over addition.
    proof fn lemma_mul_distributive(a: Self, b: Self, c: Self)
        ensures
            a.mul_spec(b.add_spec(c)) == a.mul_spec(b).add_spec(a.mul_spec(c)),
    ;

    /// The count of nothing is zero.
    proof fn lemma_from_usize_zero()
        ensures
            Self::from_usize_spec(0) == Self::zero_spec(),
    ;

    /// The next count is one more.
    proof fn lemma_from_usize_succ(n: usize)
        requires
            n < usize::MAX,
        ensures
            Self::from_usize_spec((n + 1) as usize) == Self::from_usize_spec(n).add_spec(
                Self::one_spec(),
            ),
    ;
}

/// Exact scalars in which every element but zero can be divided by, and in
/// which zero, and nothing but zero, is negligible as a pivot.
pub trait Field: Ring {
    /// A quotient is canonical.
    proof fn lemma_div_canonical(a: Self, b: Self)
        ensures
            a.div_spec(b).canonical(),
    ;

    /// Dividing by a value other than zero is undone by multiplying with it.
    proof fn lemma_div_mul(a: Self, b: Self)
        requires
            a.canonical(),
            b.canonical(),
            b != Self::zero_spec(),
        ensures
            a.div_spec(b).mul_spec(b) == a,
    ;

    /// Zero is negligible.
    proof fn lemma_zero_negligible()
        ensures
            negligible_spec(Self::zero_spec()),
    ;

    /// One is not zero.
    proof fn lemma_one_not_zero()
        ensures
            Self::one_spec() != Self::zero_spec(),
    ;

    /// Nothing but zero is negligible.
    proof fn lemma_negligible_is_zero(a: Self)
        requires
            a.canonical(),
            negligible_spec(a),
        ensures
            a == Self::zero_spec(),
    ;

    /// The tolerance is the magnitude of zero.
    proof fn lemma_tolerance_exact()
        ensures
            Self::tolerance_spec() == magnitude_spec(Self::zero_spec()),
    ;

    /// No magnitude lies below that of zero.
    proof fn lemma_zero_is_least(a: Self)
        ensures
            !magnitude_spec(a).lt_spec(magnitude_spec(Self::zero_spec())),
    ;
}

/// In a field, two canonical values that give the same product with a value
/// other than zero are the same.
pub proof fn lemma_mul_cancel<T: Field>(u: T, a: T, b: T)
    requires
        u.canonical(),
        a.canonical(),
        b.canonical(),
        u != T::zero_spec(),
        u.mul_spec(a) == u.mul_spec(b),
    ensures
        a == b,
{
    let one = T::one_spec();
    let v = one.div_spec(u);
    T::lemma_canonical_results(one, one);
    T::lemma_div_mul(one, u);
    // a == a * (v * u) == (u * a) * v, and the same for b.
    T::lemma_mul_one(a);
    T::lemma_mul_commutative(v, u);
    T::lemma_mul_associative(a, u, v);
    T::lemma_mul_commutative(a, u);
    T::lemma_mul_one(b);
    T::lemma_mul_associative(b, u, v);
    T::lemma_mul_commutative(b, u);
}

/// Zero added from the left changes nothing.
pub proof fn lemma_zero_add<T: Ring>(a: T)
    requires
        a.canonical(),
    ensures
        T::zero_spec().add_spec(a) == a,
{
    T::lemma_add_commutative(T::zero_spec(), a);
    T::lemma_add_zero(a);
}

/// What is added on the right can be taken away again.
pub proof fn lemma_add_cancel<T: Ring>(a: T, b: T)
    requires
        a.canonical(),
    ensures
        a.add_spec(b).add_spec(b.neg_spec()) == a,
        a.add_spec(b).sub_spec(b) == a,
{
    T::lemma_add_associative(a, b, b.neg_spec());
    T::lemma_add_neg(b);
    T::lemma_add_zero(a);
    T::lemma_sub_is_add_neg(a.add_spec(b), b);
}

/// What is taken away can be added again.
pub proof fn lemma_sub_cancel<T: Ring>(a: T, b: T)
    requires
        a.canonical(),
    ensures
        a.sub_spec(b).add_spec(b) == a,
{
    T::lemma_sub_is_add_neg(a, b);
    T::lemma_add_associative(a, b.neg_spec(), b);
    T::lemma_add_commutative(b.neg_spec(), b);
    T::lemma_add_neg(b);
    T::lemma_add_zero(a);
}

/// Two sums of two can be regrouped crosswise.
pub proof fn lemma_add_shuffle<T: Ring>(a: T, b: T, c: T, d: T)
    ensures
        a.add_spec(b).add_spec(c.add_spec(d)) == a.add_spec(c).add_spec(b.add_spec(d)),
{
    // (a + b) + (c + d) == a + (b + (c + d)) == a + ((b + c) + d)
    T::lemma_add_associative(a, b, c.add_spec(d));
    T::lemma_add_associative(b, c, d);
    // == a + ((c + b) + d) == a + (c + (b + d)) == (a + c) + (b + d)
    T::lemma_add_commutative(b, c);
    T::lemma_add_associative(c, b, d);
    T::lemma_add_associative(a, c, b.add_spec(d));
}

/// A product with zero is zero.
pub proof fn lemma_mul_zero<T: Ring>(a: T)
    ensures
        a.mul_spec(T::zero_spec()) == T::zero_spec(),
        T::zero_spec().mul_spec(a) == T::zero_spec(),
{
    let zero = T::zero_spec();
    let z = a.mul_spec(zero);
    T::lemma_canonical_results(a, zero);
    T::lemma_add_zero(zero);
    T::lemma_mul_distributive(a, zero, zero);
    assert(z == z.add_spec(z));
    lemma_add_cancel(z, z);
    T::lemma_add_neg(z);
    T::lemma_mul_commutative(a, zero);
}

/// Multiplication distributes over addition from the right as well.
pub proof fn lemma_mul_distributive_right<T: Ring>(a: T, b: T, c: T)
    ensures
        a.add_spec(b).mul_spec(c) == a.mul_spec(c).add_spec(b.mul_spec(c)),
{
    T::lemma_mul_commutative(a.add_spec(b), c);
    T::lemma_mul_distributive(c, a, b);
    T::lemma_mul_commutative(c, a);
    T::lemma_mul_commutative(c, b);
}

/// The negation of a product is the product with one factor negated.
pub proof fn lemma_mul_neg<T: Ring>(a: T, b: T)
    ensures
        a.mul_spec(b.neg_spec()) == a.mul_spec(b).neg_spec(),
        a.neg_spec().mul_spec(b) == a.mul_spec(b).neg_spec(),
{
    // a*b + a*(-b) == a*(b + -b) == a*0 == 0
    T::lemma_canonical_results(a, b.neg_spec());
    T::lemma_canonical_results(b, a.neg_spec());
    T::lemma_mul_distributive(a, b, b.neg_spec());
    T::lemma_add_neg(b);
    lemma_mul_zero(a);
    lemma_neg_unique(a.mul_spec(b), a.mul_spec(b.neg_spec()));
    T::lemma_mul_commutative(a.neg_spec(), b);
    T::lemma_mul_commutative(a, b);
    T::lemma_mul_distributive(b, a, a.neg_spec());
    T::lemma_add_neg(a);
    lemma_mul_zero(b);
    lemma_neg_unique(b.mul_spec(a), b.mul_spec(a.neg_spec()));
}

/// Whatever adds up to zero with `a` is the negation of `a`.
pub proof fn lemma_neg_unique<T: Ring>(a: T, b: T)
    requires
        b.canonical(),
        a.add_spec(b) == T::zero_spec(),
    ensures
        b == a.neg_spec(),
{
    // b == 0 + b == (-a + a) + b == -a + (a + b) == -a + 0 == -a
    T::lemma_canonical_results(a, b);
    lemma_zero_add(b);
    T::lemma_add_neg(a);
    T::lemma_add_commutative(a, a.neg_spec());
    T::lemma_add_associative(a.neg_spec(), a, b);
    T::lemma_add_zero(a.neg_spec());
}

/// Negating twice changes nothing.
pub proof fn lemma_neg_neg<T: Ring>(a: T)
    requires
        a.canonical(),
    ensures
        a.neg_spec().neg_spec() == a,
{
    T::lemma_add_neg(a);
    T::lemma_add_commutative(a, a.neg_spec());
    lemma_neg_unique(a.neg_spec(), a);
}

/// A product does not change when both factors are negated.
pub proof fn lemma_neg_mul_neg<T: Ring>(a: T, b: T)
    ensures
        a.neg_spec().mul_spec(b.neg_spec()) == a.mul_spec(b),
{
    T::lemma_canonical_results(a, b);
    lemma_mul_neg(a.neg_spec(), b);
    lemma_mul_neg(a, b);
    lemma_neg_neg(a.mul_spec(b));
}

/// The negation of zero is zero.
pub proof fn lemma_neg_zero<T: Ring>()
    ensures
        T::zero_spec().neg_spec() == T::zero_spec(),
{
    let zero = T::zero_spec();
    T::lemma_canonical_results(zero, zero);
    T::lemma_add_zero(zero);
    lemma_neg_unique(zero, zero);
}

/// Taking zero away changes nothing.
pub proof fn lemma_sub_zero<T: Ring>(a: T)
    requires
        a.canonical(),
    ensures
        a.sub_spec(T::zero_spec()) == a,
{
    T::lemma_sub_is_add_neg(a, T::zero_spec());
    lemma_neg_zero::<T>();
    T::lemma_add_zero(a);
}

/// A value less itself is zero.
pub proof fn lemma_sub_self<T: Ring>(a: T)
    ensures
        a.sub_spec(a) == T::zero_spec(),
{
    T::lemma_sub_is_add_neg(a, a);
    T::lemma_add_neg(a);
}

/// Multiplication distributes over subtraction from the right.
pub proof fn lemma_sub_mul<T: Ring>(a: T, b: T, c: T)
    ensures
        a.sub_spec(b).mul_spec(c) == a.mul_spec(c).sub_spec(b.mul_spec(c)),
{
    T::lemma_sub_is_add_neg(a, b);
    lemma_mul_distributive_right(a, b.neg_spec(), c);
    lemma_mul_neg(b, c);
    T::lemma_sub_is_add_neg(a.mul_spec(c), b.mul_spec(c));
}

/// What is added to one term and taken from the other leaves the sum as it
/// was.
pub proof fn lemma_add_sub_regroup<T: Ring>(a: T, b: T, c: T)
    ensures
        a.add_spec(c).add_spec(b.sub_spec(c)) == a.add_spec(b),
{
    T::lemma_sub_is_add_neg(b, c);
    lemma_add_shuffle(a, c, b, c.neg_spec());
    T::lemma_add_neg(c);
    T::lemma_canonical_results(a, b);
    T::lemma_add_zero(a.add_spec(b));
}

/// Two canonical values that give the same sum with a third are the same.
pub proof fn lemma_add_cancel_right<T: Ring>(a: T, b: T, c: T)
    requires
        a.canonical(),
        b.canonical(),
        a.add_spec(c) == b.add_spec(c),
    ensures
        a == b,
{
    lemma_add_cancel(a, c);
    lemma_add_cancel(b, c);
}

/// Two canonical values that give the same difference with a third are the
/// same.
pub proof fn lemma_sub_cancel_right<T: Ring>(a: T, b: T, c: T)
    requires
        a.canonical(),
        b.canonical(),
        a.sub_spec(c) == b.sub_spec(c),
    ensures
        a == b,
{
    lemma_sub_cancel(a, c);
    lemma_sub_cancel(b, c);
}

/// In exact arithmetic the scalar of a count is canonical.
pub proof fn lemma_from_usize_canonical<T: Ring>(n: usize)
    ensures
        T::from_usize_spec(n).canonical(),
    decreases n,
{
    if n == 0 {
        T::lemma_from_usize_zero();
        T::lemma_canonical_results(T::zero_spec(), T::zero_spec());
    } else {
        T::lemma_from_usize_succ((n - 1) as usize);
        T::lemma_canonical_results(T::from_usize_spec((n - 1) as usize), T::one_spec());
    }
}

/// The sum of the first `n` terms of `f`, taken from the left.
pub open spec fn sum<T: Scalar>(f: spec_fn(int) -> T, n: nat) -> T
    decreases n,
{
    if n == 0 {
        T::zero_spec()
    } else {
        sum(f, (n - 1) as nat).add_spec(f(n - 1))
    }
}

/// Sums of terms that agree one by one agree.
pub proof fn lemma_sum_ext<T: Scalar>(f: spec_fn(int) -> T, g: spec_fn(int) -> T, n: nat)
    requires
        forall|k: int| 0 <= k < n ==> #[trigger] f(k) == g(k),
    ensures
        sum(f, n) == sum(g, n),
    decreases n,
{
    if n > 0 {
        lemma_sum_ext(f, g, (n - 1) as nat);
    }
}

/// A sum of zeros is zero.
pub proof fn lemma_sum_zero<T: Ring>(f: spec_fn(int) -> T, n: nat)
    requires
        forall|k: int| 0 <= k < n ==> #[trigger] f(k) == T::zero_spec(),
    ensures
        sum(f, n) == T::zero_spec(),
    decreases n,
{
    if n > 0 {
        lemma_sum_zero(f, (n - 1) as nat);
        T::lemma_canonical_results(T::zero_spec(), T::zero_spec());
        T::lemma_add_zero(T::zero_spec());
    }
}

/// Terms of zero at the end of a sum add nothing.
pub proof fn lemma_sum_zero_tail<T: Ring>(f: spec_fn(int) -> T, from: nat, n: nat)
    requires
        from <= n,
        forall|k: int| from <= k < n ==> #[trigger] f(k) == T::zero_spec(),
    ensures
        sum(f, n) == sum(f, from),
    decreases n - from,
{
    if from < n {
        lemma_sum_zero_tail(f, from, (n - 1) as nat);
        lemma_sum_canonical(f, from);
        T::lemma_add_zero(sum(f, from));
    }
}

/// A sum whose terms are sums is the sum of the two sums.
pub proof fn lemma_sum_add<T: Ring>(
    f: spec_fn(int) -> T,
    g: spec_fn(int) -> T,
    h: spec_fn(int) -> T,
    n: nat,
)
    requires
        forall|k: int| 0 <= k < n ==> #[trigger] h(k) == f(k).add_spec(g(k)),
    ensures
        sum(h, n) == sum(f, n).add_spec(sum(g, n)),
    decreases n,
{
    if n == 0 {
        T::lemma_canonical_results(T::zero_spec(), T::zero_spec());
        T::lemma_add_zero(T::zero_spec());
    } else {
        let m = (n - 1) as nat;
        lemma_sum_add(f, g, h, m);
        lemma_add_shuffle(sum(f, m), sum(g, m), f(n - 1), g(n - 1));
    }
}

/// A sum is canonical, whatever its terms.
pub proof fn lemma_sum_canonical<T: Ring>(f: spec_fn(int) -> T, n: nat)
    ensures
        sum(f, n).canonical(),
{
    T::lemma_canonical_results(T::zero_spec(), T::zero_spec());
    if n > 0 {
        T::lemma_canonical_results(sum(f, (n - 1) as nat), f(n - 1));
    }
}

/// A sum whose terms are differences of canonical terms is the difference of
/// the two sums.
pub proof fn lemma_sum_sub<T: Ring>(
    f: spec_fn(int) -> T,
    g: spec_fn(int) -> T,
    h: spec_fn(int) -> T,
    n: nat,
)
    requires
        forall|k: int| 0 <= k < n ==> #[trigger] h(k) == f(k).sub_spec(g(k)),
        forall|k: int| 0 <= k < n ==> (#[trigger] f(k)).canonical(),
    ensures
        sum(h, n) == sum(f, n).sub_spec(sum(g, n)),
    decreases n,
{
    lemma_sum_canonical(h, n);
    // h + g == f term by term, so sum(h) + sum(g) == sum(f).
    assert forall|k: int| 0 <= k < n implies #[trigger] f(k) == h(k).add_spec(g(k)) by {
        lemma_sub_cancel(f(k), g(k));
    }
    lemma_sum_add(h, g, f, n);
    lemma_add_cancel(sum(h, n), sum(g, n));
}

/// A factor on the right of a sum can be taken into each term.
pub proof fn lemma_sum_scale_right<T: Ring>(
    f: spec_fn(int) -> T,
    c: T,
    h: spec_fn(int) -> T,
    n: nat,
)
    requires
        forall|k: int| 0 <= k < n ==> #[trigger] h(k) == f(k).mul_spec(c),
    ensures
        sum(h, n) == sum(f, n).mul_spec(c),
    decreases n,
{
    if n == 0 {
        lemma_mul_zero(c);
    } else {
        let m = (n - 1) as nat;
        lemma_sum_scale_right(f, c, h, m);
        lemma_mul_distributive_right(sum(f, m), f(n - 1), c);
    }
}

/// A factor on the left of a sum can be taken into each term.
pub proof fn lemma_sum_scale_left<T: Ring>(
    c: T,
    f: spec_fn(int) -> T,
    h: spec_fn(int) -> T,
    n: nat,
)
    requires
        forall|k: int| 0 <= k < n ==> #[trigger] h(k) == c.mul_spec(f(k)),
    ensures
        sum(h, n) == c.mul_spec(sum(f, n)),
    decreases n,
{
    if n == 0 {
        lemma_mul_zero(c);
    } else {
        let m = (n - 1) as nat;
        lemma_sum_scale_left(c, f, h, m);
        T::lemma_mul_distributive(c, sum(f, m), f(n - 1));
    }
}

/// A sum over two indices can be taken in either order.
pub proof fn lemma_sum_exchange<T: Ring>(h: spec_fn(int, int) -> T, n: nat, p: nat)
    ensures
        sum(|j: int| sum(|k: int| h(j, k), p), n) == sum(|k: int| sum(|j: int| h(j, k), n), p),
    decreases n,
{
    let rows = |j: int| sum(|k: int| h(j, k), p);
    let cols = |k: int| sum(|j: int| h(j, k), n);
    if n == 0 {
        lemma_sum_zero(cols, p);
    } else {
        let m = (n - 1) as nat;
        let cols_before = |k: int| sum(|j: int| h(j, k), m);
        let last = |k: int| h(n - 1, k);
        lemma_sum_exchange(h, m, p);
        assert(sum(rows, m) == sum(cols_before, p));
        assert(rows(n - 1) == sum(last, p)) by {
            lemma_sum_ext(|k: int| h(n - 1, k), last, p);
        }
        assert forall|k: int| 0 <= k < p implies #[trigger] cols(k) == cols_before(k).add_spec(
            last(k),
        ) by {}
        lemma_sum_add(cols_before, last, cols, p);
    }
}

} // verus!
