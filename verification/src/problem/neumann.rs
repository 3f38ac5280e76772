use vstd::prelude::*;
use crate::algebra::{
    lemma_mul_neg, lemma_neg_neg, lemma_sum_zero, lemma_sum_zero_tail, lemma_zero_add, sum, Field,
    Ring,
};
use crate::basis_functions::linear::{dN1_spec, dN2_spec};
use crate::lin_alg::exact::row_sum;
use crate::lin_alg::singular::{homogeneous, lemma_regular_has_no_null_vector};
use crate::problem::laws::{
    lemma_local_stiffness, lemma_system_canonical, lemma_system_extent,
};
use crate::problem::ProblemView;
use crate::scalar::Scalar;

verus! {

/// The same value for every one of `n` unknowns.
pub open spec fn constant<T: Scalar>(n: nat, value: T) -> Seq<T> {
    Seq::new(n, |i: int| value)
}

/// In exact arithmetic the four entries that an element gives to the
/// stiffness matrix are one value and its negation.
pub proof fn lemma_local_entries<T: Ring>(p: ProblemView<T>, e: int)
    ensures
        p.k22(e) == p.k11(e),
        p.k12(e) == p.k11(e).neg_spec(),
        p.k21(e) == p.k11(e).neg_spec(),
        p.k11(e).canonical(),
{
    let k = p.k_elem(e);
    lemma_local_stiffness(k);
    // k11 == (k * dn1) * (-dn2) == -((k * dn1) * dn2) == -k12
    lemma_mul_neg(k.mul_spec(dN1_spec::<T>()), dN2_spec::<T>());
    T::lemma_canonical_results(k.mul_spec(dN1_spec::<T>()), dN2_spec::<T>());
    lemma_neg_neg(p.k12(e));
    T::lemma_canonical_results(k.mul_spec(dN1_spec::<T>()), dN1_spec::<T>());
}

/// In exact arithmetic, with a flux prescribed at both ends, every row of the
/// stiffness matrix adds up to zero.
pub proof fn lemma_rows_add_up_to_zero<T: Ring>(p: ProblemView<T>, r: int)
    requires
        p.mesh.wf(),
        p.left is Neumann,
        p.right is Neumann,
        0 <= r < p.n_dof(),
    ensures
        row_sum(
            homogeneous(p.system()),
            constant(p.n_dof() as nat, T::one_spec()),
            r,
            p.n_dof() as nat,
        ) == T::zero_spec(),
{
    let n = p.n();
    let dof = p.n_dof() as nat;
    let s = homogeneous(p.system());
    let one = T::one_spec();
    let zero = T::zero_spec();
    let x = constant(dof, one);
    let terms = |c: int| s.a.cells[r][c].mul_spec(x[c]);
    lemma_system_extent(p);
    lemma_system_canonical(p);
    T::lemma_canonical_results(zero, zero);
    assert forall|c: int| 0 <= c < dof implies #[trigger] terms(c) == p.stiffness_entry(r, c) by {
        assert(s.a.cells[r][c].canonical());
        T::lemma_mul_one(s.a.cells[r][c]);
    }
    assert forall|c: int|
        0 <= c < dof && c != r && c != r + 1 && r != c + 1 implies #[trigger] terms(c) == zero by {}
    if r == 0 {
        let b = p.k11(0);
        lemma_local_entries(p, 0);
        T::lemma_canonical_results(b, b);
        lemma_zero_add(b);
        lemma_zero_add(b.neg_spec());
        assert(terms(0) == b);
        assert(terms(1) == b.neg_spec());
        assert(sum(terms, 0) == zero);
        assert(sum(terms, 1) == b);
        T::lemma_add_neg(b);
        assert(sum(terms, 2) == zero);
        lemma_sum_zero_tail(terms, 2, dof);
    } else if r == n {
        let a = p.k11(n - 1);
        lemma_local_entries(p, n - 1);
        T::lemma_canonical_results(a, a);
        lemma_zero_add(a);
        lemma_zero_add(a.neg_spec());
        lemma_sum_zero(terms, (n - 1) as nat);
        assert(terms(n - 1) == a.neg_spec());
        assert(terms(n) == a);
        assert(sum(terms, n as nat) == a.neg_spec());
        T::lemma_add_neg(a);
        T::lemma_add_commutative(a, a.neg_spec());
        assert(sum(terms, (n + 1) as nat) == zero);
    } else {
        let a = p.k11(r - 1);
        let b = p.k11(r);
        lemma_local_entries(p, r - 1);
        lemma_local_entries(p, r);
        T::lemma_canonical_results(a, b);
        T::lemma_canonical_results(b, a);
        lemma_zero_add(a);
        lemma_zero_add(b);
        lemma_zero_add(a.neg_spec());
        lemma_zero_add(b.neg_spec());
        lemma_sum_zero(terms, (r - 1) as nat);
        assert(terms(r - 1) == a.neg_spec());
        assert(terms(r) == a.add_spec(b));
        assert(terms(r + 1) == b.neg_spec());
        assert(sum(terms, r as nat) == a.neg_spec());
        // (-a + (a + b)) + -b == ((-a + a) + b) + -b == b + -b == 0
        T::lemma_add_associative(a.neg_spec(), a, b);
        T::lemma_add_commutative(a, a.neg_spec());
        T::lemma_add_neg(a);
        T::lemma_add_neg(b);
        assert(sum(terms, (r + 1) as nat) == b);
        assert(sum(terms, (r + 2) as nat) == zero);
        lemma_sum_zero_tail(terms, (r + 2) as nat, dof);
    }
}

/// In exact arithmetic a problem with a flux prescribed at both ends is
/// singular: the field is fixed only up to a constant, the elimination meets
/// a negligible pivot, and a solve answers `SingularSystem`.
pub proof fn lemma_flux_at_both_ends_is_singular<T: Field>(p: ProblemView<T>)
    requires
        p.mesh.wf(),
        p.left is Neumann,
        p.right is Neumann,
    ensures
        p.n_dof() >= 2,
        !p.system().regular(),
{
    if p.system().regular() {
        let dof = p.n_dof() as nat;
        let s = homogeneous(p.system());
        let one = T::one_spec();
        let ones = constant(dof, one);
        lemma_system_extent(p);
        lemma_system_canonical(p);
        T::lemma_canonical_results(one, one);
        assert forall|r: int| 0 <= r < s.n() implies #[trigger] row_sum(s, ones, r, s.n() as nat)
            == s.b.cells[r][0] by {
            lemma_rows_add_up_to_zero(p, r);
        }
        lemma_regular_has_no_null_vector(p.system(), ones);
        assert(ones[0] == T::zero_spec());
        T::lemma_one_not_zero();
    }
}

} // verus!
