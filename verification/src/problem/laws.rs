use vstd::prelude::*;
use crate::algebra::{lemma_mul_neg, lemma_neg_mul_neg, Field, Ring};
use crate::basis_functions::linear::{dN1_spec, dN2_spec};
use crate::lin_alg::exact::{all_canonical, lemma_solution_solves, lemma_solution_unique};
use crate::lin_alg::mat::MatrixView;
use crate::meshing::MeshView;
use crate::problem::{BoundaryCondition, ProblemView};
use crate::scalar::Scalar;

verus! {

/// Dirichlet conditions at both ends leave two unknowns fewer than Neumann
/// conditions at both ends of the same mesh.
pub proof fn lemma_dirichlet_ends_remove_two_unknowns<T: Scalar>(
    mesh: MeshView<T>,
    left_value: T,
    right_value: T,
    left_flux: T,
    right_flux: T,
)
    ensures
        (ProblemView {
            mesh,
            left: BoundaryCondition::Dirichlet(left_value),
            right: BoundaryCondition::Dirichlet(right_value),
        }).n_dof() + 2 == (ProblemView {
            mesh,
            left: BoundaryCondition::Neumann(left_flux),
            right: BoundaryCondition::Neumann(right_flux),
        }).n_dof(),
{
}

/// The stiffness matrix is square, the load vector a single column, and both
/// have one row for each unknown.
pub proof fn lemma_system_extent<T: Scalar>(p: ProblemView<T>)
    requires
        p.mesh.wf(),
    ensures
        p.n_dof() >= 0,
        p.stiffness().wf(),
        p.load().wf(),
        p.stiffness().rows == p.n_dof(),
        p.stiffness().cols == p.n_dof(),
        p.load().rows == p.n_dof(),
        p.load().cols == 1,
        p.system().wf(),
{
}

/// In exact arithmetic every entry of the stiffness matrix and of the load
/// vector is canonical.
pub proof fn lemma_system_canonical<T: Ring>(p: ProblemView<T>)
    requires
        p.mesh.wf(),
    ensures
        all_canonical(p.stiffness()),
        all_canonical(p.load()),
{
    let zero = T::zero_spec();
    T::lemma_canonical_results(zero, zero);
    assert forall|r: int, c: int|
        0 <= r < p.stiffness().rows && 0 <= c < p.stiffness().cols implies (
    #[trigger] p.stiffness().cells[r][c]).canonical() by {
        let j = p.node_of(r);
        T::lemma_canonical_results(zero, p.k22(j - 1));
        T::lemma_canonical_results(zero, p.k11(j));
        T::lemma_canonical_results(zero.add_spec(p.k22(j - 1)), p.k11(j));
        T::lemma_canonical_results(zero, p.k12(j));
        T::lemma_canonical_results(zero, p.k21(j - 1));
    }
    assert forall|r: int, c: int| 0 <= r < p.load().rows && 0 <= c < p.load().cols implies (
    #[trigger] p.load().cells[r][c]).canonical() by {
        lemma_load_entry_canonical(p, r);
    }
}

/// In exact arithmetic every entry of the load vector is canonical.
pub proof fn lemma_load_entry_canonical<T: Ring>(p: ProblemView<T>, r: int)
    ensures
        p.load_entry(r).canonical(),
{
    let j = p.node_of(r);
    let n = p.n();
    let a0 = T::zero_spec();
    T::lemma_canonical_results(a0, a0);
    let a1 = if j == 0 {
        a0.add_spec(p.flux(p.left.value()))
    } else {
        a0
    };
    T::lemma_canonical_results(a0, p.flux(p.left.value()));
    let a2 = if 1 <= j {
        a1.add_spec(p.f_elem(j - 1))
    } else {
        a1
    };
    T::lemma_canonical_results(a1, p.f_elem(j - 1));
    let a3 = if j == 1 && p.left is Dirichlet {
        a2.sub_spec(p.condensed(0, p.left.value()))
    } else {
        a2
    };
    T::lemma_canonical_results(a2, p.condensed(0, p.left.value()));
    let a4 = if j < n {
        a3.add_spec(p.f_elem(j))
    } else {
        a3
    };
    T::lemma_canonical_results(a3, p.f_elem(j));
    let a5 = if j == n - 1 && p.right is Dirichlet {
        a4.sub_spec(p.condensed(n - 1, p.right.value()))
    } else {
        a4
    };
    T::lemma_canonical_results(a4, p.condensed(n - 1, p.right.value()));
    T::lemma_canonical_results(a5, p.flux(p.right.value()));
}

/// In exact arithmetic, the unknowns that a solve finds satisfy the system:
/// the stiffness matrix times the unknowns gives the load vector.
pub proof fn lemma_solve_exact<T: Field>(p: ProblemView<T>)
    requires
        p.mesh.wf(),
        p.system().regular(),
    ensures
        p.stiffness().times(p.system().solution()) == p.load(),
{
    lemma_system_canonical(p);
    lemma_solution_solves(p.system());
}

/// Both slopes of the shape functions give the same square, and the two
/// mixed products are the same.
pub proof fn lemma_local_stiffness<T: Ring>(k: T)
    ensures
        k.mul_spec(dN1_spec::<T>()).mul_spec(dN1_spec::<T>()) == k.mul_spec(
            dN2_spec::<T>(),
        ).mul_spec(dN2_spec::<T>()),
        k.mul_spec(dN1_spec::<T>()).mul_spec(dN2_spec::<T>()) == k.mul_spec(
            dN2_spec::<T>(),
        ).mul_spec(dN1_spec::<T>()),
{
    let h = dN2_spec::<T>();
    let m = dN1_spec::<T>();
    assert(m == h.neg_spec());
    lemma_mul_neg(k, h);
    lemma_neg_mul_neg(k.mul_spec(h), h);
    T::lemma_mul_associative(k, m, h);
    T::lemma_mul_commutative(m, h);
    T::lemma_mul_associative(k, h, m);
}

/// The stiffness matrix is tridiagonal: away from the diagonal and its two
/// neighbours every entry is zero.
pub proof fn lemma_stiffness_tridiagonal<T: Scalar>(p: ProblemView<T>, r: int, c: int)
    requires
        p.mesh.wf(),
        0 <= r < p.n_dof(),
        0 <= c < p.n_dof(),
        r != c,
        r != c + 1,
        c != r + 1,
    ensures
        p.stiffness().at(r, c) == T::zero_spec(),
{
}

/// In exact arithmetic the stiffness matrix is symmetric.
pub proof fn lemma_stiffness_symmetric<T: Ring>(p: ProblemView<T>)
    requires
        p.mesh.wf(),
    ensures
        p.stiffness().transpose() == p.stiffness(),
{
    let k = p.stiffness();
    assert forall|r: int, c: int| 0 <= r < p.n_dof() && 0 <= c < p.n_dof() implies k.cells[c][r]
        == k.cells[r][c] by {
        if c == r + 1 {
            lemma_local_stiffness(p.k_elem(p.node_of(r)));
        } else if r == c + 1 {
            lemma_local_stiffness(p.k_elem(p.node_of(c)));
        }
    }
    assert(k.transpose() =~~= k);
}

/// After a solve, an end that a Dirichlet condition fixes holds the
/// prescribed value, whatever the unknowns are, and every other node holds
/// its unknown.
pub proof fn lemma_node_values<T: Scalar>(p: ProblemView<T>, d: Seq<T>, j: int)
    requires
        p.mesh.wf(),
        d.len() == p.n_dof(),
        0 <= j <= p.n(),
    ensures
        p.node_values(d).len() == p.n() + 1,
        j == 0 && p.left is Dirichlet ==> p.node_values(d)[j] == p.left.value(),
        j == p.n() && p.right is Dirichlet ==> p.node_values(d)[j] == p.right.value(),
        !(j == 0 && p.left is Dirichlet) && !(j == p.n() && p.right is Dirichlet)
            ==> p.node_values(d)[j] == d[j - p.left.fixed()],
{
}

/// In exact arithmetic, the unknowns that a solve finds are the only
/// canonical ones that satisfy the system.
pub proof fn lemma_solve_unique<T: Field>(p: ProblemView<T>, d: Seq<T>)
    requires
        p.mesh.wf(),
        p.system().regular(),
        d.len() == p.n_dof(),
        forall|j: int| 0 <= j < p.n_dof() ==> (#[trigger] d[j]).canonical(),
        p.stiffness().times(MatrixView::column(d)) == p.load(),
    ensures
        MatrixView::column(d) == p.system().solution(),
{
    lemma_system_canonical(p);
    lemma_solution_unique(p.system(), d);
}

} // verus!
