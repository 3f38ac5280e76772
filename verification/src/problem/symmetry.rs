use vstd::prelude::*;
use crate::algebra::Ring;
use crate::lin_alg::mat::MatrixView;
use crate::meshing::MeshView;
use crate::problem::laws::{lemma_local_stiffness, lemma_system_extent};
use crate::problem::ProblemView;
use crate::scalar::Scalar;

verus! {

/// The matrix turned by half a turn: the last row comes first and the last
/// column comes first.
pub open spec fn half_turn<T: Scalar>(m: MatrixView<T>) -> MatrixView<T> {
    MatrixView {
        rows: m.rows,
        cols: m.cols,
        cells: Seq::new(
            m.rows,
            |r: int| Seq::new(m.cols, |c: int| m.cells[m.rows - 1 - r][m.cols - 1 - c]),
        ),
    }
}

/// The problem with the conditions of its two ends exchanged.
pub open spec fn swapped_ends<T: Scalar>(p: ProblemView<T>) -> ProblemView<T> {
    ProblemView { mesh: p.mesh, left: p.right, right: p.left }
}

/// Each element is as long as the one that lies as far from the other end.
pub open spec fn symmetric<T: Scalar>(mesh: MeshView<T>) -> bool {
    forall|e: int|
        0 <= e < mesh.sizes.len() ==> #[trigger] mesh.sizes[e] == mesh.sizes[mesh.sizes.len() - 1
            - e]
}

/// Six terms added to `z` one after the other.
pub open spec fn sum6<T: Scalar>(z: T, t1: T, t2: T, t3: T, t4: T, t5: T, t6: T) -> T {
    z.add_spec(t1).add_spec(t2).add_spec(t3).add_spec(t4).add_spec(t5).add_spec(t6)
}

/// Two terms added one after the other can change places.
pub proof fn lemma_add_swap<T: Ring>(a: T, x: T, y: T)
    ensures
        a.add_spec(x).add_spec(y) == a.add_spec(y).add_spec(x),
{
    T::lemma_add_associative(a, x, y);
    T::lemma_add_commutative(x, y);
    T::lemma_add_associative(a, y, x);
}

/// Six terms added in the order sixth, fourth, fifth, second, third, first
/// give what they give in their own order.
pub proof fn lemma_sum6_mirrored<T: Ring>(z: T, t1: T, t2: T, t3: T, t4: T, t5: T, t6: T)
    ensures
        sum6(z, t6, t4, t5, t2, t3, t1) == sum6(z, t1, t2, t3, t4, t5, t6),
{
    // The first term moves to the front.
    lemma_add_swap(z.add_spec(t6).add_spec(t4).add_spec(t5).add_spec(t2), t3, t1);
    lemma_add_swap(z.add_spec(t6).add_spec(t4).add_spec(t5), t2, t1);
    lemma_add_swap(z.add_spec(t6).add_spec(t4), t5, t1);
    lemma_add_swap(z.add_spec(t6), t4, t1);
    lemma_add_swap(z, t6, t1);
    assert(sum6(z, t6, t4, t5, t2, t3, t1) == sum6(z, t1, t6, t4, t5, t2, t3));
    // The second follows it.
    let z1 = z.add_spec(t1);
    lemma_add_swap(z1.add_spec(t6).add_spec(t4), t5, t2);
    lemma_add_swap(z1.add_spec(t6), t4, t2);
    lemma_add_swap(z1, t6, t2);
    assert(sum6(z, t1, t6, t4, t5, t2, t3) == sum6(z, t1, t2, t6, t4, t5, t3));
    // Then the third.
    let z2 = z1.add_spec(t2);
    lemma_add_swap(z2.add_spec(t6).add_spec(t4), t5, t3);
    lemma_add_swap(z2.add_spec(t6), t4, t3);
    lemma_add_swap(z2, t6, t3);
    assert(sum6(z, t1, t2, t6, t4, t5, t3) == sum6(z, t1, t2, t3, t6, t4, t5));
    // Then the fourth and the fifth.
    let z3 = z2.add_spec(t3);
    lemma_add_swap(z3, t6, t4);
    lemma_add_swap(z3.add_spec(t4), t6, t5);
}

/// The `i`-th of the six terms that make up the load of the unknown `r`, or
/// zero where that term does not apply: the flux through the left end, the
/// load of the element to the left, what a fixed left end moves over, the
/// load of the element to the right, what a fixed right end moves over, and
/// the flux through the right end.
pub open spec fn load_term<T: Scalar>(p: ProblemView<T>, r: int, i: int) -> T {
    let j = p.node_of(r);
    let n = p.n();
    if i == 1 && j == 0 {
        p.flux(p.left.value())
    } else if i == 2 && 1 <= j {
        p.f_elem(j - 1)
    } else if i == 3 && j == 1 && p.left is Dirichlet {
        p.condensed(0, p.left.value()).neg_spec()
    } else if i == 4 && j < n {
        p.f_elem(j)
    } else if i == 5 && j == n - 1 && p.right is Dirichlet {
        p.condensed(n - 1, p.right.value()).neg_spec()
    } else if i == 6 && j == n {
        p.flux(p.right.value())
    } else {
        T::zero_spec()
    }
}

/// In exact arithmetic, adding a term that may be absent is adding the term
/// or zero, and taking one away is adding its negation or zero.
pub proof fn lemma_optional_term<T: Ring>(a: T, t: T)
    requires
        a.canonical(),
    ensures
        a == a.add_spec(T::zero_spec()),
        a.sub_spec(t) == a.add_spec(t.neg_spec()),
        a.add_spec(t).canonical(),
        a.sub_spec(t).canonical(),
{
    T::lemma_add_zero(a);
    T::lemma_sub_is_add_neg(a, t);
    T::lemma_canonical_results(a, t);
}

/// In exact arithmetic, the load of an unknown is the sum of its six terms.
pub proof fn lemma_load_as_sum<T: Ring>(p: ProblemView<T>, r: int)
    ensures
        p.load_entry(r) == sum6(
            T::zero_spec(),
            load_term(p, r, 1),
            load_term(p, r, 2),
            load_term(p, r, 3),
            load_term(p, r, 4),
            load_term(p, r, 5),
            load_term(p, r, 6),
        ),
{
    let j = p.node_of(r);
    let n = p.n();
    let a0 = T::zero_spec();
    T::lemma_canonical_results(a0, a0);
    let b1 = a0.add_spec(load_term(p, r, 1));
    lemma_optional_term(a0, p.flux(p.left.value()));
    let b2 = b1.add_spec(load_term(p, r, 2));
    lemma_optional_term(b1, p.f_elem(j - 1));
    let b3 = b2.add_spec(load_term(p, r, 3));
    lemma_optional_term(b2, p.condensed(0, p.left.value()));
    let b4 = b3.add_spec(load_term(p, r, 4));
    lemma_optional_term(b3, p.f_elem(j));
    let b5 = b4.add_spec(load_term(p, r, 5));
    lemma_optional_term(b4, p.condensed(n - 1, p.right.value()));
    lemma_optional_term(b5, p.flux(p.right.value()));
}

/// In exact arithmetic and on a symmetric mesh, exchanging the conditions of
/// the two ends gives the mirror image of the system: the same number of
/// unknowns, and the stiffness matrix and the load vector turned by half a
/// turn.
pub proof fn lemma_swapped_ends_mirror<T: Ring>(p: ProblemView<T>)
    requires
        p.mesh.wf(),
        symmetric(p.mesh),
    ensures
        swapped_ends(p).n_dof() == p.n_dof(),
        swapped_ends(p).stiffness() == half_turn(p.stiffness()),
        swapped_ends(p).load() == half_turn(p.load()),
{
    let q = swapped_ends(p);
    let n = p.n();
    let dof = p.n_dof();
    let zero = T::zero_spec();
    lemma_system_extent(p);
    lemma_system_extent(q);
    T::lemma_canonical_results(zero, zero);
    assert forall|r: int, c: int| 0 <= r < dof && 0 <= c < dof implies q.stiffness_entry(r, c)
        == p.stiffness_entry(dof - 1 - r, dof - 1 - c) by {
        let jq = q.node_of(r);
        let jp = p.node_of(dof - 1 - r);
        assert(jp == n - jq);
        if r == c {
            if 1 <= jq {
                assert(p.mesh.sizes[jq - 1] == p.mesh.sizes[n - 1 - (jq - 1)]);
                lemma_local_stiffness(p.k_elem(jp));
            }
            if jq < n {
                assert(p.mesh.sizes[jq] == p.mesh.sizes[n - 1 - jq]);
                lemma_local_stiffness(p.k_elem(jp - 1));
            }
            if 1 <= jq && jq < n {
                lemma_add_swap(zero, p.k11(jp), p.k22(jp - 1));
            }
        } else if c == r + 1 {
            assert(p.mesh.sizes[jq] == p.mesh.sizes[n - 1 - jq]);
            lemma_local_stiffness(p.k_elem(jp - 1));
        } else if r == c + 1 {
            assert(p.mesh.sizes[jq - 1] == p.mesh.sizes[n - 1 - (jq - 1)]);
            lemma_local_stiffness(p.k_elem(jp));
        }
    }
    assert forall|r: int| 0 <= r < dof implies q.load_entry(r) == p.load_entry(dof - 1 - r) by {
        let back = dof - 1 - r;
        let jq = q.node_of(r);
        let jp = p.node_of(back);
        assert(jp == n - jq);
        lemma_load_as_sum(q, r);
        lemma_load_as_sum(p, back);
        assert(p.mesh.sizes[0] == p.mesh.sizes[n - 1 - 0]);
        assert(load_term(q, r, 1) == load_term(p, back, 6));
        assert(load_term(q, r, 2) == load_term(p, back, 4)) by {
            if 1 <= jq {
                assert(p.mesh.sizes[jq - 1] == p.mesh.sizes[n - 1 - (jq - 1)]);
            }
        }
        assert(load_term(q, r, 3) == load_term(p, back, 5));
        assert(load_term(q, r, 4) == load_term(p, back, 2)) by {
            if jq < n {
                assert(p.mesh.sizes[jq] == p.mesh.sizes[n - 1 - jq]);
            }
        }
        assert(load_term(q, r, 5) == load_term(p, back, 3));
        assert(load_term(q, r, 6) == load_term(p, back, 1));
        lemma_sum6_mirrored(
            zero,
            load_term(p, back, 1),
            load_term(p, back, 2),
            load_term(p, back, 3),
            load_term(p, back, 4),
            load_term(p, back, 5),
            load_term(p, back, 6),
        );
    }
    assert(q.stiffness() =~~= half_turn(p.stiffness()));
    assert(q.load() =~~= half_turn(p.load()));
}

} // verus!
