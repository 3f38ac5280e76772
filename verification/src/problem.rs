pub mod laws;
pub mod neumann;
pub mod symmetry;

use vstd::prelude::*;
use crate::basis_functions::linear::{dN1, dN1_spec, dN2, dN2_spec};
use crate::error::FemError;
use crate::lin_alg::mat::{Matrix, MatrixView};
use crate::lin_alg::solve::{lin_solve, SystemView};
use crate::meshing::{Mesh1D, MeshView};
use crate::scalar::Scalar;

verus! {

/// What is prescribed at one end of the domain.
#[derive(Debug, Copy, PartialEq)]
pub enum BoundaryCondition<T> {
    /// The field value at the end node, which then is no unknown.
    Dirichlet(T),
    /// The flux through the end, whose node stays an unknown.
    Neumann(T),
}

impl<T: Copy> Clone for BoundaryCondition<T> {
    fn clone(&self) -> (r: Self)
        ensures
            r == *self,
    {
        *self
    }
}

impl<T: Scalar> BoundaryCondition<T> {
    /// The prescribed number, whichever the kind.
    pub open spec fn value(self) -> T {
        match self {
            BoundaryCondition::Dirichlet(v) => v,
            BoundaryCondition::Neumann(v) => v,
        }
    }

    /// How many unknowns the condition removes: one if it fixes the value,
    /// none otherwise.
    pub open spec fn fixed(self) -> int {
        if self is Dirichlet {
            1
        } else {
            0
        }
    }
}

/// What a problem is: a mesh and the conditions at its two ends.
pub struct ProblemView<T> {
    pub mesh: MeshView<T>,
    pub left: BoundaryCondition<T>,
    pub right: BoundaryCondition<T>,
}

impl<T: Scalar> ProblemView<T> {
    /// The number of elements.
    pub open spec fn n(self) -> int {
        self.mesh.sizes.len() as int
    }

    /// The number of unknowns: one for each node that no Dirichlet condition
    /// fixes.
    pub open spec fn n_dof(self) -> int {
        self.n() + 1 - self.left.fixed() - self.right.fixed()
    }

    /// The node that the unknown `d` belongs to.
    pub open spec fn node_of(self, d: int) -> int {
        d + self.left.fixed()
    }

    /// The conductance factor shared by all elements: four times elasticity
    /// times area.
    pub open spec fn k_fac(self) -> T {
        T::from_usize_spec(4).mul_spec(self.mesh.elasticity).mul_spec(self.mesh.area)
    }

    /// The source factor shared by all elements: internal force times area.
    pub open spec fn f_fac(self) -> T {
        self.mesh.internal_force.mul_spec(self.mesh.area)
    }

    /// The conductance factor of element `e`: the shared factor over its length.
    pub open spec fn k_elem(self, e: int) -> T {
        self.k_fac().div_spec(self.mesh.sizes[e])
    }

    /// The stiffness that element `e` puts on its first node.
    pub open spec fn k11(self, e: int) -> T {
        self.k_elem(e).mul_spec(dN1_spec::<T>()).mul_spec(dN1_spec::<T>())
    }

    /// The stiffness with which element `e` couples its first node to its second.
    pub open spec fn k12(self, e: int) -> T {
        self.k_elem(e).mul_spec(dN1_spec::<T>()).mul_spec(dN2_spec::<T>())
    }

    /// The stiffness with which element `e` couples its second node to its first.
    pub open spec fn k21(self, e: int) -> T {
        self.k_elem(e).mul_spec(dN2_spec::<T>()).mul_spec(dN1_spec::<T>())
    }

    /// The stiffness that element `e` puts on its second node.
    pub open spec fn k22(self, e: int) -> T {
        self.k_elem(e).mul_spec(dN2_spec::<T>()).mul_spec(dN2_spec::<T>())
    }

    /// The load that element `e` puts on each of its two nodes: the source
    /// factor times its length times the integral of a shape function, which
    /// is one.
    pub open spec fn f_elem(self, e: int) -> T {
        self.f_fac().mul_spec(self.mesh.sizes[e]).mul_spec(T::one_spec())
    }

    /// What a node fixed at `value` at one end of element `e` moves to the
    /// load of the element's other node.
    pub open spec fn condensed(self, e: int, value: T) -> T {
        self.k_elem(e).mul_spec(dN1_spec::<T>()).mul_spec(dN2_spec::<T>()).mul_spec(value)
    }

    /// What a flux of `value` through an end adds to the load of the end node.
    pub open spec fn flux(self, value: T) -> T {
        value.mul_spec(self.mesh.area)
    }

    /// The entry of the stiffness matrix in row `r` and column `c`, once the
    /// elements below `m` have been taken in, in ascending order.
    spec fn stiffness_upto(self, m: int, r: int, c: int) -> T {
        let j = self.node_of(r);
        let zero = T::zero_spec();
        if r == c {
            let from_left = if 1 <= j && j - 1 < m {
                zero.add_spec(self.k22(j - 1))
            } else {
                zero
            };
            if j < self.n() && j < m {
                from_left.add_spec(self.k11(j))
            } else {
                from_left
            }
        } else if c == r + 1 && j < m {
            zero.add_spec(self.k12(j))
        } else if r == c + 1 && j - 1 < m {
            zero.add_spec(self.k21(j - 1))
        } else {
            zero
        }
    }

    /// The entry of the stiffness matrix in row `r` and column `c`.
    ///
    /// On the diagonal the element to the left of the node comes first, then
    /// the element to its right, each where there is one. Next to the diagonal
    /// stands the coupling through the element between the two nodes. All
    /// other entries are zero.
    pub open spec fn stiffness_entry(self, r: int, c: int) -> T {
        let j = self.node_of(r);
        let zero = T::zero_spec();
        if r == c {
            let from_left = if 1 <= j {
                zero.add_spec(self.k22(j - 1))
            } else {
                zero
            };
            if j < self.n() {
                from_left.add_spec(self.k11(j))
            } else {
                from_left
            }
        } else if c == r + 1 {
            zero.add_spec(self.k12(j))
        } else if r == c + 1 {
            zero.add_spec(self.k21(j - 1))
        } else {
            zero
        }
    }

    /// The entry of the load vector in row `r`, once the elements below `m`
    /// have been taken in, in ascending order, and the flux through the right
    /// end if `closed` says so.
    spec fn load_upto(self, m: int, closed: bool, r: int) -> T {
        let j = self.node_of(r);
        let n = self.n();
        let a0 = T::zero_spec();
        let a1 = if j == 0 {
            a0.add_spec(self.flux(self.left.value()))
        } else {
            a0
        };
        let a2 = if 1 <= j && j - 1 < m {
            a1.add_spec(self.f_elem(j - 1))
        } else {
            a1
        };
        let a3 = if j == 1 && 0 < m && self.left is Dirichlet {
            a2.sub_spec(self.condensed(0, self.left.value()))
        } else {
            a2
        };
        let a4 = if j < n && j < m {
            a3.add_spec(self.f_elem(j))
        } else {
            a3
        };
        let a5 = if j == n - 1 && j < m && self.right is Dirichlet {
            a4.sub_spec(self.condensed(n - 1, self.right.value()))
        } else {
            a4
        };
        if j == n && closed {
            a5.add_spec(self.flux(self.right.value()))
        } else {
            a5
        }
    }

    /// The entry of the load vector in row `r`.
    ///
    /// The terms come in this order, each where it applies: the flux through
    /// the left end; the load of the element to the left of the node; what a
    /// fixed left end moves over; the load of the element to the right; what a
    /// fixed right end moves over; the flux through the right end.
    pub open spec fn load_entry(self, r: int) -> T {
        let j = self.node_of(r);
        let n = self.n();
        let a0 = T::zero_spec();
        let a1 = if j == 0 {
            a0.add_spec(self.flux(self.left.value()))
        } else {
            a0
        };
        let a2 = if 1 <= j {
            a1.add_spec(self.f_elem(j - 1))
        } else {
            a1
        };
        let a3 = if j == 1 && self.left is Dirichlet {
            a2.sub_spec(self.condensed(0, self.left.value()))
        } else {
            a2
        };
        let a4 = if j < n {
            a3.add_spec(self.f_elem(j))
        } else {
            a3
        };
        let a5 = if j == n - 1 && self.right is Dirichlet {
            a4.sub_spec(self.condensed(n - 1, self.right.value()))
        } else {
            a4
        };
        if j == n {
            a5.add_spec(self.flux(self.right.value()))
        } else {
            a5
        }
    }

    /// The system of equations of the problem.
    pub open spec fn system(self) -> SystemView<T> {
        SystemView { a: self.stiffness(), b: self.load() }
    }

    /// The field value at each node, given the unknowns `d`: at an end that a
    /// Dirichlet condition fixes, the prescribed value; at every other node,
    /// in ascending order, the next unknown.
    pub open spec fn node_values(self, d: Seq<T>) -> Seq<T> {
        Seq::new(
            (self.n() + 1) as nat,
            |j: int|
                if j == 0 && self.left is Dirichlet {
                    self.left.value()
                } else if j == self.n() && self.right is Dirichlet {
                    self.right.value()
                } else {
                    d[j - self.left.fixed()]
                },
        )
    }

    /// The stiffness matrix: one row and one column for each unknown.
    pub open spec fn stiffness(self) -> MatrixView<T> {
        MatrixView {
            rows: self.n_dof() as nat,
            cols: self.n_dof() as nat,
            cells: Seq::new(
                self.n_dof() as nat,
                |r: int| Seq::new(self.n_dof() as nat, |c: int| self.stiffness_entry(r, c)),
            ),
        }
    }

    /// The load vector: one row for each unknown.
    pub open spec fn load(self) -> MatrixView<T> {
        MatrixView {
            rows: self.n_dof() as nat,
            cols: 1,
            cells: Seq::new(
                self.n_dof() as nat,
                |r: int| Seq::new(1, |c: int| self.load_entry(r)),
            ),
        }
    }
}

/// Adds `val` to the entry at `(r, c)` and leaves the others as they are.
pub fn accumulate<T: Scalar>(m: &mut Matrix<T>, r: usize, c: usize, val: T)
    requires
        r < old(m)@.rows,
        c < old(m)@.cols,
    ensures
        final(m)@ == old(m)@.update(
            r as int,
            c as int,
            old(m)@.at(r as int, c as int).add_spec(val),
        ),
        final(m)@.wf(),
        final(m)@.rows == old(m)@.rows,
        final(m)@.cols == old(m)@.cols,
        forall|i: int, j: int|
            0 <= i < old(m)@.rows && 0 <= j < old(m)@.cols ==> #[trigger] final(m)@.cells[i][j] == (
            if i == r && j == c {
                old(m)@.cells[i][j].add_spec(val)
            } else {
                old(m)@.cells[i][j]
            }),
{
    proof {
        m.lemma_view_wf();
    }
    let sum = m.cell(r, c).add(val);
    m.put(r, c, sum);
    proof {
        m.lemma_view_wf();
    }
}

/// Takes `val` from the entry at `(r, c)` and leaves the others as they are.
pub fn deduct<T: Scalar>(m: &mut Matrix<T>, r: usize, c: usize, val: T)
    requires
        r < old(m)@.rows,
        c < old(m)@.cols,
    ensures
        final(m)@ == old(m)@.update(
            r as int,
            c as int,
            old(m)@.at(r as int, c as int).sub_spec(val),
        ),
        final(m)@.wf(),
        final(m)@.rows == old(m)@.rows,
        final(m)@.cols == old(m)@.cols,
        forall|i: int, j: int|
            0 <= i < old(m)@.rows && 0 <= j < old(m)@.cols ==> #[trigger] final(m)@.cells[i][j] == (
            if i == r && j == c {
                old(m)@.cells[i][j].sub_spec(val)
            } else {
                old(m)@.cells[i][j]
            }),
{
    proof {
        m.lemma_view_wf();
    }
    let rest = m.cell(r, c).sub(val);
    m.put(r, c, rest);
    proof {
        m.lemma_view_wf();
    }
}

/// A boundary-value problem on a mesh: the mesh and one condition for each end.
#[derive(Debug, PartialEq)]
pub struct Problem1D<T: Scalar> {
    pub mesh: Mesh1D<T>,
    pub left_bc: BoundaryCondition<T>,
    pub right_bc: BoundaryCondition<T>,
}

impl<T: Scalar> View for Problem1D<T> {
    type V = ProblemView<T>;

    open spec fn view(&self) -> ProblemView<T> {
        ProblemView { mesh: self.mesh@, left: self.left_bc, right: self.right_bc }
    }
}

impl<T: Scalar> Problem1D<T> {
    /// The problem on `mesh` with the given conditions at its ends.
    pub fn new(
        mesh: Mesh1D<T>,
        left_bc: BoundaryCondition<T>,
        right_bc: BoundaryCondition<T>,
    ) -> (p: Self)
        ensures
            p.mesh == mesh,
            p.left_bc == left_bc,
            p.right_bc == right_bc,
    {
        Problem1D { mesh, left_bc, right_bc }
    }

    /// The number of unknowns.
    pub fn n_dof(&self) -> (d: usize)
        ensures
            d == self@.n_dof(),
            self.mesh@.wf(),
    {
        let n_el: usize = self.mesh.get_n_elements();
        let mut d: usize = n_el + 1;
        match self.left_bc {
            BoundaryCondition::Dirichlet(_) => {
                d -= 1;
            },
            BoundaryCondition::Neumann(_) => {},
        }
        match self.right_bc {
            BoundaryCondition::Dirichlet(_) => {
                d -= 1;
            },
            BoundaryCondition::Neumann(_) => {},
        }
        d
    }

    /// Whether the machine can count the entries of the stiffness matrix.
    pub fn fits(&self) -> (ok: bool)
        ensures
            ok == (self@.n_dof() * self@.n_dof() <= usize::MAX),
    {
        let d: usize = self.n_dof();
        Matrix::<T>::fits((d, d))
    }

    /// The stiffness matrix and the load vector of the problem, or
    /// `DegenerateSystem` where no unknown is left.
    pub fn construct_matrices(&self) -> (res: Result<(Matrix<T>, Matrix<T>), FemError>)
        requires
            self@.n_dof() * self@.n_dof() <= usize::MAX,
        ensures
            match res {
                Ok((k, f)) => self@.n_dof() >= 1 && k@ == self@.stiffness() && f@
                    == self@.load(),
                Err(e) => e == FemError::DegenerateSystem && self@.n_dof() == 0,
            },
    {
        let n_el: usize = self.mesh.get_n_elements();
        let n_dof: usize = self.n_dof();
        if n_dof == 0 {
            return Err(FemError::DegenerateSystem);
        }
        let ghost pv = self@;
        let left_fixed: bool = match self.left_bc {
            BoundaryCondition::Dirichlet(_) => true,
            BoundaryCondition::Neumann(_) => false,
        };
        let right_fixed: bool = match self.right_bc {
            BoundaryCondition::Dirichlet(_) => true,
            BoundaryCondition::Neumann(_) => false,
        };
        let left_value: T = match self.left_bc {
            BoundaryCondition::Dirichlet(v) => v,
            BoundaryCondition::Neumann(v) => v,
        };
        let right_value: T = match self.right_bc {
            BoundaryCondition::Dirichlet(v) => v,
            BoundaryCondition::Neumann(v) => v,
        };
        let off: usize = if left_fixed {
            1
        } else {
            0
        };

        let mut k: Matrix<T> = Matrix::new((n_dof, n_dof));
        let mut f: Matrix<T> = Matrix::new((n_dof, 1));

        let dn1 = dN1(T::zero());
        let dn2 = dN2(T::zero());
        let area = self.mesh.get_area();
        let k_fac = T::from_usize(4).mul(self.mesh.get_elasticity()).mul(area);
        let f_fac = self.mesh.get_internal_force().mul(area);

        // A flux through the left end loads the first node.
        if !left_fixed {
            accumulate(&mut f, 0, 0, left_value.mul(area));
        }
        // Each element loads and stiffens those of its two nodes that are
        // unknowns; a fixed node passes its share on to the other one.
        let mut e: usize = 0;
        while e < n_el
            invariant
                e <= n_el,
                pv == self@,
                pv.mesh.wf(),
                n_el == pv.n(),
                n_dof == pv.n_dof(),
                n_dof >= 1,
                left_fixed == (self.left_bc is Dirichlet),
                right_fixed == (self.right_bc is Dirichlet),
                left_value == self.left_bc.value(),
                right_value == self.right_bc.value(),
                off == pv.left.fixed(),
                dn1 == dN1_spec::<T>(),
                dn2 == dN2_spec::<T>(),
                area == pv.mesh.area,
                k_fac == pv.k_fac(),
                f_fac == pv.f_fac(),
                k@.wf(),
                k@.rows == n_dof,
                k@.cols == n_dof,
                f@.wf(),
                f@.rows == n_dof,
                f@.cols == 1,
                forall|r: int, c: int|
                    0 <= r < n_dof && 0 <= c < n_dof ==> #[trigger] k@.cells[r][c]
                        == pv.stiffness_upto(e as int, r, c),
                forall|r: int|
                    0 <= r < n_dof ==> (#[trigger] f@.cells[r])[0] == pv.load_upto(
                        e as int,
                        false,
                        r,
                    ),
            decreases n_el - e,
        {
            let ghost k0 = k@;
            let ghost f0 = f@;
            let size: T = self.mesh.get_element_size(e).unwrap();
            let k_elem = k_fac.div(size);
            let f_elem = f_fac.mul(size).mul(T::one());
            let first_free: bool = !(left_fixed && e == 0);
            let second_free: bool = !(right_fixed && e + 1 == n_el);
            // The unknown of a node is its number less the fixed left end.
            if second_free {
                let b: usize = e + 1 - off;
                accumulate(&mut k, b, b, k_elem.mul(dn2).mul(dn2));
                accumulate(&mut f, b, 0, f_elem);
                if !first_free {
                    deduct(&mut f, b, 0, k_elem.mul(dn1).mul(dn2).mul(left_value));
                }
            }
            if first_free {
                let a: usize = e - off;
                accumulate(&mut k, a, a, k_elem.mul(dn1).mul(dn1));
                accumulate(&mut f, a, 0, f_elem);
                if !second_free {
                    deduct(&mut f, a, 0, k_elem.mul(dn1).mul(dn2).mul(right_value));
                }
            }
            if first_free && second_free {
                let a: usize = e - off;
                let b: usize = e + 1 - off;
                accumulate(&mut k, a, b, k_elem.mul(dn1).mul(dn2));
                accumulate(&mut k, b, a, k_elem.mul(dn2).mul(dn1));
            }
            proof {
                assert forall|r: int, c: int|
                    0 <= r < n_dof && 0 <= c < n_dof implies #[trigger] k@.cells[r][c]
                    == pv.stiffness_upto(e + 1, r, c) by {
                    assert(k0.cells[r][c] == pv.stiffness_upto(e as int, r, c));
                }
                assert forall|r: int| 0 <= r < n_dof implies (#[trigger] f@.cells[r])[0]
                    == pv.load_upto(e + 1, false, r) by {
                    assert(f0.cells[r][0] == pv.load_upto(e as int, false, r));
                }
            }
            e += 1;
        }
        let ghost f_open = f@;
        // A flux through the right end loads the last node.
        if !right_fixed {
            accumulate(&mut f, n_dof - 1, 0, right_value.mul(area));
        }
        proof {
            assert forall|r: int| 0 <= r < n_dof implies (#[trigger] f@.cells[r])[0]
                == pv.load_upto(n_el as int, true, r) by {
                assert(f_open.cells[r][0] == pv.load_upto(n_el as int, false, r));
            }
            assert forall|r: int, c: int| 0 <= r < n_dof && 0 <= c < n_dof implies k@.cells[r][c]
                == pv.stiffness_entry(r, c) by {
                assert(pv.stiffness_upto(n_el as int, r, c) == pv.stiffness_entry(r, c));
            }
            assert forall|r: int| 0 <= r < n_dof implies f@.cells[r][0] == pv.load_entry(r) by {
                assert(pv.load_upto(n_el as int, true, r) == pv.load_entry(r));
            }
            assert(k@ =~~= pv.stiffness());
            assert(f@ =~~= pv.load());
        }
        Ok((k, f))
    }

    /// Assembles the system, solves it, and writes the field value of every
    /// node into the mesh.
    ///
    /// The answer is `DegenerateSystem` where no unknown is left and
    /// `SingularSystem` where the elimination meets a negligible pivot, as it
    /// does in exact arithmetic when both ends carry a Neumann condition; the
    /// mesh then stays as it was.
    pub fn solve(&mut self) -> (res: Result<(), FemError>)
        requires
            old(self)@.n_dof() * old(self)@.n_dof() <= usize::MAX,
        ensures
            final(self).left_bc == old(self).left_bc,
            final(self).right_bc == old(self).right_bc,
            match res {
                Ok(()) => old(self)@.n_dof() >= 1 && old(self)@.system().regular()
                    && final(self).mesh@ == (MeshView {
                    values: old(self)@.node_values(old(self)@.system().solution().column_at(0)),
                    ..old(self).mesh@
                }),
                Err(e) => final(self).mesh@ == old(self).mesh@ && if old(self)@.n_dof() == 0 {
                    e == FemError::DegenerateSystem
                } else {
                    e == FemError::SingularSystem && !old(self)@.system().regular()
                },
            },
    {
        let ghost pv = self@;
        let (k, f) = match self.construct_matrices() {
            Ok(pair) => pair,
            Err(e) => {
                return Err(e);
            },
        };
        proof {
            k.lemma_view_wf();
            f.lemma_view_wf();
        }
        let d: Matrix<T> = match lin_solve(&k, &f) {
            Ok(d) => d,
            Err(e) => {
                return Err(e);
            },
        };
        let unknowns: Vec<T> = d.to_column(0);
        let n_el: usize = self.mesh.get_n_elements();
        let off: usize = match self.left_bc {
            BoundaryCondition::Dirichlet(_) => 1,
            BoundaryCondition::Neumann(_) => 0,
        };
        let mut values: Vec<T> = Vec::new();
        let mut j: usize = 0;
        while j <= n_el
            invariant
                j <= n_el + 1,
                n_el < usize::MAX,
                pv == self@,
                n_el == pv.n(),
                off == pv.left.fixed(),
                unknowns@.len() == pv.n_dof(),
                values@.len() == j,
                forall|i: int| 0 <= i < j ==> values@[i] == pv.node_values(unknowns@)[i],
            decreases n_el + 1 - j,
        {
            let v: T = match (j == 0, self.left_bc, j == n_el, self.right_bc) {
                (true, BoundaryCondition::Dirichlet(v), _, _) => v,
                (_, _, true, BoundaryCondition::Dirichlet(v)) => v,
                _ => unknowns[j - off],
            };
            values.push(v);
            j += 1;
        }
        proof {
            assert(values@ =~= pv.node_values(unknowns@));
        }
        self.mesh.set_node_values(values);
        Ok(())
    }
}

} // verus!
