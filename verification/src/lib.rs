//! A small finite element kernel for boundary-value problems in one dimension,
//! with linear elements.
//!
//! - `scalar`: the numbers everything is made of, as a trait. Contracts name
//!   the result of each operation and ask nothing else of it, so they hold for
//!   rounding as well as for exact arithmetic.
//! - `algebra`: the scalars whose arithmetic is exact, as the traits `Ring`
//!   and `Field`, with what follows from their laws.
//! - `residue`: integers modulo a prime, a field that is proved to be one.
//! - `lin_alg`: dense matrices, their algebra, and the solution of a system by
//!   elimination with partial pivoting. In a field the solver is shown to find
//!   the one solution of every system that it does not turn down, and to turn
//!   down only systems that have none or more than one.
//! - `meshing`: the mesh.
//! - `problem`: assembly of the stiffness matrix and the load vector under a
//!   Dirichlet or a Neumann condition at each end, and the solve that writes
//!   the field into the mesh.
//! - `basis_functions`, `maths`: shape functions and dual numbers.

pub mod error;
pub mod scalar;
pub mod algebra;
pub mod residue;
pub mod basis_functions;
pub mod lin_alg;
pub mod maths;
pub mod meshing;
pub mod problem;
