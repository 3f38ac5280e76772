pub mod lagrange;
pub mod linear;
