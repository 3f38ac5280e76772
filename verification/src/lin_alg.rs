pub mod mat;
pub mod solve;
pub mod laws;
pub mod exact;
pub mod singular;

pub use self::solve::lin_solve;
