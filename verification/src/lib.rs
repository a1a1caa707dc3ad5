//! Fixed-capacity vectors whose length never exceeds a compile-time bound.
pub mod model;
mod mut_iter;
pub mod stack_vec;
pub mod into_iter;
pub mod traits;
pub mod lexicographic;
pub mod laws;

pub use into_iter::IntoIter;
pub use stack_vec::StackVec;
