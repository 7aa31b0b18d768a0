//! Implementations of the container abstractions for the built-in
//! optional-value, fallible-result and sequence containers.

pub mod option;
pub mod result;
pub mod vec;
