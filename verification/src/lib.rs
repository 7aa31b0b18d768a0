//! Verified functor and monad abstractions for the built-in container types
//! `Option`, `Result` and `Vec`.
//!
//! A container type first declares, through [`Unit`], which elements it
//! contains and how the minimal container wrapping a single value is built.
//! [`HKT`] names, for a container over `A`, the container of the same kind
//! over another element type.  On top of these, the functor traits
//! ([`FunctorOnce`], [`FunctorMut`], [`Functor`]) provide `map`, and the
//! monad traits ([`MonadOnce`], [`MonadMut`], [`Monad`]) provide `bind`,
//! graded by how the supplied transformation may be invoked.  The traits
//! form a hierarchy: a container satisfying a stricter single-invocation
//! contract satisfies the laxer repeatable ones as well, by delegation to
//! the strictest implementation the container supports.

pub mod functor;
pub mod hkt;
pub mod impls;
pub mod monad;

pub use functor::Functor;
pub use functor::FunctorMut;
pub use functor::FunctorOnce;
pub use hkt::HKT;
pub use monad::Monad;
pub use monad::MonadMut;
pub use monad::MonadOnce;
pub use monad::Unit;
pub use monad::bind_flattens_to;
pub use monad::lemma_bind_flattens_to_empty;
pub use monad::lemma_bind_flattens_to_single;
pub use monad::lemma_bind_flattens_to_witness;
