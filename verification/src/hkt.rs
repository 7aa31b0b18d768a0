//! The type-witness relation between a container and its re-parameterized
//! counterpart.

use vstd::prelude::*;
use crate::monad::Unit;

verus! {

/// For a container type `M<A>` which can be re-parameterized over another
/// element type `Output`, names the resulting container type `M<Output>`.
///
/// For a fixed implementing type, `Result` is uniquely determined by the
/// substituted element type `Output`.
pub trait HKT<Output>: Unit {
    type Result: Unit<Inner = Output>;

    /// Holds when `r` is the short-circuit counterpart of `self`: the same
    /// absent/error state, carried across to the new element type, holding
    /// no elements either.  Only a container holding no elements has such a
    /// counterpart; for a container holding elements the relation is false.
    spec fn short_circuits_to(&self, r: &Self::Result) -> bool;
}

} // verus!
