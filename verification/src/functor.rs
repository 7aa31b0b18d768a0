//! The functor traits: mapping a transformation over every contained
//! element, preserving the container's shape.

use vstd::prelude::*;
use crate::hkt::HKT;
use crate::monad::Unit;

verus! {

/// Functor whose transformation is invoked at most once and may consume
/// captured state.  Only containers holding at most one element can satisfy
/// the single-invocation contract.
pub trait FunctorOnce<T>: HKT<T> {
    /// Apply `f` to every contained element, preserving the container's
    /// shape: the result holds exactly one output of `f` per contained
    /// element, in order, and a container holding no elements carries its
    /// absent/error state across unchanged, without invoking `f` (nothing
    /// is required of `f` in that case).
    fn map<F>(self, f: F) -> (r: Self::Result) where F: FnOnce(Self::Inner) -> T
        requires
            forall|i: int|
                0 <= i < self.contents().len() ==> call_requires(
                    f,
                    (#[trigger] self.contents()[i],),
                ),
        ensures
            r.contents().len() == self.contents().len(),
            forall|i: int|
                0 <= i < self.contents().len() ==> call_ensures(
                    f,
                    (self.contents()[i],),
                    #[trigger] r.contents()[i],
                ),
            self.contents().len() == 0 ==> self.short_circuits_to(&r),
    ;
}

/// Functor whose transformation may be invoked repeatedly and may mutate
/// captured state between invocations.
pub trait FunctorMut<T>: HKT<T> {
    /// Apply `f` to every contained element, in order, preserving the
    /// container's shape: the result holds exactly one output of `f` per
    /// contained element, in order, and a container holding no elements
    /// carries its absent/error state across unchanged, without invoking
    /// `f`.
    fn map<F>(self, f: F) -> (r: Self::Result) where F: FnMut(Self::Inner) -> T
        requires
            forall|i: int|
                0 <= i < self.contents().len() ==> call_requires(
                    f,
                    (#[trigger] self.contents()[i],),
                ),
        ensures
            r.contents().len() == self.contents().len(),
            forall|i: int|
                0 <= i < self.contents().len() ==> call_ensures(
                    f,
                    (self.contents()[i],),
                    #[trigger] r.contents()[i],
                ),
            self.contents().len() == 0 ==> self.short_circuits_to(&r),
    ;
}

/// Functor whose transformation must not depend on or mutate outside state:
/// safe to invoke repeatedly in any order.
pub trait Functor<T>: HKT<T> {
    /// Apply `f` to every contained element, preserving the container's
    /// shape: the result holds exactly one output of `f` per contained
    /// element, in order, and a container holding no elements carries its
    /// absent/error state across unchanged, without invoking `f`.
    fn map<F>(self, f: F) -> (r: Self::Result) where F: Fn(Self::Inner) -> T
        requires
            forall|i: int|
                0 <= i < self.contents().len() ==> call_requires(
                    f,
                    (#[trigger] self.contents()[i],),
                ),
        ensures
            r.contents().len() == self.contents().len(),
            forall|i: int|
                0 <= i < self.contents().len() ==> call_ensures(
                    f,
                    (self.contents()[i],),
                    #[trigger] r.contents()[i],
                ),
            self.contents().len() == 0 ==> self.short_circuits_to(&r),
    ;
}

} // verus!
