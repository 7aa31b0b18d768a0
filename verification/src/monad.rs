//! The `Unit` constructor capability and the monad traits.

use vstd::prelude::*;
use crate::hkt::HKT;

verus! {

/// Trait for a type which contains values of another type and can be built
/// from a single such value.
///
/// `unit` is kept separate from the functor and monad traits because a caller
/// of `unit` alone has no transformation closure from which the richer trait
/// bounds could be inferred.
pub trait Unit: Sized {
    type Inner;

    /// The contained elements, in order.  An absent optional or an error
    /// result contains no elements; a present optional or a success result
    /// contains exactly one; a sequence contains its elements in order.
    spec fn contents(&self) -> Seq<Self::Inner>;

    /// Wrap a bare value into the minimal container holding exactly it.
    fn unit(x: Self::Inner) -> (r: Self)
        ensures
            r.contents() =~= seq![x],
    ;
}

/// Holds when `r` is a correctly flattened result of binding `f` over `m`:
/// there is one output container of `f` per element of `m`, in order, and
/// the elements of `r` are the concatenation, in order, of the elements of
/// those outputs.
pub open spec fn bind_flattens_to<M: HKT<T>, T, F: FnOnce(M::Inner) -> M::Result>(
    m: M,
    f: F,
    r: M::Result,
) -> bool {
    exists|ms: Seq<M::Result>|
        #![trigger ms.len()]
        ms.len() == m.contents().len() && (forall|j: int|
            0 <= j < ms.len() ==> call_ensures(f, (m.contents()[j],), #[trigger] ms[j]))
            && r.contents() =~= ms.map_values(|mm: M::Result| mm.contents()).flatten()
}

/// Establishes `bind_flattens_to` from an explicit witness: the sequence of
/// containers the transformation returned, one per element, in order.
pub proof fn lemma_bind_flattens_to_witness<M: HKT<T>, T, F: FnOnce(M::Inner) -> M::Result>(
    m: M,
    f: F,
    r: M::Result,
    ms: Seq<M::Result>,
)
    requires
        ms.len() == m.contents().len(),
        forall|j: int| 0 <= j < ms.len() ==> call_ensures(f, (m.contents()[j],), #[trigger] ms[j]),
        r.contents() =~= ms.map_values(|mm: M::Result| mm.contents()).flatten(),
    ensures
        bind_flattens_to(m, f, r),
{
    assert(ms.len() == m.contents().len() && (forall|j: int|
        0 <= j < ms.len() ==> call_ensures(f, (m.contents()[j],), #[trigger] ms[j])) && r.contents()
        =~= ms.map_values(|mm: M::Result| mm.contents()).flatten());
}

/// A container holding no elements binds, without invoking the
/// transformation, to any container holding no elements either.
pub proof fn lemma_bind_flattens_to_empty<M: HKT<T>, T, F: FnOnce(M::Inner) -> M::Result>(
    m: M,
    f: F,
    r: M::Result,
)
    requires
        m.contents().len() == 0,
        r.contents().len() == 0,
    ensures
        bind_flattens_to(m, f, r),
{
    let ms = Seq::<M::Result>::empty();
    assert(ms.map_values(|mm: M::Result| mm.contents()) =~= Seq::<Seq<T>>::empty());
    assert(ms.map_values(|mm: M::Result| mm.contents()).flatten() =~= Seq::<T>::empty());
    assert(ms.len() == m.contents().len() && (forall|j: int|
        0 <= j < ms.len() ==> call_ensures(f, (m.contents()[j],), #[trigger] ms[j])) && r.contents()
        =~= ms.map_values(|mm: M::Result| mm.contents()).flatten());
}

/// A container holding one element binds to the very container the
/// transformation returned for that element.
pub proof fn lemma_bind_flattens_to_single<M: HKT<T>, T, F: FnOnce(M::Inner) -> M::Result>(
    m: M,
    f: F,
    r: M::Result,
)
    requires
        m.contents().len() == 1,
        call_ensures(f, (m.contents()[0],), r),
    ensures
        bind_flattens_to(m, f, r),
{
    let ms = seq![r];
    assert(ms.map_values(|mm: M::Result| mm.contents()) =~= seq![r.contents()]);
    seq![r.contents()].lemma_flatten_one_element();
    assert(ms.map_values(|mm: M::Result| mm.contents()).flatten() =~= r.contents());
    assert(ms.len() == m.contents().len() && (forall|j: int|
        0 <= j < ms.len() ==> call_ensures(f, (m.contents()[j],), #[trigger] ms[j])) && r.contents()
        =~= ms.map_values(|mm: M::Result| mm.contents()).flatten());
}

/// A transformation whose outputs' contents are fixed by the mathematical
/// `f_sp` makes any correctly flattened bind result carry exactly the
/// flat-map of `f_sp` over the input's contents.
pub proof fn lemma_bind_flattens_to_unique<M: HKT<T>, T, F: FnOnce(M::Inner) -> M::Result>(
    m: M,
    f: F,
    r: M::Result,
    f_sp: spec_fn(M::Inner) -> Seq<T>,
)
    requires
        forall|x: M::Inner, y: M::Result|
            call_ensures(f, (x,), y) ==> y.contents() == f_sp(x),
        bind_flattens_to(m, f, r),
    ensures
        r.contents() == m.contents().flat_map(f_sp),
{
    let ms = choose|ms: Seq<M::Result>|
        #![trigger ms.len()]
        ms.len() == m.contents().len() && (forall|j: int|
            0 <= j < ms.len() ==> call_ensures(f, (m.contents()[j],), #[trigger] ms[j]))
            && r.contents() =~= ms.map_values(|mm: M::Result| mm.contents()).flatten();
    assert(ms.map_values(|mm: M::Result| mm.contents()) =~= m.contents().map_values(f_sp));
    assert(r.contents() =~= m.contents().flat_map(f_sp));
}

/// Monad whose transformation is invoked at most once and may consume
/// captured state.  Only containers holding at most one element can satisfy
/// the single-invocation contract.
pub trait MonadOnce<T>: HKT<T> {
    /// Apply `f` to each contained element and flatten: the resulting
    /// container's elements are the concatenation, in order, of the elements
    /// of the containers `f` returned.  A container holding no elements
    /// short-circuits, carrying its absent/error state across unchanged, and
    /// `f` is not invoked (nothing is required of `f` in that case); a
    /// container holding one element adopts the container `f` returned.
    fn bind<F>(self, f: F) -> (r: Self::Result) where F: FnOnce(Self::Inner) -> Self::Result
        requires
            forall|i: int|
                0 <= i < self.contents().len() ==> call_requires(
                    f,
                    (#[trigger] self.contents()[i],),
                ),
        ensures
            bind_flattens_to(self, f, r),
            self.contents().len() == 0 ==> self.short_circuits_to(&r),
            self.contents().len() == 1 ==> call_ensures(f, (self.contents()[0],), r),
    ;
}

/// Monad whose transformation may be invoked repeatedly and may mutate
/// captured state between invocations.
pub trait MonadMut<T>: HKT<T> {
    /// Apply `f` to each contained element, in order, and flatten: the
    /// resulting container's elements are the concatenation, in order, of
    /// the elements of the containers `f` returned.  A container holding no
    /// elements short-circuits, carrying its absent/error state across
    /// unchanged, and `f` is not invoked; a container holding one element
    /// adopts the container `f` returned.
    fn bind<F>(self, f: F) -> (r: Self::Result) where F: FnMut(Self::Inner) -> Self::Result
        requires
            forall|i: int|
                0 <= i < self.contents().len() ==> call_requires(
                    f,
                    (#[trigger] self.contents()[i],),
                ),
        ensures
            bind_flattens_to(self, f, r),
            self.contents().len() == 0 ==> self.short_circuits_to(&r),
            self.contents().len() == 1 ==> call_ensures(f, (self.contents()[0],), r),
    ;
}

/// Monad whose transformation must not depend on or mutate outside state:
/// safe to invoke repeatedly in any order.
pub trait Monad<T>: HKT<T> {
    /// Apply `f` to each contained element, in order, and flatten: the
    /// resulting container's elements are the concatenation, in order, of
    /// the elements of the containers `f` returned.  A container holding no
    /// elements short-circuits, carrying its absent/error state across
    /// unchanged, and `f` is not invoked; a container holding one element
    /// adopts the container `f` returned.
    fn bind<F>(self, f: F) -> (r: Self::Result) where F: Fn(Self::Inner) -> Self::Result
        requires
            forall|i: int|
                0 <= i < self.contents().len() ==> call_requires(
                    f,
                    (#[trigger] self.contents()[i],),
                ),
        ensures
            bind_flattens_to(self, f, r),
            self.contents().len() == 0 ==> self.short_circuits_to(&r),
            self.contents().len() == 1 ==> call_ensures(f, (self.contents()[0],), r),
    ;
}

} // verus!
