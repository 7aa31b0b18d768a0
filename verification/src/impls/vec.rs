//! The sequence container: a growable vector holding its elements in order.
//! It never short-circuits; `bind` concatenates the returned containers in
//! order, the classic flat-map.

use vstd::prelude::*;
use crate::functor::Functor;
use crate::functor::FunctorMut;
use crate::hkt::HKT;
use crate::monad::Monad;
use crate::monad::MonadMut;
use crate::monad::Unit;
use crate::monad::lemma_bind_flattens_to_single;
use crate::monad::lemma_bind_flattens_to_witness;

verus! {

impl<T> Unit for Vec<T> {
    type Inner = T;

    open spec fn contents(&self) -> Seq<T> {
        self.view()
    }

    fn unit(x: T) -> (r: Self)
        ensures
            r.view() =~= seq![x],
    {
        let mut v = Vec::new();
        v.push(x);
        v
    }
}

impl<T, U> HKT<U> for Vec<T> {
    type Result = Vec<U>;

    open spec fn short_circuits_to(&self, r: &Vec<U>) -> bool {
        self.view().len() == 0 && r.view().len() == 0
    }
}

impl<T, U> FunctorMut<U> for Vec<T> {
    fn map<F>(self, mut f: F) -> (r: Vec<U>) where F: FnMut(T) -> U {
        let mut out: Vec<U> = Vec::new();
        let ghost f0 = f;
        for x in it: self
            invariant
                f == f0,
                it.seq() =~= self.contents(),
                out.contents().len() == it.index(),
                forall|i: int|
                    0 <= i < out.contents().len() ==> call_ensures(
                        f,
                        (self.contents()[i],),
                        #[trigger] out.contents()[i],
                    ),
                forall|i: int|
                    0 <= i < self.contents().len() ==> call_requires(
                        f,
                        (#[trigger] self.contents()[i],),
                    ),
        {
            proof {
                assert(self.contents()[it.index()] == x);
            }
            out.push(f(x));
        }
        out
    }
}

impl<T, U> Functor<U> for Vec<T> {
    fn map<F>(self, f: F) -> (r: Vec<U>) where F: Fn(T) -> U {
        FunctorMut::map(self, f)
    }
}

impl<T, U> MonadMut<U> for Vec<T> {
    fn bind<F>(self, mut f: F) -> (r: Vec<U>) where F: FnMut(T) -> Vec<U> {
        let mut rest = self;
        if rest.len() == 1 {
            let x = rest.pop().unwrap();
            proof {
                assert(self.contents()[0] == x);
            }
            let out = f(x);
            proof {
                lemma_bind_flattens_to_single(self, f, out);
            }
            out
        } else {
            let mut out: Vec<U> = Vec::new();
            let ghost mut ms: Seq<Vec<U>> = Seq::empty();
            let ghost f0 = f;
            for x in it: rest
                invariant
                    f == f0,
                    it.seq() =~= self.contents(),
                    ms.len() == it.index(),
                    forall|j: int|
                        0 <= j < ms.len() ==> call_ensures(
                            f,
                            (self.contents()[j],),
                            #[trigger] ms[j],
                        ),
                    out.contents() =~= ms.map_values(|mm: Vec<U>| mm.contents()).flatten(),
                    forall|i: int|
                        0 <= i < self.contents().len() ==> call_requires(
                            f,
                            (#[trigger] self.contents()[i],),
                        ),
            {
                proof {
                    assert(self.contents()[it.index()] == x);
                }
                let mut vi = f(x);
                proof {
                    let ms0 = ms;
                    ms = ms.push(vi);
                    ms0.map_values(|mm: Vec<U>| mm.contents()).lemma_flatten_push(vi.contents());
                    assert(ms.map_values(|mm: Vec<U>| mm.contents()) =~= ms0.map_values(
                        |mm: Vec<U>| mm.contents(),
                    ).push(vi.contents()));
                }
                out.append(&mut vi);
            }
            proof {
                lemma_bind_flattens_to_witness(self, f, out, ms);
            }
            out
        }
    }
}

impl<T, U> Monad<U> for Vec<T> {
    fn bind<F>(self, f: F) -> (r: Vec<U>) where F: Fn(T) -> Vec<U> {
        MonadMut::bind(self, f)
    }
}

/// The mathematical sequence constructor: the sequence holding exactly `x`.
pub open spec fn seq_unit<A>(x: A) -> Seq<A> {
    seq![x]
}

/// The mathematical sequence map: apply `f` to every element, in order,
/// preserving length.
pub open spec fn seq_map<A, B>(m: Seq<A>, f: spec_fn(A) -> B) -> Seq<B> {
    m.map_values(f)
}

/// The mathematical sequence bind, the classic flat-map: apply `f` to every
/// element, in order, and concatenate the returned sequences in order.
pub open spec fn seq_bind<A, B>(m: Seq<A>, f: spec_fn(A) -> Seq<B>) -> Seq<B> {
    m.flat_map(f)
}

/// A transformation whose output is fixed by the mathematical `f_sp` makes
/// the executable `map` contract admit exactly a vector whose elements are
/// `seq_map(m.view(), f_sp)`.
pub proof fn lemma_vec_map_agrees<A, B, F: FnOnce(A) -> B>(
    m: Vec<A>,
    f: F,
    f_sp: spec_fn(A) -> B,
    r: Vec<B>,
)
    requires
        forall|x: A, y: B| call_ensures(f, (x,), y) ==> y == f_sp(x),
        r.contents().len() == m.contents().len(),
        forall|i: int|
            0 <= i < m.contents().len() ==> call_ensures(
                f,
                (m.contents()[i],),
                #[trigger] r.contents()[i],
            ),
    ensures
        r.view() == seq_map(m.view(), f_sp),
{
    assert forall|i: int| 0 <= i < m.view().len() implies r.view()[i] == f_sp(m.view()[i]) by {
        assert(call_ensures(f, (m.contents()[i],), r.contents()[i]));
    }
    assert(r.view() =~= m.view().map_values(f_sp));
}

/// A transformation whose outputs' elements are fixed by the mathematical
/// `f_sp` makes the executable `bind` contract admit exactly a vector whose
/// elements are `seq_bind(m.view(), f_sp)`.
pub proof fn lemma_vec_bind_agrees<A, B, F: FnOnce(A) -> Vec<B>>(
    m: Vec<A>,
    f: F,
    f_sp: spec_fn(A) -> Seq<B>,
    r: Vec<B>,
)
    requires
        forall|x: A, y: Vec<B>| call_ensures(f, (x,), y) ==> y.view() == f_sp(x),
        crate::monad::bind_flattens_to(m, f, r),
    ensures
        r.view() == seq_bind(m.view(), f_sp),
{
    crate::monad::lemma_bind_flattens_to_unique(m, f, r, f_sp);
}

/// Functor identity law: mapping with the identity transformation yields a
/// sequence equal to the original.
pub proof fn lemma_seq_functor_identity<A>(m: Seq<A>)
    ensures
        seq_map(m, |x: A| x) == m,
{
    assert(seq_map(m, |x: A| x) =~= m);
}

/// Functor composition law: mapping with `f` and then with `g` equals
/// mapping once with the composition of `f` and `g`.
pub proof fn lemma_seq_functor_composition<A, B, C>(
    m: Seq<A>,
    f: spec_fn(A) -> B,
    g: spec_fn(B) -> C,
)
    ensures
        seq_map(seq_map(m, f), g) == seq_map(m, |x: A| g(f(x))),
{
    assert(seq_map(seq_map(m, f), g) =~= seq_map(m, |x: A| g(f(x))));
}

/// Monad left identity law: binding the sequence holding exactly `x` with
/// `f` yields exactly `f(x)`.
pub proof fn lemma_seq_monad_left_identity<A, B>(x: A, f: spec_fn(A) -> Seq<B>)
    ensures
        seq_bind(seq_unit(x), f) == f(x),
{
    seq![x].lemma_flat_map_singleton(f);
    assert(seq![x][0] == x);
}

/// Monad right identity law: binding any sequence with the singleton
/// constructor yields a sequence equal to the original.
pub proof fn lemma_seq_monad_right_identity<A>(m: Seq<A>)
    ensures
        seq_bind(m, |x: A| seq_unit(x)) == m,
    decreases m.len(),
{
    let u = |x: A| seq_unit(x);
    if m.len() == 0 {
        assert(m.map_values(u) =~= Seq::<Seq<A>>::empty());
        assert(seq_bind(m, u) =~= m);
    } else {
        let s = m.drop_last();
        lemma_seq_monad_right_identity(s);
        s.lemma_flat_map_push(u, m.last());
        assert(s.push(m.last()) =~= m);
        assert(seq_bind(m, u) =~= m);
    }
}

/// Binding distributes over concatenation: binding a concatenation of two
/// sequences equals the concatenation of binding each.  In particular the
/// bind of any sequence is the concatenation, in order, of `f` applied to
/// its elements.
pub proof fn lemma_seq_bind_concat<A, B>(s: Seq<A>, t: Seq<A>, f: spec_fn(A) -> Seq<B>)
    ensures
        seq_bind(s + t, f) == seq_bind(s, f) + seq_bind(t, f),
    decreases t.len(),
{
    if t.len() == 0 {
        assert(s + t =~= s);
        assert(t.map_values(f) =~= Seq::<Seq<B>>::empty());
        assert(seq_bind(t, f) =~= Seq::<B>::empty());
        assert(seq_bind(s + t, f) =~= seq_bind(s, f) + seq_bind(t, f));
    } else {
        let t0 = t.drop_last();
        lemma_seq_bind_concat(s, t0, f);
        (s + t0).lemma_flat_map_push(f, t.last());
        t0.lemma_flat_map_push(f, t.last());
        assert((s + t0).push(t.last()) =~= s + t);
        assert(t0.push(t.last()) =~= t);
        assert(seq_bind(s + t, f) =~= seq_bind(s, f) + seq_bind(t, f));
    }
}

/// Monad associativity law: binding with `f` and then with `g` equals
/// binding once with the transformation that binds `f`'s output with `g`.
pub proof fn lemma_seq_monad_associativity<A, B, C>(
    m: Seq<A>,
    f: spec_fn(A) -> Seq<B>,
    g: spec_fn(B) -> Seq<C>,
)
    ensures
        seq_bind(seq_bind(m, f), g) == seq_bind(m, |x: A| seq_bind(f(x), g)),
    decreases m.len(),
{
    let h = |x: A| seq_bind(f(x), g);
    if m.len() == 0 {
        assert(m.map_values(f) =~= Seq::<Seq<B>>::empty());
        assert(seq_bind(m, f) =~= Seq::<B>::empty());
        assert(m.map_values(h) =~= Seq::<Seq<C>>::empty());
        assert(seq_bind(m, f).map_values(g) =~= Seq::<Seq<C>>::empty());
        assert(seq_bind(seq_bind(m, f), g) =~= seq_bind(m, h));
    } else {
        let s = m.drop_last();
        let a = m.last();
        lemma_seq_monad_associativity(s, f, g);
        s.lemma_flat_map_push(f, a);
        assert(s.push(a) =~= m);
        lemma_seq_bind_concat(seq_bind(s, f), f(a), g);
        s.lemma_flat_map_push(h, a);
        assert(seq_bind(seq_bind(m, f), g) =~= seq_bind(m, h));
    }
}

} // verus!
