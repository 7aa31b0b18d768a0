//! The optional-value container: a present value holds exactly one element,
//! an absent value holds none and short-circuits.

use vstd::prelude::*;
use crate::functor::Functor;
use crate::functor::FunctorMut;
use crate::functor::FunctorOnce;
use crate::hkt::HKT;
use crate::monad::Monad;
use crate::monad::MonadMut;
use crate::monad::MonadOnce;
use crate::monad::Unit;
use crate::monad::lemma_bind_flattens_to_empty;
use crate::monad::lemma_bind_flattens_to_single;

verus! {

impl<T> Unit for Option<T> {
    type Inner = T;

    open spec fn contents(&self) -> Seq<T> {
        match *self {
            Option::Some(t) => seq![t],
            Option::None => Seq::empty(),
        }
    }

    fn unit(x: T) -> (r: Self)
        ensures
            r == Option::Some(x),
    {
        Some(x)
    }
}

impl<T, U> HKT<U> for Option<T> {
    type Result = Option<U>;

    open spec fn short_circuits_to(&self, r: &Option<U>) -> bool {
        (*self) is None && (*r) is None
    }
}

impl<T, U> FunctorOnce<U> for Option<T> {
    fn map<F>(self, f: F) -> (r: Option<U>) where F: FnOnce(T) -> U {
        match self {
            Some(t) => {
                proof {
                    assert(self.contents()[0] == t);
                }
                Some(f(t))
            },
            None => None,
        }
    }
}

impl<T, U> FunctorMut<U> for Option<T> {
    fn map<F>(self, f: F) -> (r: Option<U>) where F: FnMut(T) -> U {
        FunctorOnce::map(self, f)
    }
}

impl<T, U> Functor<U> for Option<T> {
    fn map<F>(self, f: F) -> (r: Option<U>) where F: Fn(T) -> U {
        FunctorOnce::map(self, f)
    }
}

impl<T, U> MonadOnce<U> for Option<T> {
    fn bind<F>(self, f: F) -> (r: Option<U>) where F: FnOnce(T) -> Option<U> {
        match self {
            Some(t) => {
                proof {
                    assert(self.contents()[0] == t);
                }
                let out = f(t);
                proof {
                    lemma_bind_flattens_to_single(self, f, out);
                }
                out
            },
            None => {
                let out = Option::<U>::None;
                proof {
                    lemma_bind_flattens_to_empty(self, f, out);
                }
                out
            },
        }
    }
}

impl<T, U> MonadMut<U> for Option<T> {
    fn bind<F>(self, f: F) -> (r: Option<U>) where F: FnMut(T) -> Option<U> {
        MonadOnce::bind(self, f)
    }
}

impl<T, U> Monad<U> for Option<T> {
    fn bind<F>(self, f: F) -> (r: Option<U>) where F: Fn(T) -> Option<U> {
        MonadOnce::bind(self, f)
    }
}

/// The mathematical optional-value constructor: the minimal container
/// holding exactly `x`.
pub open spec fn option_unit<A>(x: A) -> Option<A> {
    Option::Some(x)
}

/// The mathematical optional-value map: apply `f` to the contained value,
/// if any, preserving presence.
pub open spec fn option_map<A, B>(m: Option<A>, f: spec_fn(A) -> B) -> Option<B> {
    match m {
        Option::Some(a) => Option::Some(f(a)),
        Option::None => Option::None,
    }
}

/// The mathematical optional-value bind: an absent input short-circuits to
/// an absent output; a present input adopts the container `f` returns.
pub open spec fn option_bind<A, B>(m: Option<A>, f: spec_fn(A) -> Option<B>) -> Option<B> {
    match m {
        Option::Some(a) => f(a),
        Option::None => Option::None,
    }
}

/// A transformation whose output is fixed by the mathematical `f_sp` makes
/// the executable `map` contract admit exactly `option_map(m, f_sp)`.
pub proof fn lemma_option_map_agrees<A, B, F: FnOnce(A) -> B>(
    m: Option<A>,
    f: F,
    f_sp: spec_fn(A) -> B,
    r: Option<B>,
)
    requires
        forall|x: A, y: B| call_ensures(f, (x,), y) ==> y == f_sp(x),
        r.contents().len() == m.contents().len(),
        forall|i: int|
            0 <= i < m.contents().len() ==> call_ensures(
                f,
                (m.contents()[i],),
                #[trigger] r.contents()[i],
            ),
        m.contents().len() == 0 ==> m.short_circuits_to(&r),
    ensures
        r == option_map(m, f_sp),
{
    match (m, r) {
        (Option::Some(a), Option::Some(b)) => {
            assert(m.contents()[0] == a);
            assert(r.contents()[0] == b);
        },
        _ => {},
    }
}

/// A transformation whose output is fixed by the mathematical `f_sp` makes
/// the executable `bind` contract admit exactly `option_bind(m, f_sp)`.
pub proof fn lemma_option_bind_agrees<A, B, F: FnOnce(A) -> Option<B>>(
    m: Option<A>,
    f: F,
    f_sp: spec_fn(A) -> Option<B>,
    r: Option<B>,
)
    requires
        forall|x: A, y: Option<B>| call_ensures(f, (x,), y) ==> y == f_sp(x),
        m.contents().len() == 0 ==> m.short_circuits_to(&r),
        m.contents().len() == 1 ==> call_ensures(f, (m.contents()[0],), r),
    ensures
        r == option_bind(m, f_sp),
{
    match m {
        Option::Some(a) => {
            assert(m.contents()[0] == a);
        },
        Option::None => {},
    }
}

/// Functor identity law: mapping with the identity transformation yields a
/// container equal to the original.
pub proof fn lemma_option_functor_identity<A>(m: Option<A>)
    ensures
        option_map(m, |x: A| x) == m,
{
}

/// Functor composition law: mapping with `f` and then with `g` equals
/// mapping once with the composition of `f` and `g`.
pub proof fn lemma_option_functor_composition<A, B, C>(
    m: Option<A>,
    f: spec_fn(A) -> B,
    g: spec_fn(B) -> C,
)
    ensures
        option_map(option_map(m, f), g) == option_map(m, |x: A| g(f(x))),
{
}

/// Monad left identity law: binding the minimal container holding `x` with
/// `f` yields exactly `f(x)`.
pub proof fn lemma_option_monad_left_identity<A, B>(x: A, f: spec_fn(A) -> Option<B>)
    ensures
        option_bind(option_unit(x), f) == f(x),
{
}

/// Monad right identity law: binding any container with the minimal
/// constructor yields a container equal to the original.
pub proof fn lemma_option_monad_right_identity<A>(m: Option<A>)
    ensures
        option_bind(m, |x: A| option_unit(x)) == m,
{
}

/// Short-circuit law: binding an absent container yields an absent
/// container whatever the transformation; it plays no part in the outcome.
pub proof fn lemma_option_bind_short_circuit<A, B>(f: spec_fn(A) -> Option<B>)
    ensures
        option_bind(Option::<A>::None, f) == Option::<B>::None,
{
}

/// Monad associativity law: binding with `f` and then with `g` equals
/// binding once with the transformation that binds `f`'s output with `g`.
pub proof fn lemma_option_monad_associativity<A, B, C>(
    m: Option<A>,
    f: spec_fn(A) -> Option<B>,
    g: spec_fn(B) -> Option<C>,
)
    ensures
        option_bind(option_bind(m, f), g) == option_bind(m, |x: A| option_bind(f(x), g)),
{
}

} // verus!
