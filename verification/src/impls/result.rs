//! The fallible-result container: a success holds exactly one element, an
//! error holds none and short-circuits, propagating the same error value.

use vstd::prelude::*;
use crate::functor::Functor;
use crate::functor::FunctorMut;
use crate::functor::FunctorOnce;
use crate::hkt::HKT;
use crate::monad::Monad;
use crate::monad::MonadMut;
use crate::monad::MonadOnce;
use crate::monad::Unit;
use crate::monad::lemma_bind_flattens_to_empty;
use crate::monad::lemma_bind_flattens_to_single;

verus! {

impl<T, E> Unit for Result<T, E> {
    type Inner = T;

    open spec fn contents(&self) -> Seq<T> {
        match *self {
            Result::Ok(t) => seq![t],
            Result::Err(_) => Seq::empty(),
        }
    }

    fn unit(x: T) -> (r: Self)
        ensures
            r == Result::<T, E>::Ok(x),
    {
        Ok(x)
    }
}

impl<T, U, E> HKT<U> for Result<T, E> {
    type Result = Result<U, E>;

    open spec fn short_circuits_to(&self, r: &Result<U, E>) -> bool {
        match (self, r) {
            (Result::Err(e), Result::Err(e2)) => e == e2,
            _ => false,
        }
    }
}

impl<T, U, E> FunctorOnce<U> for Result<T, E> {
    fn map<F>(self, f: F) -> (r: Result<U, E>) where F: FnOnce(T) -> U {
        match self {
            Ok(t) => {
                proof {
                    assert(self.contents()[0] == t);
                }
                Ok(f(t))
            },
            Err(e) => Err(e),
        }
    }
}

impl<T, U, E> FunctorMut<U> for Result<T, E> {
    fn map<F>(self, f: F) -> (r: Result<U, E>) where F: FnMut(T) -> U {
        FunctorOnce::map(self, f)
    }
}

impl<T, U, E> Functor<U> for Result<T, E> {
    fn map<F>(self, f: F) -> (r: Result<U, E>) where F: Fn(T) -> U {
        FunctorOnce::map(self, f)
    }
}

impl<T, U, E> MonadOnce<U> for Result<T, E> {
    fn bind<F>(self, f: F) -> (r: Result<U, E>) where F: FnOnce(T) -> Result<U, E> {
        match self {
            Ok(t) => {
                proof {
                    assert(self.contents()[0] == t);
                }
                let out = f(t);
                proof {
                    lemma_bind_flattens_to_single(self, f, out);
                }
                out
            },
            Err(e) => {
                let out = Result::<U, E>::Err(e);
                proof {
                    lemma_bind_flattens_to_empty(self, f, out);
                }
                out
            },
        }
    }
}

impl<T, U, E> MonadMut<U> for Result<T, E> {
    fn bind<F>(self, f: F) -> (r: Result<U, E>) where F: FnMut(T) -> Result<U, E> {
        MonadOnce::bind(self, f)
    }
}

impl<T, U, E> Monad<U> for Result<T, E> {
    fn bind<F>(self, f: F) -> (r: Result<U, E>) where F: Fn(T) -> Result<U, E> {
        MonadOnce::bind(self, f)
    }
}

/// The mathematical fallible-result constructor: the minimal success
/// container holding exactly `x`.
pub open spec fn result_unit<A, E>(x: A) -> Result<A, E> {
    Result::Ok(x)
}

/// The mathematical fallible-result map: apply `f` to the success value, if
/// any; an error passes through unchanged.
pub open spec fn result_map<A, B, E>(m: Result<A, E>, f: spec_fn(A) -> B) -> Result<B, E> {
    match m {
        Result::Ok(a) => Result::Ok(f(a)),
        Result::Err(e) => Result::Err(e),
    }
}

/// The mathematical fallible-result bind: an error input short-circuits to
/// the same error; a success input adopts the container `f` returns.
pub open spec fn result_bind<A, B, E>(
    m: Result<A, E>,
    f: spec_fn(A) -> Result<B, E>,
) -> Result<B, E> {
    match m {
        Result::Ok(a) => f(a),
        Result::Err(e) => Result::Err(e),
    }
}

/// A transformation whose output is fixed by the mathematical `f_sp` makes
/// the executable `map` contract admit exactly `result_map(m, f_sp)`.
pub proof fn lemma_result_map_agrees<A, B, E, F: FnOnce(A) -> B>(
    m: Result<A, E>,
    f: F,
    f_sp: spec_fn(A) -> B,
    r: Result<B, E>,
)
    requires
        forall|x: A, y: B| call_ensures(f, (x,), y) ==> y == f_sp(x),
        r.contents().len() == m.contents().len(),
        forall|i: int|
            0 <= i < m.contents().len() ==> call_ensures(
                f,
                (m.contents()[i],),
                #[trigger] r.contents()[i],
            ),
        m.contents().len() == 0 ==> m.short_circuits_to(&r),
    ensures
        r == result_map(m, f_sp),
{
    match (m, r) {
        (Result::Ok(a), Result::Ok(b)) => {
            assert(m.contents()[0] == a);
            assert(r.contents()[0] == b);
        },
        _ => {},
    }
}

/// A transformation whose output is fixed by the mathematical `f_sp` makes
/// the executable `bind` contract admit exactly `result_bind(m, f_sp)`.
pub proof fn lemma_result_bind_agrees<A, B, E, F: FnOnce(A) -> Result<B, E>>(
    m: Result<A, E>,
    f: F,
    f_sp: spec_fn(A) -> Result<B, E>,
    r: Result<B, E>,
)
    requires
        forall|x: A, y: Result<B, E>| call_ensures(f, (x,), y) ==> y == f_sp(x),
        m.contents().len() == 0 ==> m.short_circuits_to(&r),
        m.contents().len() == 1 ==> call_ensures(f, (m.contents()[0],), r),
    ensures
        r == result_bind(m, f_sp),
{
    match m {
        Result::Ok(a) => {
            assert(m.contents()[0] == a);
        },
        Result::Err(_) => {},
    }
}

/// Functor identity law: mapping with the identity transformation yields a
/// container equal to the original.
pub proof fn lemma_result_functor_identity<A, E>(m: Result<A, E>)
    ensures
        result_map(m, |x: A| x) == m,
{
}

/// Functor composition law: mapping with `f` and then with `g` equals
/// mapping once with the composition of `f` and `g`.
pub proof fn lemma_result_functor_composition<A, B, C, E>(
    m: Result<A, E>,
    f: spec_fn(A) -> B,
    g: spec_fn(B) -> C,
)
    ensures
        result_map(result_map(m, f), g) == result_map(m, |x: A| g(f(x))),
{
}

/// Monad left identity law: binding the minimal success container holding
/// `x` with `f` yields exactly `f(x)`.
pub proof fn lemma_result_monad_left_identity<A, B, E>(x: A, f: spec_fn(A) -> Result<B, E>)
    ensures
        result_bind(result_unit(x), f) == f(x),
{
}

/// Monad right identity law: binding any container with the minimal
/// constructor yields a container equal to the original.
pub proof fn lemma_result_monad_right_identity<A, E>(m: Result<A, E>)
    ensures
        result_bind(m, |x: A| result_unit(x)) == m,
{
}

/// Short-circuit law: binding an error yields the same error whatever the
/// transformation; it plays no part in the outcome.
pub proof fn lemma_result_bind_short_circuit<A, B, E>(e: E, f: spec_fn(A) -> Result<B, E>)
    ensures
        result_bind(Result::<A, E>::Err(e), f) == Result::<B, E>::Err(e),
{
}

/// Monad associativity law: binding with `f` and then with `g` equals
/// binding once with the transformation that binds `f`'s output with `g`.
pub proof fn lemma_result_monad_associativity<A, B, C, E>(
    m: Result<A, E>,
    f: spec_fn(A) -> Result<B, E>,
    g: spec_fn(B) -> Result<C, E>,
)
    ensures
        result_bind(result_bind(m, f), g) == result_bind(m, |x: A| result_bind(f(x), g)),
{
}

} // verus!
