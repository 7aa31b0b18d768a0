use rsz::FunctorOnce;
use rsz::HKT;
use rsz::MonadOnce;
use rsz::Unit;

#[derive(Debug)]
struct A<T> {
    t: T,
}

impl<T> Unit for A<T> {
    type Inner = T;

    // Specification-level item; never invoked at run time.
    fn contents(&self) -> vstd::prelude::Seq<T> {
        unreachable!()
    }

    fn unit(t: T) -> Self {
        A { t }
    }
}

impl<T, U> HKT<U> for A<T> {
    type Result = A<U>;

    // Specification-level item; never invoked at run time.
    fn short_circuits_to(&self, _r: &A<U>) -> bool {
        unreachable!()
    }
}

impl<T, U> FunctorOnce<U> for A<T> {
    fn map<F>(self, f: F) -> Self::Result
    where
        F: FnOnce(T) -> U,
    {
        A { t: f(self.t) }
    }
}

impl<T, U> MonadOnce<U> for A<T> {
    fn bind<F>(self, f: F) -> Self::Result
    where
        F: FnOnce(T) -> Self::Result,
    {
        f(self.t)
    }
}

#[test]
fn test_simple_container() {
    let foo = A::<i32> { t: 2 };
    let bar = A::<i32> { t: 23 };

    println!("{:?}", FunctorOnce::map(foo, |i| format!("{}", i)));
    println!("{:?}", MonadOnce::bind(bar, |i| Unit::unit(format!("{}", i))));
}
