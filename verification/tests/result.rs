use std::cell::Cell;

use rsz::Functor;
use rsz::Monad;
use rsz::Unit;

fn dec(i: u32) -> Result<i32, ()> {
    Unit::unit((i as i32) - 1)
}

fn succ(num: u32) -> Result<u64, ()> {
    Unit::unit((num + 1) as u64)
}

fn double(num: u64) -> Result<u64, ()> {
    Unit::unit(num * 2)
}

#[test]
fn result_left_identity() {
    // return a >>= f
    let lhs = Monad::bind(Result::unit(1), dec);
    // f a
    let rhs = dec(1);

    assert_eq!(lhs, rhs);
}

#[test]
fn result_right_identity() {
    // m >>= return
    let lhs: Result<_, ()> = Monad::bind(Ok(1), Unit::unit);
    // m
    let rhs = Ok(1);

    assert_eq!(lhs, rhs);
}

#[test]
fn result_associativity() {
    // (m >>= f) >>= g
    let lhs = Monad::bind(Monad::bind(Ok(2), succ), double);
    // m >>= (\x -> f x >> g)
    let rhs = Monad::bind(Ok(2), |x| Monad::bind(succ(x), double));

    assert_eq!(lhs, rhs);
}

#[test]
fn result_map() {
    let mut run_a = false;
    let mut run_b = false;

    let a: Result<_, ()> = Ok(1i32);
    let b: Result<i32, _> = Err(());

    let r_a = a.map(|i| {
        run_a = true;

        i + 1
    });
    let r_b = b.map(|i| {
        run_b = true;

        i + 2
    });

    assert_eq!(r_a, Ok(2));
    assert_eq!(run_a, true);
    assert_eq!(r_b, Err(()));
    assert_eq!(run_b, false);
}

#[test]
fn result_map_trait() {
    let run_a = Cell::new(false);
    let run_b = Cell::new(false);

    let a: Result<_, ()> = Ok(1i32);
    let b: Result<i32, _> = Err(());

    let r_a = Functor::map(a, |i| {
        run_a.set(true);

        i + 1
    });
    let r_b = Functor::map(b, |i| {
        run_b.set(true);

        i + 2
    });

    assert_eq!(r_a, Ok(2));
    assert_eq!(run_a.get(), true);
    assert_eq!(r_b, Err(()));
    assert_eq!(run_b.get(), false);
}

#[test]
fn result_unit() {
    let r: Result<_, ()> = Unit::unit(123i32);

    assert_eq!(r, Ok(123i32));
}

#[test]
fn result_bind() {
    let run_a = Cell::new(false);
    let run_b = Cell::new(false);

    // Here the type-annotation is actually legitimately needed
    let a: Result<_, ()> = Unit::unit(1i32);
    let b: Result<i32, _> = Err(());

    let r_a = a.bind(|j| {
        run_a.set(true);

        Unit::unit(j + 1)
    });
    let r_b = b.bind(|j| {
        run_b.set(true);

        Unit::unit(j + 2)
    });

    assert_eq!(r_a, Ok(2));
    assert_eq!(run_a.get(), true);
    assert_eq!(r_b, Err(()));
    assert_eq!(run_b.get(), false);
}

#[test]
fn result_bind_trait() {
    let run_a = Cell::new(false);
    let run_b = Cell::new(false);

    // Here the type-annotation is actually legitimately needed
    let a: Result<_, ()> = Unit::unit(1i32);
    let b: Result<i32, _> = Err(());

    let r_a = Monad::bind(a, |j| {
        run_a.set(true);

        Unit::unit(j + 1)
    });
    let r_b = Monad::bind(b, |j| {
        run_b.set(true);

        Unit::unit(j + 2)
    });

    assert_eq!(r_a, Ok(2));
    assert_eq!(run_a.get(), true);
    assert_eq!(r_b, Err(()));
    assert_eq!(run_b.get(), false);
}
