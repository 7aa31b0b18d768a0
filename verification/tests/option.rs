use rsz::FunctorOnce;
use rsz::Monad;
use rsz::Unit;

fn dec(i: u32) -> Option<i32> {
    Unit::unit((i as i32) - 1)
}

fn succ(num: u32) -> Option<u64> {
    Unit::unit((num + 1) as u64)
}

fn double(num: u64) -> Option<u64> {
    Unit::unit(num * 2)
}

#[test]
fn option_left_identity() {
    // return a >>= f
    let lhs = Monad::bind(Option::unit(1), dec);
    // f a
    let rhs = dec(1);

    assert_eq!(lhs, rhs);
}

#[test]
fn option_right_identity() {
    // m >>= return
    let lhs = Monad::bind(Some(1), Unit::unit);
    // m
    let rhs = Some(1);

    assert_eq!(lhs, rhs);
}

#[test]
fn option_associativity() {
    // (m >>= f) >>= g
    let lhs = Monad::bind(Monad::bind(Some(2), succ), double);
    // m >>= (\x -> f x >> g)
    let rhs = Monad::bind(Some(2), |x| Monad::bind(succ(x), double));

    assert_eq!(lhs, rhs);
}

#[test]
fn option_map() {
    let mut run_a = false;
    let mut run_b = false;

    let a = Some(1i32);
    let b: Option<i32> = None;

    let r_a = a.map(|i| {
        run_a = true;

        i + 1
    });
    let r_b = b.map(|i| {
        run_b = true;

        i + 2
    });

    assert_eq!(r_a, Some(2));
    assert_eq!(run_a, true);
    assert_eq!(r_b, None);
    assert_eq!(run_b, false);
}

#[test]
fn option_map_trait() {
    let mut run_a = false;
    let mut run_b = false;

    let a = Some(1i32);
    let b: Option<i32> = None;

    let r_a = FunctorOnce::map(a, |i| {
        run_a = true;

        i + 1
    });
    let r_b = FunctorOnce::map(b, |i| {
        run_b = true;

        i + 2
    });

    assert_eq!(r_a, Some(2));
    assert_eq!(run_a, true);
    assert_eq!(r_b, None);
    assert_eq!(run_b, false);
}

#[test]
fn option_unit() {
    let r: Option<_> = Unit::unit(123i32);

    assert_eq!(r, Some(123i32));
}
