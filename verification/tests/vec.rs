use rsz::Functor;
use rsz::Monad;
use rsz::Unit;

fn dec(i: u32) -> Vec<i32> {
    Unit::unit((i as i32) - 1)
}

fn succ(num: u32) -> Vec<u64> {
    Unit::unit((num + 1) as u64)
}

fn double(num: u64) -> Vec<u64> {
    Unit::unit(num * 2)
}

#[test]
fn test_map() {
    assert_eq!(Functor::map(vec![1, 2, 3], |x| x * 2), vec![2, 4, 6]);
}

#[test]
fn vec_left_identity() {
    // return a >>= f
    let lhs = Monad::bind(Vec::unit(1), dec);
    // f a
    let rhs = dec(1);

    assert_eq!(lhs, rhs);
}

#[test]
fn vec_right_identity() {
    // m >>= return
    let lhs = Monad::bind(vec![1], Unit::unit);
    // m
    let rhs = vec![1];

    assert_eq!(lhs, rhs);
}

#[test]
fn vec_associativity() {
    // (m >>= f) >>= g
    let lhs = Monad::bind(Monad::bind(vec![2], succ), double);
    // m >>= (\x -> f x >> g)
    let rhs = Monad::bind(vec![2], |x| Monad::bind(succ(x), double));

    assert_eq!(lhs, rhs);
}
