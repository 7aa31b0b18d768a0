use rsz::Functor;
use rsz::FunctorOnce;
use rsz::Monad;
use rsz::Unit;

fn id_i32(x: i32) -> i32 {
    x
}

fn succ_i32(x: i32) -> i32 {
    x + 1
}

fn double_i32(x: i32) -> i32 {
    x * 2
}

fn copies(n: usize) -> Vec<usize> {
    vec![n; n]
}

#[test]
fn functor_identity_option() {
    assert_eq!(FunctorOnce::map(Some(7), id_i32), Some(7));
    assert_eq!(FunctorOnce::map(None::<i32>, id_i32), None);
}

#[test]
fn functor_identity_result() {
    assert_eq!(Functor::map(Ok::<i32, ()>(7), id_i32), Ok(7));
    assert_eq!(Functor::map(Err::<i32, u8>(3), id_i32), Err(3));
}

#[test]
fn functor_identity_vec() {
    assert_eq!(Functor::map(vec![1, 2, 3], id_i32), vec![1, 2, 3]);
    assert_eq!(Functor::map(Vec::<i32>::new(), id_i32), Vec::<i32>::new());
}

#[test]
fn functor_composition_option() {
    let two_steps = FunctorOnce::map(FunctorOnce::map(Some(3), succ_i32), double_i32);
    let one_step = FunctorOnce::map(Some(3), |x| double_i32(succ_i32(x)));

    assert_eq!(two_steps, Some(8));
    assert_eq!(two_steps, one_step);
}

#[test]
fn functor_composition_result() {
    let two_steps = Functor::map(Functor::map(Ok::<i32, ()>(3), succ_i32), double_i32);
    let one_step = Functor::map(Ok::<i32, ()>(3), |x| double_i32(succ_i32(x)));

    assert_eq!(two_steps, Ok(8));
    assert_eq!(two_steps, one_step);
}

#[test]
fn functor_composition_vec() {
    let two_steps = Functor::map(Functor::map(vec![1, 2, 3], succ_i32), double_i32);
    let one_step = Functor::map(vec![1, 2, 3], |x| double_i32(succ_i32(x)));

    assert_eq!(two_steps, vec![4, 6, 8]);
    assert_eq!(two_steps, one_step);
}

#[test]
fn vec_bind_concatenates_in_order() {
    let bound = Monad::bind(vec![1usize, 2, 3], copies);

    let mut concatenated = copies(1);
    concatenated.extend(copies(2));
    concatenated.extend(copies(3));

    assert_eq!(bound, vec![1, 2, 2, 3, 3, 3]);
    assert_eq!(bound, concatenated);
}

#[test]
fn vec_bind_empty_input() {
    let bound = Monad::bind(Vec::<usize>::new(), copies);

    assert_eq!(bound, Vec::<usize>::new());
}

#[test]
fn vec_unit_singleton() {
    let v: Vec<i32> = Unit::unit(5);

    assert_eq!(v, vec![5]);
}
