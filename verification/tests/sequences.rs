use functors::{
    Applicative, ApplicativeOnce, Coherent, Functor, FunctorMut, FunctorOnce, Mapable, Mapped,
    RefIntoIterator, RefMapable,
};
use std::collections::VecDeque;

fn ten(x: &u32) -> u32 {
    *x * 10
}

fn hundy(x: &u32) -> u32 {
    *x * 100
}

#[test]
fn vec1() {
    let v = vec![1, 2, 3];
    let v2 = Functor::<i32, i32, Mapped>::fmap(&v, |x: &i32| x + 4);
    assert_eq!(v2, [5, 6, 7]);
}

#[test]
fn ref_app() {
    let v: Vec<u32> = vec![1, 2, 3];
    let f: Vec<fn(&u32) -> u32> = vec![ten, hundy];

    let fv = Applicative::<fn(&u32) -> u32, u32, u32, Mapped>::call(&f, &v);
    assert_eq!(fv, [10, 20, 30, 100, 200, 300]);
    let vf = Applicative::<u32, fn(&u32) -> u32, u32, Mapped>::apply(&v, &f);
    assert_eq!(vf, [10, 100, 20, 200, 30, 300]);
}

#[test]
fn lift2_walks_the_first_operand_outermost() {
    let a: Vec<u32> = vec![1, 2, 3];
    let b: Vec<u32> = vec![10, 100];
    let r = <Vec<u32> as Applicative<u32, u32, u32, Mapped>>::lift2(|x: &u32, y: &u32| x * y, &a, &b);
    assert_eq!(r, [10, 100, 20, 200, 30, 300]);
    let r = <Vec<u32> as Applicative<u32, u32, u32, Mapped>>::lift2(|x: &u32, y: &u32| x * y, &b, &a);
    assert_eq!(r, [10, 20, 30, 100, 200, 300]);
}

#[test]
fn lift2_of_an_empty_operand_is_empty() {
    let a: Vec<u32> = vec![1, 2, 3];
    let e: Vec<u32> = vec![];
    let r = <Vec<u32> as Applicative<u32, u32, u32, Mapped>>::lift2(|_: &u32, _: &u32| panic!("called"), &a, &e);
    assert_eq!(r, Vec::<u32>::new());
    let r = <Vec<u32> as Applicative<u32, u32, u32, Mapped>>::lift2(|_: &u32, _: &u32| panic!("called"), &e, &a);
    assert_eq!(r, Vec::<u32>::new());
}

#[test]
fn pure_holds_one_item() {
    let v = <Vec<u32> as Applicative<u32, u32, u32, Mapped>>::pure(&5);
    assert_eq!(v, [5]);
    let d = <VecDeque<u32> as ApplicativeOnce<u32, u32, u32, Mapped>>::pure_once(6);
    assert_eq!(d, VecDeque::from(vec![6]));
}

#[test]
fn consuming_combinations_keep_the_order() {
    let a: Vec<u32> = vec![1, 2];
    let b: Vec<String> = vec!["a".to_string(), "b".to_string(), "c".to_string()];
    let r = <Vec<u32> as ApplicativeOnce<u32, String, String, Mapped>>::lift2_once(
        |x: u32, y: String| format!("{}{}", x, y),
        a,
        b,
    );
    assert_eq!(r, ["1a", "1b", "1c", "2a", "2b", "2c"]);

    let double = |x: u32| x * 2;
    let fs = vec![double, double];
    let xs: Vec<u32> = vec![1, 2, 3];
    let r = ApplicativeOnce::<_, u32, u32, Mapped>::call_once(fs, xs);
    assert_eq!(r, [2, 4, 6, 2, 4, 6]);

    let negate = |x: i32| -x;
    let fs = vec![negate];
    let xs: Vec<i32> = vec![1, 2, 3];
    let r = ApplicativeOnce::<i32, _, i32, Mapped>::apply_once(xs, fs);
    assert_eq!(r, [-1, -2, -3]);
}

#[test]
fn vec_maps_by_value_in_order() {
    let v = vec!["a", "bb", "ccc"];
    let lens = FunctorOnce::<&str, usize, Mapped>::into_fmap(v, |s: &str| s.len());
    assert_eq!(lens, [1, 2, 3]);
    let e: Vec<u8> = vec![];
    let still: Vec<u8> = FunctorOnce::<u8, u8, Mapped>::into_fmap(e, |_: u8| panic!("called"));
    assert!(still.is_empty());
}

#[test]
fn vec_identity_and_composition() {
    let v = vec![3u32, 1, 2];
    assert_eq!(FunctorOnce::<u32, u32, Mapped>::into_fmap(v.clone(), |x: u32| x), v);
    assert_eq!(Functor::<u32, u32, Mapped>::fmap(&v, |x: &u32| *x), v);
    let f = |x: u32| x + 1;
    let g = |x: u32| x * 2;
    let two_steps = FunctorOnce::<u32, u32, Mapped>::into_fmap(
        FunctorOnce::<u32, u32, Mapped>::into_fmap(v.clone(), f),
        g,
    );
    assert_eq!(two_steps, FunctorOnce::<u32, u32, Mapped>::into_fmap(v, |x: u32| g(f(x))));
    assert_eq!(two_steps, [8, 4, 6]);
}

#[test]
fn deque_maps_front_to_back() {
    let mut d: VecDeque<u32> = VecDeque::new();
    d.push_back(2);
    d.push_back(3);
    d.push_front(1);
    let by_ref = Functor::<u32, String, Mapped>::fmap(&d, |x: &u32| x.to_string());
    assert_eq!(by_ref, VecDeque::from(vec!["1".to_string(), "2".to_string(), "3".to_string()]));
    let by_value = FunctorOnce::<u32, u32, Mapped>::into_fmap(d, |x: u32| x * x);
    assert_eq!(by_value, VecDeque::from(vec![1, 4, 9]));
}

#[test]
fn vec_maps_by_mutable_reference() {
    let mut v = vec![1u32, 2, 3];
    let before = FunctorMut::<u32, u32, Mapped>::fmap_mut(&mut v, |x: &mut u32| {
        let found = *x;
        *x *= 10;
        found
    });
    assert_eq!(before, [1, 2, 3]);
    assert_eq!(v, [10, 20, 30]);
}

#[test]
fn protocol_of_a_sequence() {
    let d: VecDeque<u8> = VecDeque::from(vec![7, 8, 9]);
    let refs = d.ref_into_iter();
    assert_eq!(refs, [&7, &8, &9]);
    let items = <VecDeque<u8> as Mapable<u8, u8>>::into_items(d);
    assert_eq!(items, [7, 8, 9]);
    let again = <VecDeque<u8> as Mapable<u8, char>>::from_items(vec!['x', 'y']);
    assert_eq!(again, VecDeque::from(vec!['x', 'y']));
    let v = vec![1u8, 2];
    let same: &Vec<u8> = <Vec<char> as RefMapable<char, u8>>::inject(&v);
    assert_eq!(same, &v);
    let c = <Vec<u8> as Coherent<u8, char, bool, Mapped>>::cohere(vec![true, false]);
    assert_eq!(c, [true, false]);
}

#[test]
fn deque_maps_by_mutable_reference() {
    let mut d: VecDeque<u32> = VecDeque::new();
    d.push_back(2);
    d.push_front(1);
    let after = FunctorMut::<u32, u32, Mapped>::fmap_mut(&mut d, |x: &mut u32| {
        *x += 5;
        *x
    });
    assert_eq!(after, VecDeque::from(vec![6, 7]));
    assert_eq!(d, VecDeque::from(vec![6, 7]));
}

#[test]
fn transform_is_called_once_for_each_item_in_order() {
    let v = vec![3u32, 1, 2];
    let mut seen: Vec<u32> = Vec::new();
    let r = FunctorOnce::<u32, u32, Mapped>::into_fmap(v.clone(), |x: u32| {
        seen.push(x);
        x + 1
    });
    assert_eq!(r, [4, 2, 3]);
    assert_eq!(seen, [3, 1, 2]);
    let mut calls = 0;
    let r = Functor::<u32, u32, Mapped>::fmap(&v, |x: &u32| {
        calls += 1;
        *x
    });
    assert_eq!(r, v);
    assert_eq!(calls, 3);
    let a: Vec<u32> = vec![1, 2];
    let b: Vec<u32> = vec![10, 20, 30];
    let pairs = std::cell::RefCell::new(Vec::new());
    let r = <Vec<u32> as Applicative<u32, u32, u32, Mapped>>::lift2(
        |x: &u32, y: &u32| {
            pairs.borrow_mut().push((*x, *y));
            x + y
        },
        &a,
        &b,
    );
    assert_eq!(r, [11, 21, 31, 12, 22, 32]);
    assert_eq!(pairs.into_inner(), [(1, 10), (1, 20), (1, 30), (2, 10), (2, 20), (2, 30)]);
}

#[test]
fn cross_of_two_lists() {
    let xs = vec![1u32, 2];
    let ys = vec!['a', 'b', 'c'];
    let r = functors::mapable::cross(|x: &u32, y: &char| format!("{}{}", x, y), &xs, &ys);
    assert_eq!(r, ["1a", "1b", "1c", "2a", "2b", "2c"]);
    let none: Vec<char> = Vec::new();
    let r: Vec<String> = functors::mapable::cross(|x: &u32, y: &char| format!("{}{}", x, y), &xs, &none);
    assert!(r.is_empty());
}
