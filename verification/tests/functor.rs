use functors::{Coherent, Comp0, Comp1, Functor, FunctorMut, FunctorOnce};

#[test]
fn array1() {
    let v = [1, 2, 3];
    let vv = FunctorOnce::<i32, String, ()>::into_fmap(v, |x: i32| x.to_string());
    assert_eq!(vv, ["1", "2", "3"]);
}

#[test]
fn array_keeps_its_arity() {
    let v = [1u8, 2, 3];
    let vv: [String; 3] = FunctorOnce::<u8, String, ()>::into_fmap(v, |x: u8| x.to_string());
    assert_eq!(vv.len(), 3);
    let none: [u8; 0] = [];
    let still_none: [bool; 0] = FunctorOnce::<u8, bool, ()>::into_fmap(none, |x: u8| x > 0);
    assert_eq!(still_none.len(), 0);
}

#[test]
fn array_identity_and_composition() {
    let v = [4u32, 5, 6];
    let same = FunctorOnce::<u32, u32, ()>::into_fmap(v, |x: u32| x);
    assert_eq!(same, v);
    let f = |x: u32| x + 1;
    let g = |x: u32| x * 10;
    let two_steps = FunctorOnce::<u32, u32, ()>::into_fmap(
        FunctorOnce::<u32, u32, ()>::into_fmap(v, f),
        g,
    );
    let one_step = FunctorOnce::<u32, u32, ()>::into_fmap(v, |x: u32| g(f(x)));
    assert_eq!(two_steps, one_step);
    assert_eq!(two_steps, [50, 60, 70]);
}

#[test]
fn option_maps_what_is_there() {
    let some = Some(20u32);
    assert_eq!(Functor::<u32, u32, ()>::fmap(&some, |x: &u32| *x + 1), Some(21));
    assert_eq!(some, Some(20));
    assert_eq!(FunctorOnce::<u32, String, ()>::into_fmap(some, |x: u32| x.to_string()), Some("20".to_string()));
}

#[test]
fn option_absent_stays_absent_and_calls_nothing() {
    let none: Option<u32> = None;
    let by_ref: Option<u32> = Functor::<u32, u32, ()>::fmap(&none, |_: &u32| panic!("called"));
    assert_eq!(by_ref, None);
    let by_value: Option<u32> = FunctorOnce::<u32, u32, ()>::into_fmap(none, |_: u32| panic!("called"));
    assert_eq!(by_value, None);
    let mut absent: Option<u32> = None;
    let by_mut: Option<u32> = FunctorMut::<u32, u32, ()>::fmap_mut(&mut absent, |_: &mut u32| panic!("called"));
    assert_eq!(by_mut, None);
    assert_eq!(absent, None);
}

#[test]
fn option_identity_and_composition() {
    let c = Some(7i64);
    assert_eq!(FunctorOnce::<i64, i64, ()>::into_fmap(c, |x: i64| x), c);
    let f = |x: i64| x - 10;
    let g = |x: i64| x * x;
    let two_steps = FunctorOnce::<i64, i64, ()>::into_fmap(FunctorOnce::<i64, i64, ()>::into_fmap(c, f), g);
    assert_eq!(two_steps, FunctorOnce::<i64, i64, ()>::into_fmap(c, |x: i64| g(f(x))));
    assert_eq!(two_steps, Some(9));
}

#[test]
fn mutable_map_shows_what_the_transform_returns() {
    // The transform returns the value it finds, then changes it: the result
    // holds the value before the change.
    let mut slot = Some(41u32);
    let seen_before = FunctorMut::<u32, u32, ()>::fmap_mut(&mut slot, |x: &mut u32| {
        let found = *x;
        *x += 1;
        found
    });
    assert_eq!(seen_before, Some(41));
    assert_eq!(slot, Some(42));
    // The transform changes the value, then returns it: the result holds
    // the value after the change.
    let mut slot = Some(41u32);
    let seen_after = FunctorMut::<u32, u32, ()>::fmap_mut(&mut slot, |x: &mut u32| {
        *x += 1;
        *x
    });
    assert_eq!(seen_after, Some(42));
    assert_eq!(slot, Some(42));
}

#[test]
fn pair_maps_the_chosen_component() {
    let p = (3u8, "three");
    assert_eq!(FunctorOnce::<u8, u16, Comp0>::into_fmap(p, |x: u8| x as u16 * 100), (300u16, "three"));
    assert_eq!(FunctorOnce::<&str, usize, Comp1>::into_fmap(p, |s: &str| s.len()), (3u8, 5usize));
    assert_eq!(Functor::<&str, usize, Comp1>::fmap(&p, |s: &&str| s.len()), (3u8, 5usize));
    assert_eq!(p, (3u8, "three"));
}

#[test]
fn pair_identity_and_composition() {
    let p = ('k', 12u32);
    assert_eq!(FunctorOnce::<u32, u32, Comp1>::into_fmap(p, |x: u32| x), p);
    let f = |x: u32| x + 3;
    let g = |x: u32| x.to_string();
    let two_steps = FunctorOnce::<u32, String, Comp1>::into_fmap(
        FunctorOnce::<u32, u32, Comp1>::into_fmap(p, f),
        g,
    );
    assert_eq!(two_steps, FunctorOnce::<u32, String, Comp1>::into_fmap(p, |x: u32| g(f(x))));
    assert_eq!(two_steps, ('k', "15".to_string()));
}

#[test]
fn cohere_and_inject_hand_back_their_argument() {
    let p = (1u8, "one".to_string());
    let q = <(u8, String) as Coherent<String, usize, bool, Comp1>>::inject(p.clone());
    assert_eq!(q, p);
    let r = <(u8, String) as Coherent<String, usize, bool, Comp1>>::cohere((1u8, true));
    assert_eq!(r, (1u8, true));
    let o = <Option<u32> as Coherent<u32, String, char, ()>>::cohere(Some('c'));
    assert_eq!(o, Some('c'));
    let a = <[u32; 2] as Coherent<u32, String, char, ()>>::inject([8, 9]);
    assert_eq!(a, [8, 9]);
}

#[test]
fn pair_maps_by_mutable_reference() {
    let mut p = (7u8, 100u32);
    let r = FunctorMut::<u32, u32, Comp1>::fmap_mut(&mut p, |x: &mut u32| {
        *x -= 1;
        *x * 2
    });
    assert_eq!(r, (7, 198));
    assert_eq!(p, (7, 99));
}

#[test]
fn transform_is_called_once_for_each_slot() {
    let mut seen: Vec<u8> = Vec::new();
    let r = FunctorOnce::<u8, u8, ()>::into_fmap([5u8, 6, 7], |x: u8| {
        seen.push(x);
        x
    });
    assert_eq!(r, [5, 6, 7]);
    assert_eq!(seen, [5, 6, 7]);
    let mut calls = 0;
    let r = FunctorOnce::<u8, u8, ()>::into_fmap(Some(1u8), |x: u8| {
        calls += 1;
        x
    });
    assert_eq!(r, Some(1));
    assert_eq!(calls, 1);
    let mut calls = 0;
    let r = FunctorOnce::<u8, u8, Comp0>::into_fmap((1u8, 'z'), |x: u8| {
        calls += 1;
        x
    });
    assert_eq!(r, (1, 'z'));
    assert_eq!(calls, 1);
}
