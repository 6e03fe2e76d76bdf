use functors::{BiCoherent, BiFunctor, BiFunctorMut, BiFunctorOnce, Functor, FunctorOnce, Proj0, Proj1};

#[test]
fn bif() {
    let p: (u8, u32) = (4, 5);
    let q = BiFunctor::<u8, u32, String, String, ()>::fmap2(&p, |x: &u8| x.to_string(), |y: &u32| y.to_string());
    let r = BiFunctorOnce::<u8, u32, u8, f32, ()>::into_fmap2(p, |x: u8| x * 2, |y: u32| y as f32 / 2.0);
    assert_eq!(r, (8, 2.5));
    assert_eq!(q, ("4".into(), "5".into()));
}

#[test]
fn projection_is_the_two_slot_map_with_the_identity() {
    let p: (u8, u32) = (4, 5);
    let double = |x: u8| x * 2;
    let first = FunctorOnce::<u8, u8, Proj0<u32>>::into_fmap(p, double);
    let general = BiFunctorOnce::<u8, u32, u8, u32, ()>::into_fmap2(p, double, |y: u32| y);
    assert_eq!(first, general);
    assert_eq!(first, (8, 5));
    let second = FunctorOnce::<u32, String, Proj1<u8>>::into_fmap(p, |y: u32| y.to_string());
    assert_eq!(second, (4, "5".to_string()));
}

#[test]
fn projection_by_reference_clones_the_other_slot() {
    let p = ("kept".to_string(), 5u32);
    let r = Functor::<u32, u32, Proj1<String>>::fmap(&p, |y: &u32| y + 1);
    assert_eq!(r, ("kept".to_string(), 6));
    assert_eq!(p, ("kept".to_string(), 5));
    let q = (4u8, "kept".to_string());
    let r = Functor::<u8, u8, Proj0<String>>::fmap(&q, |x: &u8| x * 2);
    assert_eq!(r, (8, "kept".to_string()));
    assert_eq!(
        r,
        BiFunctor::<u8, String, u8, String, ()>::fmap2(&q, |x: &u8| x * 2, |y: &String| y.clone())
    );
}

#[test]
fn mutable_two_slot_map() {
    let mut p = (1u8, 10u32);
    let r = BiFunctorMut::<u8, u32, u8, u32, ()>::mut_fmap2(
        &mut p,
        |x: &mut u8| {
            let found = *x;
            *x += 1;
            found
        },
        |y: &mut u32| {
            *y += 1;
            *y
        },
    );
    assert_eq!(r, (1, 11));
    assert_eq!(p, (2, 11));
}

#[test]
fn bifunctor_composition_and_coherence() {
    let p = (2u32, 3u32);
    let two_steps = BiFunctorOnce::<u32, u32, u32, u32, ()>::into_fmap2(
        BiFunctorOnce::<u32, u32, u32, u32, ()>::into_fmap2(p, |x: u32| x + 1, |y: u32| y + 2),
        |x: u32| x * 10,
        |y: u32| y * 100,
    );
    let one_step = BiFunctorOnce::<u32, u32, u32, u32, ()>::into_fmap2(p, |x: u32| (x + 1) * 10, |y: u32| (y + 2) * 100);
    assert_eq!(two_steps, one_step);
    assert_eq!(two_steps, (30, 500));
    let c = <(u32, u32) as BiCoherent<u32, u32, u8, u8, char, bool, ()>>::cohere(('c', true));
    assert_eq!(c, ('c', true));
}

#[test]
fn conversions_of_a_pair_hand_back_their_argument() {
    let p = (1u8, 'x');
    assert_eq!(<(u8, char) as BiCoherent<u8, char, u8, u8, char, bool, ()>>::inject(p), p);
    assert_eq!(<(u8, char) as functors::Coherent<u8, String, bool, Proj0<char>>>::cohere((true, 'x')), (true, 'x'));
    assert_eq!(<(u8, char) as functors::Coherent<char, String, bool, Proj1<u8>>>::inject(p), p);
    let identity = FunctorOnce::<u8, u8, Proj0<char>>::into_fmap(p, |x: u8| x);
    assert_eq!(identity, p);
}
