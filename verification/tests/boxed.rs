use functors::{Boxed, BoxedTag, Coherent, Functor, FunctorOnce};
use std::rc::Rc;

#[test]
fn box_test() {
    let b1 = Box::new(27u32);
    let b2 = Functor::<u32, f64, BoxedTag>::fmap(&b1, |x: &u32| Into::<f64>::into(*x) * 2.0);
    let b3 = FunctorOnce::<u32, f64, BoxedTag>::into_fmap(b1, |x: u32| Into::<f64>::into(x) * 3.0);
    assert_eq!(*b2, 54.0);
    assert_eq!(*b3, 81.0);
}

#[test]
fn rc_maps_by_reference() {
    let r = Rc::new("shared".to_string());
    let other = Rc::clone(&r);
    let len: Rc<usize> = Functor::<String, usize, BoxedTag>::fmap(&r, |s: &String| s.len());
    assert_eq!(*len, 6);
    assert_eq!(*other, "shared");
    assert_eq!(Rc::strong_count(&r), 2);
}

#[test]
fn box_identity_and_composition() {
    let b = Box::new(5u32);
    assert_eq!(FunctorOnce::<u32, u32, BoxedTag>::into_fmap(b.clone(), |x: u32| x), b);
    let f = |x: u32| x + 1;
    let g = |x: u32| x * 3;
    let two_steps = FunctorOnce::<u32, u32, BoxedTag>::into_fmap(
        FunctorOnce::<u32, u32, BoxedTag>::into_fmap(b.clone(), f),
        g,
    );
    assert_eq!(two_steps, FunctorOnce::<u32, u32, BoxedTag>::into_fmap(b, |x: u32| g(f(x))));
    assert_eq!(*two_steps, 18);
}

#[test]
fn protocol_of_a_pointer() {
    let b = Box::new(3u8);
    assert_eq!(<Box<u8> as Boxed<u8, char>>::as_content(&b), &3);
    assert_eq!(*<Box<u8> as Boxed<u8, char>>::boxed('z'), 'z');
    assert_eq!(*<Rc<u8> as Boxed<u8, char>>::boxed('y'), 'y');
    assert_eq!(<Box<u8> as Coherent<u8, char, bool, BoxedTag>>::inject(b), Box::new(3u8));
}
