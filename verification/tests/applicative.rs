use functors::{Applicative, ApplicativeMut, ApplicativeOnce};

#[test]
fn apply_option() {
    assert_eq!(ApplicativeOnce::<u32, _, u32, ()>::apply_once(None, Some(|x: u32| x)), None);
    let n: Option<fn(u32) -> u32> = None;
    assert_eq!(ApplicativeOnce::<u32, _, u32, ()>::apply_once(Some(1), n), None);
    assert_eq!(ApplicativeOnce::<u32, _, u32, ()>::apply_once(Some(3), Some(|x| x * x)), Some(9));
}

#[test]
fn absence_propagates_by_reference() {
    let square = |x: &u32| x * x;
    let some_fn = Some(square);
    let no_fn = if false { Some(square) } else { None };
    let three = Some(3u32);
    let nothing: Option<u32> = None;
    assert_eq!(Applicative::<u32, _, u32, ()>::apply(&three, &some_fn), Some(9));
    assert_eq!(Applicative::<u32, _, u32, ()>::apply(&nothing, &some_fn), None);
    assert_eq!(Applicative::<u32, _, u32, ()>::apply(&Some(1u32), &no_fn), None);
    assert_eq!(Applicative::<_, u32, u32, ()>::call(&some_fn, &three), Some(9));
    assert_eq!(Applicative::<_, u32, u32, ()>::call(&some_fn, &nothing), None);
}

#[test]
fn lift2_of_options() {
    let add = |x: &u32, y: &u64| *x as u64 + *y;
    assert_eq!(<Option<u32> as Applicative<u32, u64, u64>>::lift2(add, &Some(1), &Some(2)), Some(3));
    assert_eq!(<Option<u32> as Applicative<u32, u64, u64>>::lift2(add, &None, &Some(2)), None);
    assert_eq!(<Option<u32> as Applicative<u32, u64, u64>>::lift2(add, &Some(1), &None), None);
    let join = |x: u32, y: char| format!("{}{}", x, y);
    assert_eq!(
        <Option<u32> as ApplicativeOnce<u32, char, String>>::lift2_once(join, Some(1), Some('a')),
        Some("1a".to_string())
    );
    assert_eq!(<Option<u32> as ApplicativeOnce<u32, char, String>>::lift2_once(join, None, Some('a')), None);
    assert_eq!(<Option<u32> as ApplicativeOnce<u32, char, String>>::lift2_once(join, Some(1), None), None);
}

#[test]
fn call_once_of_options() {
    let shout = |s: String| s.to_uppercase();
    assert_eq!(
        ApplicativeOnce::<_, String, String, ()>::call_once(Some(shout), Some("hi".to_string())),
        Some("HI".to_string())
    );
    assert_eq!(ApplicativeOnce::<_, String, String, ()>::call_once(Some(shout), None), None);
}

#[test]
fn pure_of_options() {
    assert_eq!(<Option<u32> as ApplicativeOnce<u32, u32, u32>>::pure_once(4), Some(4));
    assert_eq!(<Option<String> as Applicative<String, u32, u32>>::pure(&"x".to_string()), Some("x".to_string()));
    assert_eq!(<Option<u8> as ApplicativeMut<u8, u32, u32>>::mut_pure(&9), Some(9));
}

#[test]
fn mut_apply_changes_the_slot_in_place() {
    let mut slot = Some(10u32);
    let mut bump = Some(|x: &mut u32| {
        *x += 1;
        *x
    });
    let r = ApplicativeMut::<u32, _, u32, ()>::mut_apply(&mut slot, &mut bump);
    assert_eq!(r, Some(11));
    assert_eq!(slot, Some(11));
    let mut absent: Option<u32> = None;
    let r = ApplicativeMut::<u32, _, u32, ()>::mut_apply(&mut absent, &mut bump);
    assert_eq!(r, None);
    assert_eq!(absent, None);
    let mut no_fn = if false { bump } else { None };
    let r = ApplicativeMut::<u32, _, u32, ()>::mut_apply(&mut slot, &mut no_fn);
    assert_eq!(r, None);
    assert_eq!(slot, Some(11));
}
