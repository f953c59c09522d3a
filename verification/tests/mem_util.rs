use drbot::mem_util::{
    align_of, clone_from_slice, copy_from_slice, drop_value, forget, is_zst, replace, size_of,
    size_of_val, swap, take, ManualDrop, MaybeUninit,
};

#[test]
fn test_swap() {
    let mut a = 1;
    let mut b = 2;
    swap(&mut a, &mut b);
    assert_eq!(a, 2);
    assert_eq!(b, 1);
}

#[test]
fn test_take() {
    let mut val = 42;
    let taken = take(&mut val);
    assert_eq!(taken, 42);
    assert_eq!(val, 0);
}

#[test]
fn test_replace() {
    let mut val = 42;
    let old = replace(&mut val, 84);
    assert_eq!(old, 42);
    assert_eq!(val, 84);
}

#[test]
fn test_size_of() {
    assert_eq!(size_of::<i32>(), 4);
    assert!(is_zst::<()>());
}

#[test]
fn test_manual_drop() {
    let md = ManualDrop::new(42);
    assert_eq!(*md.get(), 42);
    let val = md.take();
    assert_eq!(val, 42);
}

#[test]
fn test_maybe_uninit() {
    let mut mu = MaybeUninit::<i32>::uninit();
    mu.write(42);
    let val = mu.assume_init();
    assert_eq!(val, 42);
}

#[test]
fn mem_util_slices_and_layout() {
    let mut dest = [0u8; 3];
    copy_from_slice(&mut dest, &[1, 2, 3]);
    assert_eq!(dest, [1, 2, 3]);
    let mut names = vec![String::new(), String::new()];
    clone_from_slice(&mut names, &["a".to_string(), "b".to_string()]);
    assert_eq!(names, vec!["a".to_string(), "b".to_string()]);
    assert_eq!(align_of::<u64>(), std::mem::align_of::<u64>());
    assert_eq!(size_of_val(&7u16), 2);
    assert!(!is_zst::<u8>());
    let mut md = ManualDrop::new(String::from("x"));
    md.get_mut().push('y');
    assert_eq!(md.take(), "xy");
    let mut slot: MaybeUninit<u8> = MaybeUninit::default();
    assert!(!slot.is_init());
    *slot.write(1) += 1;
    assert_eq!(MaybeUninit::new(5u8).assume_init(), 5);
    assert_eq!(slot.assume_init(), 2);
    drop_value(vec![1]);
    forget(String::from("leaked"));
    let mut s = String::from("abc");
    assert_eq!(take(&mut s), "abc");
    assert_eq!(s, "");
}
