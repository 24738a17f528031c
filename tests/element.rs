use cubecl::element::{Int, I32, I64};
use cubecl::ir::{Elem, FloatKind, IntKind, Item};

#[test]
fn int_new_is_scalar() {
    let a = I32::new(-5);
    assert_eq!((a.val, a.vectorization), (-5, 1));
    let b = I64::new(1 << 40);
    assert_eq!((b.val, b.vectorization), (1 << 40, 1));
}

#[test]
fn int_new_truncates_to_width() {
    assert_eq!(I32::new((1i64 << 32) + 7).val, 7);
    assert_eq!(I32::new(-1).val, -1);
}

#[test]
fn int_vectorized_keeps_width() {
    let a = I32::vectorized(3, 4);
    assert_eq!((a.val, a.vectorization), (3, 4));
    let b = I64::vectorized(-9, 1);
    assert_eq!((b.val, b.vectorization), (-9, 1));
}

#[test]
fn int_from_primitive() {
    assert_eq!(I64::from(12i64), I64 { val: 12, vectorization: 1 });
    assert_eq!(I32::from(-3i32), I32 { val: -3, vectorization: 1 });
}

#[test]
fn elem_sizes_and_atomicity() {
    assert_eq!(Elem::Float(FloatKind::F16).size(), 2);
    assert_eq!(Elem::Int(IntKind::I64).size(), 8);
    assert!(Elem::AtomicUInt.is_atomic());
    assert!(!Elem::UInt.is_atomic());
    assert_eq!(Item::vectorized(Elem::Bool, 4).vectorization, 4);
}
