use zero_ui_core::units::{Px, PxConstrains, PxSize, PxSizeConstrains, PX_MAX};

#[test]
fn px_saturates() {
    assert_eq!(Px(PX_MAX).saturating_add(Px(1)), Px(PX_MAX));
    assert_eq!(Px(i32::MIN).saturating_sub(Px(1)), Px(i32::MIN));
    assert_eq!(Px(3).saturating_mul(Px(4)), Px(12));
    assert_eq!(Px(i32::MAX).saturating_mul(Px(2)), Px(i32::MAX));
    assert_eq!(Px(2).max(Px(5)), Px(5));
    assert_eq!(Px(2).min(Px(5)), Px(2));
}

#[test]
fn constrains_clamp_within_bounds() {
    let c = PxConstrains::unbounded().with_min(Px(10)).with_max(Px(20));
    assert_eq!(c.clamp(Px(5)), Px(10));
    assert_eq!(c.clamp(Px(15)), Px(15));
    assert_eq!(c.clamp(Px(25)), Px(20));
}

#[test]
fn exact_constrains_clamp_to_length() {
    let c = PxConstrains::exact(Px(7));
    assert!(c.is_exact());
    assert_eq!(c.clamp(Px(0)), Px(7));
    assert_eq!(c.clamp(Px(100)), Px(7));
    assert!(!c.actually_fill());
    assert_eq!(c.fill_length(), Px(7));
}

#[test]
fn unbounded_does_not_fill() {
    let c = PxConstrains::default().with_fill(true);
    assert!(c.is_unbounded());
    assert!(!c.actually_fill());
    assert_eq!(c.fill_length(), Px(0));
    assert_eq!(c.fill_or(Px(30)), Px(30));
    let b = c.with_max(Px(50));
    assert!(b.actually_fill());
    assert_eq!(b.fill_or(Px(30)), Px(50));
}

#[test]
fn with_max_and_min_keep_order() {
    let c = PxConstrains::unbounded().with_min(Px(30));
    let m = c.with_max(Px(10));
    assert_eq!(m.max, Px(10));
    assert_eq!(m.min, Px(10));
    let n = PxConstrains::exact(Px(5)).with_min(Px(8));
    assert_eq!(n.min, Px(8));
    assert_eq!(n.max, Px(8));
}

#[test]
fn with_less_and_more() {
    let c = PxConstrains::unbounded().with_max(Px(100)).with_min(Px(90));
    let l = c.with_less(Px(20));
    assert_eq!(l.max, Px(80));
    assert_eq!(l.min, Px(80));
    let m = l.with_more(Px(20));
    assert_eq!(m.max, Px(100));
    assert_eq!(m.min, Px(80));
    let u = PxConstrains::unbounded().with_less(Px(20));
    assert!(u.is_unbounded());
    assert_eq!(PxConstrains::unbounded().with_max(Px(10)).with_unbounded().max, Px(PX_MAX));
}

#[test]
fn size_constrains() {
    let c = PxSizeConstrains::unbounded().with_max(PxSize::new(Px(100), Px(50)));
    assert_eq!(c.clamp(PxSize::new(Px(200), Px(10))), PxSize::new(Px(100), Px(10)));
    let e = PxSizeConstrains::exact(PxSize::new(Px(3), Px(4)));
    assert!(e.is_exact_width());
    assert!(e.is_exact_height());
    assert_eq!(e.fill_or_exact(), Some(PxSize::new(Px(3), Px(4))));
    let f = c.with_fill(true, false);
    assert_eq!(f.fill_or(PxSize::new(Px(10), Px(10))), PxSize::new(Px(100), Px(10)));
    assert_eq!(f.x_constrains().max, Px(100));
    assert!(f.y_constrains().min == Px(0));
}
