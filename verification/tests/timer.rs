use zero_ui_core::timer::{DeadlineHandle, Timers};

#[test]
fn deadline_runs_once_when_reached() {
    let mut t = Timers::new();
    let h = t.on_deadline(100);
    assert_eq!(h.deadline(), 100);
    assert_eq!(t.apply_updates(50), Some(100));
    assert!(t.notify().is_empty());
    assert!(!h.has_executed(&t));
    assert_eq!(t.apply_updates(100), None);
    assert_eq!(t.notify(), vec![0]);
    assert!(h.has_executed(&t));
    assert!(!h.is_canceled(&t));
    assert_eq!(t.apply_updates(200), None);
    assert!(t.notify().is_empty());
}

#[test]
fn canceled_never_runs() {
    let mut t = Timers::new();
    let h = t.on_deadline(10);
    let h2 = t.on_deadline(20);
    h.cancel(&mut t);
    assert_eq!(t.apply_updates(30), None);
    assert_eq!(t.notify(), vec![1]);
    assert!(h2.has_executed(&t));
}

#[test]
fn released_handle_cancels_unless_permanent() {
    let mut t = Timers::new();
    let h = t.on_deadline(10);
    let p = t.on_deadline(10);
    let h_view = DeadlineHandle::dummy();
    assert!(h_view.is_canceled(&t));
    h.release(&mut t);
    p.permanent(&mut t);
    assert_eq!(t.apply_updates(10), None);
    assert_eq!(t.notify(), vec![1]);
}

#[test]
fn next_wake_is_earliest_deadline_capped() {
    let mut t = Timers::new();
    let _a = t.on_deadline(500);
    let _b = t.on_deadline(300);
    assert_eq!(t.apply_updates(0), Some(300));
    let mut t2 = Timers::new();
    let _c = t2.on_deadline(u64::MAX - 1);
    assert_eq!(t2.apply_updates(0), Some(216_000_000_000));
}

#[test]
fn clone_sees_cancel() {
    let mut t = Timers::new();
    let h = t.on_deadline(10);
    let h2 = h.clone_handle(&mut t);
    assert!(!h2.has_executed(&t));
    h.cancel(&mut t);
    assert!(h2.is_canceled(&t));
    assert_eq!(t.apply_updates(30), None);
    assert!(t.notify().is_empty());
    assert!(h2.is_canceled(&t));
    assert!(!h2.has_executed(&t));
}

#[test]
fn clone_keeps_timer_alive() {
    let mut t = Timers::new();
    let h = t.on_deadline(10);
    let h2 = h.clone_handle(&mut t);
    h.release(&mut t);
    assert_eq!(t.apply_updates(30), None);
    assert_eq!(t.notify(), vec![0]);
    assert!(h2.has_executed(&t));
}
