use zero_ui_core::task::{UiTask, WidgetTask};
use zero_ui_core::ui_list::WidgetId;

#[test]
fn task_ready_keeps_result() {
    let mut t = UiTask::<u32>::new(Some(WidgetId(3)));
    assert_eq!(t.target(), Some(WidgetId(3)));
    assert!(!t.is_ready());
    assert_eq!(t.update(None), None);
    assert_eq!(t.update(Some(7)), Some(&7));
    assert!(t.is_ready());
    assert_eq!(t.update(Some(9)), Some(&7));
    assert_eq!(t.into_result().ok(), Some(7));
}

#[test]
fn pending_task_is_given_back() {
    let t = UiTask::<u32>::new(None);
    let t = match t.into_result() {
        Ok(_) => panic!("pending task has no result"),
        Err(t) => t,
    };
    assert_eq!(t.target(), None);
    let mut w = WidgetTask::<u8>::new(WidgetId(1));
    assert!(!w.is_ready());
    assert_eq!(w.update(Some(2)), Some(&2));
    assert_eq!(w.into_result().ok(), Some(2));
}
