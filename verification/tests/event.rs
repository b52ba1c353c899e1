use zero_ui_core::event::{on_event, on_pre_event, EventRoute};

#[test]
fn event_node_runs_after_child() {
    let mut n = on_event();
    assert!(!n.subscribed);
    n.init();
    assert!(n.subscribed);
    assert_eq!(n.route(), EventRoute::ChildThenHandler);
    assert!(n.asks_filter(false));
    assert!(!n.asks_filter(true));
    assert!(n.handler_runs(false, true));
    assert!(!n.handler_runs(false, false));
    assert!(!n.handler_runs(true, true));
    n.deinit();
    assert!(!n.subscribed);
    assert!(!n.preview);
}

#[test]
fn preview_node_runs_before_child() {
    let mut n = on_pre_event();
    n.init();
    assert_eq!(n.route(), EventRoute::HandlerThenChild);
    n.deinit();
    assert!(n.preview);
    assert!(!n.subscribed);
}
