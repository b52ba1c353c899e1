use zero_ui_core::ui_list::{BoxedWidget, ListChange, Updates, WidgetId, WidgetMoveTo, WidgetVec};

fn w(id: u64) -> BoxedWidget {
    BoxedWidget::new(WidgetId(id))
}

fn ids(v: &WidgetVec) -> Vec<u64> {
    v.as_vec().iter().map(|w| w.id().0).collect()
}

#[test]
fn vec_push_get_remove() {
    let mut v = WidgetVec::new();
    assert!(v.is_empty());
    v.push(w(1));
    v.push(w(2));
    v.insert(0, w(3));
    assert_eq!(ids(&v), vec![3, 1, 2]);
    assert_eq!(v.get(WidgetId(1)).map(|w| w.id()), Some(WidgetId(1)));
    assert!(v.get(WidgetId(9)).is_none());
    assert_eq!(v.remove(WidgetId(1)).map(|w| w.id()), Some(WidgetId(1)));
    assert_eq!(ids(&v), vec![3, 2]);
    assert!(v.remove(WidgetId(1)).is_none());
    assert_eq!(v.len(), 2);
}

#[test]
fn requests_apply_in_order() {
    let mut v = WidgetVec::from_vec(vec![w(1), w(2), w(3)]);
    let mut updates = Updates::new();
    v.init_all(WidgetId(100));
    {
        let r = v.reference();
        r.insert(&mut updates, 0, w(4));
        r.remove(&mut updates, WidgetId(2));
        r.push(&mut updates, w(5));
    }
    assert_eq!(updates.requests(), &vec![Some(WidgetId(100)), Some(WidgetId(100)), Some(WidgetId(100))]);
    let changes = v.fullfill_requests();
    assert_eq!(changes, vec![ListChange::Removed(1), ListChange::Inserted(0), ListChange::Inserted(3)]);
    assert_eq!(ids(&v), vec![4, 1, 3, 5]);
    assert!(v.as_vec().iter().all(|w| w.inited));
}

#[test]
fn remove_absent_changes_nothing() {
    let mut v = WidgetVec::from_vec(vec![w(1), w(2)]);
    let mut updates = Updates::new();
    v.reference().remove(&mut updates, WidgetId(7));
    let changes = v.fullfill_requests();
    assert!(changes.is_empty());
    assert_eq!(ids(&v), vec![1, 2]);
}

#[test]
fn move_index_and_id() {
    let mut v = WidgetVec::from_vec(vec![w(1), w(2), w(3)]);
    let mut updates = Updates::new();
    {
        let r = v.reference();
        r.move_index(&mut updates, 0, 2);
        r.move_id(&mut updates, WidgetId(3), WidgetMoveTo::Prev);
    }
    let changes = v.fullfill_requests();
    assert_eq!(changes, vec![ListChange::Moved(0, 2), ListChange::Moved(1, 0)]);
    assert_eq!(ids(&v), vec![3, 2, 1]);
}

#[test]
fn move_to_same_index_is_ignored() {
    let mut v = WidgetVec::from_vec(vec![w(1), w(2)]);
    let mut updates = Updates::new();
    v.reference().move_index(&mut updates, 1, 1);
    assert!(updates.requests().is_empty());
    let changes = v.fullfill_requests();
    assert!(changes.is_empty());
    assert_eq!(ids(&v), vec![1, 2]);
}

#[test]
fn move_out_of_bounds_pushes() {
    let mut v = WidgetVec::from_vec(vec![w(1), w(2), w(3)]);
    let mut updates = Updates::new();
    v.reference().move_index(&mut updates, 0, 10);
    let changes = v.fullfill_requests();
    assert_eq!(changes, vec![ListChange::Moved(0, 2)]);
    assert_eq!(ids(&v), vec![2, 3, 1]);
}

#[test]
fn clear_then_push() {
    let mut v = WidgetVec::from_vec(vec![w(1), w(2)]);
    let mut updates = Updates::new();
    {
        let r = v.reference();
        r.remove(&mut updates, WidgetId(1));
        r.clear(&mut updates);
        r.push(&mut updates, w(9));
    }
    let changes = v.fullfill_requests();
    assert_eq!(changes, vec![ListChange::Reseted]);
    assert_eq!(ids(&v), vec![9]);
    assert!(v.as_vec()[0].inited);
}

#[test]
fn move_to_rules() {
    assert_eq!(WidgetMoveTo::Prev.move_to(0, 3), 0);
    assert_eq!(WidgetMoveTo::Prev.move_to(2, 3), 1);
    assert_eq!(WidgetMoveTo::Next.move_to(2, 3), 3);
    assert_eq!(WidgetMoveTo::NextWrap.move_to(2, 3), 0);
    assert_eq!(WidgetMoveTo::NextWrap.move_to(1, 3), 2);
    assert_eq!(WidgetMoveTo::Index(5).move_to(1, 3), 5);
}
