use zero_ui_core::property::{
    input_request_error, Importance, InputKind, InputRequestError, PropertyArgs, PropertyId, PropertyInfo, PropertyInput, PropertyInstInfo, Priority, SourceLocation,
    WidgetBuilder, WidgetItem,
};
use zero_ui_core::ui_list::BoxedUiNode;

fn loc() -> SourceLocation {
    SourceLocation { file: "lib.rs", line: 1, column: 1 }
}

fn args(priority: Priority, unique_id: u64, name: &'static str) -> PropertyArgs {
    PropertyArgs {
        property: PropertyInfo {
            priority,
            unique_id,
            name,
            location: loc(),
            inputs: vec![PropertyInput { name: "value", kind: InputKind::Var, ty: 1, ty_name: "u32" }],
        },
        instance: PropertyInstInfo { name, location: loc() },
    }
}

fn summary(b: WidgetBuilder) -> Vec<(Priority, Option<(usize, u64)>)> {
    b.build()
        .items
        .iter()
        .map(|(p, i)| {
            (
                *p,
                match i {
                    WidgetItem::Intrinsic(_) => None,
                    WidgetItem::Property { importance, args } => Some((importance.0, args.property.unique_id)),
                },
            )
        })
        .collect()
}

#[test]
fn property_override_by_importance() {
    let mut b = WidgetBuilder::new();
    b.insert_property(Importance(1), args(Priority::Size, 10, "width"));
    b.insert_property(Importance(5), args(Priority::Size, 10, "width"));
    assert_eq!(summary(b), vec![(Priority::Size, Some((5, 10)))]);

    let mut b = WidgetBuilder::new();
    b.insert_property(Importance(5), args(Priority::Size, 10, "width"));
    b.insert_property(Importance(1), args(Priority::Size, 10, "width"));
    assert_eq!(summary(b), vec![(Priority::Size, Some((5, 10)))]);

    let mut b = WidgetBuilder::new();
    b.insert_property(Importance(5), args(Priority::Size, 10, "width"));
    b.insert_property(Importance(1), args(Priority::Size, 10, "height"));
    assert_eq!(summary(b), vec![(Priority::Size, Some((1, 10))), (Priority::Size, Some((5, 10)))]);
}

#[test]
fn unset_blocks_less_important() {
    let mut b = WidgetBuilder::new();
    b.insert_property(Importance(1), args(Priority::Fill, 10, "background"));
    let id = PropertyId { unique_id: 10, name: "background" };
    b.insert_unset(Importance(2), id);
    b.insert_property(Importance(2), args(Priority::Fill, 10, "background"));
    assert!(summary(b).is_empty());

    let mut b = WidgetBuilder::new();
    b.insert_unset(Importance(2), id);
    b.insert_property(Importance(3), args(Priority::Fill, 10, "background"));
    assert_eq!(summary(b), vec![(Priority::Fill, Some((3, 10)))]);
}

#[test]
fn unset_does_not_remove_more_important() {
    let mut b = WidgetBuilder::new();
    b.insert_property(Importance(9), args(Priority::Fill, 10, "background"));
    b.insert_unset(Importance(2), PropertyId { unique_id: 10, name: "background" });
    assert_eq!(summary(b), vec![(Priority::Fill, Some((9, 10)))]);
}

#[test]
fn build_sorts_by_priority_then_importance() {
    let mut b = WidgetBuilder::new();
    b.insert_property(Importance(3), args(Priority::Fill, 1, "a"));
    b.insert_property(Importance(1), args(Priority::Context, 2, "b"));
    b.insert_property(Importance(2), args(Priority::Fill, 3, "c"));
    b.insert_intrinsic(Priority::Fill, BoxedUiNode { inited: false });
    b.insert_property(Importance(2), args(Priority::Fill, 4, "d"));
    assert!(!b.has_child());
    assert_eq!(
        summary(b),
        vec![
            (Priority::Context, Some((1, 2))),
            (Priority::Fill, None),
            (Priority::Fill, Some((2, 3))),
            (Priority::Fill, Some((2, 4))),
            (Priority::Fill, Some((3, 1))),
        ]
    );
}

#[test]
fn remove_property_returns_it() {
    let mut b = WidgetBuilder::new();
    b.insert_property(Importance(4), args(Priority::Layout, 7, "margin"));
    let r = b.remove_property(PropertyId { unique_id: 7, name: "margin" });
    assert_eq!(r.map(|(i, a)| (i.0, a.property.unique_id)), Some((4, 7)));
    assert!(b.remove_property(PropertyId { unique_id: 7, name: "margin" }).is_none());
    assert!(b.set_child(BoxedUiNode { inited: true }).is_none());
    assert!(b.has_child());
    assert!(b.build().child.inited);
}

#[test]
fn input_request_errors() {
    let a = args(Priority::Context, 1, "foo");
    assert_eq!(input_request_error(&a.property, 3, InputKind::Var), InputRequestError::OutOfBounds(1, 3));
    assert_eq!(input_request_error(&a.property, 1, InputKind::Var), InputRequestError::IndexOutOfBounds(1, 1));
    assert_eq!(
        input_request_error(&a.property, 0, InputKind::Takeout),
        InputRequestError::WrongKind(InputKind::Takeout, "value", InputKind::Var)
    );
    assert_eq!(input_request_error(&a.property, 0, InputKind::Var), InputRequestError::Invalid("value"));
}
