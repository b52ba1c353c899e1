use zero_ui_core::app_scope::{AppId, AppIdNames, AppLocal, IdNameError};

#[test]
fn app_id_names() {
    let mut names = AppIdNames::new();
    let a = AppId(1);
    let b = AppId(2);
    assert_eq!(a.name(&names), "");
    assert!(a.set_name(&mut names, String::new()).is_ok());
    assert!(a.set_name(&mut names, "main".to_string()).is_ok());
    assert_eq!(a.name(&names), "main");
    assert!(a.set_name(&mut names, "main".to_string()).is_ok());
    match b.set_name(&mut names, "main".to_string()) {
        Err(IdNameError::NameUsed(id)) => assert_eq!(id, a),
        _ => panic!("expected NameUsed"),
    }
    match a.set_name(&mut names, "other".to_string()) {
        Err(IdNameError::AlreadyNamed(n)) => assert_eq!(n, "main"),
        _ => panic!("expected AlreadyNamed"),
    }
    assert!(b.set_name(&mut names, "second".to_string()).is_ok());
    assert_eq!(b.name(&names), "second");
}

#[test]
fn app_local_per_app() {
    let mut local = AppLocal::<u32>::new();
    assert_eq!(*local.read(AppId(1), || 10), 10);
    assert_eq!(*local.read(AppId(1), || 20), 10);
    local.set(AppId(2), 5);
    assert_eq!(*local.read(AppId(2), || 30), 5);
    local.cleanup(AppId(1));
    assert_eq!(*local.read(AppId(1), || 40), 40);
    assert_eq!(*local.read(AppId(2), || 50), 5);
}
