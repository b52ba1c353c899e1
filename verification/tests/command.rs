use zero_ui_core::command::{default_command_name, title_with_lowercase, Command, CommandArgs, CommandData, CommandHandle, CommandMeta, CommandNode, CommandScope, MetaMaps};
use zero_ui_core::window::WindowId;

#[test]
fn parameter_none() {
    let _ = CommandArgs::<u32>::now(None, CommandScope::App, true);
}

#[test]
fn enabled() {
    let mut data = CommandData::new();
    let foo_cmd = Command::new();
    assert!(!foo_cmd.has_handlers_value(&data));

    let mut handle = foo_cmd.new_handle(&mut data, true);
    assert!(foo_cmd.is_enabled_value(&data));

    handle.set_enabled(&mut data, false);
    assert!(foo_cmd.has_handlers_value(&data));
    assert!(!foo_cmd.is_enabled_value(&data));

    handle.set_enabled(&mut data, true);
    assert!(foo_cmd.is_enabled_value(&data));

    handle.release(&mut data);
    assert!(!foo_cmd.has_handlers_value(&data));
}

#[test]
fn enabled_scoped() {
    let mut data = CommandData::new();
    let window_id = WindowId(1);

    let cmd = Command::new();
    let cmd_scoped = Command::new().scoped(CommandScope::Window(window_id));
    assert!(!cmd.has_handlers_value(&data));
    assert!(!cmd_scoped.has_handlers_value(&data));

    let mut handle_scoped = cmd_scoped.new_handle(&mut data, true);
    assert!(!cmd.has_handlers_value(&data));
    assert!(cmd_scoped.is_enabled_value(&data));

    handle_scoped.set_enabled(&mut data, false);
    assert!(!cmd.has_handlers_value(&data));
    assert!(!cmd_scoped.is_enabled_value(&data));
    assert!(cmd_scoped.has_handlers_value(&data));

    handle_scoped.set_enabled(&mut data, true);
    assert!(!cmd.has_handlers_value(&data));
    assert!(cmd_scoped.is_enabled_value(&data));

    handle_scoped.release(&mut data);
    assert!(!cmd.has_handlers_value(&data));
    assert!(!cmd_scoped.has_handlers_value(&data));
}

#[test]
fn has_handlers() {
    let mut data = CommandData::new();
    let foo_cmd = Command::new();
    assert!(!foo_cmd.has_handlers_value(&data));

    let handle = foo_cmd.new_handle(&mut data, false);
    assert!(foo_cmd.has_handlers_value(&data));

    handle.release(&mut data);
    assert!(!foo_cmd.has_handlers_value(&data));
}

#[test]
fn has_handlers_scoped() {
    let mut data = CommandData::new();
    let window_id = WindowId(1);

    let cmd = Command::new();
    let cmd_scoped = Command::new().scoped(CommandScope::Window(window_id));

    assert!(!cmd.has_handlers_value(&data));
    assert!(!cmd_scoped.has_handlers_value(&data));

    let handle = cmd_scoped.new_handle(&mut data, false);

    assert!(!cmd.has_handlers_value(&data));
    assert!(cmd_scoped.has_handlers_value(&data));

    handle.release(&mut data);

    assert!(!cmd.has_handlers_value(&data));
    assert!(!cmd_scoped.has_handlers_value(&data));
}

#[test]
fn release_undoes_new_handle_counts() {
    let mut data = CommandData::new();
    let cmd = Command::new();
    let h1 = cmd.new_handle(&mut data, true);
    let h2 = cmd.new_handle(&mut data, false);
    let before = data.scope_state(CommandScope::App);
    assert_eq!(before.handles, 2);
    assert_eq!(before.enabled_count, 1);
    let h3 = cmd.new_handle(&mut data, true);
    h3.release(&mut data);
    let after = data.scope_state(CommandScope::App);
    assert_eq!(after.handles, 2);
    assert_eq!(after.enabled_count, 1);
    assert!(after.registered);
    h1.release(&mut data);
    assert!(cmd.has_handlers_value(&data));
    assert!(!cmd.is_enabled_value(&data));
    h2.release(&mut data);
    assert!(!cmd.has_handlers_value(&data));
}

#[test]
fn dummy_handle_changes_nothing() {
    let mut data = CommandData::new();
    let cmd = Command::new();
    let mut h = CommandHandle::dummy();
    assert!(!h.is_enabled());
    h.set_enabled(&mut data, true);
    assert!(h.is_enabled());
    assert!(!cmd.has_handlers_value(&data));
    assert!(!cmd.is_enabled_value(&data));
    h.release(&mut data);
    assert!(!cmd.has_handlers_value(&data));
}

#[test]
fn notify_args_follow_enabled_state() {
    let mut data = CommandData::new();
    let cmd = Command::new();
    let args = cmd.notify_args(&data, Some(5u32));
    assert!(!args.enabled);
    let h = cmd.new_handle(&mut data, true);
    let mut args = cmd.notify_args(&data, Some(5u32));
    assert!(args.enabled);
    assert_eq!(args.enabled_param(), Some(&5u32));
    assert_eq!(args.disabled_param(), None);
    assert!(!args.propagation_stopped);
    let r = args.handle(|a| a.param().copied());
    assert_eq!(r, Some(Some(5u32)));
    assert!(args.propagation_stopped);
    let r2 = args.handle(|_| 1u8);
    assert_eq!(r2, None);
    h.release(&mut data);
}

#[test]
fn default_name_from_declared_name() {
    assert_eq!(default_command_name("FOO_BAR_CMD"), "Foo Bar");
    assert_eq!(default_command_name("COPY_CMD"), "Copy");
    assert_eq!(default_command_name("A__B"), "A B");
    assert_eq!(default_command_name("OPEN"), "Open");
    assert_eq!(default_command_name(""), "");
}

#[test]
fn meta_set_then_read() {
    let mut meta = CommandMeta::<u32> { meta: MetaMaps::new(), scope: None };
    assert_eq!(meta.get_or_insert(1, || 10), 10);
    assert_eq!(meta.get_or_insert(1, || 20), 10);
    assert_eq!(meta.set(1, 30), Some(10));
    assert_eq!(meta.set(9, 1), None);
    assert_eq!(meta.get_or_insert(1, || 40), 30);
    meta.init(1, 50);
    assert_eq!(meta.get_or_insert(1, || 60), 30);
    meta.init(2, 70);
    assert_eq!(meta.get_or_default(2), 70);
    assert_eq!(meta.get_or_default(3), 0);
}

#[test]
fn meta_scope_overrides_app_value() {
    let mut meta = CommandMeta::<u32> { meta: MetaMaps::new(), scope: Some(MetaMaps::new()) };
    meta.init(1, 5);
    assert_eq!(meta.get_or_insert(1, || 9), 5);
    assert_eq!(meta.set(1, 7), None);
    assert_eq!(meta.set(1, 8), Some(7));
    assert_eq!(meta.get_or_insert(1, || 9), 8);
    assert_eq!(*meta.meta.values.get(&1).unwrap(), 5);
}

#[test]
fn title_from_given_lowercase() {
    let name: Vec<char> = "AB_CD".chars().collect();
    let lows: Vec<Vec<char>> = vec![vec!['a'], vec!['x', 'y'], vec!['_'], vec!['c'], vec!['z']];
    assert_eq!(title_with_lowercase(&name, &lows), "Axy Cz");
    assert_eq!(title_with_lowercase(&vec!['_', '_'], &vec![vec![], vec![]]), " ");
}

#[test]
fn command_node_lifecycle() {
    let mut data = CommandData::new();
    let cmd = Command::new().scoped(CommandScope::Window(WindowId(3)));
    let mut node = CommandNode::new();
    node.init(&mut data, cmd, false);
    assert!(cmd.has_handlers_value(&data));
    assert!(!cmd.is_enabled_value(&data));
    assert!(!Command::new().has_handlers_value(&data));

    node.update(&mut data, None);
    assert!(!cmd.is_enabled_value(&data));
    node.update(&mut data, Some(true));
    assert!(cmd.is_enabled_value(&data));

    let mut args = cmd.notify_args(&data, Some(5u32));
    assert!(args.enabled);
    assert!(node.should_handle(&args));
    let other = CommandArgs::now(Some(5u32), CommandScope::App, true);
    assert!(!node.should_handle(&other));
    assert_eq!(cmd.handle(&mut args, |a| a.param.unwrap() * 2), Some(10));
    assert!(args.propagation_stopped);
    assert!(!node.should_handle(&args));
    assert!(cmd.on(&args).is_some());
    assert!(cmd.on_unhandled(&args).is_none());

    node.deinit(&mut data);
    assert!(node.handle.is_none());
    assert!(node.command.is_none());
    assert!(!cmd.has_handlers_value(&data));
    assert!(!cmd.is_enabled_value(&data));
}

#[test]
fn handle_ignores_other_scopes() {
    let cmd = Command::new();
    let mut args = CommandArgs::now(Some(1u8), CommandScope::Window(WindowId(1)), true);
    assert_eq!(cmd.handle(&mut args, |_| 7), None);
    assert!(!args.propagation_stopped);
    assert!(cmd.on(&args).is_none());
}

#[test]
fn meta_init_runs_once() {
    let meta = CommandMeta::<u32> { meta: MetaMaps::new(), scope: None };
    let mut inited = false;
    let (meta, v) = meta.with_meta(
        &mut inited,
        |mut m| {
            m.init(1, 5);
            m
        },
        |mut m| {
            let v = m.get_or_insert(1, || 0);
            (m, v)
        },
    );
    assert!(inited);
    assert_eq!(v, 5);
    let (_, v) = meta.with_meta(
        &mut inited,
        |mut m| {
            m.set(1, 9);
            m
        },
        |mut m| {
            let v = m.get_or_insert(1, || 0);
            (m, v)
        },
    );
    assert_eq!(v, 5);
}
