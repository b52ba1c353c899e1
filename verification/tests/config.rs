use zero_ui_core::config::{
    collect_source_updates, panic_updates, read_step, ConfigError, ConfigFileState, ConfigSourceUpdate, ConfigStatus, PanicAction, ReadPoll,
    ReadStep, SendAction, WorkerState, WritePoll, WriteTask,
};

fn err(m: &str) -> ConfigError {
    ConfigError::new_str(m.to_string())
}

#[test]
fn status_text_lists_pending_and_errors() {
    let mut s = ConfigStatus::new();
    assert_eq!(s.to_text(), "");
    assert!(!s.has_errors());
    s.pending = 1;
    assert_eq!(s.to_text(), "1 update pending…\n");
    s.pending = 3;
    s.set_read_error(err("bad file"));
    s.set_internal_error(err("oops"));
    assert_eq!(s.to_text(), "3 updates pending…\ninternal error: oops\nread error: bad file\n");
    assert!(s.has_errors());
    s.clear_errors();
    assert!(!s.has_errors());
    assert_eq!(s.read_errors, 1);
    assert_eq!(s.internal_errors, 1);
}

#[test]
fn source_updates_collected() {
    let mut s = ConfigStatus::new();
    let r = collect_source_updates(
        vec![
            ConfigSourceUpdate::Refresh("a".to_string()),
            ConfigSourceUpdate::Refresh("b".to_string()),
            ConfigSourceUpdate::Refresh("a".to_string()),
            ConfigSourceUpdate::InternalError(err("x")),
        ],
        &mut s,
    );
    assert!(!r.read_all);
    assert_eq!(r.keys, vec!["a".to_string(), "b".to_string()]);
    assert_eq!(s.internal_errors, 1);
    assert_eq!(s.internal_error.as_ref().map(|e| e.message.clone()), Some("x".to_string()));

    let r = collect_source_updates(vec![ConfigSourceUpdate::RefreshAll, ConfigSourceUpdate::Refresh("c".to_string())], &mut s);
    assert!(r.read_all);
    assert!(r.keys.is_empty());
}

#[test]
fn write_task_counts_one_pending() {
    let mut s = ConfigStatus::new();
    let mut t = WriteTask::new();
    assert!(t.poll(&mut s, WritePoll::Pending));
    assert!(t.poll(&mut s, WritePoll::Pending));
    assert_eq!(s.pending, 1);
    assert!(!t.poll(&mut s, WritePoll::Done(Err(err("disk full")))));
    assert_eq!(s.pending, 0);
    assert_eq!(s.write_errors, 1);
    let mut t2 = WriteTask::new();
    assert!(!t2.poll(&mut s, WritePoll::Done(Ok(()))));
    assert_eq!(s.pending, 0);
}

#[test]
fn read_step_records_errors() {
    let mut s = ConfigStatus::new();
    assert!(matches!(read_step::<u32>(&mut s, ReadPoll::Pending), ReadStep::Wait));
    assert!(matches!(read_step(&mut s, ReadPoll::Done(Some(5u32))), ReadStep::Respond(Some(5))));
    assert!(matches!(read_step::<u32>(&mut s, ReadPoll::Failed(err("parse"))), ReadStep::Respond(None)));
    assert_eq!(s.read_errors, 1);
    assert!(matches!(read_step::<u32>(&mut s, ReadPoll::Disconnected(err("gone"))), ReadStep::Respond(None)));
    assert_eq!(s.read_errors, 2);
}

#[test]
fn worker_respawns_then_shuts_down() {
    let mut f = ConfigFileState::new();
    assert_eq!(f.send_action(), SendAction::Spawn);
    assert_eq!(f.send_action(), SendAction::Send);
    for i in 0..5u64 {
        assert_eq!(f.on_worker_panic(i * 1_000_000), PanicAction::Respawn);
        assert_eq!(f.send_action(), SendAction::Spawn);
    }
    assert_eq!(f.on_worker_panic(5_000_000), PanicAction::Shutdown);
    assert_eq!(f.send_action(), SendAction::RespondShutdown);

    let mut g = ConfigFileState::new();
    for i in 0..10u64 {
        assert_eq!(g.on_worker_panic(i * 61_000_000), PanicAction::Respawn);
    }
    assert_eq!(g.panic_count, 1);
}

#[test]
fn worker_debounces_writes() {
    let mut w = WorkerState::new(0);
    assert_eq!(w.recv_timeout(1_000), 1_800_000_000);
    assert!(!w.on_change(true, 10));
    assert!(w.on_change(false, 11));
    assert_eq!(w.pending_writes, 1);
    assert_eq!(w.recv_timeout(1_000), 1_000);
    assert!(!w.should_write(500, 1_000));
    assert!(w.should_write(1_010, 1_000));
    assert!(w.on_written(false));
    assert_eq!(w.recv_timeout(1_000), 1_000_000);
    assert!(w.should_write(1_020, 1_000_000) == false);
    w.on_shutdown();
    assert!(w.should_write(1_020, 1_000_000));
    assert!(w.on_written(true));
    assert_eq!(w.write_fails, 0);
}

#[test]
fn worker_panic_updates() {
    let u = panic_updates(PanicAction::Respawn, ConfigError::new_str("boom".to_string()));
    assert_eq!(u.len(), 2);
    assert!(matches!(&u[0], ConfigSourceUpdate::InternalError(_)));
    assert!(matches!(&u[1], ConfigSourceUpdate::RefreshAll));
    let u = panic_updates(PanicAction::Shutdown, ConfigError::new_str("boom".to_string()));
    assert_eq!(u.len(), 1);
    assert!(matches!(&u[0], ConfigSourceUpdate::InternalError(_)));
}

#[test]
fn pending_count_in_decimal() {
    let mut s = ConfigStatus::new();
    s.pending = 1203;
    assert_eq!(s.to_text(), "1203 updates pending…\n");
    s.pending = 10;
    assert_eq!(s.to_text(), "10 updates pending…\n");
}
