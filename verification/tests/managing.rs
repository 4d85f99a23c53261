use microsandbox_terminal::{
    cleanup_interval, ClosePhase, CloseStep, SharedState, SpawnAction, SpawnEvent, SpawnProcedure,
    SpawnProgress, TerminalError, TerminalSessionManager, TerminalState, TtySession,
};

fn finish(mut procedure: SpawnProcedure, pid: u32) -> TtySession {
    loop {
        let event = match procedure.pending() {
            SpawnAction::Launch { .. } => SpawnEvent::Launched(Ok(Some(pid))),
            _ => SpawnEvent::Completed(Ok(())),
        };
        match procedure.advance(event) {
            SpawnProgress::Continue(next) => procedure = next,
            SpawnProgress::Finished(result) => return result.unwrap(),
        }
    }
}

fn add_session(manager: &mut TerminalSessionManager, pid: u32) -> String {
    let session = finish(manager.create_session(None, 80, 24), pid);
    manager.store_session(Ok(session)).unwrap()
}

fn launched_program(manager: &TerminalSessionManager, shell: Option<String>) -> String {
    let mut procedure = manager.create_session(shell, 80, 24);
    loop {
        match procedure.pending() {
            SpawnAction::Launch { program, .. } => return program,
            _ => match procedure.advance(SpawnEvent::Completed(Ok(()))) {
                SpawnProgress::Continue(next) => procedure = next,
                SpawnProgress::Finished(_) => panic!("finished early"),
            },
        }
    }
}

#[test]
fn sessions_are_found_by_id() {
    let mut manager = TerminalSessionManager::new();
    assert_eq!(manager.session_count(), 0);
    let first = add_session(&mut manager, 1);
    let second = add_session(&mut manager, 2);
    assert_eq!(manager.session_count(), 2);
    assert_eq!(manager.get_session(&first).unwrap().child_pid(), 1);
    assert_eq!(manager.get_session(&second).unwrap().child_pid(), 2);
    assert!(manager.get_session("unknown").is_none());
    assert_eq!(manager.remove_session(&first).unwrap().session_id(), first);
    assert!(manager.get_session(&first).is_none());
    assert!(manager.remove_session(&first).is_none());
    assert_eq!(manager.get_session(&second).unwrap().child_pid(), 2);
    assert_eq!(manager.session_count(), 1);
}

#[test]
fn the_shell_defaults_to_bash() {
    let manager = TerminalSessionManager::default();
    assert_eq!(launched_program(&manager, None), "/bin/bash");
    assert_eq!(launched_program(&manager, Some("/bin/sh".to_string())), "/bin/sh");
}

#[test]
fn a_session_that_was_not_opened_is_not_stored() {
    let mut manager = TerminalSessionManager::new();
    let error = TerminalError::InvalidSize { cols: 0, rows: 24 };
    assert_eq!(
        manager.store_session(Err(error)).unwrap_err(),
        "Invalid terminal size: cols=0, rows=24"
    );
    assert_eq!(manager.session_count(), 0);
}

#[test]
fn a_session_is_operated_on_in_place() {
    let mut manager = TerminalSessionManager::new();
    let id = add_session(&mut manager, 1);
    let other = add_session(&mut manager, 2);
    assert!(manager.get_session_mut("unknown").is_none());
    manager.get_session_mut(&id).unwrap().resize(100, 30).unwrap();
    manager.get_session_mut(&id).unwrap().resize_result(100, 30, Ok(())).unwrap();
    assert!(manager.get_session_mut(&id).unwrap().close().is_ok());
    assert!(manager.get_session(&id).unwrap().is_closed());
    assert_eq!(manager.get_session(&id).unwrap().size(), (100, 30));
    assert!(!manager.get_session(&other).unwrap().is_closed());
    assert_eq!(manager.get_session(&other).unwrap().size(), (80, 24));
}

#[test]
fn storing_and_removing_again_changes_nothing() {
    let mut manager = TerminalSessionManager::new();
    let first = add_session(&mut manager, 1);
    let second = add_session(&mut manager, 2);
    let taken = manager.remove_session(&second).unwrap();
    assert_eq!(manager.store_session(Ok(taken)).unwrap(), second);
    assert_eq!(manager.session_count(), 2);
    assert_eq!(manager.get_session(&first).unwrap().child_pid(), 1);
    assert_eq!(manager.get_session(&second).unwrap().child_pid(), 2);
}

#[test]
fn idle_sessions_are_evicted_and_closed() {
    let mut manager = TerminalSessionManager::new();
    let ids = [
        add_session(&mut manager, 10),
        add_session(&mut manager, 11),
        add_session(&mut manager, 12),
        add_session(&mut manager, 13),
    ];
    assert!(manager.get_session_mut(&ids[3]).unwrap().close().is_ok());
    // Exactly the limit is not too long
    let evicted = manager.evict_idle(&vec![5, 100, 6, 7], 5);
    assert_eq!(manager.session_count(), 1);
    assert!(manager.get_session(&ids[0]).is_some());
    assert_eq!(evicted.len(), 3);
    for (gone, pid) in evicted.iter().zip([11, 12, 13]) {
        assert!(gone.session.is_closed());
        assert_eq!(gone.session.child_pid(), pid);
        assert!(manager.get_session(gone.session.session_id()).is_none());
    }
    for gone in &evicted[0..2] {
        assert!(matches!(
            gone.step,
            Ok(CloseStep::Wait { phase: ClosePhase::Terminating, timeout_secs: 5, .. })
        ));
    }
    assert!(matches!(evicted[2].step, Err(TerminalError::AlreadyClosed)));
}

#[test]
fn cleanup_reads_the_clocks() {
    let mut manager = TerminalSessionManager::new();
    add_session(&mut manager, 1);
    add_session(&mut manager, 2);
    assert_eq!(manager.idle_durations().len(), 2);
    assert!(manager.cleanup_idle_sessions(u128::MAX).is_empty());
    assert_eq!(manager.session_count(), 2);
    while manager.idle_durations().iter().any(|idle| *idle == 0) {}
    assert_eq!(manager.cleanup_idle_sessions(0).len(), 2);
    assert_eq!(manager.session_count(), 0);
}

#[test]
fn cleanup_runs_twice_per_timeout() {
    assert_eq!(cleanup_interval(60_000_000_000), 30_000_000_000);
    assert_eq!(cleanup_interval(3), 1);
    assert_eq!(cleanup_interval(0), 0);
}

#[test]
fn states_start_empty() {
    let state = TerminalState::default();
    assert_eq!(state.manager.session_count(), 0);
    let shared: SharedState<u8, u8> = SharedState::default();
    assert!(!shared.ready);
    assert!(shared.engine_handle.is_none());
    assert!(shared.command_handle.is_none());
    assert_eq!(shared.terminal_manager.session_count(), 0);
}
