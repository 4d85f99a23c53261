use microsandbox_terminal::{
    ChildPoll, ClosePhase, CloseStep, ReadOutcome, Signal, SignalRequest, SpawnAction, SpawnEvent,
    SpawnProcedure, SpawnProgress, TerminalError, TerminalResult, TtySession, WaitOutcome,
    WindowSize,
};

const SECOND: u128 = 1_000_000_000;

fn finish(mut procedure: SpawnProcedure, pid: u32) -> TerminalResult<TtySession> {
    loop {
        let event = match procedure.pending() {
            SpawnAction::Launch { .. } => SpawnEvent::Launched(Ok(Some(pid))),
            _ => SpawnEvent::Completed(Ok(())),
        };
        assert!(procedure.accepts(&event));
        match procedure.advance(event) {
            SpawnProgress::Continue(next) => procedure = next,
            SpawnProgress::Finished(result) => return result,
        }
    }
}

fn open() -> TtySession {
    finish(TtySession::spawn("/bin/bash", 80, 24), 4242).unwrap()
}

fn step(procedure: SpawnProcedure) -> SpawnProcedure {
    let event = match procedure.pending() {
        SpawnAction::Launch { .. } => SpawnEvent::Launched(Ok(Some(1))),
        _ => SpawnEvent::Completed(Ok(())),
    };
    match procedure.advance(event) {
        SpawnProgress::Continue(next) => next,
        SpawnProgress::Finished(_) => panic!("finished early"),
    }
}

fn failure(procedure: SpawnProcedure, event: SpawnEvent) -> TerminalError {
    match procedure.advance(event) {
        SpawnProgress::Finished(Err(error)) => error,
        _ => panic!("no failure"),
    }
}

#[test]
fn test_session_creation() {
    let session = open();
    assert!(!session.session_id().is_empty());
    assert!(session.child_pid() > 0);
    assert!(!session.is_closed());

    let (cols, rows) = session.size();
    assert_eq!(cols, 80);
    assert_eq!(rows, 24);
}

#[test]
fn session_ids_are_random_uuids() {
    let first = open();
    let second = open();
    assert_ne!(first.session_id(), second.session_id());
    let id = first.session_id();
    assert_eq!(id.len(), 36);
    for (i, c) in id.chars().enumerate() {
        if i == 8 || i == 13 || i == 18 || i == 23 {
            assert_eq!(c, '-');
        } else {
            assert!(c.is_ascii_digit() || ('a'..='f').contains(&c));
        }
    }
    assert_eq!(&id[14..15], "4");
    assert!(["8", "9", "a", "b"].contains(&&id[19..20]));
}

#[test]
fn spawn_takes_its_steps_in_order() {
    let mut procedure = TtySession::spawn("/bin/zsh", 120, 40);
    assert!(matches!(procedure.pending(), SpawnAction::OpenPty));
    procedure = step(procedure);
    assert!(matches!(procedure.pending(), SpawnAction::SetNonblocking));
    procedure = step(procedure);
    let size = WindowSize { rows: 40, cols: 120, xpixel: 0, ypixel: 0 };
    assert!(matches!(procedure.pending(), SpawnAction::SetWindowSize(found) if found == size));
    procedure = step(procedure);
    assert!(matches!(procedure.pending(), SpawnAction::CloneSlave));
    procedure = step(procedure);
    match procedure.pending() {
        SpawnAction::Launch { program, environment } => {
            assert_eq!(program, "/bin/zsh");
            let expected = vec![
                ("TERM".to_string(), "xterm-256color".to_string()),
                ("COLORTERM".to_string(), "truecolor".to_string()),
            ];
            assert_eq!(environment, expected);
        }
        _ => panic!("not launching"),
    }
    assert!(!procedure.accepts(&SpawnEvent::Completed(Ok(()))));
    assert!(procedure.accepts(&SpawnEvent::Launched(Ok(None))));
    procedure = step(procedure);
    assert!(matches!(procedure.pending(), SpawnAction::DuplicateMaster));
    procedure = step(procedure);
    assert!(matches!(procedure.pending(), SpawnAction::RegisterMaster));
    match procedure.advance(SpawnEvent::Completed(Ok(()))) {
        SpawnProgress::Finished(Ok(session)) => {
            assert_eq!(session.child_pid(), 1);
            assert_eq!(session.size(), (120, 40));
        }
        _ => panic!("not open"),
    }
}

#[test]
fn default_shell_is_bash() {
    let mut procedure = TtySession::spawn_default(80, 24);
    for _ in 0..4 {
        procedure = step(procedure);
    }
    assert!(matches!(
        procedure.pending(),
        SpawnAction::Launch { program, .. } if program == "/bin/bash"
    ));
}

#[test]
fn spawn_refuses_invalid_sizes() {
    for (cols, rows) in [(0, 24), (80, 0), (1001, 24), (80, 501)] {
        match finish(TtySession::spawn("/bin/bash", cols, rows), 1) {
            Err(TerminalError::InvalidSize { cols: c, rows: r }) => {
                assert_eq!((c, r), (cols, rows))
            }
            _ => panic!("accepted"),
        }
    }
}

#[test]
fn spawn_failures_keep_their_cause() {
    let failed = || SpawnEvent::Completed(Err("cause".to_string()));
    let mut errors = Vec::new();
    for steps in 0..7 {
        let mut procedure = TtySession::spawn("/bin/bash", 80, 24);
        for _ in 0..steps {
            procedure = step(procedure);
        }
        let event = if steps == 4 {
            SpawnEvent::Launched(Err("cause".to_string()))
        } else {
            failed()
        };
        errors.push(failure(procedure, event).to_string());
    }
    let allocation = "Failed to allocate PTY: cause";
    let spawning = "Failed to spawn shell: cause";
    assert_eq!(
        errors,
        vec![allocation, allocation, allocation, spawning, spawning, allocation, spawning]
    );
}

#[test]
fn spawn_needs_a_process_id() {
    let mut procedure = TtySession::spawn("/bin/bash", 80, 24);
    for _ in 0..4 {
        procedure = step(procedure);
    }
    let error = failure(procedure, SpawnEvent::Launched(Ok(None)));
    assert!(matches!(error, TerminalError::SpawnFailed(text) if text == "Failed to get child PID"));
}

#[test]
fn input_is_rate_limited() {
    let mut session = open();
    for _ in 0..20 {
        assert_eq!(session.write_at(b"ls\n", 0, 5).unwrap(), b"ls\n".to_vec());
    }
    assert!(matches!(session.write_at(b"x", 0, 9), Err(TerminalError::RateLimited(10))));
    // Refused input is no activity
    assert_eq!(session.idle_duration_at(9), 4);
    // A tenth of a second brings one more
    assert!(session.write_at(b"x", SECOND / 10, 9).is_ok());
    assert!(session.write_at(b"x", SECOND / 10, 9).is_err());
}

#[test]
fn input_uses_the_clocks() {
    let mut session = open();
    assert_eq!(session.write(b"echo").unwrap(), b"echo".to_vec());
    for _ in 0..19 {
        assert!(session.write(b"").is_ok());
    }
    assert!(matches!(session.write(b"x"), Err(TerminalError::RateLimited(10))));
    assert!(session.idle_duration() < 10 * SECOND);
}

#[test]
fn write_results() {
    assert!(TtySession::write_result(Ok(())).is_ok());
    assert!(matches!(
        TtySession::write_result(Err("EIO".to_string())),
        Err(TerminalError::WriteFailed(cause)) if cause == "EIO"
    ));
}

#[test]
fn reading() {
    let mut session = open();
    assert_eq!(session.read_at(7).unwrap(), 4096);
    assert_eq!(session.idle_duration_at(10), 3);
    assert_eq!(session.idle_duration_at(6), 0);
    assert_eq!(session.read().unwrap(), 4096);
    assert!(session.idle_duration() < 60_000_000_000);
    let day: u128 = 86_400_000_000_000;
    session.read_at(day).unwrap();
    assert_eq!(session.idle_duration(), 0);
    session.read().unwrap();
    assert_eq!(session.idle_duration_at(day + 5), 5);
    let read = |count: usize| ReadOutcome::Read { buffer: vec![1, 2, 3, 4], count };
    assert_eq!(TtySession::read_result(read(2)).unwrap(), vec![1, 2]);
    assert_eq!(TtySession::read_result(read(0)).unwrap(), Vec::<u8>::new());
    assert_eq!(TtySession::read_result(read(4)).unwrap(), vec![1, 2, 3, 4]);
    assert_eq!(TtySession::read_result(ReadOutcome::WouldBlock).unwrap(), Vec::<u8>::new());
    assert!(matches!(
        TtySession::read_result(ReadOutcome::Failed("EIO".to_string())),
        Err(TerminalError::ReadFailed(cause)) if cause == "EIO"
    ));
}

#[test]
fn resizing_a_session() {
    let mut session = open();
    let record = session.resize_at(120, 40, 3).unwrap();
    assert_eq!(record, WindowSize { rows: 40, cols: 120, xpixel: 0, ypixel: 0 });
    assert_eq!(session.size(), (80, 24));
    assert_eq!(session.idle_duration_at(3), 0);
    // A size that the device refuses is not the current one
    assert!(matches!(
        session.resize_result(120, 40, Err("EIO".to_string())),
        Err(TerminalError::PtyAllocation(cause)) if cause == "EIO"
    ));
    assert_eq!(session.size(), (80, 24));
    assert_eq!(
        session.resize_result(120, 40, Ok(())).unwrap(),
        SignalRequest { pid: 4242, signal: Signal::WindowChange }
    );
    assert_eq!(session.size(), (120, 40));
    // A running session does not judge the size
    assert!(session.resize(0, 9999).is_ok());
    assert!(session.resize_result(0, 9999, Ok(())).is_ok());
    assert_eq!(session.size(), (0, 9999));
}

#[test]
fn the_size_is_the_last_one_taken() {
    let mut session = open();
    for (cols, rows, taken) in [(100, 30, true), (101, 31, false), (102, 32, true), (103, 33, false)] {
        session.resize(cols, rows).unwrap();
        let answer = if taken { Ok(()) } else { Err("EIO".to_string()) };
        assert_eq!(session.resize_result(cols, rows, answer).is_ok(), taken);
    }
    assert_eq!(session.size(), (102, 32));
    session.read().unwrap();
    session.write(b"ls").unwrap();
    session.close().unwrap();
    assert_eq!(session.size(), (102, 32));
}

#[test]
fn closing_a_session() {
    let mut session = open();
    assert_eq!(
        session.drop_signal(),
        Some(SignalRequest { pid: 4242, signal: Signal::Terminate })
    );
    let first = session.close().unwrap();
    assert_eq!(
        first,
        CloseStep::Wait {
            phase: ClosePhase::Terminating,
            request: SignalRequest { pid: 4242, signal: Signal::Terminate },
            timeout_secs: 5,
        }
    );
    assert!(session.is_closed());
    assert_eq!(session.drop_signal(), None);
    assert_eq!(
        TtySession::close_after(4242, ClosePhase::Terminating, WaitOutcome::Exited(Some(3))),
        CloseStep::Finished(Some(3))
    );
    assert_eq!(
        TtySession::close_after(4242, ClosePhase::Terminating, WaitOutcome::Exited(None)),
        CloseStep::Finished(None)
    );
    assert_eq!(
        TtySession::close_after(4242, ClosePhase::Terminating, WaitOutcome::Failed),
        CloseStep::Finished(None)
    );
    assert_eq!(
        TtySession::close_after(4242, ClosePhase::Terminating, WaitOutcome::TimedOut),
        CloseStep::Wait {
            phase: ClosePhase::Killing,
            request: SignalRequest { pid: 4242, signal: Signal::Kill },
            timeout_secs: 1,
        }
    );
    assert_eq!(
        TtySession::close_after(4242, ClosePhase::Killing, WaitOutcome::Exited(Some(137))),
        CloseStep::Finished(Some(137))
    );
    assert_eq!(
        TtySession::close_after(4242, ClosePhase::Killing, WaitOutcome::TimedOut),
        CloseStep::Finished(None)
    );
    assert_eq!(
        TtySession::close_after(4242, ClosePhase::Killing, WaitOutcome::Failed),
        CloseStep::Finished(None)
    );
}

#[test]
fn closed_sessions_refuse_everything() {
    let mut session = open();
    assert!(session.close().is_ok());
    assert!(matches!(session.close(), Err(TerminalError::AlreadyClosed)));
    assert!(matches!(session.write(b"x"), Err(TerminalError::AlreadyClosed)));
    assert!(matches!(session.read(), Err(TerminalError::AlreadyClosed)));
    assert!(matches!(session.resize(1, 1), Err(TerminalError::AlreadyClosed)));
    assert_eq!(session.size(), (80, 24));
}

#[test]
fn running_sessions() {
    let mut session = open();
    assert!(session.can_poll());
    assert!(session.is_running(Some(ChildPoll::Running)));
    assert!(!session.is_running(Some(ChildPoll::Exited)));
    assert!(!session.is_running(Some(ChildPoll::Failed)));
    assert!(!session.is_running(None));
    assert!(session.close().is_ok());
    assert!(!session.can_poll());
    assert!(!session.is_running(Some(ChildPoll::Running)));
}

#[test]
fn input_stays_within_burst_and_rate() {
    let mut session = open();
    let mut accepted: u128 = 0;
    for tick in 0..400u128 {
        let now = tick * SECOND / 100;
        if session.write_at(b"x", now, now).is_ok() {
            accepted += 1;
        }
        session.read_at(now).unwrap();
        session.resize_at(90, 30, now).unwrap();
    }
    // Twenty at once, and ten for each of the 3.99 seconds
    assert_eq!(accepted, 59);
    let id = session.session_id().to_string();
    session.close().unwrap();
    assert!(session.write_at(b"x", 100 * SECOND, 0).is_err());
    assert_eq!(session.session_id(), id);
    assert_eq!(session.child_pid(), 4242);
}
