//! PTY session management for interactive terminal access.
//!
//! A [`TtySession`] is the bookkeeping of one session. Its methods decide what is to be done to the
//! PTY and to the shell process; whoever holds the file descriptors does it and hands the outcome
//! back.

use crate::clock::{is_reading, Clock, LONGEST_SPAN};
use crate::error::{ErrorView, TerminalError, TerminalResult};
use crate::rate_limit::{
    law_refill_keeps_tokens, lemma_use_spends, Bucket, BucketUse, RateLimiter, TOKEN,
};
use crate::resize::{window, window_of, WindowSize};
use vstd::prelude::*;

verus! {

/// Read buffer size.
pub const READ_BUFFER_SIZE: usize = 4096;

/// Seconds that a terminated shell is given to exit.
pub const TERMINATE_TIMEOUT_SECS: u64 = 5;

/// Seconds that a killed shell is given to exit.
pub const KILL_TIMEOUT_SECS: u64 = 1;

/// Signals that a session sends to its shell process.
#[derive(Debug, Clone, Copy, PartialEq, Eq, Structural)]
pub enum Signal {
    /// SIGTERM: ask the process to exit.
    Terminate,
    /// SIGKILL: end the process.
    Kill,
    /// SIGWINCH: tell the process that the window size has changed.
    WindowChange,
}

/// A signal to be sent. Whether it could be sent is at most logged.
#[derive(Debug, Clone, Copy, PartialEq, Eq, Structural)]
pub struct SignalRequest {
    /// Process to signal.
    pub pid: i32,
    /// Signal to send.
    pub signal: Signal,
}

/// Stages of ending the shell process.
#[derive(Debug, Clone, Copy, PartialEq, Eq, Structural)]
pub enum ClosePhase {
    /// The process was asked to exit.
    Terminating,
    /// The process did not exit in time and was killed.
    Killing,
}

/// What waiting for the shell process came to.
#[derive(Debug, Clone, Copy, PartialEq, Eq, Structural)]
pub enum WaitOutcome {
    /// The process exited, with its exit code if it has one.
    Exited(Option<i32>),
    /// Waiting failed.
    Failed,
    /// The process did not exit in time.
    TimedOut,
}

/// What is to be done next to close a session.
#[derive(Debug, Clone, Copy, PartialEq, Eq, Structural)]
pub enum CloseStep {
    /// Send the signal, and then wait for the process at most this long.
    Wait { phase: ClosePhase, request: SignalRequest, timeout_secs: u64 },
    /// The session is closed, with the exit code of the process if available.
    Finished(Option<i32>),
}

/// What polling the shell process for its exit came to.
#[derive(Debug, Clone, Copy, PartialEq, Eq, Structural)]
pub enum ChildPoll {
    /// The process has exited.
    Exited,
    /// The process is still running.
    Running,
    /// Polling failed.
    Failed,
}

/// What one attempt to read from the PTY came to.
#[derive(Debug)]
pub enum ReadOutcome {
    /// This many bytes were read into the front of the buffer; none at the end of the output.
    Read { buffer: Vec<u8>, count: usize },
    /// No data is available yet.
    WouldBlock,
    /// Reading failed, for this reason.
    Failed(String),
}

/// PTY session for interactive terminal access.
///
/// Manages the lifecycle of a pseudo-terminal session, including:
/// - Read/write operations
/// - Terminal resize
/// - Rate limiting for input
/// - Graceful shutdown
#[derive(Debug)]
pub struct TtySession {
    /// Unique session identifier.
    session_id: String,
    /// Child process ID.
    child_pid: u32,
    /// Whether the child process has not been given up for closing yet.
    has_child: bool,
    /// Current terminal size (cols, rows).
    size: (u16, u16),
    /// Rate limiter for input.
    rate_limiter: RateLimiter,
    /// Last activity, a reading of the clock.
    last_activity: u128,
    /// Clock of the session.
    clock: Clock,
    /// Whether the session is closed.
    closed: bool,
}

/// The mathematical state of a [`TtySession`].
pub struct SessionView {
    pub id: Seq<char>,
    pub pid: u32,
    pub has_child: bool,
    pub size: (u16, u16),
    pub limiter: Bucket,
    pub last_activity: nat,
    pub closed: bool,
}

impl SessionView {
    /// A session that has just been opened: ten inputs per second, bursts of twenty.
    pub open spec fn opened(id: Seq<char>, pid: u32, cols: u16, rows: u16) -> SessionView {
        SessionView {
            id,
            pid,
            has_child: true,
            size: (cols, rows),
            limiter: Bucket::full(10, 20, 0),
            last_activity: 0,
            closed: false,
        }
    }

    /// The session after activity at time `now`.
    pub open spec fn touched(self, now: nat) -> SessionView {
        SessionView { last_activity: now, ..self }
    }

    /// Nanoseconds since the last activity at time `now`.
    pub open spec fn idle(self, now: nat) -> nat {
        if now >= self.last_activity {
            (now - self.last_activity) as nat
        } else {
            0
        }
    }

    /// Why input is refused when the limiter's clock reads `limiter_now`, if it is.
    pub open spec fn write_refusal(self, limiter_now: nat) -> Option<ErrorView> {
        if self.closed {
            Some(ErrorView::AlreadyClosed)
        } else if !self.limiter.allows(limiter_now) {
            Some(ErrorView::RateLimited(self.limiter.rate as u32))
        } else {
            None
        }
    }

    /// The session after input was asked for, with the limiter's clock at `limiter_now` and its own
    /// at `now`.
    pub open spec fn written(self, limiter_now: nat, now: nat) -> SessionView {
        if self.closed {
            self
        } else {
            let limited = SessionView { limiter: self.limiter.checked(limiter_now), ..self };
            if self.limiter.allows(limiter_now) {
                limited.touched(now)
            } else {
                limited
            }
        }
    }

    /// The session after output, or a change of its size, was asked for at time `now`.
    pub open spec fn polled(self, now: nat) -> SessionView {
        if self.closed {
            self
        } else {
            self.touched(now)
        }
    }

    /// The session after the terminal device was given a size, which it took or not.
    pub open spec fn resize_answered(self, cols: u16, rows: u16, taken: bool) -> SessionView {
        if taken {
            SessionView { size: (cols, rows), ..self }
        } else {
            self
        }
    }

    /// The session after it was asked to close.
    pub open spec fn shut(self) -> SessionView {
        if self.closed {
            self
        } else {
            SessionView { closed: true, has_child: false, ..self }
        }
    }

    /// The input allowance is ten per second with bursts of twenty and within its limits, and an
    /// open session still has its child process.
    pub open spec fn valid(self) -> bool {
        &&& self.limiter.valid()
        &&& self.limiter.rate == 10
        &&& self.limiter.capacity == 20
        &&& !self.closed ==> self.has_child
    }
}

/// The signal `signal` to the process with the ID `pid`.
pub open spec fn signal_to(pid: u32, signal: Signal) -> SignalRequest {
    SignalRequest { pid: pid as i32, signal }
}

/// The step that sends the signal of `phase` to the process `pid` and waits.
pub open spec fn wait_step(pid: u32, phase: ClosePhase) -> CloseStep {
    match phase {
        ClosePhase::Terminating => CloseStep::Wait {
            phase,
            request: signal_to(pid, Signal::Terminate),
            timeout_secs: TERMINATE_TIMEOUT_SECS,
        },
        ClosePhase::Killing => CloseStep::Wait {
            phase,
            request: signal_to(pid, Signal::Kill),
            timeout_secs: KILL_TIMEOUT_SECS,
        },
    }
}

/// What follows when waiting for the process `pid` in `phase` came to `outcome`: only a process
/// that did not exit when asked is killed.
pub open spec fn step_after(pid: u32, phase: ClosePhase, outcome: WaitOutcome) -> CloseStep {
    match (phase, outcome) {
        (_, WaitOutcome::Exited(code)) => CloseStep::Finished(code),
        (ClosePhase::Terminating, WaitOutcome::TimedOut) => wait_step(pid, ClosePhase::Killing),
        _ => CloseStep::Finished(None),
    }
}

impl View for TtySession {
    type V = SessionView;

    closed spec fn view(&self) -> SessionView {
        SessionView {
            id: self.session_id@,
            pid: self.child_pid,
            has_child: self.has_child,
            size: self.size,
            limiter: self.rate_limiter@,
            last_activity: self.last_activity as nat,
            closed: self.closed,
        }
    }
}

fn signal_request(pid: u32, signal: Signal) -> (request: SignalRequest)
    ensures
        request == signal_to(pid, signal),
{
    SignalRequest { pid: pid as i32, signal }
}

impl TtySession {
    /// Every session is in a valid state.
    #[verifier::type_invariant]
    spec fn in_valid_state(self) -> bool {
        self@.valid()
    }

    /// A session whose shell runs as the process `child_pid` on a terminal of the given size.
    pub(crate) fn opened(session_id: String, child_pid: u32, cols: u16, rows: u16) -> (session:
        Self)
        ensures
            session@ == SessionView::opened(session_id@, child_pid, cols, rows),
    {
        TtySession {
            session_id,
            child_pid,
            has_child: true,
            size: (cols, rows),
            rate_limiter: RateLimiter::default_terminal(),
            last_activity: 0,
            clock: Clock::start(),
            closed: false,
        }
    }

    /// Get the session ID.
    pub fn session_id(&self) -> (id: &str)
        ensures
            id@ == self@.id,
    {
        &self.session_id
    }

    /// Whether the session has the identifier `session_id`.
    pub(crate) fn has_id(&self, session_id: &String) -> (same: bool)
        ensures
            same == (self@.id == session_id@),
    {
        self.session_id == *session_id
    }

    /// Get the child process ID.
    pub fn child_pid(&self) -> (pid: u32)
        ensures
            pid == self@.pid,
    {
        self.child_pid
    }

    /// Check if the session is closed.
    pub fn is_closed(&self) -> (closed: bool)
        ensures
            closed == self@.closed,
    {
        self.closed
    }

    /// Get the current terminal size (cols, rows).
    pub fn size(&self) -> (size: (u16, u16))
        ensures
            size == self@.size,
    {
        self.size
    }

    /// Get time from the last activity to `now`, a reading of the session's clock, in nanoseconds.
    pub fn idle_duration_at(&self, now: u128) -> (nanos: u128)
        ensures
            nanos == self@.idle(now as nat),
    {
        if now >= self.last_activity {
            now - self.last_activity
        } else {
            0
        }
    }

    /// Get time since last activity, in nanoseconds.
    pub fn idle_duration(&self) -> (nanos: u128)
        ensures
            exists|now: nat|
                is_reading(now, self@.last_activity) && nanos == #[trigger] self@.idle(now),
            nanos <= LONGEST_SPAN,
    {
        let now: u128 = self.clock.now_after(self.last_activity);
        self.idle_duration_at(now)
    }

    /// Update last activity to `now`, a reading of the session's clock.
    fn touch_at(&mut self, now: u128)
        ensures
            final(self)@ == old(self)@.touched(now as nat),
    {
        proof {
            use_type_invariant(&*self);
        }
        self.last_activity = now;
    }

    /// Write data to the PTY (input from user), with the limiter's clock at `limiter_now` and the
    /// session's at `now`.
    ///
    /// Returns the bytes to write to the PTY.
    pub fn write_at(&mut self, data: &[u8], limiter_now: u128, now: u128) -> (bytes: TerminalResult<
        Vec<u8>,
    >)
        ensures
            match bytes {
                Ok(accepted) => old(self)@.write_refusal(limiter_now as nat) is None && accepted@
                    == data@,
                Err(error) => old(self)@.write_refusal(limiter_now as nat) == Some(error@),
            },
            final(self)@ == old(self)@.written(limiter_now as nat, now as nat),
    {
        if self.is_closed() {
            return Err(TerminalError::AlreadyClosed);
        }
        proof {
            use_type_invariant(&*self);
        }
        // Check rate limit
        if !self.rate_limiter.check_at(limiter_now) {
            return Err(TerminalError::RateLimited(self.rate_limiter.rate()));
        }
        self.touch_at(now);
        Ok(vstd::slice::slice_to_vec(data))
    }

    /// Write data to the PTY (input from user).
    ///
    /// This method is rate-limited to prevent abuse. It returns the bytes to write to the PTY. A
    /// token that the limiter already has is enough, whatever the clocks say.
    pub fn write(&mut self, data: &[u8]) -> (bytes: TerminalResult<Vec<u8>>)
        ensures
            exists|limiter_now: nat, now: nat|
                {
                    &&& is_reading(limiter_now, old(self)@.limiter.last_update)
                    &&& is_reading(now, old(self)@.last_activity)
                    &&& final(self)@ == #[trigger] old(self)@.written(limiter_now, now)
                    &&& match bytes {
                        Ok(accepted) => old(self)@.write_refusal(limiter_now) is None && accepted@
                            == data@,
                        Err(error) => old(self)@.write_refusal(limiter_now) == Some(error@),
                    }
                },
            old(self)@.closed ==> bytes == Err::<Vec<u8>, TerminalError>(
                TerminalError::AlreadyClosed,
            ) && final(self)@ == old(self)@,
            !old(self)@.closed && old(self)@.limiter.has_token() ==> (bytes matches Ok(accepted)
                && accepted@ == data@),
            bytes matches Err(error) ==> error@ == ErrorView::AlreadyClosed || error@
                == ErrorView::RateLimited(10),
    {
        let limiter_now: u128 = self.rate_limiter.now();
        let now: u128 = self.clock.now_after(self.last_activity);
        proof {
            use_type_invariant(&*self);
            law_refill_keeps_tokens(self@.limiter, limiter_now as nat);
        }
        self.write_at(data, limiter_now, now)
    }

    /// What writing to the PTY came to, given what the device answered: nothing, or the description
    /// of its error.
    pub fn write_result(answer: Result<(), String>) -> (result: TerminalResult<()>)
        ensures
            match answer {
                Ok(_) => result == Ok::<(), TerminalError>(()),
                Err(cause) => result == Err::<(), TerminalError>(TerminalError::WriteFailed(cause)),
            },
    {
        match answer {
            Ok(_) => Ok(()),
            Err(cause) => Err(TerminalError::WriteFailed(cause)),
        }
    }

    /// Read data from the PTY (output from shell), with the session's clock at `now`.
    ///
    /// Returns how many bytes to read at most.
    pub fn read_at(&mut self, now: u128) -> (capacity: TerminalResult<usize>)
        ensures
            old(self)@.closed ==> capacity == Err::<usize, TerminalError>(
                TerminalError::AlreadyClosed,
            ),
            !old(self)@.closed ==> capacity == Ok::<usize, TerminalError>(READ_BUFFER_SIZE),
            final(self)@ == old(self)@.polled(now as nat),
    {
        if self.is_closed() {
            return Err(TerminalError::AlreadyClosed);
        }
        self.touch_at(now);
        Ok(READ_BUFFER_SIZE)
    }

    /// Read data from the PTY (output from shell).
    ///
    /// Returns how many bytes to read at most. [`TtySession::read_result`] turns what was read into
    /// the result.
    pub fn read(&mut self) -> (capacity: TerminalResult<usize>)
        ensures
            old(self)@.closed ==> capacity == Err::<usize, TerminalError>(
                TerminalError::AlreadyClosed,
            ),
            !old(self)@.closed ==> capacity == Ok::<usize, TerminalError>(READ_BUFFER_SIZE),
            exists|now: nat|
                is_reading(now, old(self)@.last_activity) && final(self)@ == #[trigger] old(
                    self,
                )@.polled(now),
    {
        let now: u128 = self.clock.now_after(self.last_activity);
        self.read_at(now)
    }

    /// What reading from the PTY came to: the available data, or an empty vec if no data is
    /// available or the shell exited.
    pub fn read_result(outcome: ReadOutcome) -> (data: TerminalResult<Vec<u8>>)
        ensures
            match outcome {
                ReadOutcome::Read { buffer, count } => data matches Ok(bytes) && bytes@ == if count
                    <= buffer@.len() {
                    buffer@.take(count as int)
                } else {
                    buffer@
                },
                ReadOutcome::WouldBlock => data matches Ok(bytes) && bytes@.len() == 0,
                ReadOutcome::Failed(cause) => data == Err::<Vec<u8>, TerminalError>(
                    TerminalError::ReadFailed(cause),
                ),
            },
    {
        match outcome {
            ReadOutcome::Read { buffer, count } => {
                let mut bytes = buffer;
                bytes.truncate(count);
                Ok(bytes)
            },
            ReadOutcome::WouldBlock => Ok(Vec::new()),
            ReadOutcome::Failed(cause) => Err(TerminalError::ReadFailed(cause)),
        }
    }

    /// Resize the terminal, with the session's clock at `now`.
    ///
    /// Returns the record to hand to the terminal device.
    pub fn resize_at(&mut self, cols: u16, rows: u16, now: u128) -> (size: TerminalResult<
        WindowSize,
    >)
        ensures
            old(self)@.closed ==> size == Err::<WindowSize, TerminalError>(
                TerminalError::AlreadyClosed,
            ),
            !old(self)@.closed ==> size == Ok::<WindowSize, TerminalError>(window_of(cols, rows)),
            final(self)@ == old(self)@.polled(now as nat),
    {
        if self.is_closed() {
            return Err(TerminalError::AlreadyClosed);
        }
        self.touch_at(now);
        Ok(window(cols, rows))
    }

    /// Resize the terminal.
    ///
    /// Returns the record to hand to the terminal device. The size of the session changes once the
    /// device has taken it, see [`TtySession::resize_result`].
    pub fn resize(&mut self, cols: u16, rows: u16) -> (size: TerminalResult<WindowSize>)
        ensures
            old(self)@.closed ==> size == Err::<WindowSize, TerminalError>(
                TerminalError::AlreadyClosed,
            ),
            !old(self)@.closed ==> size == Ok::<WindowSize, TerminalError>(window_of(cols, rows)),
            exists|now: nat|
                is_reading(now, old(self)@.last_activity) && final(self)@ == #[trigger] old(
                    self,
                )@.polled(now),
    {
        let now: u128 = self.clock.now_after(self.last_activity);
        self.resize_at(cols, rows, now)
    }

    /// What resizing came to, given what the terminal device answered when it was given this size:
    /// once the device has the new size, it is the size of the session, and the child process is
    /// notified of it. A size that the device refused changes nothing.
    pub fn resize_result(&mut self, cols: u16, rows: u16, answer: Result<(), String>) -> (result:
        TerminalResult<SignalRequest>)
        ensures
            final(self)@ == old(self)@.resize_answered(cols, rows, answer is Ok),
            match answer {
                Ok(_) => result == Ok::<SignalRequest, TerminalError>(
                    signal_to(old(self)@.pid, Signal::WindowChange),
                ),
                Err(cause) => result == Err::<SignalRequest, TerminalError>(
                    TerminalError::PtyAllocation(cause),
                ),
            },
    {
        match answer {
            Ok(_) => {
                proof {
                    use_type_invariant(&*self);
                }
                self.size = (cols, rows);
                Ok(signal_request(self.child_pid, Signal::WindowChange))
            },
            Err(cause) => Err(TerminalError::PtyAllocation(cause)),
        }
    }

    /// Close the session and terminate the child process.
    ///
    /// Returns the first step; after each wait, [`TtySession::close_after`] gives the next one. The
    /// last step holds the exit code of the child process if available.
    pub fn close(&mut self) -> (step: TerminalResult<CloseStep>)
        ensures
            old(self)@.closed ==> step == Err::<CloseStep, TerminalError>(
                TerminalError::AlreadyClosed,
            ),
            !old(self)@.closed ==> step == Ok::<CloseStep, TerminalError>(
                wait_step(old(self)@.pid, ClosePhase::Terminating),
            ),
            !old(self)@.closed ==> (step matches Ok(CloseStep::Wait { phase, request, timeout_secs })
                && phase == ClosePhase::Terminating && request.pid == old(self)@.pid as i32
                && request.signal == Signal::Terminate && timeout_secs == 5),
            final(self)@ == old(self)@.shut(),
    {
        if self.closed {
            return Err(TerminalError::AlreadyClosed);
        }
        proof {
            use_type_invariant(&*self);
        }
        self.closed = true;
        if self.has_child {
            self.has_child = false;
            // Try graceful shutdown first (SIGTERM)
            Ok(
                CloseStep::Wait {
                    phase: ClosePhase::Terminating,
                    request: signal_request(self.child_pid, Signal::Terminate),
                    timeout_secs: TERMINATE_TIMEOUT_SECS,
                },
            )
        } else {
            Ok(CloseStep::Finished(None))
        }
    }

    /// The next step of closing a session with the process `child_pid`, given what the wait of
    /// `phase` came to.
    pub fn close_after(child_pid: u32, phase: ClosePhase, outcome: WaitOutcome) -> (step: CloseStep)
        ensures
            step == step_after(child_pid, phase, outcome),
    {
        match (phase, outcome) {
            (_, WaitOutcome::Exited(code)) => CloseStep::Finished(code),
            // Timeout - send SIGKILL, and wait again briefly
            (ClosePhase::Terminating, WaitOutcome::TimedOut) => CloseStep::Wait {
                phase: ClosePhase::Killing,
                request: signal_request(child_pid, Signal::Kill),
                timeout_secs: KILL_TIMEOUT_SECS,
            },
            _ => CloseStep::Finished(None),
        }
    }

    /// Whether there is a child process to poll for its exit.
    pub fn can_poll(&self) -> (can: bool)
        ensures
            can == (!self@.closed && self@.has_child),
    {
        !self.closed && self.has_child
    }

    /// Check if the child process is still running, given what polling it came to, if it was
    /// polled.
    pub fn is_running(&self, poll: Option<ChildPoll>) -> (running: bool)
        ensures
            running == (!self@.closed && self@.has_child && poll == Some(ChildPoll::Running)),
    {
        if !self.can_poll() {
            return false;
        }
        match poll {
            Some(ChildPoll::Running) => true,  // Still running
            Some(ChildPoll::Exited) => false,  // Process exited
            Some(ChildPoll::Failed) => false,  // Error checking
            None => false,
        }
    }

    /// The signal to send when the session is dropped: one that was not closed takes its child
    /// process along, as far as possible.
    pub fn drop_signal(&self) -> (request: Option<SignalRequest>)
        ensures
            request == if self@.closed {
                None
            } else {
                Some(signal_to(self@.pid, Signal::Terminate))
            },
    {
        if !self.closed {
            Some(signal_request(self.child_pid, Signal::Terminate))
        } else {
            None
        }
    }
}

/// Once closed, a session stays closed and unchanged, whatever is asked of it, and input is
/// refused. Only the answer to a change of size that was asked for before can still come in.
pub proof fn law_closed_stays_closed(
    session: SessionView,
    cols: u16,
    rows: u16,
    limiter_now: nat,
    now: nat,
)
    requires
        session.closed,
    ensures
        session.written(limiter_now, now) == session,
        session.polled(now) == session,
        session.shut() == session,
        session.resize_answered(cols, rows, true).closed,
        session.resize_answered(cols, rows, false) == session,
        session.write_refusal(limiter_now) == Some(ErrorView::AlreadyClosed),
{
}

/// Every operation keeps the session valid, and none changes its identity or its process.
pub proof fn law_operations_keep_session(
    session: SessionView,
    cols: u16,
    rows: u16,
    taken: bool,
    limiter_now: nat,
    now: nat,
)
    requires
        session.valid(),
    ensures
        forall|next: SessionView|
            next == session.written(limiter_now, now) || next == session.polled(now) || next
                == session.resize_answered(cols, rows, taken) || next == session.shut()
                ==> #[trigger] next.valid() && next.id == session.id && next.pid == session.pid,
        session.shut().closed,
{
}

/// What can be done to a session, with the times at which it is done.
pub enum SessionOperation {
    Write { limiter_now: nat, now: nat },
    Read { now: nat },
    Resize { now: nat },
    ResizeAnswer { cols: u16, rows: u16, taken: bool },
    Close,
}

impl SessionOperation {
    /// The size that the terminal device has taken, if it was just given one and took it.
    pub open spec fn taken_size(self) -> Option<(u16, u16)> {
        match self {
            SessionOperation::ResizeAnswer { cols, rows, taken: true } => Some((cols, rows)),
            _ => None,
        }
    }
}

impl SessionView {
    /// The session after one operation.
    pub open spec fn after(self, operation: SessionOperation) -> SessionView {
        match operation {
            SessionOperation::Write { limiter_now, now } => self.written(limiter_now, now),
            SessionOperation::Read { now } => self.polled(now),
            SessionOperation::Resize { now } => self.polled(now),
            SessionOperation::ResizeAnswer { cols, rows, taken } => self.resize_answered(
                cols,
                rows,
                taken,
            ),
            SessionOperation::Close => self.shut(),
        }
    }
}

/// The session after each of `operations`, in order.
pub open spec fn session_run(session: SessionView, operations: Seq<SessionOperation>) -> SessionView
    decreases operations.len(),
{
    if operations.len() == 0 {
        session
    } else {
        session_run(session, operations.drop_last()).after(operations.last())
    }
}

/// The identifier and the process of a session never change, whatever is done to it, and neither
/// does its being closed once it is.
pub proof fn law_session_keeps_identity(session: SessionView, operations: Seq<SessionOperation>)
    ensures
        session_run(session, operations).id == session.id,
        session_run(session, operations).pid == session.pid,
        session.closed ==> session_run(session, operations).closed,
        session.valid() ==> session_run(session, operations).valid(),
    decreases operations.len(),
{
    if operations.len() > 0 {
        law_session_keeps_identity(session, operations.drop_last());
    }
}

/// From position `start` on the terminal device took no size.
pub open spec fn none_taken_from(operations: Seq<SessionOperation>, start: int) -> bool {
    forall|j: int|
        start <= j < operations.len() ==> (#[trigger] operations[j]).taken_size() is None
}

/// The size of a session is the current size of its terminal: the last one that the terminal device
/// took, or the size at the beginning if it took none, whatever else was done in between.
pub proof fn law_size_is_the_last_taken(session: SessionView, operations: Seq<SessionOperation>)
    ensures
        none_taken_from(operations, 0) ==> session_run(session, operations).size == session.size,
        forall|i: int|
            0 <= i < operations.len() && (#[trigger] operations[i]).taken_size() is Some
                && none_taken_from(operations, i + 1) ==> Some(
                session_run(session, operations).size,
            ) == operations[i].taken_size(),
    decreases operations.len(),
{
    if operations.len() > 0 {
        let earlier = operations.drop_last();
        let last = operations.len() - 1;
        law_size_is_the_last_taken(session, earlier);
        assert forall|start: int| 0 <= start && none_taken_from(
            operations,
            start,
        ) implies #[trigger] none_taken_from(earlier, start) by {
            assert forall|j: int| start <= j < earlier.len() implies (
            #[trigger] earlier[j]).taken_size() is None by {
                assert(earlier[j] == operations[j]);
            }
        }
        if none_taken_from(operations, 0) {
            assert(none_taken_from(earlier, 0));
            assert(operations[last].taken_size() is None);
        }
        assert forall|i: int|
            0 <= i < operations.len() && (#[trigger] operations[i]).taken_size() is Some
                && none_taken_from(operations, i + 1) implies Some(
            session_run(session, operations).size,
        ) == operations[i].taken_size() by {
            if i < last {
                assert(none_taken_from(earlier, i + 1));
                assert(operations[last].taken_size() is None);
                assert(earlier[i] == operations[i]);
            }
        }
    }
}

impl SessionOperation {
    /// What the limiter's clock reads when input is asked for.
    pub open spec fn limiter_time(self) -> Option<nat> {
        match self {
            SessionOperation::Write { limiter_now, .. } => Some(limiter_now),
            _ => None,
        }
    }
}

/// How much input is accepted in `operations`, in order.
pub open spec fn accepted_input(session: SessionView, operations: Seq<SessionOperation>) -> nat
    decreases operations.len(),
{
    if operations.len() == 0 {
        0
    } else {
        let before = session_run(session, operations.drop_last());
        accepted_input(session, operations.drop_last()) + match operations.last() {
            SessionOperation::Write { limiter_now, .. } => if before.write_refusal(
                limiter_now,
            ) is None {
                1nat
            } else {
                0nat
            },
            _ => 0nat,
        }
    }
}

/// The times at which input is asked for never go back, and lie between `start` and `end`.
pub open spec fn input_in_order(
    operations: Seq<SessionOperation>,
    start: nat,
    end: nat,
) -> bool {
    &&& forall|i: int|
        0 <= i < operations.len() ==> ((#[trigger] operations[i]).limiter_time() matches Some(now)
            ==> start <= now <= end)
    &&& forall|i: int, j: int|
        0 <= i <= j < operations.len() ==> ((#[trigger] operations[i]).limiter_time() matches Some(
            first,
        ) ==> ((#[trigger] operations[j]).limiter_time() matches Some(second) ==> first <= second))
}

proof fn lemma_input_spends(
    session: SessionView,
    operations: Seq<SessionOperation>,
    end: nat,
)
    requires
        session.valid(),
        session.limiter.last_update <= end,
        input_in_order(operations, session.limiter.last_update, end),
    ensures
        ({
            let start = session.limiter.last_update;
            let after = session_run(session, operations);
            &&& after.valid()
            &&& start <= after.limiter.last_update <= end
            &&& after.limiter.level + accepted_input(session, operations) * TOKEN
                <= session.limiter.level + 10 * (after.limiter.last_update - start)
        }),
    decreases operations.len(),
{
    if operations.len() > 0 {
        let start = session.limiter.last_update;
        let earlier = operations.drop_last();
        let last = operations.len() - 1;
        let limit = match operations[last].limiter_time() {
            Some(now) => now,
            None => end,
        };
        assert forall|i: int| 0 <= i < earlier.len() implies ((
        #[trigger] earlier[i]).limiter_time() matches Some(now) ==> start <= now <= limit) by {
            assert(earlier[i] == operations[i]);
            assert(operations[last].limiter_time() is Some ==> limit
                == operations[last].limiter_time()->0);
        }
        assert forall|i: int, j: int| 0 <= i <= j < earlier.len() implies ((
        #[trigger] earlier[i]).limiter_time() matches Some(first) ==> ((
        #[trigger] earlier[j]).limiter_time() matches Some(second) ==> first <= second)) by {
            assert(earlier[i] == operations[i]);
            assert(earlier[j] == operations[j]);
        }
        lemma_input_spends(session, earlier, limit);
        let before = session_run(session, earlier);
        if let SessionOperation::Write { limiter_now, now } = operations[last] {
            lemma_use_spends(before.limiter, BucketUse::Check { now: limiter_now });
        }
    }
}

/// The input of a session is limited: over any stretch of time, however it is placed in it and
/// whatever else is done to the session, at most twenty inputs plus ten per second are accepted.
pub proof fn law_input_is_limited(
    session: SessionView,
    operations: Seq<SessionOperation>,
    end: nat,
)
    requires
        session.valid(),
        session.limiter.last_update <= end,
        input_in_order(operations, session.limiter.last_update, end),
    ensures
        accepted_input(session, operations) * TOKEN <= 20 * TOKEN + 10 * (end
            - session.limiter.last_update),
{
    lemma_input_spends(session, operations, end);
}

/// A session that was just opened accepts at most twenty inputs plus ten per second until `end`.
pub proof fn law_opened_session_is_limited(
    id: Seq<char>,
    pid: u32,
    cols: u16,
    rows: u16,
    operations: Seq<SessionOperation>,
    end: nat,
)
    requires
        input_in_order(operations, 0, end),
    ensures
        accepted_input(SessionView::opened(id, pid, cols, rows), operations) * TOKEN <= 20 * TOKEN
            + 10 * end,
{
    law_input_is_limited(SessionView::opened(id, pid, cols, rows), operations, end);
}

/// Input is refused for being closed or for the rate of ten inputs per second alone.
pub proof fn law_refusal_names_the_rate(session: SessionView, limiter_now: nat)
    requires
        session.valid(),
    ensures
        session.write_refusal(limiter_now) matches Some(error) ==> error == if session.closed {
            ErrorView::AlreadyClosed
        } else {
            ErrorView::RateLimited(10)
        },
{
}

/// Input that is refused does not count as activity, and leaves the size as it is; input that is
/// accepted ends the idle time.
pub proof fn law_refused_input_is_no_activity(session: SessionView, limiter_now: nat, now: nat)
    ensures
        session.write_refusal(limiter_now) is Some ==> session.written(
            limiter_now,
            now,
        ).last_activity == session.last_activity,
        session.write_refusal(limiter_now) is None ==> session.written(limiter_now, now).idle(now)
            == 0,
        session.written(limiter_now, now).size == session.size,
{
}

/// Closing ends after at most two waits: the process is asked to exit, is killed only if it does
/// not do so in time, and the exit code comes from the wait in which it exited.
pub proof fn law_closing_ends(pid: u32, first: WaitOutcome, second: WaitOutcome)
    ensures
        step_after(pid, ClosePhase::Terminating, first) is Wait <==> first is TimedOut,
        first is TimedOut ==> step_after(pid, ClosePhase::Terminating, first) == wait_step(
            pid,
            ClosePhase::Killing,
        ),
        step_after(pid, ClosePhase::Killing, second) is Finished,
        first matches WaitOutcome::Exited(code) ==> step_after(pid, ClosePhase::Terminating, first)
            == CloseStep::Finished(code),
        second matches WaitOutcome::Exited(code) ==> step_after(pid, ClosePhase::Killing, second)
            == CloseStep::Finished(code),
{
}

/// A session that was just opened is open, has its process, the size that was asked for, and a full
/// allowance of twenty inputs that grows by ten per second.
pub proof fn law_opened_session(id: Seq<char>, pid: u32, cols: u16, rows: u16)
    ensures
        ({
            let session = SessionView::opened(id, pid, cols, rows);
            &&& session.id == id
            &&& session.pid == pid
            &&& session.size == (cols, rows)
            &&& session.has_child
            &&& !session.closed
            &&& session.last_activity == 0
            &&& session.limiter.level == 20_000_000_000
            &&& session.limiter.capacity == 20
            &&& session.limiter.rate == 10
            &&& session.limiter.last_update == 0
        }),
{
}

/// The idle time is exactly the time since the last activity.
pub proof fn law_idle_is_exact(session: SessionView, now: nat)
    ensures
        session.last_activity <= now ==> session.last_activity + session.idle(now) == now,
        now < session.last_activity ==> session.idle(now) == 0,
{
}

/// Input is accepted exactly if the session is open and a whole token is there after refilling. It
/// takes that token and is activity at that time; input that is refused is no activity, and no input
/// changes anything else.
pub proof fn law_write_is_exact(session: SessionView, limiter_now: nat, now: nat)
    ensures
        ({
            let there = session.limiter.refilled(limiter_now).level;
            let after = session.written(limiter_now, now);
            let refusal = session.write_refusal(limiter_now);
            &&& session.closed ==> refusal == Some(ErrorView::AlreadyClosed) && after == session
            &&& !session.closed && there < 1_000_000_000 ==> {
                &&& refusal == Some(ErrorView::RateLimited(session.limiter.rate as u32))
                &&& after.limiter.level == there
                &&& after.last_activity == session.last_activity
            }
            &&& !session.closed && there >= 1_000_000_000 ==> {
                &&& refusal is None
                &&& after.limiter.level + 1_000_000_000 == there
                &&& after.last_activity == now
            }
            &&& !session.closed ==> after.limiter.last_update == limiter_now
            &&& after.limiter.rate == session.limiter.rate
            &&& after.limiter.capacity == session.limiter.capacity
            &&& after.id == session.id
            &&& after.pid == session.pid
            &&& after.has_child == session.has_child
            &&& after.size == session.size
            &&& after.closed == session.closed
        }),
{
}

/// Asking an open session for output, or for another size, is activity at that time and nothing
/// else; it does nothing to a closed session.
pub proof fn law_poll_is_activity(session: SessionView, now: nat)
    ensures
        session.closed ==> session.polled(now) == session,
        !session.closed ==> session.polled(now).last_activity == now,
        session.polled(now).id == session.id,
        session.polled(now).pid == session.pid,
        session.polled(now).has_child == session.has_child,
        session.polled(now).size == session.size,
        session.polled(now).limiter == session.limiter,
        session.polled(now).closed == session.closed,
{
}

/// A size that the terminal device took becomes the size of the session, exactly; nothing else
/// changes, and nothing at all when the device refused it.
pub proof fn law_resize_is_exact(session: SessionView, cols: u16, rows: u16)
    ensures
        ({
            let after = session.resize_answered(cols, rows, true);
            &&& after.size.0 == cols
            &&& after.size.1 == rows
            &&& after.id == session.id
            &&& after.pid == session.pid
            &&& after.has_child == session.has_child
            &&& after.limiter == session.limiter
            &&& after.last_activity == session.last_activity
            &&& after.closed == session.closed
        }),
        session.resize_answered(cols, rows, false) == session,
{
}

/// Closing an open session gives up its process and changes nothing else but that it is closed.
pub proof fn law_close_is_exact(session: SessionView)
    ensures
        session.shut().closed,
        session.closed ==> session.shut() == session,
        !session.closed ==> !session.shut().has_child,
        session.shut().id == session.id,
        session.shut().pid == session.pid,
        session.shut().size == session.size,
        session.shut().limiter == session.limiter,
        session.shut().last_activity == session.last_activity,
{
}

/// Signals go to the child process of the session itself, whatever its process ID.
pub proof fn law_signals_go_to_the_child(pid: u32, signal: Signal)
    ensures
        signal_to(pid, signal).pid == pid as i32,
        pid <= i32::MAX ==> signal_to(pid, signal).pid == pid,
        signal_to(pid, signal).signal == signal,
{
}

/// The child process is first asked to exit, and given five seconds; if it has not exited by then,
/// it is killed and given one second. Both signals go to the child process itself. The exit code is
/// that of the process, as soon as it has exited; a wait that fails, or a second one that runs out,
/// ends without one.
pub proof fn law_child_is_ended(pid: u32, phase: ClosePhase, code: Option<i32>)
    ensures
        wait_step(pid, ClosePhase::Terminating) == (CloseStep::Wait {
            phase: ClosePhase::Terminating,
            request: SignalRequest { pid: pid as i32, signal: Signal::Terminate },
            timeout_secs: 5,
        }),
        step_after(pid, ClosePhase::Terminating, WaitOutcome::TimedOut) == (CloseStep::Wait {
            phase: ClosePhase::Killing,
            request: SignalRequest { pid: pid as i32, signal: Signal::Kill },
            timeout_secs: 1,
        }),
        wait_step(pid, ClosePhase::Killing) == step_after(
            pid,
            ClosePhase::Terminating,
            WaitOutcome::TimedOut,
        ),
        step_after(pid, ClosePhase::Killing, WaitOutcome::TimedOut) == CloseStep::Finished(None),
        step_after(pid, phase, WaitOutcome::Exited(code)) == CloseStep::Finished(code),
        step_after(pid, phase, WaitOutcome::Failed) == CloseStep::Finished(None),
{
}

/// Output is read in pieces of at most four kibibytes.
pub proof fn law_read_size()
    ensures
        READ_BUFFER_SIZE == 4 * 1024,
{
}

} // verus!
