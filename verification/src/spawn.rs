//! Opening a PTY session: which steps are taken, in which order, and what their failures mean.

use crate::error::{ErrorView, TerminalError, TerminalResult};
use crate::resize::{acceptable_size, set_window_size, window, window_of, WindowSize};
use crate::session::{SessionView, TtySession};
use vstd::prelude::*;

verus! {

/// Default shell to spawn if not specified.
pub const DEFAULT_SHELL: &'static str = "/bin/bash";

/// `text` is a version 4 UUID in its hyphenated, lower-case form.
pub open spec fn is_session_id(text: Seq<char>) -> bool {
    &&& text.len() == 36
    &&& forall|i: int|
        0 <= i < 36 ==> if i == 8 || i == 13 || i == 18 || i == 23 {
            #[trigger] text[i] == '-'
        } else {
            is_lower_hex(text[i])
        }
    &&& text[14] == '4'
    &&& text[19] == '8' || text[19] == '9' || text[19] == 'a' || text[19] == 'b'
}

/// `c` is a hexadecimal digit, in lower case.
pub open spec fn is_lower_hex(c: char) -> bool {
    '0' <= c <= '9' || 'a' <= c <= 'f'
}

/// Calls `Uuid::new_v4` of the `uuid` crate, and renders the result with its `Display`.
///
/// Trusted: the text has the form of a version 4 UUID. Which one it is is left to chance, so
/// nothing more is said of it. The crate panics where the operating system has no random numbers
/// to give.
#[verifier::external_body]
fn random_session_id() -> (id: String)
    ensures
        is_session_id(id@),
{
    uuid::Uuid::new_v4().to_string()
}

/// What is to be done next to open a session.
#[derive(Debug)]
pub enum SpawnAction {
    /// Allocate a PTY, with default settings and size.
    OpenPty,
    /// Add the non-blocking flag to the flags of the PTY master.
    SetNonblocking,
    /// Give the PTY slave this window size.
    SetWindowSize(WindowSize),
    /// Make two more handles of the PTY slave, for standard input and output; the slave itself
    /// serves for standard error.
    CloneSlave,
    /// Start this program on the PTY slave, as the leader of a new session that has the PTY as its
    /// controlling terminal, with these variables added to its environment.
    Launch { program: String, environment: Vec<(String, String)> },
    /// Make a second handle of the PTY master, for writing.
    DuplicateMaster,
    /// Register the PTY master for asynchronous reading.
    RegisterMaster,
}

/// What an action came to. An error is the description that the operating system gives.
#[derive(Debug)]
pub enum SpawnEvent {
    /// The action, any but [`SpawnAction::Launch`], was done or failed.
    Completed(Result<(), String>),
    /// The program was started, with its process ID if it has one, or could not be.
    Launched(Result<Option<u32>, String>),
}

/// Stages of opening a session, by the action that is under way.
#[derive(Debug, Clone, Copy, PartialEq, Eq, Structural)]
pub enum SpawnStage {
    OpeningPty,
    SettingNonblocking,
    SettingWindowSize,
    CloningSlave,
    Launching,
    DuplicatingMaster { pid: u32 },
    RegisteringMaster { pid: u32 },
}

/// A session that is being opened.
#[derive(Debug)]
pub struct SpawnProcedure {
    session_id: String,
    shell: String,
    cols: u16,
    rows: u16,
    stage: SpawnStage,
}

/// Where opening a session has got to.
#[derive(Debug)]
pub enum SpawnProgress {
    /// There is more to do.
    Continue(SpawnProcedure),
    /// The session is open, or could not be opened.
    Finished(TerminalResult<TtySession>),
}

/// The mathematical content of a [`SpawnAction`].
pub enum SpawnActionView {
    OpenPty,
    SetNonblocking,
    SetWindowSize(WindowSize),
    CloneSlave,
    Launch { program: Seq<char>, environment: Seq<(Seq<char>, Seq<char>)> },
    DuplicateMaster,
    RegisterMaster,
}

/// The mathematical content of a [`SpawnEvent`].
pub enum SpawnEventView {
    Completed(Result<(), Seq<char>>),
    Launched(Result<Option<u32>, Seq<char>>),
}

/// The mathematical state of a [`SpawnProcedure`].
pub struct SpawnView {
    pub id: Seq<char>,
    pub shell: Seq<char>,
    pub cols: u16,
    pub rows: u16,
    pub stage: SpawnStage,
}

/// The mathematical content of a [`SpawnProgress`].
pub enum ProgressView {
    Continue(SpawnView),
    Opened(SessionView),
    Failed(ErrorView),
}

impl View for SpawnAction {
    type V = SpawnActionView;

    open spec fn view(&self) -> SpawnActionView {
        match *self {
            SpawnAction::OpenPty => SpawnActionView::OpenPty,
            SpawnAction::SetNonblocking => SpawnActionView::SetNonblocking,
            SpawnAction::SetWindowSize(size) => SpawnActionView::SetWindowSize(size),
            SpawnAction::CloneSlave => SpawnActionView::CloneSlave,
            SpawnAction::Launch { program, environment } => SpawnActionView::Launch {
                program: program@,
                environment: environment@.map_values(
                    |variable: (String, String)| (variable.0@, variable.1@),
                ),
            },
            SpawnAction::DuplicateMaster => SpawnActionView::DuplicateMaster,
            SpawnAction::RegisterMaster => SpawnActionView::RegisterMaster,
        }
    }
}

impl View for SpawnEvent {
    type V = SpawnEventView;

    open spec fn view(&self) -> SpawnEventView {
        match *self {
            SpawnEvent::Completed(Ok(_)) => SpawnEventView::Completed(Ok(())),
            SpawnEvent::Completed(Err(cause)) => SpawnEventView::Completed(Err(cause@)),
            SpawnEvent::Launched(Ok(pid)) => SpawnEventView::Launched(Ok(pid)),
            SpawnEvent::Launched(Err(cause)) => SpawnEventView::Launched(Err(cause@)),
        }
    }
}

impl View for SpawnProcedure {
    type V = SpawnView;

    closed spec fn view(&self) -> SpawnView {
        SpawnView {
            id: self.session_id@,
            shell: self.shell@,
            cols: self.cols,
            rows: self.rows,
            stage: self.stage,
        }
    }
}

impl View for SpawnProgress {
    type V = ProgressView;

    open spec fn view(&self) -> ProgressView {
        match *self {
            SpawnProgress::Continue(procedure) => ProgressView::Continue(procedure@),
            SpawnProgress::Finished(Ok(session)) => ProgressView::Opened(session@),
            SpawnProgress::Finished(Err(error)) => ProgressView::Failed(error@),
        }
    }
}

/// The variables that a shell finds in its environment.
pub open spec fn shell_environment() -> Seq<(Seq<char>, Seq<char>)> {
    seq![("TERM"@, "xterm-256color"@), ("COLORTERM"@, "truecolor"@)]
}

impl SpawnView {
    /// A size that was found unacceptable is never applied.
    pub open spec fn valid(self) -> bool {
        self.stage is OpeningPty || self.stage is SettingNonblocking || acceptable_size(
            self.cols,
            self.rows,
        )
    }

    /// The action that is under way.
    pub open spec fn pending(self) -> SpawnActionView {
        match self.stage {
            SpawnStage::OpeningPty => SpawnActionView::OpenPty,
            SpawnStage::SettingNonblocking => SpawnActionView::SetNonblocking,
            SpawnStage::SettingWindowSize => SpawnActionView::SetWindowSize(
                window_of(self.cols, self.rows),
            ),
            SpawnStage::CloningSlave => SpawnActionView::CloneSlave,
            SpawnStage::Launching => SpawnActionView::Launch {
                program: self.shell,
                environment: shell_environment(),
            },
            SpawnStage::DuplicatingMaster { .. } => SpawnActionView::DuplicateMaster,
            SpawnStage::RegisteringMaster { .. } => SpawnActionView::RegisterMaster,
        }
    }

    /// `event` is an outcome of the action that is under way.
    pub open spec fn accepts(self, event: SpawnEventView) -> bool {
        self.stage is Launching <==> event is Launched
    }

    /// The procedure at another stage.
    pub open spec fn at(self, stage: SpawnStage) -> SpawnView {
        SpawnView { stage, ..self }
    }

    /// The error that a failed action stands for: the PTY calls fail as allocation, everything
    /// about the process and its files as spawning.
    pub open spec fn failure(self, cause: Seq<char>) -> ErrorView {
        match self.stage {
            SpawnStage::CloningSlave
            | SpawnStage::Launching
            | SpawnStage::RegisteringMaster { .. } => ErrorView::SpawnFailed(cause),
            _ => ErrorView::PtyAllocation(cause),
        }
    }

    /// What follows when the action that is under way was done.
    pub open spec fn proceed(self) -> ProgressView {
        match self.stage {
            SpawnStage::OpeningPty => ProgressView::Continue(self.at(SpawnStage::SettingNonblocking)),
            SpawnStage::SettingNonblocking => if acceptable_size(self.cols, self.rows) {
                ProgressView::Continue(self.at(SpawnStage::SettingWindowSize))
            } else {
                ProgressView::Failed(ErrorView::InvalidSize { cols: self.cols, rows: self.rows })
            },
            SpawnStage::SettingWindowSize => ProgressView::Continue(
                self.at(SpawnStage::CloningSlave),
            ),
            SpawnStage::CloningSlave => ProgressView::Continue(self.at(SpawnStage::Launching)),
            // A launch reports a process ID, see `next`
            SpawnStage::Launching => ProgressView::Continue(self),
            SpawnStage::DuplicatingMaster { pid } => ProgressView::Continue(
                self.at(SpawnStage::RegisteringMaster { pid }),
            ),
            SpawnStage::RegisteringMaster { pid } => ProgressView::Opened(
                SessionView::opened(self.id, pid, self.cols, self.rows),
            ),
        }
    }

    /// What follows when the action that is under way came to `event`.
    pub open spec fn next(self, event: SpawnEventView) -> ProgressView {
        match event {
            SpawnEventView::Completed(Ok(_)) => self.proceed(),
            SpawnEventView::Completed(Err(cause)) => ProgressView::Failed(self.failure(cause)),
            SpawnEventView::Launched(Ok(Some(pid))) => ProgressView::Continue(
                self.at(SpawnStage::DuplicatingMaster { pid }),
            ),
            SpawnEventView::Launched(Ok(None)) => ProgressView::Failed(
                ErrorView::SpawnFailed("Failed to get child PID"@),
            ),
            SpawnEventView::Launched(Err(cause)) => ProgressView::Failed(self.failure(cause)),
        }
    }
}

impl SpawnProcedure {
    /// The action that is under way.
    pub fn pending(&self) -> (action: SpawnAction)
        ensures
            action@ == self@.pending(),
    {
        match self.stage {
            SpawnStage::OpeningPty => SpawnAction::OpenPty,
            SpawnStage::SettingNonblocking => SpawnAction::SetNonblocking,
            SpawnStage::SettingWindowSize => SpawnAction::SetWindowSize(
                window(self.cols, self.rows),
            ),
            SpawnStage::CloningSlave => SpawnAction::CloneSlave,
            SpawnStage::Launching => {
                let mut environment: Vec<(String, String)> = Vec::new();
                environment.push((String::from("TERM"), String::from("xterm-256color")));
                environment.push((String::from("COLORTERM"), String::from("truecolor")));
                assert(environment@.map_values(
                    |variable: (String, String)| (variable.0@, variable.1@),
                ) =~= shell_environment());
                SpawnAction::Launch { program: self.shell.clone(), environment }
            },
            SpawnStage::DuplicatingMaster { pid: _ } => SpawnAction::DuplicateMaster,
            SpawnStage::RegisteringMaster { pid: _ } => SpawnAction::RegisterMaster,
        }
    }

    /// Whether `event` is an outcome of the action that is under way.
    pub fn accepts(&self, event: &SpawnEvent) -> (accepted: bool)
        ensures
            accepted == self@.accepts(event@),
    {
        match event {
            SpawnEvent::Completed(_) => self.stage != SpawnStage::Launching,
            SpawnEvent::Launched(_) => self.stage == SpawnStage::Launching,
        }
    }

    /// Go on with opening the session, given what the action that is under way came to.
    pub fn advance(self, event: SpawnEvent) -> (progress: SpawnProgress)
        requires
            self@.accepts(event@),
        ensures
            progress@ == self@.next(event@),
    {
        match event {
            SpawnEvent::Completed(Ok(_)) => self.proceed(),
            SpawnEvent::Completed(Err(cause)) => self.fail(cause),
            SpawnEvent::Launched(Ok(Some(pid))) => self.go_to(
                SpawnStage::DuplicatingMaster { pid },
            ),
            SpawnEvent::Launched(Ok(None)) => SpawnProgress::Finished(
                Err(TerminalError::SpawnFailed(String::from("Failed to get child PID"))),
            ),
            SpawnEvent::Launched(Err(cause)) => self.fail(cause),
        }
    }

    fn go_to(self, stage: SpawnStage) -> (progress: SpawnProgress)
        ensures
            progress@ == ProgressView::Continue(self@.at(stage)),
    {
        SpawnProgress::Continue(SpawnProcedure { stage, ..self })
    }

    fn fail(self, cause: String) -> (progress: SpawnProgress)
        ensures
            progress@ == ProgressView::Failed(self@.failure(cause@)),
    {
        let error = match self.stage {
            SpawnStage::CloningSlave
            | SpawnStage::Launching
            | SpawnStage::RegisteringMaster { pid: _ } => TerminalError::SpawnFailed(cause),
            _ => TerminalError::PtyAllocation(cause),
        };
        SpawnProgress::Finished(Err(error))
    }

    fn proceed(self) -> (progress: SpawnProgress)
        requires
            !(self@.stage is Launching),
        ensures
            progress@ == self@.proceed(),
    {
        match self.stage {
            SpawnStage::OpeningPty => self.go_to(SpawnStage::SettingNonblocking),
            // Set initial window size on slave
            SpawnStage::SettingNonblocking => match set_window_size(self.cols, self.rows) {
                Ok(_) => self.go_to(SpawnStage::SettingWindowSize),
                Err(error) => SpawnProgress::Finished(Err(error)),
            },
            SpawnStage::SettingWindowSize => self.go_to(SpawnStage::CloningSlave),
            SpawnStage::CloningSlave => self.go_to(SpawnStage::Launching),
            SpawnStage::Launching => SpawnProgress::Continue(self),
            SpawnStage::DuplicatingMaster { pid } => self.go_to(
                SpawnStage::RegisteringMaster { pid },
            ),
            SpawnStage::RegisteringMaster { pid } => SpawnProgress::Finished(
                Ok(TtySession::opened(self.session_id, pid, self.cols, self.rows)),
            ),
        }
    }
}

impl TtySession {
    /// Spawn a new PTY session with a shell.
    ///
    /// # Arguments
    ///
    /// * `shell` - Path to shell executable (e.g., "/bin/bash")
    /// * `cols` - Initial terminal width
    /// * `rows` - Initial terminal height
    ///
    /// Returns the procedure that opens the session, under a new random identifier.
    pub fn spawn(shell: &str, cols: u16, rows: u16) -> (procedure: SpawnProcedure)
        ensures
            is_session_id(procedure@.id),
            procedure@ == (SpawnView {
                id: procedure@.id,
                shell: shell@,
                cols,
                rows,
                stage: SpawnStage::OpeningPty,
            }),
    {
        SpawnProcedure {
            session_id: random_session_id(),
            shell: String::from(shell),
            cols,
            rows,
            stage: SpawnStage::OpeningPty,
        }
    }

    /// Spawn with default shell (/bin/bash).
    pub fn spawn_default(cols: u16, rows: u16) -> (procedure: SpawnProcedure)
        ensures
            is_session_id(procedure@.id),
            procedure@ == (SpawnView {
                id: procedure@.id,
                shell: DEFAULT_SHELL@,
                cols,
                rows,
                stage: SpawnStage::OpeningPty,
            }),
    {
        Self::spawn(DEFAULT_SHELL, cols, rows)
    }
}

/// Where opening a session has got to after each of `events`, in order; once it is finished, it
/// stays as it is.
pub open spec fn spawn_run(start: SpawnView, events: Seq<SpawnEventView>) -> ProgressView
    decreases events.len(),
{
    if events.len() == 0 {
        ProgressView::Continue(start)
    } else {
        match spawn_run(start, events.drop_last()) {
            ProgressView::Continue(procedure) => procedure.next(events.last()),
            finished => finished,
        }
    }
}

/// Each event is an outcome of the action that is under way when it comes.
pub open spec fn spawn_accepts(start: SpawnView, events: Seq<SpawnEventView>) -> bool {
    forall|i: int|
        0 <= i < events.len() ==> match spawn_run(start, events.take(i)) {
            ProgressView::Continue(procedure) => procedure.accepts(#[trigger] events[i]),
            _ => true,
        }
}

/// When every action succeeds, the actions come in their fixed order, and what is opened is an
/// open session with the requested size, the identifier of the procedure and the launched process,
/// and with its full input allowance.
pub proof fn law_spawn_succeeds(start: SpawnView, pid: u32)
    requires
        start.stage == SpawnStage::OpeningPty,
        acceptable_size(start.cols, start.rows),
    ensures
        ({
            let done = SpawnEventView::Completed(Ok(()));
            let launched = SpawnEventView::Launched(Ok(Some(pid)));
            let events = seq![done, done, done, done, launched, done, done];
            spawn_run(start, events) == ProgressView::Opened(
                SessionView::opened(start.id, pid, start.cols, start.rows),
            )
        }),
{
    let done = SpawnEventView::Completed(Ok(()));
    let launched = SpawnEventView::Launched(Ok(Some(pid)));
    let events = seq![done, done, done, done, launched, done, done];
    assert(events.drop_last() =~= seq![done, done, done, done, launched, done]);
    assert(events.drop_last().drop_last() =~= seq![done, done, done, done, launched]);
    assert(seq![done, done, done, done, launched].drop_last() =~= seq![done, done, done, done]);
    assert(seq![done, done, done, done].drop_last() =~= seq![done, done, done]);
    assert(seq![done, done, done].drop_last() =~= seq![done, done]);
    assert(seq![done, done].drop_last() =~= seq![done]);
    assert(seq![done].drop_last() =~= Seq::<SpawnEventView>::empty());
    reveal_with_fuel(spawn_run, 8);
}

/// No session is ever opened with an unacceptable size, under another identifier, with another
/// size than requested, or closed, whatever the outcomes of the actions are.
pub proof fn law_spawn_is_sound(start: SpawnView, events: Seq<SpawnEventView>)
    requires
        start.stage == SpawnStage::OpeningPty,
        spawn_accepts(start, events),
    ensures
        spawn_run(start, events) matches ProgressView::Opened(session) ==> {
            &&& acceptable_size(start.cols, start.rows)
            &&& session == SessionView::opened(start.id, session.pid, start.cols, start.rows)
            &&& session.valid()
            &&& events.contains(SpawnEventView::Launched(Ok(Some(session.pid))))
        },
{
    lemma_spawn_run(start, events);
}

/// A procedure that is under way is the one that was started, and any process that it holds was
/// reported by a launch.
spec fn spawn_on_track(start: SpawnView, events: Seq<SpawnEventView>) -> bool {
    match spawn_run(start, events) {
        ProgressView::Continue(procedure) => {
            &&& procedure == start.at(procedure.stage)
            &&& procedure.valid()
            &&& match procedure.stage {
                SpawnStage::DuplicatingMaster { pid } => events.contains(
                    SpawnEventView::Launched(Ok(Some(pid))),
                ),
                SpawnStage::RegisteringMaster { pid } => events.contains(
                    SpawnEventView::Launched(Ok(Some(pid))),
                ),
                _ => true,
            }
        },
        ProgressView::Opened(session) => {
            &&& acceptable_size(start.cols, start.rows)
            &&& session == SessionView::opened(start.id, session.pid, start.cols, start.rows)
            &&& events.contains(SpawnEventView::Launched(Ok(Some(session.pid))))
        },
        ProgressView::Failed(_) => true,
    }
}

proof fn lemma_spawn_run(start: SpawnView, events: Seq<SpawnEventView>)
    requires
        start.stage == SpawnStage::OpeningPty,
        spawn_accepts(start, events),
    ensures
        spawn_on_track(start, events),
    decreases events.len(),
{
    if events.len() > 0 {
        let earlier = events.drop_last();
        assert forall|i: int| 0 <= i < earlier.len() implies match spawn_run(
            start,
            earlier.take(i),
        ) {
            ProgressView::Continue(procedure) => procedure.accepts(#[trigger] earlier[i]),
            _ => true,
        } by {
            assert(earlier.take(i) =~= events.take(i));
            assert(earlier[i] == events[i]);
        }
        lemma_spawn_run(start, earlier);
        assert(events.take(events.len() - 1) =~= earlier);
        assert(events[events.len() - 1] == events.last());
        assert forall|event: SpawnEventView| earlier.contains(event) implies events.contains(event) by {
            let i = choose|i: int| 0 <= i < earlier.len() && earlier[i] == event;
            assert(events[i] == event);
        }
        assert(events.contains(events.last()));
    }
}

/// The first action that fails ends the procedure with its error, which names the cause.
pub proof fn law_spawn_failure_is_reported(procedure: SpawnView, cause: Seq<char>)
    ensures
        procedure.next(SpawnEventView::Completed(Err(cause))) == ProgressView::Failed(
            procedure.failure(cause),
        ),
        procedure.next(SpawnEventView::Launched(Err(cause))) == ProgressView::Failed(
            procedure.failure(cause),
        ),
        procedure.failure(cause) == ErrorView::PtyAllocation(cause) || procedure.failure(cause)
            == ErrorView::SpawnFailed(cause),
{
}

/// The stages in their order, by number.
spec fn stage_number(stage: SpawnStage) -> int {
    match stage {
        SpawnStage::OpeningPty => 0,
        SpawnStage::SettingNonblocking => 1,
        SpawnStage::SettingWindowSize => 2,
        SpawnStage::CloningSlave => 3,
        SpawnStage::Launching => 4,
        SpawnStage::DuplicatingMaster { .. } => 5,
        SpawnStage::RegisteringMaster { .. } => 6,
    }
}

proof fn lemma_spawn_position(start: SpawnView, events: Seq<SpawnEventView>)
    requires
        start.stage == SpawnStage::OpeningPty,
        spawn_accepts(start, events),
    ensures
        spawn_run(start, events) matches ProgressView::Continue(procedure) ==> procedure == start.at(
            procedure.stage,
        ) && stage_number(procedure.stage) == events.len(),
    decreases events.len(),
{
    if events.len() > 0 {
        let earlier = events.drop_last();
        assert forall|i: int| 0 <= i < earlier.len() implies match spawn_run(
            start,
            earlier.take(i),
        ) {
            ProgressView::Continue(procedure) => procedure.accepts(#[trigger] earlier[i]),
            _ => true,
        } by {
            assert(earlier.take(i) =~= events.take(i));
            assert(earlier[i] == events[i]);
        }
        lemma_spawn_position(start, earlier);
        assert(events.take(events.len() - 1) =~= earlier);
        assert(events[events.len() - 1] == events.last());
    }
}

/// As long as opening a session goes on, its actions come in one order: the PTY is allocated and
/// made non-blocking, is given exactly the columns and rows that were asked for, and has its slave
/// cloned; then exactly the shell that was asked for is launched, with the type and the colours of
/// the terminal in its environment; then the master is duplicated and registered.
pub proof fn law_spawn_actions(start: SpawnView, events: Seq<SpawnEventView>)
    requires
        start.stage == SpawnStage::OpeningPty,
        spawn_accepts(start, events),
    ensures
        spawn_run(start, events) matches ProgressView::Continue(procedure) ==> {
            &&& events.len() < 7
            &&& events.len() == 0 ==> procedure.pending() == SpawnActionView::OpenPty
            &&& events.len() == 1 ==> procedure.pending() == SpawnActionView::SetNonblocking
            &&& events.len() == 2 ==> procedure.pending() == SpawnActionView::SetWindowSize(
                WindowSize { rows: start.rows, cols: start.cols, xpixel: 0, ypixel: 0 },
            )
            &&& events.len() == 3 ==> procedure.pending() == SpawnActionView::CloneSlave
            &&& events.len() == 4 ==> procedure.pending() == (SpawnActionView::Launch {
                program: start.shell,
                environment: seq![("TERM"@, "xterm-256color"@), ("COLORTERM"@, "truecolor"@)],
            })
            &&& events.len() == 5 ==> procedure.pending() == SpawnActionView::DuplicateMaster
            &&& events.len() == 6 ==> procedure.pending() == SpawnActionView::RegisterMaster
        },
{
    lemma_spawn_position(start, events);
}

/// Each action but the last is followed by the next one when it succeeds: opening a session with an
/// acceptable size goes on until all seven actions are done.
pub proof fn law_spawn_goes_on(start: SpawnView, pid: u32, count: nat)
    requires
        start.stage == SpawnStage::OpeningPty,
        1 <= start.cols <= 1000,
        1 <= start.rows <= 500,
        count <= 7,
    ensures
        ({
            let events = Seq::new(
                count,
                |i: int|
                    if i == 4 {
                        SpawnEventView::Launched(Ok(Some(pid)))
                    } else {
                        SpawnEventView::Completed(Ok(()))
                    },
            );
            &&& spawn_accepts(start, events)
            &&& spawn_run(start, events) is Continue <==> count < 7
            &&& spawn_run(start, events) is Opened <==> count == 7
        }),
    decreases count,
{
    lemma_spawn_goes_on(start, pid, count);
}

proof fn lemma_spawn_goes_on(start: SpawnView, pid: u32, count: nat)
    requires
        start.stage == SpawnStage::OpeningPty,
        1 <= start.cols <= 1000,
        1 <= start.rows <= 500,
        count <= 7,
    ensures
        ({
            let events = Seq::new(
                count,
                |i: int|
                    if i == 4 {
                        SpawnEventView::Launched(Ok(Some(pid)))
                    } else {
                        SpawnEventView::Completed(Ok(()))
                    },
            );
            &&& spawn_accepts(start, events)
            &&& count < 7 ==> (spawn_run(start, events) matches ProgressView::Continue(procedure)
                && procedure == start.at(procedure.stage) && stage_number(procedure.stage) == count)
            &&& count == 7 ==> spawn_run(start, events) is Opened
        }),
    decreases count,
{
    let outcome = |i: int|
        if i == 4 {
            SpawnEventView::Launched(Ok(Some(pid)))
        } else {
            SpawnEventView::Completed(Ok(()))
        };
    let events = Seq::new(count, outcome);
    if count > 0 {
        let fewer = (count - 1) as nat;
        lemma_spawn_goes_on(start, pid, fewer);
        let earlier = Seq::new(fewer, outcome);
        assert(events.drop_last() =~= earlier);
        assert forall|i: int| 0 <= i < events.len() implies match spawn_run(start, events.take(i)) {
            ProgressView::Continue(procedure) => procedure.accepts(#[trigger] events[i]),
            _ => true,
        } by {
            if i < fewer {
                assert(earlier.take(i) =~= events.take(i));
                assert(earlier[i] == events[i]);
            } else {
                assert(events.take(i) =~= earlier);
            }
        }
    }
}

/// A size that is not from 1 to 1000 columns and from 1 to 500 rows ends the procedure, before it is
/// applied, with an error that names it.
pub proof fn law_spawn_refuses_size(start: SpawnView)
    requires
        start.stage == SpawnStage::OpeningPty,
        start.cols == 0 || start.rows == 0 || start.cols > 1000 || start.rows > 500,
    ensures
        spawn_run(
            start,
            seq![SpawnEventView::Completed(Ok(())), SpawnEventView::Completed(Ok(()))],
        ) == ProgressView::Failed(
            ErrorView::InvalidSize { cols: start.cols, rows: start.rows },
        ),
{
    let done = SpawnEventView::Completed(Ok(()));
    assert(seq![done, done].drop_last() =~= seq![done]);
    assert(seq![done].drop_last() =~= Seq::<SpawnEventView>::empty());
    reveal_with_fuel(spawn_run, 3);
}

/// A failed action ends the procedure with the whole cause: failing to allocate, to set up, to size
/// or to duplicate the PTY is an allocation error, failing to clone its slave, to launch the shell or
/// to register the master a spawning error. So is a shell without a process ID.
pub proof fn law_spawn_failures(procedure: SpawnView, cause: Seq<char>)
    ensures
        ({
            let failed = procedure.next(SpawnEventView::Completed(Err(cause)));
            &&& procedure.pending() is OpenPty || procedure.pending() is SetNonblocking
                || procedure.pending() is SetWindowSize || procedure.pending() is DuplicateMaster
                ==> failed == ProgressView::Failed(ErrorView::PtyAllocation(cause))
            &&& procedure.pending() is CloneSlave || procedure.pending() is RegisterMaster
                ==> failed == ProgressView::Failed(ErrorView::SpawnFailed(cause))
        }),
        procedure.pending() is Launch ==> procedure.next(SpawnEventView::Launched(Err(cause)))
            == ProgressView::Failed(ErrorView::SpawnFailed(cause)),
        procedure.next(SpawnEventView::Launched(Ok(None))) == ProgressView::Failed(
            ErrorView::SpawnFailed("Failed to get child PID"@),
        ),
{
}

/// The outcome of a launch is taken while a launch is under way, and any other outcome otherwise.
pub proof fn law_spawn_outcomes(procedure: SpawnView, event: SpawnEventView)
    ensures
        procedure.accepts(event) <==> (procedure.pending() is Launch <==> event is Launched),
{
}

/// What is said of actions, outcomes and progress is said of exactly what they hold.
pub proof fn law_spawn_views(action: SpawnAction, event: SpawnEvent, progress: SpawnProgress)
    ensures
        match action {
            SpawnAction::OpenPty => action@ == SpawnActionView::OpenPty,
            SpawnAction::SetNonblocking => action@ == SpawnActionView::SetNonblocking,
            SpawnAction::SetWindowSize(size) => action@ == SpawnActionView::SetWindowSize(size),
            SpawnAction::CloneSlave => action@ == SpawnActionView::CloneSlave,
            SpawnAction::Launch { program, environment } => {
                &&& action@ is Launch
                &&& action@->program == program@
                &&& action@->environment.len() == environment@.len()
                &&& forall|i: int|
                    0 <= i < environment@.len() ==> (#[trigger] action@->environment[i]).0
                        == environment@[i].0@ && action@->environment[i].1 == environment@[i].1@
            },
            SpawnAction::DuplicateMaster => action@ == SpawnActionView::DuplicateMaster,
            SpawnAction::RegisterMaster => action@ == SpawnActionView::RegisterMaster,
        },
        match event {
            SpawnEvent::Completed(Ok(_)) => event@ == SpawnEventView::Completed(Ok(())),
            SpawnEvent::Completed(Err(cause)) => event@ == SpawnEventView::Completed(Err(cause@)),
            SpawnEvent::Launched(Ok(pid)) => event@ == SpawnEventView::Launched(Ok(pid)),
            SpawnEvent::Launched(Err(cause)) => event@ == SpawnEventView::Launched(Err(cause@)),
        },
        match progress {
            SpawnProgress::Continue(procedure) => progress@ == ProgressView::Continue(procedure@),
            SpawnProgress::Finished(Ok(session)) => progress@ == ProgressView::Opened(session@),
            SpawnProgress::Finished(Err(error)) => progress@ == ProgressView::Failed(error@),
        },
{
}

/// The shell is `/bin/bash` unless another one is asked for.
pub proof fn law_default_shell()
    ensures
        DEFAULT_SHELL@ == "/bin/bash"@,
{
}

} // verus!
