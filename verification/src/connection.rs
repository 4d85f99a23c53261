//! One terminal WebSocket connection: what is done on each message and each outcome.
//!
//! A [`TerminalConnection`] goes from the first frame to the end of the connection. Each step takes
//! what the last action came to and gives the next action.

use crate::encoding::base64_bytes;
use crate::error::{unit_result, ErrorView, TerminalError, TerminalResult};
use crate::message::{optional_text, MessageView, TerminalMessage};
use crate::text::joined;
use vstd::prelude::*;

verus! {

/// A frame from the client, its text already parsed.
#[derive(Debug)]
pub enum Incoming {
    /// A text frame that holds this message.
    Text(TerminalMessage),
    /// A text frame that is not a message, for this reason.
    Malformed(String),
    /// A binary frame.
    Binary(Vec<u8>),
    /// A ping frame.
    Ping(Vec<u8>),
    /// A pong frame.
    Pong(Vec<u8>),
    /// A close frame.
    Close,
    /// Receiving failed.
    Failed,
    /// There are no more frames.
    Ended,
}

/// What an action of a connection came to.
#[derive(Debug)]
pub enum ConnectionEvent {
    /// A frame was received.
    Received(Incoming),
    /// A session was created, with this ID, or could not be, for this reason.
    Created(Result<String, String>),
    /// Whether the message could be sent.
    Sent(bool),
    /// The input was written to the session, or could not be.
    Written(TerminalResult<()>),
    /// The session was closed, or could not be.
    Closed(TerminalResult<Option<i32>>),
    /// The action is done; what it came to does not matter.
    Done,
}

/// What a connection does next.
#[derive(Debug)]
pub enum ConnectionAction {
    /// Wait for the next frame.
    Receive,
    /// Create a session.
    CreateSession { shell: Option<String>, cols: u16, rows: u16 },
    /// Send this message as a text frame.
    Send(TerminalMessage),
    /// Send a pong frame with this payload.
    SendPong(Vec<u8>),
    /// Write these bytes to the session.
    Write(Vec<u8>),
    /// Resize the session.
    Resize { cols: u16, rows: u16 },
    /// Start the task that carries the output of the session to the client.
    StartReader,
    /// Stop that task.
    AbortReader,
    /// Close the session.
    CloseSession,
    /// Remove the session with this ID from the manager.
    RemoveSession(String),
    /// Close the socket.
    CloseSocket,
    /// The connection is over.
    Stop,
}

/// Stages of a connection, by the action that is under way.
#[derive(Debug, Clone, Copy, PartialEq, Eq, Structural)]
pub enum ConnectionStage {
    /// Waiting for the first frame.
    AwaitingInit,
    /// Telling the client why there is no session.
    Rejecting,
    /// Creating the session.
    Creating,
    /// Telling the client that the session is ready.
    Announcing,
    /// Closing a session that could not be announced.
    Abandoning,
    /// Removing a session that could not be announced.
    Discarding,
    /// Starting the reader task.
    Starting,
    /// Waiting for a frame.
    Running,
    /// Writing input; `report` says whether the client is told of rate limiting.
    Writing { report: bool },
    /// Answering the client with a message.
    Replying,
    /// Doing something else that the client asked for.
    Acting,
    /// Stopping the reader task.
    Aborting,
    /// Closing the session.
    Closing,
    /// Removing the session, which has ended with this exit code.
    Removing { exit_code: Option<i32> },
    /// Telling the client that the session is closed.
    Reporting,
    /// Closing the socket.
    Disconnecting,
    /// The connection is over.
    Stopped,
}

/// A terminal WebSocket connection.
#[derive(Debug)]
pub struct TerminalConnection {
    stage: ConnectionStage,
    session_id: Option<String>,
}

/// The mathematical content of an [`Incoming`] frame.
pub enum IncomingView {
    Text(MessageView),
    Malformed(Seq<char>),
    Binary(Seq<u8>),
    Ping(Seq<u8>),
    Pong(Seq<u8>),
    Close,
    Failed,
    Ended,
}

/// The mathematical content of a [`ConnectionEvent`].
pub enum EventView {
    Received(IncomingView),
    Created(Result<Seq<char>, Seq<char>>),
    Sent(bool),
    Written(Result<(), ErrorView>),
    Closed(Result<Option<i32>, ErrorView>),
    Done,
}

/// The mathematical content of a [`ConnectionAction`].
pub enum ActionView {
    Receive,
    CreateSession { shell: Option<Seq<char>>, cols: u16, rows: u16 },
    Send(MessageView),
    SendPong(Seq<u8>),
    Write(Seq<u8>),
    Resize { cols: u16, rows: u16 },
    StartReader,
    AbortReader,
    CloseSession,
    RemoveSession(Seq<char>),
    CloseSocket,
    Stop,
}

/// The mathematical state of a [`TerminalConnection`].
pub struct ConnectionView {
    pub stage: ConnectionStage,
    pub session: Option<Seq<char>>,
}

impl View for Incoming {
    type V = IncomingView;

    open spec fn view(&self) -> IncomingView {
        match *self {
            Incoming::Text(message) => IncomingView::Text(message@),
            Incoming::Malformed(cause) => IncomingView::Malformed(cause@),
            Incoming::Binary(data) => IncomingView::Binary(data@),
            Incoming::Ping(data) => IncomingView::Ping(data@),
            Incoming::Pong(data) => IncomingView::Pong(data@),
            Incoming::Close => IncomingView::Close,
            Incoming::Failed => IncomingView::Failed,
            Incoming::Ended => IncomingView::Ended,
        }
    }
}

impl View for ConnectionEvent {
    type V = EventView;

    open spec fn view(&self) -> EventView {
        match *self {
            ConnectionEvent::Received(frame) => EventView::Received(frame@),
            ConnectionEvent::Created(Ok(id)) => EventView::Created(Ok(id@)),
            ConnectionEvent::Created(Err(cause)) => EventView::Created(Err(cause@)),
            ConnectionEvent::Sent(sent) => EventView::Sent(sent),
            ConnectionEvent::Written(result) => EventView::Written(unit_result(result)),
            ConnectionEvent::Closed(Ok(exit_code)) => EventView::Closed(Ok(exit_code)),
            ConnectionEvent::Closed(Err(error)) => EventView::Closed(Err(error@)),
            ConnectionEvent::Done => EventView::Done,
        }
    }
}

impl View for ConnectionAction {
    type V = ActionView;

    open spec fn view(&self) -> ActionView {
        match *self {
            ConnectionAction::Receive => ActionView::Receive,
            ConnectionAction::CreateSession { shell, cols, rows } => ActionView::CreateSession {
                shell: optional_text(shell),
                cols,
                rows,
            },
            ConnectionAction::Send(message) => ActionView::Send(message@),
            ConnectionAction::SendPong(data) => ActionView::SendPong(data@),
            ConnectionAction::Write(data) => ActionView::Write(data@),
            ConnectionAction::Resize { cols, rows } => ActionView::Resize { cols, rows },
            ConnectionAction::StartReader => ActionView::StartReader,
            ConnectionAction::AbortReader => ActionView::AbortReader,
            ConnectionAction::CloseSession => ActionView::CloseSession,
            ConnectionAction::RemoveSession(id) => ActionView::RemoveSession(id@),
            ConnectionAction::CloseSocket => ActionView::CloseSocket,
            ConnectionAction::Stop => ActionView::Stop,
        }
    }
}

impl View for TerminalConnection {
    type V = ConnectionView;

    closed spec fn view(&self) -> ConnectionView {
        ConnectionView { stage: self.stage, session: optional_text(self.session_id) }
    }
}

/// An error message with this text.
pub open spec fn error_message(text: Seq<char>) -> MessageView {
    MessageView::Error { message: text }
}

/// The exit code to report when closing the session came to `result`.
pub open spec fn reported_code(result: Result<Option<i32>, ErrorView>) -> Option<i32> {
    match result {
        Ok(exit_code) => exit_code,
        Err(_) => None,
    }
}

/// The bytes that a frame puts into the session, if any.
pub open spec fn frame_input(frame: IncomingView) -> Option<Seq<u8>> {
    match frame {
        IncomingView::Text(message) => message.input_bytes(),
        IncomingView::Binary(data) => Some(data),
        _ => None,
    }
}

impl ConnectionView {
    /// A new connection.
    pub open spec fn initial() -> ConnectionView {
        ConnectionView { stage: ConnectionStage::AwaitingInit, session: None }
    }

    /// The connection holds a session exactly from its creation to its removal.
    pub open spec fn valid(self) -> bool {
        self.session is Some <==> match self.stage {
            ConnectionStage::AwaitingInit
            | ConnectionStage::Rejecting
            | ConnectionStage::Creating
            | ConnectionStage::Reporting
            | ConnectionStage::Disconnecting
            | ConnectionStage::Stopped => false,
            _ => true,
        }
    }

    /// `event` is an outcome of the action that is under way.
    pub open spec fn accepts(self, event: EventView) -> bool {
        match self.stage {
            ConnectionStage::AwaitingInit | ConnectionStage::Running => event is Received,
            ConnectionStage::Rejecting
            | ConnectionStage::Announcing
            | ConnectionStage::Replying
            | ConnectionStage::Reporting => event is Sent,
            ConnectionStage::Creating => event is Created,
            ConnectionStage::Writing { .. } => event is Written,
            ConnectionStage::Abandoning | ConnectionStage::Closing => event is Closed,
            ConnectionStage::Stopped => false,
            _ => event is Done,
        }
    }

    /// The connection at another stage.
    pub open spec fn at(self, stage: ConnectionStage) -> ConnectionView {
        ConnectionView { stage, ..self }
    }

    /// What the first frame leads to: only an init message opens a session.
    pub open spec fn on_first_frame(self, frame: IncomingView) -> (ConnectionView, ActionView) {
        match frame {
            IncomingView::Text(MessageView::Init { shell, cols, rows }) => (
                self.at(ConnectionStage::Creating),
                ActionView::CreateSession { shell, cols, rows },
            ),
            IncomingView::Text(_) => (
                self.at(ConnectionStage::Rejecting),
                ActionView::Send(error_message("Expected Init message"@)),
            ),
            IncomingView::Malformed(cause) => (
                self.at(ConnectionStage::Rejecting),
                ActionView::Send(error_message("Invalid message: "@ + cause)),
            ),
            _ => (self.at(ConnectionStage::Stopped), ActionView::Stop),
        }
    }

    /// What a frame leads to while the session is running.
    pub open spec fn on_frame(self, frame: IncomingView) -> (ConnectionView, ActionView) {
        match frame {
            IncomingView::Text(MessageView::Input { .. }) => match frame_input(frame) {
                Some(bytes) => (
                    self.at(ConnectionStage::Writing { report: true }),
                    ActionView::Write(bytes),
                ),
                None => (self, ActionView::Receive),
            },
            IncomingView::Text(MessageView::Resize { cols, rows }) => (
                self.at(ConnectionStage::Acting),
                ActionView::Resize { cols, rows },
            ),
            IncomingView::Text(MessageView::Ping) => (
                self.at(ConnectionStage::Replying),
                ActionView::Send(MessageView::Pong),
            ),
            IncomingView::Binary(data) => (
                self.at(ConnectionStage::Writing { report: false }),
                ActionView::Write(data),
            ),
            IncomingView::Ping(data) => (
                self.at(ConnectionStage::Acting),
                ActionView::SendPong(data),
            ),
            IncomingView::Text(MessageView::Close)
            | IncomingView::Close
            | IncomingView::Failed
            | IncomingView::Ended => (
                self.at(ConnectionStage::Aborting),
                ActionView::AbortReader,
            ),
            _ => (self, ActionView::Receive),
        }
    }

    /// The next state and action when the action that is under way came to `event`.
    pub open spec fn next(self, event: EventView) -> (ConnectionView, ActionView) {
        match (self.stage, event) {
            (ConnectionStage::AwaitingInit, EventView::Received(frame)) => self.on_first_frame(
                frame,
            ),
            (ConnectionStage::Creating, EventView::Created(Ok(id))) => (
                ConnectionView { stage: ConnectionStage::Announcing, session: Some(id) },
                ActionView::Send(MessageView::Ready { session_id: id }),
            ),
            (ConnectionStage::Creating, EventView::Created(Err(cause))) => (
                self.at(ConnectionStage::Rejecting),
                ActionView::Send(error_message("Failed to create session: "@ + cause)),
            ),
            (ConnectionStage::Announcing, EventView::Sent(true)) => (
                self.at(ConnectionStage::Starting),
                ActionView::StartReader,
            ),
            (ConnectionStage::Announcing, _) => (
                self.at(ConnectionStage::Abandoning),
                ActionView::CloseSession,
            ),
            (ConnectionStage::Abandoning, _) => (
                self.at(ConnectionStage::Discarding),
                ActionView::RemoveSession(self.session->0),
            ),
            (ConnectionStage::Running, EventView::Received(frame)) => self.on_frame(frame),
            (
                ConnectionStage::Writing { report: true },
                EventView::Written(Err(ErrorView::RateLimited(_))),
            ) => (
                self.at(ConnectionStage::Replying),
                ActionView::Send(error_message("Rate limited"@)),
            ),
            (ConnectionStage::Aborting, _) => (
                self.at(ConnectionStage::Closing),
                ActionView::CloseSession,
            ),
            (ConnectionStage::Closing, EventView::Closed(result)) => (
                self.at(ConnectionStage::Removing { exit_code: reported_code(result) }),
                ActionView::RemoveSession(self.session->0),
            ),
            (ConnectionStage::Removing { exit_code }, _) => (
                ConnectionView { stage: ConnectionStage::Reporting, session: None },
                ActionView::Send(MessageView::Closed { exit_code }),
            ),
            (ConnectionStage::Reporting, _) => (
                self.at(ConnectionStage::Disconnecting),
                ActionView::CloseSocket,
            ),
            (ConnectionStage::Starting, _)
            | (ConnectionStage::Writing { .. }, _)
            | (ConnectionStage::Replying, _)
            | (ConnectionStage::Acting, _) => (
                self.at(ConnectionStage::Running),
                ActionView::Receive,
            ),
            _ => (
                ConnectionView { stage: ConnectionStage::Stopped, session: None },
                ActionView::Stop,
            ),
        }
    }
}

impl TerminalConnection {
    /// The connection holds a session exactly from its creation to its removal.
    #[verifier::type_invariant]
    spec fn holds_session_in_time(self) -> bool {
        self@.valid()
    }

    /// A new connection, which waits for its first frame.
    pub fn new() -> (connection: Self)
        ensures
            connection@ == ConnectionView::initial(),
    {
        TerminalConnection { stage: ConnectionStage::AwaitingInit, session_id: None }
    }

    /// Whether `event` is an outcome of the action that is under way.
    pub fn accepts(&self, event: &ConnectionEvent) -> (accepted: bool)
        ensures
            accepted == self@.accepts(event@),
    {
        match (self.stage, event) {
            (ConnectionStage::AwaitingInit, ConnectionEvent::Received(_)) => true,
            (ConnectionStage::Running, ConnectionEvent::Received(_)) => true,
            (ConnectionStage::Rejecting, ConnectionEvent::Sent(_)) => true,
            (ConnectionStage::Announcing, ConnectionEvent::Sent(_)) => true,
            (ConnectionStage::Replying, ConnectionEvent::Sent(_)) => true,
            (ConnectionStage::Reporting, ConnectionEvent::Sent(_)) => true,
            (ConnectionStage::Creating, ConnectionEvent::Created(_)) => true,
            (ConnectionStage::Writing { report: _ }, ConnectionEvent::Written(_)) => true,
            (ConnectionStage::Abandoning, ConnectionEvent::Closed(_)) => true,
            (ConnectionStage::Closing, ConnectionEvent::Closed(_)) => true,
            (ConnectionStage::Discarding, ConnectionEvent::Done) => true,
            (ConnectionStage::Starting, ConnectionEvent::Done) => true,
            (ConnectionStage::Acting, ConnectionEvent::Done) => true,
            (ConnectionStage::Aborting, ConnectionEvent::Done) => true,
            (ConnectionStage::Removing { exit_code: _ }, ConnectionEvent::Done) => true,
            (ConnectionStage::Disconnecting, ConnectionEvent::Done) => true,
            _ => false,
        }
    }

    /// Go to another stage, with the session as it is.
    fn go_to(&mut self, stage: ConnectionStage)
        requires
            old(self)@.at(stage).valid(),
        ensures
            final(self)@ == old(self)@.at(stage),
    {
        self.stage = stage;
    }

    /// The ID of the session that the connection holds.
    fn held_id(&self) -> (id: String)
        requires
            self@.session is Some,
        ensures
            self@.session == Some(id@),
    {
        match &self.session_id {
            Some(id) => id.clone(),
            None => String::new(),
        }
    }

    /// Take in the first frame.
    fn on_first_frame(&mut self, frame: Incoming) -> (action: ConnectionAction)
        requires
            old(self)@.stage is AwaitingInit,
        ensures
            (final(self)@, action@) == old(self)@.on_first_frame(frame@),
    {
        proof {
            use_type_invariant(&*self);
        }
        match frame {
            Incoming::Text(TerminalMessage::Init { shell, cols, rows }) => {
                self.go_to(ConnectionStage::Creating);
                ConnectionAction::CreateSession { shell, cols, rows }
            },
            Incoming::Text(_) => {
                self.go_to(ConnectionStage::Rejecting);
                ConnectionAction::Send(TerminalMessage::error("Expected Init message"))
            },
            Incoming::Malformed(cause) => {
                self.go_to(ConnectionStage::Rejecting);
                ConnectionAction::Send(
                    TerminalMessage::error(joined("Invalid message: ", &cause)),
                )
            },
            _ => {
                self.go_to(ConnectionStage::Stopped);
                ConnectionAction::Stop
            },
        }
    }

    /// Take in a frame while the session is running.
    fn on_frame(&mut self, frame: Incoming) -> (action: ConnectionAction)
        requires
            old(self)@.stage is Running,
        ensures
            (final(self)@, action@) == old(self)@.on_frame(frame@),
    {
        proof {
            use_type_invariant(&*self);
        }
        match frame {
            Incoming::Text(message) => match message {
                TerminalMessage::Input { data: _ } => match message.decode_input() {
                    Some(bytes) => {
                        self.go_to(ConnectionStage::Writing { report: true });
                        ConnectionAction::Write(bytes)
                    },
                    None => ConnectionAction::Receive,
                },
                TerminalMessage::Resize { cols, rows } => {
                    self.go_to(ConnectionStage::Acting);
                    ConnectionAction::Resize { cols, rows }
                },
                TerminalMessage::Ping => {
                    self.go_to(ConnectionStage::Replying);
                    ConnectionAction::Send(TerminalMessage::Pong)
                },
                // Client requested close
                TerminalMessage::Close => self.leave(),
                // Ignore other message types
                _ => ConnectionAction::Receive,
            },
            Incoming::Binary(data) => {
                // Treat binary messages as raw input
                self.go_to(ConnectionStage::Writing { report: false });
                ConnectionAction::Write(data)
            },
            Incoming::Ping(data) => {
                self.go_to(ConnectionStage::Acting);
                ConnectionAction::SendPong(data)
            },
            Incoming::Close => self.leave(),
            Incoming::Failed => self.leave(),
            Incoming::Ended => self.leave(),
            Incoming::Malformed(_) => ConnectionAction::Receive,
            Incoming::Pong(_) => ConnectionAction::Receive,
        }
    }

    /// Begin the clean-up.
    fn leave(&mut self) -> (action: ConnectionAction)
        requires
            old(self)@.stage is Running,
        ensures
            final(self)@ == old(self)@.at(ConnectionStage::Aborting),
            action@ == ActionView::AbortReader,
    {
        proof {
            use_type_invariant(&*self);
        }
        self.go_to(ConnectionStage::Aborting);
        ConnectionAction::AbortReader
    }

    /// Handle what the action that is under way came to, and get the next action.
    pub fn step(&mut self, event: ConnectionEvent) -> (action: ConnectionAction)
        requires
            old(self)@.accepts(event@),
        ensures
            (final(self)@, action@) == old(self)@.next(event@),
            final(self)@.valid(),
    {
        proof {
            use_type_invariant(&*self);
        }
        match (self.stage, event) {
            // Wait for init message
            (ConnectionStage::AwaitingInit, ConnectionEvent::Received(frame)) => {
                let action = self.on_first_frame(frame);
                proof {
                    use_type_invariant(&*self);
                }
                action
            },
            // Send ready message
            (ConnectionStage::Creating, ConnectionEvent::Created(Ok(id))) => {
                *self = TerminalConnection {
                    stage: ConnectionStage::Announcing,
                    session_id: Some(id.clone()),
                };
                ConnectionAction::Send(TerminalMessage::ready(id))
            },
            (ConnectionStage::Creating, ConnectionEvent::Created(Err(cause))) => {
                self.go_to(ConnectionStage::Rejecting);
                ConnectionAction::Send(
                    TerminalMessage::error(joined("Failed to create session: ", &cause)),
                )
            },
            (ConnectionStage::Announcing, ConnectionEvent::Sent(true)) => {
                self.go_to(ConnectionStage::Starting);
                ConnectionAction::StartReader
            },
            (ConnectionStage::Announcing, _) => {
                self.go_to(ConnectionStage::Abandoning);
                ConnectionAction::CloseSession
            },
            (ConnectionStage::Abandoning, _) => {
                self.go_to(ConnectionStage::Discarding);
                ConnectionAction::RemoveSession(self.held_id())
            },
            // Handle incoming WebSocket messages
            (ConnectionStage::Running, ConnectionEvent::Received(frame)) => {
                let action = self.on_frame(frame);
                proof {
                    use_type_invariant(&*self);
                }
                action
            },
            (
                ConnectionStage::Writing { report: true },
                ConnectionEvent::Written(Err(TerminalError::RateLimited(_))),
            ) => {
                self.go_to(ConnectionStage::Replying);
                ConnectionAction::Send(TerminalMessage::error("Rate limited"))
            },
            // Cleanup
            (ConnectionStage::Aborting, _) => {
                self.go_to(ConnectionStage::Closing);
                ConnectionAction::CloseSession
            },
            (ConnectionStage::Closing, ConnectionEvent::Closed(result)) => {
                let exit_code = match result {
                    Ok(exit_code) => exit_code,
                    Err(_) => None,
                };
                self.go_to(ConnectionStage::Removing { exit_code });
                ConnectionAction::RemoveSession(self.held_id())
            },
            // Send closed message
            (ConnectionStage::Removing { exit_code }, _) => {
                *self = TerminalConnection { stage: ConnectionStage::Reporting, session_id: None };
                ConnectionAction::Send(TerminalMessage::closed(exit_code))
            },
            (ConnectionStage::Reporting, _) => {
                self.go_to(ConnectionStage::Disconnecting);
                ConnectionAction::CloseSocket
            },
            (ConnectionStage::Starting, _)
            | (ConnectionStage::Writing { report: _ }, _)
            | (ConnectionStage::Replying, _)
            | (ConnectionStage::Acting, _) => {
                self.go_to(ConnectionStage::Running);
                ConnectionAction::Receive
            },
            _ => {
                *self = TerminalConnection { stage: ConnectionStage::Stopped, session_id: None };
                ConnectionAction::Stop
            },
        }
    }
}

/// The state of a connection after each of `events`, in order, and the actions that they led to.
pub open spec fn connection_run(events: Seq<EventView>) -> (ConnectionView, Seq<ActionView>)
    decreases events.len(),
{
    if events.len() == 0 {
        (ConnectionView::initial(), Seq::empty())
    } else {
        let (before, actions) = connection_run(events.drop_last());
        let (after, action) = before.next(events.last());
        (after, actions.push(action))
    }
}

/// Each event is an outcome of the action that is under way when it comes.
pub open spec fn connection_accepts(events: Seq<EventView>) -> bool {
    forall|i: int|
        0 <= i < events.len() ==> connection_run(events.take(i)).0.accepts(#[trigger] events[i])
}

/// How many sessions were created.
pub open spec fn created_sessions(events: Seq<EventView>) -> nat
    decreases events.len(),
{
    if events.len() == 0 {
        0
    } else {
        created_sessions(events.drop_last()) + if events.last() matches EventView::Created(Ok(_)) {
            1nat
        } else {
            0nat
        }
    }
}

/// How often a session is closed.
pub open spec fn closings(actions: Seq<ActionView>) -> nat
    decreases actions.len(),
{
    if actions.len() == 0 {
        0
    } else {
        closings(actions.drop_last()) + if actions.last() is CloseSession {
            1nat
        } else {
            0nat
        }
    }
}

/// How often a session is removed from the manager.
pub open spec fn removals(actions: Seq<ActionView>) -> nat
    decreases actions.len(),
{
    if actions.len() == 0 {
        0
    } else {
        removals(actions.drop_last()) + if actions.last() is RemoveSession {
            1nat
        } else {
            0nat
        }
    }
}

/// The input that frames brought after the first one, in order.
pub open spec fn typed_input(events: Seq<EventView>) -> Seq<Seq<u8>>
    decreases events.len(),
{
    if events.len() <= 1 {
        Seq::empty()
    } else {
        let earlier = typed_input(events.drop_last());
        match events.last() {
            EventView::Received(frame) => match frame_input(frame) {
                Some(bytes) => earlier.push(bytes),
                None => earlier,
            },
            _ => earlier,
        }
    }
}

/// What is written to the session, in order.
pub open spec fn written_input(actions: Seq<ActionView>) -> Seq<Seq<u8>>
    decreases actions.len(),
{
    if actions.len() == 0 {
        Seq::empty()
    } else {
        let earlier = written_input(actions.drop_last());
        match actions.last() {
            ActionView::Write(bytes) => earlier.push(bytes),
            _ => earlier,
        }
    }
}

/// How many sessions a connection has created, closed and removed when it is at `stage`.
spec fn expected_counts(view: ConnectionView, created: nat, closed: nat, removed: nat) -> bool {
    match view.stage {
        ConnectionStage::AwaitingInit
        | ConnectionStage::Creating
        | ConnectionStage::Rejecting => created == 0 && closed == 0 && removed == 0,
        ConnectionStage::Abandoning | ConnectionStage::Closing => created == 1 && closed == 1
            && removed == 0,
        ConnectionStage::Discarding
        | ConnectionStage::Removing { .. }
        | ConnectionStage::Reporting
        | ConnectionStage::Disconnecting => created == 1 && closed == 1 && removed == 1,
        ConnectionStage::Stopped => created <= 1 && closed == created && removed == created,
        _ => created == 1 && closed == 0 && removed == 0,
    }
}

/// Every session that was created is remembered until it is removed, under its own identifier.
spec fn right_session(view: ConnectionView, events: Seq<EventView>, actions: Seq<ActionView>) -> bool {
    &&& forall|i: int, id: Seq<char>|
        0 <= i < events.len() && #[trigger] events[i] == #[trigger] created_event(id) ==> view.session
            == Some(id) || actions.contains(ActionView::RemoveSession(id))
    &&& view.session is Some ==> events.contains(created_event(view.session->0))
    &&& forall|j: int|
        0 <= j < actions.len() ==> ((#[trigger] actions[j]) matches ActionView::RemoveSession(id)
            ==> events.contains(created_event(id)))
}

/// The event that a session with the identifier `id` was created.
pub open spec fn created_event(id: Seq<char>) -> EventView {
    EventView::Created(Ok(id))
}

/// Events that are accepted are accepted without the last one, and the last one is accepted after
/// them.
proof fn lemma_accepts_prefix(events: Seq<EventView>)
    requires
        connection_accepts(events),
        events.len() > 0,
    ensures
        connection_accepts(events.drop_last()),
        connection_run(events.drop_last()).0.accepts(events.last()),
{
    let earlier = events.drop_last();
    assert forall|i: int| 0 <= i < earlier.len() implies connection_run(earlier.take(i)).0.accepts(
        #[trigger] earlier[i],
    ) by {
        assert(earlier.take(i) =~= events.take(i));
        assert(earlier[i] == events[i]);
    }
    assert(events.take(events.len() - 1) =~= earlier);
    assert(events[events.len() - 1] == events.last());
}

/// One step keeps the counts right.
proof fn lemma_step_counts(
    view: ConnectionView,
    event: EventView,
    created: nat,
    closed: nat,
    removed: nat,
)
    requires
        view.valid(),
        view.accepts(event),
        expected_counts(view, created, closed, removed),
    ensures
        view.next(event).0.valid(),
        !(view.next(event).0.stage is AwaitingInit),
        expected_counts(
            view.next(event).0,
            created + if event matches EventView::Created(Ok(_)) {
                1nat
            } else {
                0nat
            },
            closed + if view.next(event).1 is CloseSession {
                1nat
            } else {
                0nat
            },
            removed + if view.next(event).1 is RemoveSession {
                1nat
            } else {
                0nat
            },
        ),
{
}

proof fn lemma_run_counts(events: Seq<EventView>)
    requires
        connection_accepts(events),
    ensures
        ({
            let (view, actions) = connection_run(events);
            &&& view.valid()
            &&& view.stage is AwaitingInit <==> events.len() == 0
            &&& expected_counts(
                view,
                created_sessions(events),
                closings(actions),
                removals(actions),
            )
        }),
    decreases events.len(),
{
    if events.len() > 0 {
        let earlier = events.drop_last();
        lemma_accepts_prefix(events);
        lemma_run_counts(earlier);
        let (before, done) = connection_run(earlier);
        let action = before.next(events.last()).1;
        assert(done.push(action).drop_last() =~= done);
        lemma_step_counts(
            before,
            events.last(),
            created_sessions(earlier),
            closings(done),
            removals(done),
        );
    }
}

/// What a step does to the session: it is taken up by its creation, and given up by its removal
/// alone.
spec fn session_step(
    before: ConnectionView,
    event: EventView,
    after: ConnectionView,
    action: ActionView,
) -> bool {
    &&& forall|id: Seq<char>| event == #[trigger] created_event(id) ==> after.session == Some(id)
    &&& after.session is Some && after.session != before.session ==> event == created_event(
        after.session->0,
    )
    &&& action matches ActionView::RemoveSession(id) ==> before.session == Some(id)
    &&& before.session is Some && after.session != before.session ==> before.stage is Discarding
        || before.stage is Removing
    &&& after.stage is Discarding || after.stage is Removing ==> action
        == ActionView::RemoveSession(after.session->0)
}

proof fn lemma_step_session(view: ConnectionView, event: EventView)
    requires
        view.valid(),
        view.accepts(event),
    ensures
        session_step(view, event, view.next(event).0, view.next(event).1),
{
}

/// The session that a connection is removing has been given up to the manager.
spec fn removal_is_asked(view: ConnectionView, actions: Seq<ActionView>) -> bool {
    view.stage is Discarding || view.stage is Removing ==> actions.contains(
        ActionView::RemoveSession(view.session->0),
    )
}

proof fn lemma_extend_session(
    before: ConnectionView,
    earlier: Seq<EventView>,
    done: Seq<ActionView>,
    event: EventView,
    after: ConnectionView,
    action: ActionView,
)
    requires
        right_session(before, earlier, done),
        removal_is_asked(before, done),
        session_step(before, event, after, action),
    ensures
        right_session(after, earlier.push(event), done.push(action)),
        removal_is_asked(after, done.push(action)),
{
    let events = earlier.push(event);
    let actions = done.push(action);
    assert(events.drop_last() =~= earlier);
    assert(actions.drop_last() =~= done);
    lemma_contains_prefix(events);
    lemma_contains_prefix(actions);
    assert forall|i: int, id: Seq<char>|
        0 <= i < events.len() && #[trigger] events[i] == #[trigger] created_event(
            id,
        ) implies after.session == Some(id) || actions.contains(ActionView::RemoveSession(id)) by {
        if i < earlier.len() {
            assert(earlier[i] == created_event(id));
        }
    }
    assert forall|j: int| 0 <= j < actions.len() implies ((
    #[trigger] actions[j]) matches ActionView::RemoveSession(id) ==> events.contains(
        created_event(id),
    )) by {
        if j < done.len() {
            assert(done[j] == actions[j]);
        }
    }
}

proof fn lemma_run_session(events: Seq<EventView>)
    requires
        connection_accepts(events),
    ensures
        right_session(connection_run(events).0, events, connection_run(events).1),
        removal_is_asked(connection_run(events).0, connection_run(events).1),
    decreases events.len(),
{
    if events.len() > 0 {
        let earlier = events.drop_last();
        lemma_accepts_prefix(events);
        lemma_run_counts(earlier);
        lemma_run_session(earlier);
        let (before, done) = connection_run(earlier);
        let (after, action) = before.next(events.last());
        lemma_step_session(before, events.last());
        lemma_extend_session(before, earlier, done, events.last(), after, action);
        assert(earlier.push(events.last()) =~= events);
    }
}

/// A sequence contains what it contains without its last element, and that element.
proof fn lemma_contains_prefix<A>(all: Seq<A>)
    requires
        all.len() > 0,
    ensures
        forall|item: A| all.drop_last().contains(item) ==> all.contains(item),
        all.contains(all.last()),
{
    assert forall|item: A| all.drop_last().contains(item) implies all.contains(item) by {
        let i = choose|i: int| 0 <= i < all.drop_last().len() && all.drop_last()[i] == item;
        assert(all[i] == item);
    }
    assert(all[all.len() - 1] == all.last());
}

/// Frames are written as far as they hold input, except the first.
proof fn lemma_step_input(view: ConnectionView, event: EventView)
    requires
        view.accepts(event),
    ensures
        view.next(event).1 matches ActionView::Write(bytes) ==> !(view.stage is AwaitingInit)
            && (event matches EventView::Received(frame) && frame_input(frame) == Some(bytes)),
        !(view.stage is AwaitingInit) && (event matches EventView::Received(frame) && frame_input(
            frame,
        ) is Some) ==> view.next(event).1 is Write,
{
}

proof fn lemma_run_input(events: Seq<EventView>)
    requires
        connection_accepts(events),
    ensures
        written_input(connection_run(events).1) == typed_input(events),
    decreases events.len(),
{
    if events.len() > 0 {
        let earlier = events.drop_last();
        lemma_accepts_prefix(events);
        lemma_run_counts(earlier);
        lemma_run_input(earlier);
        let (before, done) = connection_run(earlier);
        let action = before.next(events.last()).1;
        assert(done.push(action).drop_last() =~= done);
        lemma_step_input(before, events.last());
    }
}

/// No session is left behind: when a connection is over, it has created at most one session, and
/// has closed and removed exactly what it created, whatever happened in between. What it removed
/// is what was created.
pub proof fn law_sessions_are_released(events: Seq<EventView>)
    requires
        connection_accepts(events),
        connection_run(events).0.stage is Stopped,
    ensures
        created_sessions(events) <= 1,
        closings(connection_run(events).1) == created_sessions(events),
        removals(connection_run(events).1) == created_sessions(events),
        forall|i: int, id: Seq<char>|
            0 <= i < events.len() && #[trigger] events[i] == #[trigger] created_event(id)
                ==> connection_run(events).1.contains(ActionView::RemoveSession(id)),
{
    lemma_run_counts(events);
    lemma_run_session(events);
}

/// A connection always holds the session that it created and has not removed yet, and no other; it
/// never closes a session before creating it, nor removes one before closing it.
pub proof fn law_connection_holds_its_session(events: Seq<EventView>)
    requires
        connection_accepts(events),
    ensures
        connection_run(events).0.valid(),
        connection_run(events).0.session matches Some(id) ==> events.contains(created_event(id)),
        removals(connection_run(events).1) <= closings(connection_run(events).1)
            <= created_sessions(events) <= 1,
{
    lemma_run_counts(events);
    lemma_run_session(events);
}

/// What the client types is handed to the session completely, unchanged and in order: the bytes are
/// those of the input messages and of the binary frames after the first frame.
pub proof fn law_input_arrives_in_order(events: Seq<EventView>)
    requires
        connection_accepts(events),
    ensures
        written_input(connection_run(events).1) == typed_input(events),
{
    lemma_run_input(events);
}

/// A session is created on the first frame and only there, and only if it is an init message; a
/// client that sends something else as text is told so, and then the connection is over.
pub proof fn law_init_comes_first(view: ConnectionView, event: EventView)
    requires
        view.valid(),
        view.accepts(event),
    ensures
        view.next(event).1 is CreateSession <==> view.stage is AwaitingInit
            && event matches EventView::Received(IncomingView::Text(MessageView::Init { .. })),
        view.stage is AwaitingInit ==> {
            ||| view.next(event).1 is CreateSession
            ||| view.next(event).0.stage is Rejecting
            ||| view.next(event).0.stage is Stopped
        },
        view.stage is Rejecting ==> view.next(event).1 is Stop,
{
}

/// The action sends a ready message.
pub open spec fn sends_ready(action: ActionView) -> bool {
    action matches ActionView::Send(MessageView::Ready { .. })
}

/// The action sends a closed message.
pub open spec fn sends_closed(action: ActionView) -> bool {
    action matches ActionView::Send(MessageView::Closed { .. })
}

/// A ready message is sent before position `at`.
pub open spec fn ready_before(actions: Seq<ActionView>, at: int) -> bool {
    exists|i: int| 0 <= i < at && i < actions.len() && sends_ready(#[trigger] actions[i])
}

/// The client has not been told yet that its session is ready, and may still be told.
spec fn unannounced(stage: ConnectionStage) -> bool {
    stage is AwaitingInit || stage is Creating || stage is Rejecting
}

/// The client has been told that its session is closed.
spec fn reported(stage: ConnectionStage) -> bool {
    stage is Reporting || stage is Disconnecting || stage is Stopped
}

/// What may be done at a position of `actions`, after which the connection is at `stage`: without a
/// ready message before it, nothing but that message, the creation of the session or an error
/// message that rejects the client reaches anyone.
pub open spec fn comes_in_turn(
    actions: Seq<ActionView>,
    at: int,
    stage: ConnectionStage,
) -> bool {
    ready_before(actions, at) || match actions[at] {
        ActionView::Send(MessageView::Ready { .. }) => true,
        ActionView::Send(MessageView::Error { .. }) => stage is Rejecting,
        ActionView::CreateSession { .. } | ActionView::Stop => true,
        _ => false,
    }
}

/// One step sends what is due at its stage.
proof fn lemma_step_messages(view: ConnectionView, event: EventView)
    requires
        view.valid(),
        view.accepts(event),
    ensures
        ({
            let (after, action) = view.next(event);
            &&& sends_ready(action) ==> view.stage is Creating && after.stage is Announcing
            &&& sends_closed(action) ==> view.stage is Removing && after.stage is Reporting
            &&& unannounced(view.stage) && !sends_ready(action) ==> unannounced(after.stage)
                || after.stage is Stopped
            &&& !unannounced(view.stage) ==> !unannounced(after.stage)
            &&& reported(view.stage) ==> reported(after.stage)
            &&& unannounced(view.stage) ==> comes_in_turn(seq![action], 0, after.stage)
            &&& !(view.stage is Stopped)
        }),
{
    let action = view.next(event).1;
    assert(seq![action][0] == action);
}

/// What the messages of a connection have come to when it is at `view`.
spec fn messages_so_far(view: ConnectionView, actions: Seq<ActionView>) -> bool {
    &&& unannounced(view.stage) ==> !ready_before(actions, actions.len() as int)
    &&& !unannounced(view.stage) && !(view.stage is Stopped) ==> ready_before(
        actions,
        actions.len() as int,
    )
    &&& forall|i: int|
        0 <= i < actions.len() && sends_closed(#[trigger] actions[i]) ==> reported(view.stage)
            && ready_before(actions, i)
    &&& forall|i: int, j: int|
        0 <= i < j < actions.len() ==> !(sends_ready(#[trigger] actions[i]) && sends_ready(
            #[trigger] actions[j],
        ))
    &&& forall|i: int, j: int|
        0 <= i < j < actions.len() ==> !(sends_closed(#[trigger] actions[i]) && sends_closed(
            #[trigger] actions[j],
        ))
}

/// What comes before a position is not changed by what comes after it.
proof fn lemma_ready_before_pushed(actions: Seq<ActionView>, action: ActionView, at: int)
    requires
        at <= actions.len(),
    ensures
        ready_before(actions.push(action), at) == ready_before(actions, at),
{
    let more = actions.push(action);
    if ready_before(actions, at) {
        let i = choose|i: int|
            0 <= i < at && i < actions.len() && sends_ready(#[trigger] actions[i]);
        assert(sends_ready(more[i]));
    }
    if ready_before(more, at) {
        let i = choose|i: int| 0 <= i < at && i < more.len() && sends_ready(#[trigger] more[i]);
        assert(sends_ready(actions[i]));
    }
}

proof fn lemma_extend_messages(
    before: ConnectionView,
    done: Seq<ActionView>,
    event: EventView,
)
    requires
        before.valid(),
        before.accepts(event),
        messages_so_far(before, done),
    ensures
        messages_so_far(before.next(event).0, done.push(before.next(event).1)),
        comes_in_turn(
            done.push(before.next(event).1),
            done.len() as int,
            before.next(event).0.stage,
        ),
{
    let (after, action) = before.next(event);
    let actions = done.push(action);
    let count = done.len() as int;
    lemma_step_messages(before, event);
    assert(seq![action][0] == action);
    assert(actions[count] == action);
    lemma_ready_before_pushed(done, action, count);
    if sends_ready(action) {
        assert(sends_ready(actions[count]));
        assert(ready_before(actions, count + 1));
    }
    if ready_before(done, count) {
        let i = choose|i: int| 0 <= i < count && i < done.len() && sends_ready(#[trigger] done[i]);
        assert(sends_ready(actions[i]));
        assert(ready_before(actions, count + 1));
    }
    if ready_before(actions, count + 1) && !sends_ready(action) {
        let i = choose|i: int|
            0 <= i < count + 1 && i < actions.len() && sends_ready(#[trigger] actions[i]);
        assert(sends_ready(done[i]));
        assert(ready_before(done, count));
    }
    assert(!ready_before(seq![action], 0));
    assert forall|i: int| 0 <= i < actions.len() && sends_closed(#[trigger] actions[i]) implies reported(
        after.stage,
    ) && ready_before(actions, i) by {
        if i < count {
            assert(sends_closed(done[i]));
            lemma_ready_before_pushed(done, action, i);
        }
    }
    assert forall|i: int, j: int| 0 <= i < j < actions.len() implies !(sends_ready(
        #[trigger] actions[i],
    ) && sends_ready(#[trigger] actions[j])) by {
        assert(actions[i] == done[i]);
        if j < count {
            assert(actions[j] == done[j]);
        } else if sends_ready(done[i]) {
            assert(ready_before(done, count));
        }
    }
    assert forall|i: int, j: int| 0 <= i < j < actions.len() implies !(sends_closed(
        #[trigger] actions[i],
    ) && sends_closed(#[trigger] actions[j])) by {
        assert(actions[i] == done[i]);
        if j < count {
            assert(actions[j] == done[j]);
        }
    }
}

proof fn lemma_run_messages(events: Seq<EventView>)
    requires
        connection_accepts(events),
    ensures
        connection_run(events).1.len() == events.len(),
        messages_so_far(connection_run(events).0, connection_run(events).1),
        forall|at: int|
            0 <= at < events.len() ==> #[trigger] comes_in_turn(
                connection_run(events).1,
                at,
                connection_run(events.take(at + 1)).0.stage,
            ),
    decreases events.len(),
{
    if events.len() > 0 {
        let earlier = events.drop_last();
        lemma_accepts_prefix(events);
        lemma_run_counts(earlier);
        lemma_run_messages(earlier);
        let (before, done) = connection_run(earlier);
        let (after, action) = before.next(events.last());
        lemma_extend_messages(before, done, events.last());
        let actions = done.push(action);
        assert forall|at: int| 0 <= at < events.len() implies #[trigger] comes_in_turn(
            actions,
            at,
            connection_run(events.take(at + 1)).0.stage,
        ) by {
            if at < earlier.len() {
                assert(events.take(at + 1) =~= earlier.take(at + 1));
                assert(comes_in_turn(done, at, connection_run(earlier.take(at + 1)).0.stage));
                lemma_ready_before_pushed(done, action, at);
                assert(actions[at] == done[at]);
            } else {
                assert(events.take(at + 1) =~= events);
            }
        }
    }
}

/// The client is answered in order: it is told at most once that its session is ready and at most
/// once that it is closed, the latter only after the former. Before it is told that the session is
/// ready, it gets nothing but the message that rejects it, and nothing is done but to create the
/// session.
pub proof fn law_messages_come_in_order(events: Seq<EventView>)
    requires
        connection_accepts(events),
    ensures
        ({
            let actions = connection_run(events).1;
            &&& actions.len() == events.len()
            &&& forall|i: int, j: int|
                0 <= i < j < actions.len() ==> !(sends_ready(#[trigger] actions[i]) && sends_ready(
                    #[trigger] actions[j],
                ))
            &&& forall|i: int, j: int|
                0 <= i < j < actions.len() ==> !(sends_closed(#[trigger] actions[i])
                    && sends_closed(#[trigger] actions[j]))
            &&& forall|i: int|
                0 <= i < actions.len() && sends_closed(#[trigger] actions[i]) ==> ready_before(
                    actions,
                    i,
                )
            &&& forall|at: int|
                0 <= at < actions.len() ==> #[trigger] comes_in_turn(
                    actions,
                    at,
                    connection_run(events.take(at + 1)).0.stage,
                )
        }),
{
    lemma_run_messages(events);
}

/// Keepalives are answered: a ping message with a pong message, a ping frame with a pong frame of
/// the same payload.
pub proof fn law_pings_are_answered(view: ConnectionView, data: Seq<u8>)
    requires
        view.stage is Running,
    ensures
        view.next(EventView::Received(IncomingView::Text(MessageView::Ping))).1
            == ActionView::Send(MessageView::Pong),
        view.next(EventView::Received(IncomingView::Ping(data))).1 == ActionView::SendPong(data),
{
}

/// A client whose input message was refused by the rate limiter is told so; nothing is said of
/// raw binary input, or of any other failure to write.
pub proof fn law_rate_limiting_is_reported(
    view: ConnectionView,
    message: MessageView,
    bytes: Seq<u8>,
    result: Result<(), ErrorView>,
)
    requires
        view.stage is Running,
        message.input_bytes() == Some(bytes),
    ensures
        ({
            let typed = view.next(EventView::Received(IncomingView::Text(message)));
            let raw = view.next(EventView::Received(IncomingView::Binary(bytes)));
            &&& typed.1 == ActionView::Write(bytes)
            &&& raw.1 == ActionView::Write(bytes)
            &&& typed.0.next(EventView::Written(result)).1 == if result matches Err(
                ErrorView::RateLimited(_),
            ) {
                ActionView::Send(error_message("Rate limited"@))
            } else {
                ActionView::Receive
            }
            &&& raw.0.next(EventView::Written(result)).1 is Receive
        }),
{
}

/// While a session is running, only a request to close, the end of the frames or a failure to
/// receive ends it; the connection then closes and removes the session, reports its exit code and
/// closes the socket.
pub proof fn law_connection_ends_in_order(
    view: ConnectionView,
    frame: IncomingView,
    result: Result<Option<i32>, ErrorView>,
    sent: bool,
)
    requires
        view.stage is Running,
        view.valid(),
    ensures
        ({
            let leaving = view.next(EventView::Received(frame));
            let closing = leaving.0.next(EventView::Done);
            let removing = closing.0.next(EventView::Closed(result));
            let reporting = removing.0.next(EventView::Done);
            let disconnecting = reporting.0.next(EventView::Sent(sent));
            let over = disconnecting.0.next(EventView::Done);
            &&& leaving.1 is AbortReader <==> (frame is Close || frame is Failed || frame is Ended
                || frame == IncomingView::Text(MessageView::Close))
            &&& leaving.1 is AbortReader ==> {
                &&& closing.1 is CloseSession
                &&& removing.1 == ActionView::RemoveSession(view.session->0)
                &&& reporting.1 == ActionView::Send(
                    MessageView::Closed { exit_code: reported_code(result) },
                )
                &&& disconnecting.1 is CloseSocket
                &&& over.1 is Stop
            }
        }),
{
}

/// A new connection waits for a frame and holds no session. Its first frame opens a session exactly
/// as an init message asks for it; a client that sends another message, or none, as text is told
/// what was wrong with it, and anything else ends the connection.
pub proof fn law_first_frame(
    view: ConnectionView,
    shell: Option<Seq<char>>,
    cols: u16,
    rows: u16,
    message: MessageView,
    cause: Seq<char>,
    frame: IncomingView,
)
    requires
        view.stage is AwaitingInit,
    ensures
        ConnectionView::initial().stage is AwaitingInit,
        ConnectionView::initial().session is None,
        view.next(
            EventView::Received(IncomingView::Text(MessageView::Init { shell, cols, rows })),
        ) == (
            ConnectionView { stage: ConnectionStage::Creating, session: view.session },
            ActionView::CreateSession { shell, cols, rows },
        ),
        !(message is Init) ==> view.next(EventView::Received(IncomingView::Text(message))).1
            == ActionView::Send(MessageView::Error { message: "Expected Init message"@ }),
        view.next(EventView::Received(IncomingView::Malformed(cause))).1 == ActionView::Send(
            MessageView::Error { message: "Invalid message: "@ + cause },
        ),
        !(frame is Text) && !(frame is Malformed) ==> view.next(EventView::Received(frame)).1
            == ActionView::Stop,
{
}

/// A client whose session was created is told exactly the identifier of that session, under which
/// the connection holds it from then on; one whose session could not be created is told the whole
/// cause, and then the connection is over.
pub proof fn law_created_session_is_announced(
    view: ConnectionView,
    id: Seq<char>,
    cause: Seq<char>,
    sent: bool,
)
    requires
        view.stage is Creating,
    ensures
        view.next(EventView::Created(Ok(id))).1 == ActionView::Send(
            MessageView::Ready { session_id: id },
        ),
        view.next(EventView::Created(Ok(id))).0.session == Some(id),
        view.next(EventView::Created(Ok(id))).0.stage is Announcing,
        view.next(EventView::Created(Err(cause))).1 == ActionView::Send(
            MessageView::Error { message: "Failed to create session: "@ + cause },
        ),
        view.next(EventView::Created(Err(cause))).0.next(EventView::Sent(sent)).1
            == ActionView::Stop,
{
}

/// Whatever happens to a connection, the ready message that it sends names the very session that was
/// just created.
pub proof fn law_ready_names_the_session(view: ConnectionView, event: EventView)
    requires
        view.valid(),
        view.accepts(event),
    ensures
        view.next(event).1 matches ActionView::Send(MessageView::Ready { session_id }) ==> event
            == EventView::Created(Ok(session_id)),
        event matches EventView::Created(Ok(id)) ==> view.next(event).1 == ActionView::Send(
            MessageView::Ready { session_id: id },
        ),
{
}

/// A session that was announced has its output carried to the client, and then frames are received.
/// One that could not be announced is closed and removed under its own identifier, and the connection
/// is over.
pub proof fn law_announcement(
    view: ConnectionView,
    id: Seq<char>,
    result: Result<Option<i32>, ErrorView>,
)
    requires
        view.stage is Announcing,
        view.session == Some(id),
    ensures
        ({
            let started = view.next(EventView::Sent(true));
            let waiting = started.0.next(EventView::Done);
            &&& started.1 == ActionView::StartReader
            &&& waiting.1 == ActionView::Receive
            &&& waiting.0.stage is Running
            &&& waiting.0.session == Some(id)
        }),
        ({
            let closing = view.next(EventView::Sent(false));
            let removing = closing.0.next(EventView::Closed(result));
            let over = removing.0.next(EventView::Done);
            &&& closing.1 == ActionView::CloseSession
            &&& removing.1 == ActionView::RemoveSession(id)
            &&& over.1 == ActionView::Stop
        }),
{
}

/// While a session is running, frames do exactly what they ask for: the bytes of input messages and
/// of binary frames are written, a size is passed on as it is, pings are answered, and requests to
/// close, the end of the frames and a failure to receive end the session. Everything else changes
/// nothing. After each of them the next frame is received.
pub proof fn law_running_frames(
    view: ConnectionView,
    data: Seq<char>,
    bytes: Seq<u8>,
    cols: u16,
    rows: u16,
    other: IncomingView,
    sent: bool,
)
    requires
        view.stage is Running,
    ensures
        base64_bytes(data) == Some(bytes) ==> view.next(
            EventView::Received(IncomingView::Text(MessageView::Input { data })),
        ).1 == ActionView::Write(bytes),
        base64_bytes(data) is None ==> view.next(
            EventView::Received(IncomingView::Text(MessageView::Input { data })),
        ) == (view, ActionView::Receive),
        view.next(EventView::Received(IncomingView::Binary(bytes))).1 == ActionView::Write(bytes),
        ({
            let resizing = view.next(
                EventView::Received(IncomingView::Text(MessageView::Resize { cols, rows })),
            );
            &&& resizing.1 == (ActionView::Resize { cols, rows })
            &&& resizing.0.next(EventView::Done) == (view, ActionView::Receive)
        }),
        ({
            let replying = view.next(EventView::Received(IncomingView::Text(MessageView::Ping)));
            &&& replying.1 == ActionView::Send(MessageView::Pong)
            &&& replying.0.next(EventView::Sent(sent)) == (view, ActionView::Receive)
        }),
        ({
            let replying = view.next(EventView::Received(IncomingView::Ping(bytes)));
            &&& replying.1 == ActionView::SendPong(bytes)
            &&& replying.0.next(EventView::Done) == (view, ActionView::Receive)
        }),
        other is Malformed || other is Pong || (other matches IncomingView::Text(message) && !(
        message is Input || message is Resize || message is Ping || message is Close)) ==> view.next(
            EventView::Received(other),
        ) == (view, ActionView::Receive),
        other is Close || other is Failed || other is Ended || other == IncomingView::Text(
            MessageView::Close,
        ) ==> view.next(EventView::Received(other)).1 == ActionView::AbortReader,
{
}

/// After input was written, or could not be, the connection goes on as before; only a client whose
/// input message was rate limited is told so first.
pub proof fn law_written_input(
    view: ConnectionView,
    data: Seq<char>,
    bytes: Seq<u8>,
    result: Result<(), ErrorView>,
    sent: bool,
)
    requires
        view.stage is Running,
        base64_bytes(data) == Some(bytes),
    ensures
        ({
            let typed = view.next(
                EventView::Received(IncomingView::Text(MessageView::Input { data })),
            ).0;
            let raw = view.next(EventView::Received(IncomingView::Binary(bytes))).0;
            let limited = result matches Err(ErrorView::RateLimited(_));
            &&& raw.next(EventView::Written(result)) == (view, ActionView::Receive)
            &&& !limited ==> typed.next(EventView::Written(result)) == (view, ActionView::Receive)
            &&& limited ==> {
                let told = typed.next(EventView::Written(result));
                &&& told.1 == ActionView::Send(MessageView::Error { message: "Rate limited"@ })
                &&& told.0.next(EventView::Sent(sent)) == (view, ActionView::Receive)
            }
        }),
{
}

/// A connection that ends stops carrying output, closes its session, removes exactly that session,
/// reports exactly the exit code that closing gave, closes the socket and is over.
pub proof fn law_clean_up(
    view: ConnectionView,
    id: Seq<char>,
    code: Option<i32>,
    error: ErrorView,
    sent: bool,
)
    requires
        view.stage is Running,
        view.session == Some(id),
    ensures
        ({
            let aborting = view.next(EventView::Received(IncomingView::Ended));
            let closing = aborting.0.next(EventView::Done);
            let removing = closing.0.next(EventView::Closed(Ok(code)));
            let failing = closing.0.next(EventView::Closed(Err(error)));
            let reporting = removing.0.next(EventView::Done);
            let disconnecting = reporting.0.next(EventView::Sent(sent));
            &&& aborting.1 == ActionView::AbortReader
            &&& view.next(EventView::Received(IncomingView::Close)) == aborting
            &&& view.next(EventView::Received(IncomingView::Failed)) == aborting
            &&& view.next(EventView::Received(IncomingView::Text(MessageView::Close))) == aborting
            &&& closing.1 == ActionView::CloseSession
            &&& removing.1 == ActionView::RemoveSession(id)
            &&& failing.1 == ActionView::RemoveSession(id)
            &&& reporting.1 == ActionView::Send(MessageView::Closed { exit_code: code })
            &&& failing.0.next(EventView::Done).1 == ActionView::Send(
                MessageView::Closed { exit_code: None },
            )
            &&& reporting.0.session is None
            &&& disconnecting.1 == ActionView::CloseSocket
            &&& disconnecting.0.next(EventView::Done).1 == ActionView::Stop
        }),
{
}

/// After each action exactly its outcomes are taken, and none after the connection is over.
pub proof fn law_connection_outcomes(view: ConnectionView, event: EventView, outcome: EventView)
    requires
        view.valid(),
        view.accepts(event),
    ensures
        view.next(event).0.accepts(outcome) <==> match view.next(event).1 {
            ActionView::Receive => outcome is Received,
            ActionView::CreateSession { .. } => outcome is Created,
            ActionView::Send(_) => outcome is Sent,
            ActionView::Write(_) => outcome is Written,
            ActionView::CloseSession => outcome is Closed,
            ActionView::Stop => false,
            _ => outcome is Done,
        },
        ConnectionView::initial().accepts(outcome) <==> outcome is Received,
{
}

/// What is said of frames, outcomes and actions is said of exactly what they hold.
pub proof fn law_connection_views(
    frame: Incoming,
    event: ConnectionEvent,
    action: ConnectionAction,
)
    ensures
        match frame {
            Incoming::Text(message) => frame@ == IncomingView::Text(message@),
            Incoming::Malformed(cause) => frame@ == IncomingView::Malformed(cause@),
            Incoming::Binary(data) => frame@ == IncomingView::Binary(data@),
            Incoming::Ping(data) => frame@ == IncomingView::Ping(data@),
            Incoming::Pong(data) => frame@ == IncomingView::Pong(data@),
            Incoming::Close => frame@ == IncomingView::Close,
            Incoming::Failed => frame@ == IncomingView::Failed,
            Incoming::Ended => frame@ == IncomingView::Ended,
        },
        match event {
            ConnectionEvent::Received(received) => event@ == EventView::Received(received@),
            ConnectionEvent::Created(Ok(id)) => event@ == EventView::Created(Ok(id@)),
            ConnectionEvent::Created(Err(cause)) => event@ == EventView::Created(Err(cause@)),
            ConnectionEvent::Sent(sent) => event@ == EventView::Sent(sent),
            ConnectionEvent::Written(Ok(_)) => event@ == EventView::Written(Ok(())),
            ConnectionEvent::Written(Err(error)) => event@ == EventView::Written(Err(error@)),
            ConnectionEvent::Closed(Ok(code)) => event@ == EventView::Closed(Ok(code)),
            ConnectionEvent::Closed(Err(error)) => event@ == EventView::Closed(Err(error@)),
            ConnectionEvent::Done => event@ == EventView::Done,
        },
        match action {
            ConnectionAction::Receive => action@ == ActionView::Receive,
            ConnectionAction::CreateSession { shell: Some(shell), cols, rows } => action@
                == (ActionView::CreateSession { shell: Some(shell@), cols, rows }),
            ConnectionAction::CreateSession { shell: None, cols, rows } => action@
                == (ActionView::CreateSession { shell: None, cols, rows }),
            ConnectionAction::Send(message) => action@ == ActionView::Send(message@),
            ConnectionAction::SendPong(data) => action@ == ActionView::SendPong(data@),
            ConnectionAction::Write(data) => action@ == ActionView::Write(data@),
            ConnectionAction::Resize { cols, rows } => action@ == (ActionView::Resize {
                cols,
                rows,
            }),
            ConnectionAction::StartReader => action@ == ActionView::StartReader,
            ConnectionAction::AbortReader => action@ == ActionView::AbortReader,
            ConnectionAction::CloseSession => action@ == ActionView::CloseSession,
            ConnectionAction::RemoveSession(id) => action@ == ActionView::RemoveSession(id@),
            ConnectionAction::CloseSocket => action@ == ActionView::CloseSocket,
            ConnectionAction::Stop => action@ == ActionView::Stop,
        },
{
}

} // verus!
