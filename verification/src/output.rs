//! The task that carries the output of a shell to the client.

use crate::encoding::{base64_text, encodable};
use crate::error::TerminalResult;
use crate::message::{MessageView, TerminalMessage};
use vstd::prelude::*;

verus! {

/// Milliseconds to pause when there is no output.
pub const IDLE_PAUSE_MILLIS: u64 = 10;

/// What an action of the pump came to.
#[derive(Debug)]
pub enum PumpEvent {
    /// Whether the session is closed.
    SessionClosed(bool),
    /// Reading from the session gave this.
    Read(TerminalResult<Vec<u8>>),
    /// Whether the message could be sent.
    Sent(bool),
    /// The pause is over.
    Paused,
}

/// What the pump does next.
#[derive(Debug)]
pub enum PumpAction {
    /// See whether the session is closed.
    CheckClosed,
    /// Read from the session.
    Read,
    /// Send this message to the client.
    Send(TerminalMessage),
    /// Pause for this many milliseconds.
    Pause(u64),
    /// The pump is done.
    Stop,
}

/// Stages of the pump, by the action that is under way.
#[derive(Debug, Clone, Copy, PartialEq, Eq, Structural)]
pub enum PumpStage {
    Checking,
    Reading,
    Sending,
    Pausing,
    Stopped,
}

/// Carries output from a session to the client.
#[derive(Debug)]
pub struct OutputPump {
    stage: PumpStage,
}

/// The mathematical content of a [`PumpEvent`]: why reading failed makes no difference.
pub enum PumpEventView {
    SessionClosed(bool),
    Read(Option<Seq<u8>>),
    Sent(bool),
    Paused,
}

/// The mathematical content of a [`PumpAction`].
pub enum PumpActionView {
    CheckClosed,
    Read,
    Send(MessageView),
    Pause(u64),
    Stop,
}

impl View for PumpEvent {
    type V = PumpEventView;

    open spec fn view(&self) -> PumpEventView {
        match *self {
            PumpEvent::SessionClosed(closed) => PumpEventView::SessionClosed(closed),
            PumpEvent::Read(Ok(data)) => PumpEventView::Read(Some(data@)),
            PumpEvent::Read(Err(_)) => PumpEventView::Read(None),
            PumpEvent::Sent(sent) => PumpEventView::Sent(sent),
            PumpEvent::Paused => PumpEventView::Paused,
        }
    }
}

impl View for PumpAction {
    type V = PumpActionView;

    open spec fn view(&self) -> PumpActionView {
        match *self {
            PumpAction::CheckClosed => PumpActionView::CheckClosed,
            PumpAction::Read => PumpActionView::Read,
            PumpAction::Send(message) => PumpActionView::Send(message@),
            PumpAction::Pause(millis) => PumpActionView::Pause(millis),
            PumpAction::Stop => PumpActionView::Stop,
        }
    }
}

impl View for OutputPump {
    type V = PumpStage;

    closed spec fn view(&self) -> PumpStage {
        self.stage
    }
}

/// `event` is an outcome of the action that is under way at `stage`.
pub open spec fn pump_accepts(stage: PumpStage, event: PumpEventView) -> bool {
    match stage {
        PumpStage::Checking => event is SessionClosed,
        PumpStage::Reading => event is Read,
        PumpStage::Sending => event is Sent,
        PumpStage::Pausing => event is Paused,
        PumpStage::Stopped => false,
    }
}

/// The next stage and action of the pump: what was read goes to the client, nothing read makes a
/// pause, and a closed session, a failure to read or a failure to send ends the task.
pub open spec fn pump_next(stage: PumpStage, event: PumpEventView) -> (PumpStage, PumpActionView) {
    match event {
        PumpEventView::SessionClosed(false) => (PumpStage::Reading, PumpActionView::Read),
        PumpEventView::Read(Some(data)) => if data.len() > 0 {
            (
                PumpStage::Sending,
                PumpActionView::Send(MessageView::Output { data: base64_text(data) }),
            )
        } else {
            (PumpStage::Pausing, PumpActionView::Pause(IDLE_PAUSE_MILLIS))
        },
        PumpEventView::Sent(true) | PumpEventView::Paused => (
            PumpStage::Checking,
            PumpActionView::CheckClosed,
        ),
        _ => (PumpStage::Stopped, PumpActionView::Stop),
    }
}

impl OutputPump {
    /// A new pump, which first sees whether the session is closed.
    pub fn new() -> (pump: Self)
        ensures
            pump@ == PumpStage::Checking,
    {
        OutputPump { stage: PumpStage::Checking }
    }

    /// Whether `event` is an outcome of the action that is under way.
    pub fn accepts(&self, event: &PumpEvent) -> (accepted: bool)
        ensures
            accepted == pump_accepts(self@, event@),
    {
        match (self.stage, event) {
            (PumpStage::Checking, PumpEvent::SessionClosed(_)) => true,
            (PumpStage::Reading, PumpEvent::Read(_)) => true,
            (PumpStage::Sending, PumpEvent::Sent(_)) => true,
            (PumpStage::Pausing, PumpEvent::Paused) => true,
            _ => false,
        }
    }

    /// Handle what the action that is under way came to, and get the next action.
    ///
    /// A message that is to be sent decodes to the data that was read.
    pub fn step(&mut self, event: PumpEvent) -> (action: PumpAction)
        requires
            pump_accepts(old(self)@, event@),
            event matches PumpEvent::Read(Ok(data)) ==> encodable(data@),
        ensures
            (final(self)@, action@) == pump_next(old(self)@, event@),
            (event matches PumpEvent::Read(Ok(data)) && data@.len() > 0) ==> (
            action matches PumpAction::Send(message) && message@.output_bytes() == Some(
                event->Read_0->Ok_0@,
            )),
    {
        match event {
            PumpEvent::SessionClosed(false) => {
                self.stage = PumpStage::Reading;
                PumpAction::Read
            },
            PumpEvent::Read(Ok(data)) => if data.len() > 0 {
                self.stage = PumpStage::Sending;
                PumpAction::Send(TerminalMessage::output(&data))
            } else {
                // No data available, small delay
                self.stage = PumpStage::Pausing;
                PumpAction::Pause(IDLE_PAUSE_MILLIS)
            },
            PumpEvent::Sent(true) | PumpEvent::Paused => {
                self.stage = PumpStage::Checking;
                PumpAction::CheckClosed
            },
            _ => {
                self.stage = PumpStage::Stopped;
                PumpAction::Stop
            },
        }
    }
}

/// The stage of a pump after each of `events`, in order, and the actions that they led to.
pub open spec fn pump_run(events: Seq<PumpEventView>) -> (PumpStage, Seq<PumpActionView>)
    decreases events.len(),
{
    if events.len() == 0 {
        (PumpStage::Checking, Seq::empty())
    } else {
        let (before, actions) = pump_run(events.drop_last());
        let (after, action) = pump_next(before, events.last());
        (after, actions.push(action))
    }
}

/// The data that was read, in order, without the reads that gave nothing.
pub open spec fn read_chunks(events: Seq<PumpEventView>) -> Seq<Seq<u8>>
    decreases events.len(),
{
    if events.len() == 0 {
        Seq::empty()
    } else {
        let earlier = read_chunks(events.drop_last());
        match events.last() {
            PumpEventView::Read(Some(data)) => if data.len() > 0 {
                earlier.push(data)
            } else {
                earlier
            },
            _ => earlier,
        }
    }
}

/// The messages that are sent, in order.
pub open spec fn sent_messages(actions: Seq<PumpActionView>) -> Seq<MessageView>
    decreases actions.len(),
{
    if actions.len() == 0 {
        Seq::empty()
    } else {
        let earlier = sent_messages(actions.drop_last());
        match actions.last() {
            PumpActionView::Send(message) => earlier.push(message),
            _ => earlier,
        }
    }
}

/// Output is sent completely and in order: the messages are the output messages of
/// the chunks that were read, one for each that is not empty.
pub proof fn law_output_arrives_in_order(events: Seq<PumpEventView>)
    ensures
        sent_messages(pump_run(events).1) == read_chunks(events).map_values(
            |data: Seq<u8>| MessageView::Output { data: base64_text(data) },
        ),
    decreases events.len(),
{
    let message = |data: Seq<u8>| MessageView::Output { data: base64_text(data) };
    if events.len() == 0 {
        assert(sent_messages(pump_run(events).1) =~= read_chunks(events).map_values(message));
    } else {
        let earlier = events.drop_last();
        law_output_arrives_in_order(earlier);
        let (before, done) = pump_run(earlier);
        let action = pump_next(before, events.last()).1;
        assert(done.push(action).drop_last() =~= done);
        assert(sent_messages(pump_run(events).1) =~= read_chunks(events).map_values(message));
    }
}

/// The pump looks whether the session is closed before every read.
pub proof fn law_closed_session_is_not_read(stage: PumpStage, event: PumpEventView)
    requires
        pump_accepts(stage, event),
    ensures
        pump_next(stage, event).1 is Read <==> stage is Checking && event
            == PumpEventView::SessionClosed(false),
{
}

/// The pump reads from a session that is not closed; what it reads goes to the client as an output
/// message of exactly those bytes, nothing read makes a pause of ten milliseconds, and after either
/// it looks again whether the session is closed. A closed session, a failure to read and a failure to
/// send end it.
pub proof fn law_pump_steps(stage: PumpStage, data: Seq<u8>)
    ensures
        pump_next(stage, PumpEventView::SessionClosed(false)).1 == PumpActionView::Read,
        pump_next(stage, PumpEventView::SessionClosed(true)).1 == PumpActionView::Stop,
        data.len() > 0 ==> pump_next(stage, PumpEventView::Read(Some(data))).1
            == PumpActionView::Send(MessageView::Output { data: base64_text(data) }),
        data.len() == 0 ==> pump_next(stage, PumpEventView::Read(Some(data))).1
            == PumpActionView::Pause(10),
        pump_next(stage, PumpEventView::Read(None)).1 == PumpActionView::Stop,
        pump_next(stage, PumpEventView::Sent(true)).1 == PumpActionView::CheckClosed,
        pump_next(stage, PumpEventView::Sent(false)).1 == PumpActionView::Stop,
        pump_next(stage, PumpEventView::Paused).1 == PumpActionView::CheckClosed,
{
}

/// After each action exactly its outcomes are taken, and none after the pump has stopped. It begins
/// with looking whether the session is closed.
pub proof fn law_pump_outcomes(stage: PumpStage, event: PumpEventView, outcome: PumpEventView)
    ensures
        pump_accepts(pump_next(stage, event).0, outcome) <==> match pump_next(stage, event).1 {
            PumpActionView::CheckClosed => outcome is SessionClosed,
            PumpActionView::Read => outcome is Read,
            PumpActionView::Send(_) => outcome is Sent,
            PumpActionView::Pause(_) => outcome is Paused,
            PumpActionView::Stop => false,
        },
        pump_accepts(PumpStage::Checking, outcome) <==> outcome is SessionClosed,
{
}

/// What is said of outcomes and actions is said of exactly what they hold.
pub proof fn law_pump_views(event: PumpEvent, action: PumpAction)
    ensures
        match event {
            PumpEvent::SessionClosed(closed) => event@ == PumpEventView::SessionClosed(closed),
            PumpEvent::Read(Ok(data)) => event@ == PumpEventView::Read(Some(data@)),
            PumpEvent::Read(Err(_)) => event@ == PumpEventView::Read(None),
            PumpEvent::Sent(sent) => event@ == PumpEventView::Sent(sent),
            PumpEvent::Paused => event@ == PumpEventView::Paused,
        },
        match action {
            PumpAction::CheckClosed => action@ == PumpActionView::CheckClosed,
            PumpAction::Read => action@ == PumpActionView::Read,
            PumpAction::Send(message) => action@ == PumpActionView::Send(message@),
            PumpAction::Pause(millis) => action@ == PumpActionView::Pause(millis),
            PumpAction::Stop => action@ == PumpActionView::Stop,
        },
{
}

} // verus!
