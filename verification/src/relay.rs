//! Relaying of WebSocket frames between a client and the portal of a sandbox.

use vstd::prelude::*;

verus! {

/// A WebSocket frame.
#[derive(Debug)]
pub enum Frame {
    /// A text frame.
    Text(String),
    /// A binary frame.
    Binary(Vec<u8>),
    /// A ping frame.
    Ping(Vec<u8>),
    /// A pong frame.
    Pong(Vec<u8>),
    /// A close frame; its reason is not passed on.
    Close,
    /// A raw frame, which is not forwarded.
    Raw,
}

/// What an action of a relay came to.
#[derive(Debug)]
pub enum RelayEvent {
    /// A frame was received.
    Received(Frame),
    /// Receiving failed.
    Failed,
    /// There are no more frames.
    Ended,
    /// Whether the frame could be sent.
    Sent(bool),
}

/// What a relay does next.
#[derive(Debug)]
pub enum RelayAction {
    /// Wait for the next frame from one side.
    Receive,
    /// Send this frame to the other side.
    Send(Frame),
    /// The relay is done.
    Finish,
}

/// Stages of a relay, by the action that is under way.
#[derive(Debug, Clone, Copy, PartialEq, Eq, Structural)]
pub enum RelayStage {
    /// Waiting for a frame.
    Receiving,
    /// Passing a frame on.
    Forwarding,
    /// Passing on the close frame.
    Closing,
    /// Done.
    Finished,
}

/// Which way frames go.
#[derive(Debug, Clone, Copy, PartialEq, Eq, Structural)]
pub enum Direction {
    /// From the client to the portal.
    ClientToPortal,
    /// From the portal to the client.
    PortalToClient,
}

/// A bidirectional proxy connection. It is over as soon as either direction is done.
#[derive(Debug)]
pub struct ProxyConnection {
    client_to_portal: RelayStage,
    portal_to_client: RelayStage,
}

/// The mathematical content of a [`Frame`].
pub enum FrameView {
    Text(Seq<char>),
    Binary(Seq<u8>),
    Ping(Seq<u8>),
    Pong(Seq<u8>),
    Close,
    Raw,
}

/// The mathematical content of a [`RelayEvent`].
pub enum RelayEventView {
    Received(FrameView),
    Failed,
    Ended,
    Sent(bool),
}

/// The mathematical content of a [`RelayAction`].
pub enum RelayActionView {
    Receive,
    Send(FrameView),
    Finish,
}

/// The mathematical state of a [`ProxyConnection`].
pub struct ProxyView {
    pub client_to_portal: RelayStage,
    pub portal_to_client: RelayStage,
}

impl View for Frame {
    type V = FrameView;

    open spec fn view(&self) -> FrameView {
        match *self {
            Frame::Text(text) => FrameView::Text(text@),
            Frame::Binary(data) => FrameView::Binary(data@),
            Frame::Ping(data) => FrameView::Ping(data@),
            Frame::Pong(data) => FrameView::Pong(data@),
            Frame::Close => FrameView::Close,
            Frame::Raw => FrameView::Raw,
        }
    }
}

impl View for RelayEvent {
    type V = RelayEventView;

    open spec fn view(&self) -> RelayEventView {
        match *self {
            RelayEvent::Received(frame) => RelayEventView::Received(frame@),
            RelayEvent::Failed => RelayEventView::Failed,
            RelayEvent::Ended => RelayEventView::Ended,
            RelayEvent::Sent(sent) => RelayEventView::Sent(sent),
        }
    }
}

impl View for RelayAction {
    type V = RelayActionView;

    open spec fn view(&self) -> RelayActionView {
        match *self {
            RelayAction::Receive => RelayActionView::Receive,
            RelayAction::Send(frame) => RelayActionView::Send(frame@),
            RelayAction::Finish => RelayActionView::Finish,
        }
    }
}

impl View for ProxyConnection {
    type V = ProxyView;

    closed spec fn view(&self) -> ProxyView {
        ProxyView {
            client_to_portal: self.client_to_portal,
            portal_to_client: self.portal_to_client,
        }
    }
}

/// `event` is an outcome of the action that is under way at `stage`.
pub open spec fn relay_accepts(stage: RelayStage, event: RelayEventView) -> bool {
    match stage {
        RelayStage::Receiving => !(event is Sent),
        RelayStage::Forwarding | RelayStage::Closing => event is Sent,
        RelayStage::Finished => false,
    }
}

/// The next stage and action of a relay: frames are passed on as they are, a close frame ends the
/// relay once it was passed on, and so does a failure on either side.
pub open spec fn relay_next(stage: RelayStage, event: RelayEventView) -> (
    RelayStage,
    RelayActionView,
) {
    match (stage, event) {
        (_, RelayEventView::Received(FrameView::Raw)) => (
            RelayStage::Receiving,
            RelayActionView::Receive,
        ),
        (_, RelayEventView::Received(FrameView::Close)) => (
            RelayStage::Closing,
            RelayActionView::Send(FrameView::Close),
        ),
        (_, RelayEventView::Received(frame)) => (
            RelayStage::Forwarding,
            RelayActionView::Send(frame),
        ),
        (RelayStage::Forwarding, RelayEventView::Sent(true)) => (
            RelayStage::Receiving,
            RelayActionView::Receive,
        ),
        _ => (RelayStage::Finished, RelayActionView::Finish),
    }
}

/// The next stage and action of a relay.
fn relay_step(stage: RelayStage, event: RelayEvent) -> (next: (RelayStage, RelayAction))
    ensures
        (next.0, next.1@) == relay_next(stage, event@),
{
    match (stage, event) {
        // Raw frames are not typically forwarded
        (_, RelayEvent::Received(Frame::Raw)) => (RelayStage::Receiving, RelayAction::Receive),
        (_, RelayEvent::Received(Frame::Close)) => (
            RelayStage::Closing,
            RelayAction::Send(Frame::Close),
        ),
        (_, RelayEvent::Received(frame)) => (RelayStage::Forwarding, RelayAction::Send(frame)),
        (RelayStage::Forwarding, RelayEvent::Sent(true)) => (
            RelayStage::Receiving,
            RelayAction::Receive,
        ),
        _ => (RelayStage::Finished, RelayAction::Finish),
    }
}

impl ProxyView {
    /// A new connection.
    pub open spec fn initial() -> ProxyView {
        ProxyView {
            client_to_portal: RelayStage::Receiving,
            portal_to_client: RelayStage::Receiving,
        }
    }

    /// The stage of one direction.
    pub open spec fn stage(self, direction: Direction) -> RelayStage {
        match direction {
            Direction::ClientToPortal => self.client_to_portal,
            Direction::PortalToClient => self.portal_to_client,
        }
    }

    /// The connection with one direction at another stage.
    pub open spec fn at(self, direction: Direction, stage: RelayStage) -> ProxyView {
        match direction {
            Direction::ClientToPortal => ProxyView { client_to_portal: stage, ..self },
            Direction::PortalToClient => ProxyView { portal_to_client: stage, ..self },
        }
    }

    /// The direction that is done and has ended the connection, if either is.
    pub open spec fn ended_by(self) -> Option<Direction> {
        if self.client_to_portal is Finished {
            Some(Direction::ClientToPortal)
        } else if self.portal_to_client is Finished {
            Some(Direction::PortalToClient)
        } else {
            None
        }
    }
}

impl ProxyConnection {
    /// A new connection, which waits for frames from both sides.
    pub fn new() -> (connection: Self)
        ensures
            connection@ == ProxyView::initial(),
    {
        ProxyConnection {
            client_to_portal: RelayStage::Receiving,
            portal_to_client: RelayStage::Receiving,
        }
    }

    /// Whether the connection goes on, and `event` is an outcome of the action that is under way
    /// in `direction`.
    pub fn accepts(&self, direction: Direction, event: &RelayEvent) -> (accepted: bool)
        ensures
            accepted == (self@.ended_by() is None && relay_accepts(
                self@.stage(direction),
                event@,
            )),
    {
        if self.ended_by().is_some() {
            return false;
        }
        let stage = match direction {
            Direction::ClientToPortal => self.client_to_portal,
            Direction::PortalToClient => self.portal_to_client,
        };
        match (stage, event) {
            (RelayStage::Receiving, RelayEvent::Sent(_)) => false,
            (RelayStage::Receiving, _) => true,
            (RelayStage::Forwarding, RelayEvent::Sent(_)) => true,
            (RelayStage::Closing, RelayEvent::Sent(_)) => true,
            _ => false,
        }
    }

    /// The direction that is done and has ended the connection, if either is.
    pub fn ended_by(&self) -> (direction: Option<Direction>)
        ensures
            direction == self@.ended_by(),
    {
        if self.client_to_portal == RelayStage::Finished {
            Some(Direction::ClientToPortal)
        } else if self.portal_to_client == RelayStage::Finished {
            Some(Direction::PortalToClient)
        } else {
            None
        }
    }

    /// Handle what the action that is under way in `direction` came to, and get the next action
    /// there.
    pub fn step(&mut self, direction: Direction, event: RelayEvent) -> (action: RelayAction)
        requires
            old(self)@.ended_by() is None,
            relay_accepts(old(self)@.stage(direction), event@),
        ensures
            ({
                let (stage, expected) = relay_next(old(self)@.stage(direction), event@);
                final(self)@ == old(self)@.at(direction, stage) && action@ == expected
            }),
    {
        match direction {
            Direction::ClientToPortal => {
                let (stage, action) = relay_step(self.client_to_portal, event);
                self.client_to_portal = stage;
                action
            },
            Direction::PortalToClient => {
                let (stage, action) = relay_step(self.portal_to_client, event);
                self.portal_to_client = stage;
                action
            },
        }
    }
}

/// The stage of a relay after each of `events`, in order, and the actions that they led to.
pub open spec fn relay_run(events: Seq<RelayEventView>) -> (RelayStage, Seq<RelayActionView>)
    decreases events.len(),
{
    if events.len() == 0 {
        (RelayStage::Receiving, Seq::empty())
    } else {
        let (before, actions) = relay_run(events.drop_last());
        let (after, action) = relay_next(before, events.last());
        (after, actions.push(action))
    }
}

/// Each event is an outcome of the action that is under way when it comes.
pub open spec fn relay_run_accepts(events: Seq<RelayEventView>) -> bool {
    forall|i: int|
        0 <= i < events.len() ==> relay_accepts(relay_run(events.take(i)).0, #[trigger] events[i])
}

/// The frames that were received, in order, without the raw ones.
pub open spec fn received_frames(events: Seq<RelayEventView>) -> Seq<FrameView>
    decreases events.len(),
{
    if events.len() == 0 {
        Seq::empty()
    } else {
        let earlier = received_frames(events.drop_last());
        match events.last() {
            RelayEventView::Received(frame) => if frame is Raw {
                earlier
            } else {
                earlier.push(frame)
            },
            _ => earlier,
        }
    }
}

/// The frames that are sent, in order.
pub open spec fn sent_frames(actions: Seq<RelayActionView>) -> Seq<FrameView>
    decreases actions.len(),
{
    if actions.len() == 0 {
        Seq::empty()
    } else {
        let earlier = sent_frames(actions.drop_last());
        match actions.last() {
            RelayActionView::Send(frame) => earlier.push(frame),
            _ => earlier,
        }
    }
}

/// A relay is transparent: whatever it receives, it sends the same frames, unchanged and in the
/// same order, but for the raw ones.
pub proof fn law_frames_are_relayed(events: Seq<RelayEventView>)
    ensures
        sent_frames(relay_run(events).1) == received_frames(events),
    decreases events.len(),
{
    if events.len() > 0 {
        let earlier = events.drop_last();
        law_frames_are_relayed(earlier);
        let (before, done) = relay_run(earlier);
        let action = relay_next(before, events.last()).1;
        assert(done.push(action).drop_last() =~= done);
    }
}

/// A close frame is the last one: nothing is sent after it.
pub proof fn law_close_is_last(events: Seq<RelayEventView>)
    requires
        relay_run_accepts(events),
    ensures
        forall|i: int|
            0 <= i < sent_frames(relay_run(events).1).len() - 1 ==> !(#[trigger] sent_frames(
                relay_run(events).1,
            )[i] is Close),
{
    lemma_close_is_last(events);
}

proof fn lemma_close_is_last(events: Seq<RelayEventView>)
    requires
        relay_run_accepts(events),
    ensures
        ({
            let (stage, actions) = relay_run(events);
            let sent = sent_frames(actions);
            &&& forall|i: int| 0 <= i < sent.len() - 1 ==> !(#[trigger] sent[i] is Close)
            &&& sent.len() > 0 && sent.last() is Close ==> stage is Closing || stage is Finished
        }),
    decreases events.len(),
{
    if events.len() > 0 {
        let earlier = events.drop_last();
        assert forall|i: int| 0 <= i < earlier.len() implies relay_accepts(
            relay_run(earlier.take(i)).0,
            #[trigger] earlier[i],
        ) by {
            assert(earlier.take(i) =~= events.take(i));
            assert(earlier[i] == events[i]);
        }
        lemma_close_is_last(earlier);
        let (before, done) = relay_run(earlier);
        assert(events.take(events.len() - 1) =~= earlier);
        assert(relay_accepts(before, events[events.len() - 1]));
        let action = relay_next(before, events.last()).1;
        assert(done.push(action).drop_last() =~= done);
        let sent = sent_frames(done);
        assert forall|i: int| 0 <= i < sent.len() implies !(#[trigger] sent[i] is Close)
            || before is Closing || before is Finished by {
            if i == sent.len() - 1 {
                assert(sent.last() == sent[i]);
            }
        }
    }
}

/// The two directions do not disturb each other, and the connection is over as soon as one of them
/// is done.
pub proof fn law_directions_are_independent(
    connection: ProxyView,
    direction: Direction,
    event: RelayEventView,
)
    requires
        connection.ended_by() is None,
        relay_accepts(connection.stage(direction), event),
    ensures
        ({
            let stage = relay_next(connection.stage(direction), event).0;
            let after = connection.at(direction, stage);
            let other = if direction is ClientToPortal {
                Direction::PortalToClient
            } else {
                Direction::ClientToPortal
            };
            &&& after.stage(direction) == stage
            &&& after.stage(other) == connection.stage(other)
            &&& after.ended_by() == if stage is Finished {
                Some(direction)
            } else {
                None
            }
        }),
{
}

/// A frame that is received is sent on as it is, text, bytes and all; a raw frame is passed over. A
/// close frame is sent on, and then the relay is done, whether that worked or not. So it is when
/// receiving fails or ends, and when a frame cannot be sent; otherwise it receives again.
pub proof fn law_relay_steps(frame: FrameView, sent: bool)
    ensures
        ({
            let received = relay_next(RelayStage::Receiving, RelayEventView::Received(frame));
            let answered = relay_next(received.0, RelayEventView::Sent(sent));
            &&& frame is Raw ==> received.1 == RelayActionView::Receive && received.0 is Receiving
            &&& !(frame is Raw) ==> received.1 == RelayActionView::Send(frame)
            &&& frame is Close ==> answered.1 == RelayActionView::Finish
            &&& !(frame is Raw) && !(frame is Close) && sent ==> answered.1
                == RelayActionView::Receive && answered.0 is Receiving
            &&& !(frame is Raw) && !sent ==> answered.1 == RelayActionView::Finish
        }),
        relay_next(RelayStage::Receiving, RelayEventView::Failed).1 == RelayActionView::Finish,
        relay_next(RelayStage::Receiving, RelayEventView::Ended).1 == RelayActionView::Finish,
{
}

/// After each action exactly its outcomes are taken, and none after the relay is done.
pub proof fn law_relay_outcomes(
    stage: RelayStage,
    event: RelayEventView,
    outcome: RelayEventView,
)
    requires
        relay_accepts(stage, event),
    ensures
        relay_accepts(relay_next(stage, event).0, outcome) <==> match relay_next(stage, event).1 {
            RelayActionView::Receive => outcome is Received || outcome is Failed
                || outcome is Ended,
            RelayActionView::Send(_) => outcome is Sent,
            RelayActionView::Finish => false,
        },
        relay_next(stage, event).0 is Finished <==> relay_next(stage, event).1 is Finish,
        relay_accepts(RelayStage::Receiving, outcome) <==> !(outcome is Sent),
{
}

/// Each direction has its own stage, and changing one leaves the other. The connection goes on as
/// long as neither is done; both begin with receiving.
pub proof fn law_proxy_directions(connection: ProxyView, stage: RelayStage)
    ensures
        connection.stage(Direction::ClientToPortal) == connection.client_to_portal,
        connection.stage(Direction::PortalToClient) == connection.portal_to_client,
        connection.at(Direction::ClientToPortal, stage).client_to_portal == stage,
        connection.at(Direction::ClientToPortal, stage).portal_to_client
            == connection.portal_to_client,
        connection.at(Direction::PortalToClient, stage).portal_to_client == stage,
        connection.at(Direction::PortalToClient, stage).client_to_portal
            == connection.client_to_portal,
        connection.ended_by() is None <==> !(connection.client_to_portal is Finished) && !(
        connection.portal_to_client is Finished),
        connection.ended_by() == Some(Direction::ClientToPortal)
            <==> connection.client_to_portal is Finished,
        ProxyView::initial().client_to_portal is Receiving,
        ProxyView::initial().portal_to_client is Receiving,
{
}

/// What is said of frames, outcomes and actions is said of exactly what they hold.
pub proof fn law_relay_views(frame: Frame, event: RelayEvent, action: RelayAction)
    ensures
        match frame {
            Frame::Text(text) => frame@ == FrameView::Text(text@),
            Frame::Binary(data) => frame@ == FrameView::Binary(data@),
            Frame::Ping(data) => frame@ == FrameView::Ping(data@),
            Frame::Pong(data) => frame@ == FrameView::Pong(data@),
            Frame::Close => frame@ == FrameView::Close,
            Frame::Raw => frame@ == FrameView::Raw,
        },
        match event {
            RelayEvent::Received(received) => event@ == RelayEventView::Received(received@),
            RelayEvent::Failed => event@ == RelayEventView::Failed,
            RelayEvent::Ended => event@ == RelayEventView::Ended,
            RelayEvent::Sent(sent) => event@ == RelayEventView::Sent(sent),
        },
        match action {
            RelayAction::Receive => action@ == RelayActionView::Receive,
            RelayAction::Send(sent) => action@ == RelayActionView::Send(sent@),
            RelayAction::Finish => action@ == RelayActionView::Finish,
        },
{
}

} // verus!
