//! The connection actor: one client's WebSocket and peer actor, from the
//! upgrade to the end, and what passes between them and the server actor.

use vstd::prelude::*;

use crate::event::Identifier;
use crate::peer::{RTCEvent, RTCEventModel, RTCHandleMessage, RTCHandleMessageModel};

verus! {

/// What a connection actor tells the server actor.
#[derive(Debug)]
pub enum ConnectionEvent {
    /// Both the WebSocket and the data channel are ready for traffic.
    ConnectionEstablished,
    /// The connection has ended; nothing follows.
    ConnectionTerminated,
    /// A payload arrived from the client, on either transport.
    MessageReceived(Vec<u8>),
}

/// The mathematical value of a [`ConnectionEvent`].
pub ghost enum ConnectionEventModel {
    ConnectionEstablished,
    ConnectionTerminated,
    MessageReceived(Seq<u8>),
}

impl View for ConnectionEvent {
    type V = ConnectionEventModel;

    open spec fn view(&self) -> ConnectionEventModel {
        match self {
            ConnectionEvent::ConnectionEstablished => ConnectionEventModel::ConnectionEstablished,
            ConnectionEvent::ConnectionTerminated => ConnectionEventModel::ConnectionTerminated,
            ConnectionEvent::MessageReceived(payload) => ConnectionEventModel::MessageReceived(
                payload@,
            ),
        }
    }
}

/// A message as the WebSocket delivers it.
#[derive(Debug)]
pub enum Frame {
    Binary(Vec<u8>),
    Text(String),
    Close,
    Ping,
    Pong,
    /// A frame that was not put together into a message.
    Raw,
}

/// What the connection actor is asked to handle.
#[derive(Debug)]
pub enum ConnectionHandleMessage {
    /// The WebSocket upgrade succeeded.
    WebSocketUpgraded,
    /// The WebSocket upgrade failed.
    WebSocketRefused,
    /// The server actor has dropped the command port.
    HandleDropped,
    SendReliable(Vec<u8>),
    SendUnreliable(Vec<u8>),
    /// The client sent a payload over the WebSocket.
    ReceiveApplicationMessage(Vec<u8>),
    /// The client sent a signalling message over the WebSocket.
    ReceiveSignalling(String),
    /// The client closed the WebSocket, or the stream failed.
    ReceiveWebSocketClose,
    HandleWebRTCEvent(RTCEvent),
}

/// The mathematical value of a [`ConnectionHandleMessage`].
pub ghost enum ConnectionHandleMessageModel {
    WebSocketUpgraded,
    WebSocketRefused,
    HandleDropped,
    SendReliable(Seq<u8>),
    SendUnreliable(Seq<u8>),
    ReceiveApplicationMessage(Seq<u8>),
    ReceiveSignalling(Seq<char>),
    ReceiveWebSocketClose,
    HandleWebRTCEvent(RTCEventModel),
}

impl View for ConnectionHandleMessage {
    type V = ConnectionHandleMessageModel;

    open spec fn view(&self) -> ConnectionHandleMessageModel {
        match self {
            ConnectionHandleMessage::WebSocketUpgraded => {
                ConnectionHandleMessageModel::WebSocketUpgraded
            },
            ConnectionHandleMessage::WebSocketRefused => {
                ConnectionHandleMessageModel::WebSocketRefused
            },
            ConnectionHandleMessage::HandleDropped => ConnectionHandleMessageModel::HandleDropped,
            ConnectionHandleMessage::SendReliable(bytes) => {
                ConnectionHandleMessageModel::SendReliable(bytes@)
            },
            ConnectionHandleMessage::SendUnreliable(bytes) => {
                ConnectionHandleMessageModel::SendUnreliable(bytes@)
            },
            ConnectionHandleMessage::ReceiveApplicationMessage(bytes) => {
                ConnectionHandleMessageModel::ReceiveApplicationMessage(bytes@)
            },
            ConnectionHandleMessage::ReceiveSignalling(text) => {
                ConnectionHandleMessageModel::ReceiveSignalling(text@)
            },
            ConnectionHandleMessage::ReceiveWebSocketClose => {
                ConnectionHandleMessageModel::ReceiveWebSocketClose
            },
            ConnectionHandleMessage::HandleWebRTCEvent(event) => {
                ConnectionHandleMessageModel::HandleWebRTCEvent(event@)
            },
        }
    }
}

/// What the WebSocket sink is given to transmit.
#[derive(Debug)]
pub enum SinkMessage {
    /// A binary frame with an application payload.
    Data(Vec<u8>),
    /// A text frame with a signalling message.
    Signalling(String),
}

/// The mathematical value of a [`SinkMessage`].
pub ghost enum SinkMessageModel {
    Data(Seq<u8>),
    Signalling(Seq<char>),
}

impl View for SinkMessage {
    type V = SinkMessageModel;

    open spec fn view(&self) -> SinkMessageModel {
        match self {
            SinkMessage::Data(bytes) => SinkMessageModel::Data(bytes@),
            SinkMessage::Signalling(text) => SinkMessageModel::Signalling(text@),
        }
    }
}

/// What the connection actor wants done after a message.
#[derive(Debug)]
pub enum ConnectionAction {
    /// Report the event to the server actor.
    Emit(ConnectionEvent),
    /// Transmit the frame on the WebSocket.
    Transmit(SinkMessage),
    /// Hand the message to the peer actor.
    Forward(RTCHandleMessage),
}

/// The mathematical value of a [`ConnectionAction`].
pub ghost enum ConnectionActionModel {
    Emit(ConnectionEventModel),
    Transmit(SinkMessageModel),
    Forward(RTCHandleMessageModel),
}

impl View for ConnectionAction {
    type V = ConnectionActionModel;

    open spec fn view(&self) -> ConnectionActionModel {
        match self {
            ConnectionAction::Emit(event) => ConnectionActionModel::Emit(event@),
            ConnectionAction::Transmit(frame) => ConnectionActionModel::Transmit(frame@),
            ConnectionAction::Forward(message) => ConnectionActionModel::Forward(message@),
        }
    }
}

/// The mathematical value of what the actor returns.
pub open spec fn wanted(out: Option<ConnectionAction>) -> Option<ConnectionActionModel> {
    match out {
        Some(a) => Some(a@),
        None => None,
    }
}

/// Where a connection stands in its life.
#[derive(Clone, Copy, Debug, PartialEq, Eq, Structural)]
pub enum Phase {
    /// The WebSocket upgrade is under way.
    Handshaking,
    /// The WebSocket is up; the data channel is being negotiated over it.
    Negotiating,
    /// Both transports are up.
    Live,
    /// The connection has ended. Nothing leaves this phase.
    Terminated,
}

/// The message that stands for what the WebSocket stream yielded, if it asks
/// for any work: a failure of the stream counts as its close, and pings,
/// pongs and raw frames ask for none.
pub open spec fn stream_message(item: Result<Frame, ()>) -> Option<ConnectionHandleMessageModel> {
    match item {
        Ok(Frame::Binary(bytes)) => Some(
            ConnectionHandleMessageModel::ReceiveApplicationMessage(bytes@),
        ),
        Ok(Frame::Text(text)) => Some(ConnectionHandleMessageModel::ReceiveSignalling(text@)),
        Ok(Frame::Close) => Some(ConnectionHandleMessageModel::ReceiveWebSocketClose),
        Ok(Frame::Ping) => None,
        Ok(Frame::Pong) => None,
        Ok(Frame::Raw) => None,
        Err(_) => Some(ConnectionHandleMessageModel::ReceiveWebSocketClose),
    }
}

/// Turns what the WebSocket stream yielded into a message for the actor.
pub fn message_of_stream(item: Result<Frame, ()>) -> (message: Option<ConnectionHandleMessage>)
    ensures
        match message {
            Some(m) => stream_message(item) == Some(m@),
            None => stream_message(item).is_none(),
        },
{
    match item {
        Ok(Frame::Binary(bytes)) => Some(ConnectionHandleMessage::ReceiveApplicationMessage(bytes)),
        Ok(Frame::Text(text)) => Some(ConnectionHandleMessage::ReceiveSignalling(text)),
        Ok(Frame::Close) => Some(ConnectionHandleMessage::ReceiveWebSocketClose),
        Ok(Frame::Ping) => None,
        Ok(Frame::Pong) => None,
        Ok(Frame::Raw) => None,
        Err(_) => Some(ConnectionHandleMessage::ReceiveWebSocketClose),
    }
}

/// The messages that end a connection: the close or failure of the
/// WebSocket, the close of the data channel, and the loss of the command port.
pub open spec fn ends(message: ConnectionHandleMessageModel) -> bool {
    match message {
        ConnectionHandleMessageModel::ReceiveWebSocketClose => true,
        ConnectionHandleMessageModel::HandleDropped => true,
        ConnectionHandleMessageModel::HandleWebRTCEvent(RTCEventModel::Closed) => true,
        _ => false,
    }
}

/// The phase that follows `phase` when `message` is handled.
pub open spec fn next_phase(phase: Phase, message: ConnectionHandleMessageModel) -> Phase {
    match phase {
        Phase::Terminated => Phase::Terminated,
        Phase::Handshaking => match message {
            ConnectionHandleMessageModel::WebSocketUpgraded => Phase::Negotiating,
            ConnectionHandleMessageModel::WebSocketRefused => Phase::Terminated,
            _ => if ends(message) {
                Phase::Terminated
            } else {
                Phase::Handshaking
            },
        },
        Phase::Negotiating => match message {
            ConnectionHandleMessageModel::HandleWebRTCEvent(RTCEventModel::Opened) => Phase::Live,
            _ => if ends(message) {
                Phase::Terminated
            } else {
                Phase::Negotiating
            },
        },
        Phase::Live => if ends(message) {
            Phase::Terminated
        } else {
            Phase::Live
        },
    }
}

/// What the actor wants done when it handles `message` in `phase`.
///
/// A connection that has ended wants nothing, and one whose WebSocket is not
/// up yet has nothing to pass on. A message that ends the connection is
/// reported upstream, but for a refused upgrade, which passes in silence.
/// Otherwise payloads and signalling are passed on between the server actor,
/// the WebSocket and the peer actor, and the opening of the data channel is
/// reported once.
pub open spec fn action(phase: Phase, message: ConnectionHandleMessageModel) -> Option<
    ConnectionActionModel,
> {
    if phase == Phase::Terminated {
        None
    } else if ends(message) {
        Some(ConnectionActionModel::Emit(ConnectionEventModel::ConnectionTerminated))
    } else if phase == Phase::Handshaking {
        None
    } else {
        match message {
            ConnectionHandleMessageModel::SendReliable(bytes) => Some(
                ConnectionActionModel::Transmit(SinkMessageModel::Data(bytes)),
            ),
            ConnectionHandleMessageModel::SendUnreliable(bytes) => Some(
                ConnectionActionModel::Forward(RTCHandleMessageModel::Send(bytes)),
            ),
            ConnectionHandleMessageModel::ReceiveApplicationMessage(bytes) => Some(
                ConnectionActionModel::Emit(ConnectionEventModel::MessageReceived(bytes)),
            ),
            ConnectionHandleMessageModel::ReceiveSignalling(text) => Some(
                ConnectionActionModel::Forward(RTCHandleMessageModel::ReceiveSignalling(text)),
            ),
            ConnectionHandleMessageModel::HandleWebRTCEvent(RTCEventModel::Opened) => {
                if phase == Phase::Negotiating {
                    Some(ConnectionActionModel::Emit(ConnectionEventModel::ConnectionEstablished))
                } else {
                    None
                }
            },
            ConnectionHandleMessageModel::HandleWebRTCEvent(
                RTCEventModel::ApplicationMessageReceived(bytes),
            ) => Some(ConnectionActionModel::Emit(ConnectionEventModel::MessageReceived(bytes))),
            ConnectionHandleMessageModel::HandleWebRTCEvent(
                RTCEventModel::EmitSignallingMessage(text),
            ) => Some(ConnectionActionModel::Transmit(SinkMessageModel::Signalling(text))),
            _ => None,
        }
    }
}

/// The connection actor of one client.
pub struct Actor {
    id: Identifier,
    phase: Phase,
}

impl Actor {
    /// The identifier that the server actor gave the connection.
    pub closed spec fn id(&self) -> Identifier {
        self.id
    }

    /// Where the connection stands in its life.
    pub closed spec fn phase(&self) -> Phase {
        self.phase
    }

    /// The actor of a connection whose WebSocket upgrade is under way.
    pub fn new(id: Identifier) -> (actor: Self)
        ensures
            actor.id() == id,
            actor.phase() == Phase::Handshaking,
    {
        Actor { id, phase: Phase::Handshaking }
    }

    pub fn get_id(&self) -> (id: Identifier)
        ensures
            id == self.id(),
    {
        self.id
    }

    pub fn get_phase(&self) -> (phase: Phase)
        ensures
            phase == self.phase(),
    {
        self.phase
    }

    /// Whether the connection has ended, so that its loop can stop.
    pub fn is_terminated(&self) -> (yes: bool)
        ensures
            yes == (self.phase() == Phase::Terminated),
    {
        self.phase == Phase::Terminated
    }

    /// Handles an event of the peer actor.
    pub fn handle_webrtc_event(&mut self, event: RTCEvent) -> (out: Option<ConnectionAction>)
        ensures
            final(self).id() == old(self).id(),
            final(self).phase() == next_phase(
                old(self).phase(),
                ConnectionHandleMessageModel::HandleWebRTCEvent(event@),
            ),
            wanted(out) == action(
                old(self).phase(),
                ConnectionHandleMessageModel::HandleWebRTCEvent(event@),
            ),
    {
        if self.phase == Phase::Terminated {
            return None;
        }
        match event {
            RTCEvent::Closed => {
                self.phase = Phase::Terminated;
                Some(ConnectionAction::Emit(ConnectionEvent::ConnectionTerminated))
            },
            RTCEvent::Opened => {
                if self.phase == Phase::Negotiating {
                    self.phase = Phase::Live;
                    Some(ConnectionAction::Emit(ConnectionEvent::ConnectionEstablished))
                } else {
                    None
                }
            },
            RTCEvent::ApplicationMessageReceived(bytes) => {
                if self.phase == Phase::Handshaking {
                    None
                } else {
                    Some(ConnectionAction::Emit(ConnectionEvent::MessageReceived(bytes)))
                }
            },
            RTCEvent::EmitSignallingMessage(text) => {
                if self.phase == Phase::Handshaking {
                    None
                } else {
                    Some(ConnectionAction::Transmit(SinkMessage::Signalling(text)))
                }
            },
        }
    }

    /// Handles one message: moves to the phase that follows, and returns what
    /// is to be done.
    pub fn handle_message(&mut self, message: ConnectionHandleMessage) -> (out: Option<
        ConnectionAction,
    >)
        ensures
            final(self).id() == old(self).id(),
            final(self).phase() == next_phase(old(self).phase(), message@),
            wanted(out) == action(old(self).phase(), message@),
    {
        if self.phase == Phase::Terminated {
            return None;
        }
        let waiting = self.phase == Phase::Handshaking;
        match message {
            ConnectionHandleMessage::WebSocketUpgraded => {
                if waiting {
                    self.phase = Phase::Negotiating;
                }
                None
            },
            ConnectionHandleMessage::WebSocketRefused => {
                if waiting {
                    self.phase = Phase::Terminated;
                }
                None
            },
            ConnectionHandleMessage::HandleDropped => {
                self.phase = Phase::Terminated;
                Some(ConnectionAction::Emit(ConnectionEvent::ConnectionTerminated))
            },
            ConnectionHandleMessage::ReceiveWebSocketClose => {
                self.phase = Phase::Terminated;
                Some(ConnectionAction::Emit(ConnectionEvent::ConnectionTerminated))
            },
            ConnectionHandleMessage::SendReliable(bytes) => {
                if waiting {
                    None
                } else {
                    Some(ConnectionAction::Transmit(SinkMessage::Data(bytes)))
                }
            },
            ConnectionHandleMessage::SendUnreliable(bytes) => {
                if waiting {
                    None
                } else {
                    Some(ConnectionAction::Forward(RTCHandleMessage::Send(bytes)))
                }
            },
            ConnectionHandleMessage::ReceiveSignalling(text) => {
                if waiting {
                    None
                } else {
                    Some(ConnectionAction::Forward(RTCHandleMessage::ReceiveSignalling(text)))
                }
            },
            ConnectionHandleMessage::ReceiveApplicationMessage(bytes) => {
                if waiting {
                    None
                } else {
                    Some(ConnectionAction::Emit(ConnectionEvent::MessageReceived(bytes)))
                }
            },
            ConnectionHandleMessage::HandleWebRTCEvent(event) => self.handle_webrtc_event(event),
        }
    }
}

/// The phase of a connection that began in `phase` and handled `messages` in
/// order.
pub open spec fn phase_after(phase: Phase, messages: Seq<ConnectionHandleMessageModel>) -> Phase
    decreases messages.len(),
{
    if messages.len() == 0 {
        phase
    } else {
        next_phase(phase_after(phase, messages.drop_last()), messages.last())
    }
}

/// The events that a connection that began in `phase` reported to the server
/// actor while it handled `messages` in order.
pub open spec fn reported(phase: Phase, messages: Seq<ConnectionHandleMessageModel>) -> Seq<
    ConnectionEventModel,
>
    decreases messages.len(),
{
    if messages.len() == 0 {
        Seq::empty()
    } else {
        let before = reported(phase, messages.drop_last());
        match action(phase_after(phase, messages.drop_last()), messages.last()) {
            Some(ConnectionActionModel::Emit(event)) => before.push(event),
            _ => before,
        }
    }
}

/// Whether the event is a payload of the client.
pub open spec fn is_payload(event: ConnectionEventModel) -> bool {
    event is MessageReceived
}

/// Whether the message brings a payload of the client.
pub open spec fn brings_payload(message: ConnectionHandleMessageModel) -> bool {
    match message {
        ConnectionHandleMessageModel::ReceiveApplicationMessage(_) => true,
        ConnectionHandleMessageModel::HandleWebRTCEvent(
            RTCEventModel::ApplicationMessageReceived(_),
        ) => true,
        _ => false,
    }
}

/// No payload of the client arrives while the data channel is still being
/// negotiated.
pub open spec fn no_early_payload(messages: Seq<ConnectionHandleMessageModel>) -> bool {
    forall|k: int|
        0 <= k < messages.len() && brings_payload(#[trigger] messages[k]) ==> phase_after(
            Phase::Handshaking,
            messages.take(k),
        ) != Phase::Negotiating
}

/// Whether the connection was live at some point while it handled `messages`.
pub open spec fn was_live(messages: Seq<ConnectionHandleMessageModel>) -> bool {
    exists|k: int|
        0 <= k <= messages.len() && phase_after(Phase::Handshaking, #[trigger] messages.take(k))
            == Phase::Live
}

/// What the reports of a connection look like in each phase: none before the
/// WebSocket is up; payloads alone while the data channel is negotiated; one
/// report of readiness and no report of an end while the connection is live;
/// and after the end at most one report of readiness, and a report of the end
/// in the last place and nowhere else.
pub open spec fn shaped(phase: Phase, reports: Seq<ConnectionEventModel>) -> bool {
    &&& forall|i: int, j: int|
        0 <= i < j < reports.len() ==> !(reports[i] is ConnectionEstablished
            && reports[j] is ConnectionEstablished)
    &&& forall|i: int|
        0 <= i < reports.len() && #[trigger] reports[i] is ConnectionTerminated ==> i
            == reports.len() - 1 && phase == Phase::Terminated
    &&& phase == Phase::Handshaking ==> reports.len() == 0
    &&& phase == Phase::Negotiating ==> forall|i: int|
        0 <= i < reports.len() ==> !(#[trigger] reports[i] is ConnectionEstablished)
    &&& phase == Phase::Live ==> exists|i: int|
        0 <= i < reports.len() && #[trigger] reports[i] is ConnectionEstablished
    &&& phase == Phase::Terminated && reports.len() > 0 ==> reports.last() is ConnectionTerminated
}

/// A connection that has ended stays ended and reports nothing more.
pub proof fn lemma_terminated_absorbs(messages: Seq<ConnectionHandleMessageModel>)
    ensures
        phase_after(Phase::Terminated, messages) == Phase::Terminated,
        reported(Phase::Terminated, messages) == Seq::<ConnectionEventModel>::empty(),
    decreases messages.len(),
{
    if messages.len() > 0 {
        lemma_terminated_absorbs(messages.drop_last());
    }
}

/// Whatever a connection is given to handle, it reports its readiness at most
/// once and its end at most once, and nothing after its end.
pub proof fn lemma_reports_shaped(messages: Seq<ConnectionHandleMessageModel>)
    ensures
        shaped(phase_after(Phase::Handshaking, messages), reported(Phase::Handshaking, messages)),
    decreases messages.len(),
{
    if messages.len() > 0 {
        let earlier = messages.drop_last();
        lemma_reports_shaped(earlier);
        let phase = phase_after(Phase::Handshaking, earlier);
        let before = reported(Phase::Handshaking, earlier);
        let after = reported(Phase::Handshaking, messages);
        let then = phase_after(Phase::Handshaking, messages);
        match action(phase, messages.last()) {
            Some(ConnectionActionModel::Emit(event)) => {
                assert(after == before.push(event));
                assert(phase != Phase::Terminated);
                assert forall|i: int| 0 <= i < before.len() implies !(
                #[trigger] before[i] is ConnectionTerminated) by {}
                assert(forall|i: int| 0 <= i < before.len() ==> after[i] == before[i]);
                assert(after[before.len() as int] == event);
                if event is ConnectionEstablished {
                    assert(phase == Phase::Negotiating);
                    assert(then == Phase::Live);
                    assert(after[before.len() as int] is ConnectionEstablished);
                } else if event is ConnectionTerminated {
                    assert(then == Phase::Terminated);
                } else {
                    assert(then == phase);
                    if phase == Phase::Live {
                        let i = choose|i: int|
                            0 <= i < before.len() && #[trigger] before[i] is ConnectionEstablished;
                        assert(after[i] is ConnectionEstablished);
                    }
                }
                assert(shaped(then, after));
            },
            _ => {
                assert(after == before);
                assert(shaped(then, after));
            },
        }
    }
}

/// The server actor is told that a connection is ready only after the
/// WebSocket upgrade has succeeded and, later, the data channel has opened.
pub proof fn lemma_ready_after_both(messages: Seq<ConnectionHandleMessageModel>)
    requires
        exists|i: int|
            0 <= i < reported(Phase::Handshaking, messages).len() && #[trigger] reported(
                Phase::Handshaking,
                messages,
            )[i] is ConnectionEstablished,
    ensures
        exists|a: int, b: int|
            0 <= a < b < messages.len() && #[trigger] messages[a]
                == ConnectionHandleMessageModel::WebSocketUpgraded && #[trigger] messages[b]
                == ConnectionHandleMessageModel::HandleWebRTCEvent(RTCEventModel::Opened),
    decreases messages.len(),
{
    if messages.len() > 0 {
        let earlier = messages.drop_last();
        let before = reported(Phase::Handshaking, earlier);
        let after = reported(Phase::Handshaking, messages);
        let i = choose|i: int| 0 <= i < after.len() && #[trigger] after[i] is ConnectionEstablished;
        if i < before.len() && before[i] is ConnectionEstablished {
            lemma_ready_after_both(earlier);
            let (a, b) = choose|a: int, b: int|
                0 <= a < b < earlier.len() && #[trigger] earlier[a]
                    == ConnectionHandleMessageModel::WebSocketUpgraded && #[trigger] earlier[b]
                    == ConnectionHandleMessageModel::HandleWebRTCEvent(RTCEventModel::Opened);
            assert(messages[a] == earlier[a] && messages[b] == earlier[b]);
        } else {
            assert(phase_after(Phase::Handshaking, earlier) == Phase::Negotiating);
            let b = messages.len() - 1;
            assert(messages[b] == ConnectionHandleMessageModel::HandleWebRTCEvent(
                RTCEventModel::Opened,
            ));
            lemma_upgraded_before_negotiating(earlier);
            let a = choose|a: int|
                0 <= a < earlier.len() && #[trigger] earlier[a]
                    == ConnectionHandleMessageModel::WebSocketUpgraded;
            assert(messages[a] == earlier[a]);
        }
    }
}

/// A connection negotiates or is live only after the WebSocket upgrade has
/// succeeded.
pub proof fn lemma_upgraded_before_negotiating(messages: Seq<ConnectionHandleMessageModel>)
    requires
        phase_after(Phase::Handshaking, messages) == Phase::Negotiating || phase_after(
            Phase::Handshaking,
            messages,
        ) == Phase::Live,
    ensures
        exists|a: int|
            0 <= a < messages.len() && #[trigger] messages[a]
                == ConnectionHandleMessageModel::WebSocketUpgraded,
    decreases messages.len(),
{
    if messages.len() > 0 {
        let earlier = messages.drop_last();
        let phase = phase_after(Phase::Handshaking, earlier);
        if phase == Phase::Negotiating || phase == Phase::Live {
            lemma_upgraded_before_negotiating(earlier);
            let a = choose|a: int|
                0 <= a < earlier.len() && #[trigger] earlier[a]
                    == ConnectionHandleMessageModel::WebSocketUpgraded;
            assert(messages[a] == earlier[a]);
        } else {
            assert(phase == Phase::Handshaking);
            assert(messages[messages.len() - 1]
                == ConnectionHandleMessageModel::WebSocketUpgraded);
        }
    }
}

/// What holds of a run holds of each of its beginnings.
proof fn lemma_no_early_payload_before(messages: Seq<ConnectionHandleMessageModel>)
    requires
        no_early_payload(messages),
        messages.len() > 0,
    ensures
        no_early_payload(messages.drop_last()),
{
    let earlier = messages.drop_last();
    assert forall|k: int|
        0 <= k < earlier.len() && brings_payload(#[trigger] earlier[k]) implies phase_after(
        Phase::Handshaking,
        earlier.take(k),
    ) != Phase::Negotiating by {
        assert(earlier[k] == messages[k]);
        assert(earlier.take(k) =~= messages.take(k));
    }
}

/// Where no payload arrives while the data channel is still being negotiated,
/// every payload is reported after the connection was reported ready.
pub proof fn lemma_payload_after_ready(messages: Seq<ConnectionHandleMessageModel>)
    requires
        no_early_payload(messages),
    ensures
        forall|i: int|
            0 <= i < reported(Phase::Handshaking, messages).len() && is_payload(
                #[trigger] reported(Phase::Handshaking, messages)[i],
            ) ==> exists|j: int|
                0 <= j < i && #[trigger] reported(
                    Phase::Handshaking,
                    messages,
                )[j] is ConnectionEstablished,
    decreases messages.len(),
{
    if messages.len() > 0 {
        let earlier = messages.drop_last();
        lemma_no_early_payload_before(messages);
        lemma_payload_after_ready(earlier);
        lemma_reports_shaped(earlier);
        let phase = phase_after(Phase::Handshaking, earlier);
        let before = reported(Phase::Handshaking, earlier);
        let after = reported(Phase::Handshaking, messages);
        assert forall|i: int| 0 <= i < after.len() && is_payload(#[trigger] after[i]) implies exists|
            j: int,
        |
            0 <= j < i && #[trigger] after[j] is ConnectionEstablished by {
            if i < before.len() {
                assert(after[i] == before[i]);
                let j = choose|j: int| 0 <= j < i && #[trigger] before[j] is ConnectionEstablished;
                assert(after[j] == before[j]);
            } else {
                let last = messages.len() - 1;
                assert(brings_payload(messages[last]));
                assert(messages.take(last) =~= earlier);
                assert(phase == Phase::Live);
                let j = choose|j: int|
                    0 <= j < before.len() && #[trigger] before[j] is ConnectionEstablished;
                assert(after[j] == before[j]);
            }
        }
    }
}

/// A connection that was live once has reported its readiness.
pub proof fn lemma_live_was_reported(messages: Seq<ConnectionHandleMessageModel>)
    requires
        was_live(messages),
    ensures
        exists|i: int|
            0 <= i < reported(Phase::Handshaking, messages).len() && #[trigger] reported(
                Phase::Handshaking,
                messages,
            )[i] is ConnectionEstablished,
    decreases messages.len(),
{
    let k = choose|k: int|
        0 <= k <= messages.len() && phase_after(Phase::Handshaking, #[trigger] messages.take(k))
            == Phase::Live;
    if k == messages.len() {
        assert(messages.take(k) =~= messages);
        lemma_reports_shaped(messages);
    } else {
        let earlier = messages.drop_last();
        assert(earlier.take(k) =~= messages.take(k));
        lemma_live_was_reported(earlier);
        let before = reported(Phase::Handshaking, earlier);
        let after = reported(Phase::Handshaking, messages);
        let i = choose|i: int| 0 <= i < before.len() && #[trigger] before[i] is ConnectionEstablished;
        assert(after[i] == before[i]);
    }
}

} // verus!
