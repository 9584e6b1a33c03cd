//! The peer actor: one WebRTC peer connection and its data channel, the
//! signalling that sets them up, and the datagrams that cross them.

use vstd::prelude::*;

use crate::signal::{
    candidate_message, generate_ice_candidate_message, generate_sdp_offer_message, offer_message,
    parse_signalling_message, parsed, IceCandidateInit, IceCandidateInitModel,
    IncomingSignallingMessage, IncomingSignallingMessageModel, ParseError,
};

verus! {

/// What a peer actor tells the connection actor that owns it.
#[derive(Debug)]
pub enum RTCEvent {
    /// The data channel reached the open state.
    Opened,
    /// The data channel reached the closed state.
    Closed,
    /// A datagram arrived on the data channel.
    ApplicationMessageReceived(Vec<u8>),
    /// A signalling message to pass to the client as it is.
    EmitSignallingMessage(String),
}

/// The mathematical value of an [`RTCEvent`].
pub ghost enum RTCEventModel {
    Opened,
    Closed,
    ApplicationMessageReceived(Seq<u8>),
    EmitSignallingMessage(Seq<char>),
}

impl View for RTCEvent {
    type V = RTCEventModel;

    open spec fn view(&self) -> RTCEventModel {
        match self {
            RTCEvent::Opened => RTCEventModel::Opened,
            RTCEvent::Closed => RTCEventModel::Closed,
            RTCEvent::ApplicationMessageReceived(bytes) => {
                RTCEventModel::ApplicationMessageReceived(bytes@)
            },
            RTCEvent::EmitSignallingMessage(text) => RTCEventModel::EmitSignallingMessage(text@),
        }
    }
}

/// What a peer actor is asked to do by the connection actor that owns it.
#[derive(Debug)]
pub enum RTCHandleMessage {
    /// Send the datagram on the data channel.
    Send(Vec<u8>),
    /// Apply the signalling message that the client sent.
    ReceiveSignalling(String),
}

/// The mathematical value of an [`RTCHandleMessage`].
pub ghost enum RTCHandleMessageModel {
    Send(Seq<u8>),
    ReceiveSignalling(Seq<char>),
}

impl View for RTCHandleMessage {
    type V = RTCHandleMessageModel;

    open spec fn view(&self) -> RTCHandleMessageModel {
        match self {
            RTCHandleMessage::Send(bytes) => RTCHandleMessageModel::Send(bytes@),
            RTCHandleMessage::ReceiveSignalling(text) => RTCHandleMessageModel::ReceiveSignalling(
                text@,
            ),
        }
    }
}

/// What the peer-connection provider tells the peer actor.
#[derive(Debug)]
pub enum ProviderEvent {
    /// The local offer was created and installed as the local description.
    OfferCreated(String),
    /// A local ICE candidate was found; `None` marks the end of the search.
    IceCandidate(Option<IceCandidateInit>),
    ChannelOpened,
    ChannelClosed,
    ChannelMessage(Vec<u8>),
}

/// The mathematical value of a [`ProviderEvent`].
pub ghost enum ProviderEventModel {
    OfferCreated(Seq<char>),
    IceCandidate(Option<IceCandidateInitModel>),
    ChannelOpened,
    ChannelClosed,
    ChannelMessage(Seq<u8>),
}

impl View for ProviderEvent {
    type V = ProviderEventModel;

    open spec fn view(&self) -> ProviderEventModel {
        match self {
            ProviderEvent::OfferCreated(sdp) => ProviderEventModel::OfferCreated(sdp@),
            ProviderEvent::IceCandidate(Some(candidate)) => ProviderEventModel::IceCandidate(
                Some(candidate@),
            ),
            ProviderEvent::IceCandidate(None) => ProviderEventModel::IceCandidate(None),
            ProviderEvent::ChannelOpened => ProviderEventModel::ChannelOpened,
            ProviderEvent::ChannelClosed => ProviderEventModel::ChannelClosed,
            ProviderEvent::ChannelMessage(bytes) => ProviderEventModel::ChannelMessage(bytes@),
        }
    }
}

/// What went wrong in the peer actor. None of these ends the connection.
#[derive(Clone, Copy, Debug, PartialEq, Eq, Structural)]
pub enum PeerFault {
    /// A signalling message of the client could not be read.
    Parse(ParseError),
    /// The local offer could not be written as a signalling message.
    OfferNotWritten,
    /// A local candidate could not be written as a signalling message.
    CandidateNotWritten,
}

/// What the peer actor wants done.
#[derive(Debug)]
pub enum PeerAction {
    /// Report the event to the connection actor.
    Emit(RTCEvent),
    /// Send the datagram on the data channel.
    SendDatagram(Vec<u8>),
    /// Install the client's answer as the remote description.
    SetRemoteDescription(String),
    /// Add the client's ICE candidate.
    AddIceCandidate(IceCandidateInit),
    /// Log the fault.
    Report(PeerFault),
}

/// The mathematical value of a [`PeerAction`].
pub ghost enum PeerActionModel {
    Emit(RTCEventModel),
    SendDatagram(Seq<u8>),
    SetRemoteDescription(Seq<char>),
    AddIceCandidate(IceCandidateInitModel),
    Report(PeerFault),
}

impl View for PeerAction {
    type V = PeerActionModel;

    open spec fn view(&self) -> PeerActionModel {
        match self {
            PeerAction::Emit(event) => PeerActionModel::Emit(event@),
            PeerAction::SendDatagram(bytes) => PeerActionModel::SendDatagram(bytes@),
            PeerAction::SetRemoteDescription(sdp) => PeerActionModel::SetRemoteDescription(sdp@),
            PeerAction::AddIceCandidate(candidate) => PeerActionModel::AddIceCandidate(candidate@),
            PeerAction::Report(fault) => PeerActionModel::Report(*fault),
        }
    }
}

/// What a peer actor remembers.
pub ghost struct PeerState {
    /// Whether the local offer has gone out.
    pub offered: bool,
    /// The candidate messages that wait for the offer to go out first.
    pub pending: Seq<Seq<char>>,
}

/// The action that passes a signalling message on to the client.
pub open spec fn signal(text: Seq<char>) -> PeerActionModel {
    PeerActionModel::Emit(RTCEventModel::EmitSignallingMessage(text))
}

/// What the actor does with what the provider tells it.
///
/// The offer goes out as soon as it is there, and right behind it the
/// candidates that were found before it. A candidate found later goes out at
/// once. The events of the data channel are passed on as they are.
pub open spec fn provider_actions(state: PeerState, event: ProviderEventModel) -> Seq<
    PeerActionModel,
> {
    match event {
        ProviderEventModel::OfferCreated(sdp) => {
            if state.offered {
                Seq::empty()
            } else {
                match offer_message(sdp) {
                    Some(text) => seq![signal(text)] + state.pending.map_values(
                        |t: Seq<char>| signal(t),
                    ),
                    None => seq![PeerActionModel::Report(PeerFault::OfferNotWritten)],
                }
            }
        },
        ProviderEventModel::IceCandidate(None) => Seq::empty(),
        ProviderEventModel::IceCandidate(Some(candidate)) => {
            match candidate_message(candidate) {
                Some(text) => if state.offered {
                    seq![signal(text)]
                } else {
                    Seq::empty()
                },
                None => seq![PeerActionModel::Report(PeerFault::CandidateNotWritten)],
            }
        },
        ProviderEventModel::ChannelOpened => seq![PeerActionModel::Emit(RTCEventModel::Opened)],
        ProviderEventModel::ChannelClosed => seq![PeerActionModel::Emit(RTCEventModel::Closed)],
        ProviderEventModel::ChannelMessage(bytes) => seq![
            PeerActionModel::Emit(RTCEventModel::ApplicationMessageReceived(bytes)),
        ],
    }
}

/// What the actor remembers after what the provider told it.
pub open spec fn provider_state(state: PeerState, event: ProviderEventModel) -> PeerState {
    match event {
        ProviderEventModel::OfferCreated(sdp) => {
            if !state.offered && offer_message(sdp).is_some() {
                PeerState { offered: true, pending: Seq::empty() }
            } else {
                state
            }
        },
        ProviderEventModel::IceCandidate(Some(candidate)) => {
            match candidate_message(candidate) {
                Some(text) => if state.offered {
                    state
                } else {
                    PeerState { offered: false, pending: state.pending.push(text) }
                },
                None => state,
            }
        },
        _ => state,
    }
}

/// What the actor does with a message of the connection actor: a datagram is
/// sent, and a signalling message of the client is read and applied, or the
/// fault reported where it cannot be read.
pub open spec fn command_action(message: RTCHandleMessageModel) -> PeerActionModel {
    match message {
        RTCHandleMessageModel::Send(bytes) => PeerActionModel::SendDatagram(bytes),
        RTCHandleMessageModel::ReceiveSignalling(text) => match parsed(text) {
            Ok(IncomingSignallingMessageModel::SDP(sdp)) => PeerActionModel::SetRemoteDescription(
                sdp,
            ),
            Ok(IncomingSignallingMessageModel::ICECandidate(candidate)) => {
                PeerActionModel::AddIceCandidate(candidate)
            },
            Err(e) => PeerActionModel::Report(PeerFault::Parse(e)),
        },
    }
}

/// Reads a signalling message of the client and says how to apply it to the
/// peer connection, or which fault to log where it cannot be read.
pub fn handle_signalling_message(message: &str) -> (action: PeerAction)
    ensures
        action@ == command_action(RTCHandleMessageModel::ReceiveSignalling(message@)),
{
    match parse_signalling_message(message) {
        Ok(IncomingSignallingMessage::SDP(sdp)) => PeerAction::SetRemoteDescription(sdp),
        Ok(IncomingSignallingMessage::ICECandidate(candidate)) => PeerAction::AddIceCandidate(
            candidate,
        ),
        Err(e) => PeerAction::Report(PeerFault::Parse(e)),
    }
}

/// The peer actor of one connection.
pub struct Actor {
    offered: bool,
    pending: Vec<String>,
}

impl View for Actor {
    type V = PeerState;

    closed spec fn view(&self) -> PeerState {
        PeerState { offered: self.offered, pending: self.pending@.map_values(|t: String| t@) }
    }
}

/// The mathematical value of a list of actions.
pub open spec fn actions_of(actions: Seq<PeerAction>) -> Seq<PeerActionModel> {
    actions.map_values(|a: PeerAction| a@)
}

impl Actor {
    /// An actor whose offer has not gone out.
    pub fn new() -> (actor: Self)
        ensures
            actor@ == (PeerState { offered: false, pending: Seq::empty() }),
    {
        let actor = Actor { offered: false, pending: Vec::new() };
        assert(actor@.pending =~= Seq::empty());
        actor
    }

    /// Handles a message of the connection actor.
    pub fn handle_message(&mut self, message: RTCHandleMessage) -> (action: PeerAction)
        ensures
            final(self)@ == old(self)@,
            action@ == command_action(message@),
    {
        match message {
            RTCHandleMessage::Send(bytes) => PeerAction::SendDatagram(bytes),
            RTCHandleMessage::ReceiveSignalling(text) => handle_signalling_message(text.as_str()),
        }
    }

    /// Sends out the offer message and, behind it, the candidate messages that
    /// waited for it.
    fn release(&mut self, offer: String) -> (out: Vec<PeerAction>)
        requires
            !old(self)@.offered,
        ensures
            final(self)@ == (PeerState { offered: true, pending: Seq::empty() }),
            actions_of(out@) == seq![signal(offer@)] + old(self)@.pending.map_values(
                |t: Seq<char>| signal(t),
            ),
    {
        let mut out: Vec<PeerAction> = Vec::new();
        out.push(PeerAction::Emit(RTCEvent::EmitSignallingMessage(offer)));
        self.offered = true;
        let ghost waiting = old(self)@.pending;
        let ghost mut sent: int = 0;
        assert(actions_of(out@) =~= seq![signal(offer@)] + waiting.take(0).map_values(
            |t: Seq<char>| signal(t),
        ));
        assert(waiting.skip(0) =~= waiting);
        while self.pending.len() > 0
            invariant
                self.offered,
                0 <= sent <= waiting.len(),
                self@.pending == waiting.skip(sent),
                actions_of(out@) == seq![signal(offer@)] + waiting.take(sent).map_values(
                    |t: Seq<char>| signal(t),
                ),
            decreases self.pending.len(),
        {
            let ghost before = self@.pending;
            assert(before.len() == self.pending@.len());
            assert(sent < waiting.len());
            assert(before[0] == waiting[sent]);
            let text = self.pending.remove(0);
            assert(text@ == before[0]);
            assert(self@.pending =~= waiting.skip(sent + 1)) by {
                assert(self@.pending =~= before.remove(0));
            }
            let ghost sofar = out@;
            out.push(PeerAction::Emit(RTCEvent::EmitSignallingMessage(text)));
            assert(actions_of(out@) =~= actions_of(sofar).push(signal(text@)));
            assert(waiting.take(sent + 1) =~= waiting.take(sent).push(waiting[sent]));
            assert(actions_of(out@) =~= seq![signal(offer@)] + waiting.take(sent + 1).map_values(
                |t: Seq<char>| signal(t),
            ));
            proof {
                sent = sent + 1;
            }
        }
        assert(waiting.take(sent) =~= waiting);
        assert(self@.pending =~= Seq::empty());
        out
    }

    /// Handles what the provider tells: returns what is to be done, in order.
    pub fn handle_provider_event(&mut self, event: ProviderEvent) -> (out: Vec<PeerAction>)
        ensures
            final(self)@ == provider_state(old(self)@, event@),
            actions_of(out@) == provider_actions(old(self)@, event@),
            out@.len() == provider_actions(old(self)@, event@).len(),
    {
        let mut out: Vec<PeerAction> = Vec::new();
        match event {
            ProviderEvent::OfferCreated(sdp) => {
                if !self.offered {
                    match generate_sdp_offer_message(sdp.as_str()) {
                        Some(text) => {
                            out = self.release(text);
                        },
                        None => {
                            out.push(PeerAction::Report(PeerFault::OfferNotWritten));
                        },
                    }
                }
            },
            ProviderEvent::IceCandidate(None) => {},
            ProviderEvent::IceCandidate(Some(candidate)) => {
                match generate_ice_candidate_message(candidate) {
                    Some(text) => {
                        if self.offered {
                            out.push(PeerAction::Emit(RTCEvent::EmitSignallingMessage(text)));
                        } else {
                            self.pending.push(text);
                            assert(self@.pending =~= old(self)@.pending.push(text@));
                        }
                    },
                    None => {
                        out.push(PeerAction::Report(PeerFault::CandidateNotWritten));
                    },
                }
            },
            ProviderEvent::ChannelOpened => {
                out.push(PeerAction::Emit(RTCEvent::Opened));
            },
            ProviderEvent::ChannelClosed => {
                out.push(PeerAction::Emit(RTCEvent::Closed));
            },
            ProviderEvent::ChannelMessage(bytes) => {
                out.push(PeerAction::Emit(RTCEvent::ApplicationMessageReceived(bytes)));
            },
        }
        assert(actions_of(out@) =~= provider_actions(old(self)@, event@));
        out
    }
}

/// What the actor remembers after the provider told it `events` in order.
pub open spec fn state_after(state: PeerState, events: Seq<ProviderEventModel>) -> PeerState
    decreases events.len(),
{
    if events.len() == 0 {
        state
    } else {
        provider_state(state_after(state, events.drop_last()), events.last())
    }
}

/// What the actor did while the provider told it `events` in order.
pub open spec fn actions_after(state: PeerState, events: Seq<ProviderEventModel>) -> Seq<
    PeerActionModel,
>
    decreases events.len(),
{
    if events.len() == 0 {
        Seq::empty()
    } else {
        actions_after(state, events.drop_last()) + provider_actions(
            state_after(state, events.drop_last()),
            events.last(),
        )
    }
}

/// Whether the action passes a signalling message on to the client.
pub open spec fn is_signal(action: PeerActionModel) -> bool {
    action matches PeerActionModel::Emit(event) && event is EmitSignallingMessage
}

/// Whether the action at `k` is the first of `actions` that passes a
/// signalling message on.
pub open spec fn first_signal_at(actions: Seq<PeerActionModel>, k: int) -> bool {
    &&& 0 <= k < actions.len()
    &&& is_signal(actions[k])
    &&& forall|j: int| 0 <= j < k ==> !is_signal(#[trigger] actions[j])
}

/// The message that carries the offer which `event` brought, if it brought
/// one that can be written.
pub open spec fn offer_of(event: ProviderEventModel) -> Option<Seq<char>> {
    match event {
        ProviderEventModel::OfferCreated(sdp) => offer_message(sdp),
        _ => None,
    }
}

/// Whether `action` passes on the offer that one of `events` brought.
pub open spec fn carries_offer(action: PeerActionModel, events: Seq<ProviderEventModel>) -> bool {
    exists|e: int|
        0 <= e < events.len() && (#[trigger] offer_of(events[e])).is_some() && action == signal(
            offer_of(events[e]).unwrap(),
        )
}

/// The state of an actor that has done nothing yet.
pub open spec fn fresh() -> PeerState {
    PeerState { offered: false, pending: Seq::empty() }
}

/// While the offer has not gone out nothing is passed on to the client, and
/// once it has, something was.
proof fn lemma_silent_until_offered(events: Seq<ProviderEventModel>)
    ensures
        !state_after(fresh(), events).offered ==> forall|k: int|
            0 <= k < actions_after(fresh(), events).len() ==> !is_signal(
                #[trigger] actions_after(fresh(), events)[k],
            ),
        state_after(fresh(), events).offered ==> exists|k: int|
            first_signal_at(actions_after(fresh(), events), k),
        forall|k: int| #[trigger]
            first_signal_at(actions_after(fresh(), events), k) ==> carries_offer(
                actions_after(fresh(), events)[k],
                events,
            ),
    decreases events.len(),
{
    if events.len() > 0 {
        let earlier = events.drop_last();
        lemma_silent_until_offered(earlier);
        let state = state_after(fresh(), earlier);
        let before = actions_after(fresh(), earlier);
        let step = provider_actions(state, events.last());
        let after = actions_after(fresh(), events);
        assert(after == before + step);
        assert(forall|k: int| 0 <= k < before.len() ==> after[k] == before[k]);
        assert(forall|k: int| 0 <= k < step.len() ==> after[before.len() + k] == step[k]);
        if state.offered {
            let first = choose|k: int| first_signal_at(before, k);
            assert(first_signal_at(after, first));
            assert forall|k: int| #[trigger] first_signal_at(after, k) implies carries_offer(
                after[k],
                events,
            ) by {
                if k > first {
                    assert(!is_signal(after[first]));
                }
                if k < first {
                    assert(!is_signal(before[k]));
                }
                assert(first_signal_at(before, k));
                lemma_carries_on(before[k], events);
            }
        } else {
            match events.last() {
                ProviderEventModel::OfferCreated(sdp) => {
                    if offer_message(sdp).is_some() {
                        let at = before.len() as int;
                        assert(step[0] == signal(offer_message(sdp).unwrap()));
                        assert(after[at] == step[0]);
                        assert(first_signal_at(after, at));
                        assert forall|k: int| #[trigger] first_signal_at(after, k) implies carries_offer(
                            after[k],
                            events,
                        ) by {
                            if k < at {
                                assert(!is_signal(before[k]));
                            }
                            if k > at {
                                assert(!is_signal(after[at]));
                            }
                            assert(offer_of(events[events.len() - 1]) == offer_message(sdp));
                        }
                    } else {
                        assert(forall|k: int| 0 <= k < step.len() ==> !is_signal(step[k]));
                        assert(forall|k: int|
                            before.len() <= k < after.len() ==> after[k] == step[k - before.len()]);
                    }
                },
                _ => {
                    assert(forall|k: int| 0 <= k < step.len() ==> !is_signal(step[k]));
                    assert(forall|k: int|
                        before.len() <= k < after.len() ==> after[k] == step[k - before.len()]);
                },
            }
        }
    }
}

/// An offer that one of the earlier events brought is among all the events.
proof fn lemma_carries_on(action: PeerActionModel, events: Seq<ProviderEventModel>)
    requires
        events.len() > 0,
        carries_offer(action, events.drop_last()),
    ensures
        carries_offer(action, events),
{
    let earlier = events.drop_last();
    let e = choose|e: int|
        0 <= e < earlier.len() && (#[trigger] offer_of(earlier[e])).is_some() && action == signal(
            offer_of(earlier[e]).unwrap(),
        );
    assert(events[e] == earlier[e]);
    assert(offer_of(events[e]).is_some());
}

/// The first signalling message that a peer actor passes on to the client is
/// the local offer.
pub proof fn lemma_offer_goes_first(events: Seq<ProviderEventModel>, k: int)
    requires
        first_signal_at(actions_after(fresh(), events), k),
    ensures
        carries_offer(actions_after(fresh(), events)[k], events),
{
    lemma_silent_until_offered(events);
}

} // verus!
