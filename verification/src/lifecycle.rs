//! What the host sees of one connection, from its accept to its end: the
//! connection actor and the server actor taken together.

use vstd::prelude::*;

use crate::connection::{
    lemma_live_was_reported, lemma_payload_after_ready, lemma_ready_after_both,
    lemma_reports_shaped, no_early_payload,
    phase_after, reported, was_live, ConnectionEventModel, ConnectionHandleMessageModel,
    Phase,
};
use crate::event::{EventModel, Identifier};
use crate::peer::RTCEventModel;
use crate::server::{
    host_event, lemma_reports_published, lemma_seen_follows_reports, published_by, relayed,
    reports_of, seen_of, ActorMessageModel,
};

verus! {

/// What the host sees of the connection `id` whose actor handled `messages`
/// in order.
pub open spec fn session(id: Identifier, messages: Seq<ConnectionHandleMessageModel>) -> Seq<
    EventModel,
> {
    reported(Phase::Handshaking, messages).map_values(|e: ConnectionEventModel| host_event(id, e))
}

/// The session of a connection is what the server actor puts on the queue
/// when it is given the reports of that connection.
pub proof fn lemma_session_is_published<H>(
    id: Identifier,
    messages: Seq<ConnectionHandleMessageModel>,
)
    ensures
        published_by(relayed::<H>(id, reported(Phase::Handshaking, messages))) == session(
            id,
            messages,
        ),
{
    lemma_reports_published::<H>(id, reported(Phase::Handshaking, messages));
}

/// Whatever happens to a connection, the host sees `Open` for it at most
/// once and `Closed` at most once, and nothing for it after `Closed`; and it
/// sees `Closed` only when the connection has ended.
pub proof fn lemma_event_order(id: Identifier, messages: Seq<ConnectionHandleMessageModel>)
    ensures
        forall|k: int|
            0 <= k < session(id, messages).len() ==> (#[trigger] session(id, messages)[k]).id()
                == id,
        forall|i: int, j: int|
            0 <= i < j < session(id, messages).len() ==> !(session(id, messages)[i] is Open
                && session(id, messages)[j] is Open),
        forall|i: int|
            0 <= i < session(id, messages).len() && #[trigger] session(
                id,
                messages,
            )[i] is Closed ==> i == session(id, messages).len() - 1 && phase_after(
                Phase::Handshaking,
                messages,
            ) == Phase::Terminated,
{
    lemma_reports_shaped(messages);
    let reports = reported(Phase::Handshaking, messages);
    let seen = session(id, messages);
    assert forall|i: int, j: int| 0 <= i < j < seen.len() implies !(seen[i] is Open
        && seen[j] is Open) by {
        assert(!(reports[i] is ConnectionEstablished && reports[j] is ConnectionEstablished));
    }
    assert forall|i: int| 0 <= i < seen.len() && #[trigger] seen[i] is Closed implies i
        == seen.len() - 1 && phase_after(Phase::Handshaking, messages) == Phase::Terminated by {
        assert(reports[i] is ConnectionTerminated);
    }
}

/// Where no payload arrives while the data channel is still being negotiated,
/// the host sees every payload of a connection after its `Open`.
pub proof fn lemma_received_after_open(id: Identifier, messages: Seq<ConnectionHandleMessageModel>)
    requires
        no_early_payload(messages),
    ensures
        forall|i: int|
            0 <= i < session(id, messages).len() && #[trigger] session(
                id,
                messages,
            )[i] is Received ==> exists|j: int|
                0 <= j < i && #[trigger] session(id, messages)[j] is Open,
{
    lemma_payload_after_ready(messages);
    let reports = reported(Phase::Handshaking, messages);
    let seen = session(id, messages);
    assert forall|i: int| 0 <= i < seen.len() && #[trigger] seen[i] is Received implies exists|
        j: int,
    |
        0 <= j < i && #[trigger] seen[j] is Open by {
        assert(reports[i] is MessageReceived);
        let j = choose|j: int| 0 <= j < i && #[trigger] reports[j] is ConnectionEstablished;
        assert(seen[j] is Open);
    }
}

/// Of a connection that was live and has ended, and to which no payload came
/// while its data channel was still being negotiated, the host sees `Open`
/// first, then payloads and nothing else, and `Closed` last.
pub proof fn lemma_whole_session(id: Identifier, messages: Seq<ConnectionHandleMessageModel>)
    requires
        no_early_payload(messages),
        was_live(messages),
        phase_after(Phase::Handshaking, messages) == Phase::Terminated,
    ensures
        session(id, messages).len() >= 2,
        session(id, messages).first() == EventModel::Open(id),
        session(id, messages).last() == EventModel::Closed(id),
        forall|i: int|
            0 < i < session(id, messages).len() - 1 ==> (#[trigger] session(
                id,
                messages,
            )[i]) is Received && session(id, messages)[i].id() == id,
{
    lemma_reports_shaped(messages);
    lemma_live_was_reported(messages);
    lemma_payload_after_ready(messages);
    let reports = reported(Phase::Handshaking, messages);
    let seen = session(id, messages);
    let ready = choose|i: int| 0 <= i < reports.len() && #[trigger] reports[i] is ConnectionEstablished;
    assert(reports.last() is ConnectionTerminated);
    assert(reports[reports.len() - 1] is ConnectionTerminated);
    assert(ready < reports.len() - 1);
    assert(reports[0] is ConnectionEstablished) by {
        if reports[0] is MessageReceived {
            let j = choose|j: int| 0 <= j < 0 && #[trigger] reports[j] is ConnectionEstablished;
            assert(false);
        }
    }
    assert forall|i: int| 0 < i < seen.len() - 1 implies (#[trigger] seen[i]) is Received
        && seen[i].id() == id by {
        assert(!(reports[0] is ConnectionEstablished && reports[i] is ConnectionEstablished));
        assert(!(reports[i] is ConnectionTerminated));
        assert(reports[i] is MessageReceived);
    }
}

/// Whatever the server actor handles, and in whatever order the reports of
/// its connections reach it: where the reports of `id` among `messages` are
/// those of one connection actor that handled `inputs`, the host sees of `id`
/// the session of that connection.
pub proof fn lemma_session_is_seen<H>(
    id: Identifier,
    inputs: Seq<ConnectionHandleMessageModel>,
    messages: Seq<ActorMessageModel<H>>,
)
    requires
        reports_of(id, messages) == reported(Phase::Handshaking, inputs),
    ensures
        seen_of(id, published_by(messages)) == session(id, inputs),
{
    lemma_seen_follows_reports(id, messages);
}

/// The host sees `Open` for a connection only after the WebSocket upgrade of
/// that connection has succeeded and, later, its data channel has opened.
pub proof fn lemma_open_after_both(id: Identifier, messages: Seq<ConnectionHandleMessageModel>)
    requires
        exists|i: int|
            0 <= i < session(id, messages).len() && #[trigger] session(id, messages)[i] is Open,
    ensures
        exists|a: int, b: int|
            0 <= a < b < messages.len() && #[trigger] messages[a]
                == ConnectionHandleMessageModel::WebSocketUpgraded && #[trigger] messages[b]
                == ConnectionHandleMessageModel::HandleWebRTCEvent(RTCEventModel::Opened),
{
    let reports = reported(Phase::Handshaking, messages);
    let i = choose|i: int|
        0 <= i < session(id, messages).len() && #[trigger] session(id, messages)[i] is Open;
    assert(reports[i] is ConnectionEstablished);
    lemma_ready_after_both(messages);
}

} // verus!
