use net::connection::{
    message_of_stream, Actor, ConnectionAction, ConnectionEvent, ConnectionHandleMessage, Frame,
    Phase, SinkMessage,
};
use net::peer::{RTCEvent, RTCHandleMessage};

fn negotiating(id: u32) -> Actor {
    let mut actor = Actor::new(id);
    assert!(actor.handle_message(ConnectionHandleMessage::WebSocketUpgraded).is_none());
    assert_eq!(actor.get_phase(), Phase::Negotiating);
    actor
}

fn live(id: u32) -> Actor {
    let mut actor = negotiating(id);
    let out = actor.handle_webrtc_event(RTCEvent::Opened);
    assert!(matches!(
        out,
        Some(ConnectionAction::Emit(ConnectionEvent::ConnectionEstablished))
    ));
    assert_eq!(actor.get_phase(), Phase::Live);
    actor
}

#[test]
fn connection_starts_handshaking() {
    let actor = Actor::new(5);
    assert_eq!(actor.get_id(), 5);
    assert_eq!(actor.get_phase(), Phase::Handshaking);
    assert!(!actor.is_terminated());
}

#[test]
fn refused_upgrade_ends_in_silence() {
    let mut actor = Actor::new(0);
    assert!(actor.handle_message(ConnectionHandleMessage::WebSocketRefused).is_none());
    assert!(actor.is_terminated());
    // nothing is reported afterwards, whatever comes
    assert!(actor.handle_webrtc_event(RTCEvent::Opened).is_none());
    assert!(actor.handle_message(ConnectionHandleMessage::ReceiveWebSocketClose).is_none());
    assert!(actor.is_terminated());
}

#[test]
fn readiness_needs_upgrade_and_open_channel() {
    let mut actor = Actor::new(0);
    // the data channel cannot count before the WebSocket is up
    assert!(actor.handle_webrtc_event(RTCEvent::Opened).is_none());
    assert_eq!(actor.get_phase(), Phase::Handshaking);
    assert!(actor.handle_message(ConnectionHandleMessage::WebSocketUpgraded).is_none());
    assert_eq!(actor.get_phase(), Phase::Negotiating);
    let out = actor.handle_message(ConnectionHandleMessage::HandleWebRTCEvent(RTCEvent::Opened));
    assert!(matches!(
        out,
        Some(ConnectionAction::Emit(ConnectionEvent::ConnectionEstablished))
    ));
    assert_eq!(actor.get_phase(), Phase::Live);
}

#[test]
fn readiness_is_reported_once() {
    let mut actor = live(0);
    assert!(actor.handle_webrtc_event(RTCEvent::Opened).is_none());
    assert_eq!(actor.get_phase(), Phase::Live);
}

#[test]
fn reliable_send_becomes_binary_frame() {
    let mut actor = live(0);
    match actor.handle_message(ConnectionHandleMessage::SendReliable(vec![0xAA])) {
        Some(ConnectionAction::Transmit(SinkMessage::Data(bytes))) => assert_eq!(bytes, vec![0xAAu8]),
        other => panic!("unexpected action {:?}", other),
    }
}

#[test]
fn unreliable_send_goes_to_the_peer() {
    let mut actor = live(0);
    match actor.handle_message(ConnectionHandleMessage::SendUnreliable(vec![1, 2, 3])) {
        Some(ConnectionAction::Forward(RTCHandleMessage::Send(bytes))) => {
            assert_eq!(bytes, vec![1u8, 2, 3])
        }
        other => panic!("unexpected action {:?}", other),
    }
}

#[test]
fn binary_frame_is_reported_as_payload() {
    let mut actor = live(0);
    let message = message_of_stream(Ok(Frame::Binary(vec![0x01, 0x02]))).unwrap();
    match actor.handle_message(message) {
        Some(ConnectionAction::Emit(ConnectionEvent::MessageReceived(bytes))) => {
            assert_eq!(bytes, vec![0x01u8, 0x02])
        }
        other => panic!("unexpected action {:?}", other),
    }
    assert_eq!(actor.get_phase(), Phase::Live);
}

#[test]
fn datagram_is_reported_as_payload() {
    let mut actor = live(0);
    match actor.handle_webrtc_event(RTCEvent::ApplicationMessageReceived(vec![4, 5])) {
        Some(ConnectionAction::Emit(ConnectionEvent::MessageReceived(bytes))) => {
            assert_eq!(bytes, vec![4u8, 5])
        }
        other => panic!("unexpected action {:?}", other),
    }
}

#[test]
fn text_frame_goes_to_the_peer_as_signalling() {
    let mut actor = negotiating(0);
    let message = message_of_stream(Ok(Frame::Text("not-json".to_string()))).unwrap();
    match actor.handle_message(message) {
        Some(ConnectionAction::Forward(RTCHandleMessage::ReceiveSignalling(text))) => {
            assert_eq!(text, "not-json")
        }
        other => panic!("unexpected action {:?}", other),
    }
    assert_eq!(actor.get_phase(), Phase::Negotiating);
}

#[test]
fn signalling_of_the_peer_becomes_text_frame() {
    let mut actor = negotiating(0);
    match actor.handle_webrtc_event(RTCEvent::EmitSignallingMessage("offer".to_string())) {
        Some(ConnectionAction::Transmit(SinkMessage::Signalling(text))) => assert_eq!(text, "offer"),
        other => panic!("unexpected action {:?}", other),
    }
}

#[test]
fn pings_and_pongs_ask_for_nothing() {
    assert!(message_of_stream(Ok(Frame::Ping)).is_none());
    assert!(message_of_stream(Ok(Frame::Pong)).is_none());
    assert!(message_of_stream(Ok(Frame::Raw)).is_none());
}

#[test]
fn close_frame_and_stream_failure_both_close() {
    assert!(matches!(
        message_of_stream(Ok(Frame::Close)),
        Some(ConnectionHandleMessage::ReceiveWebSocketClose)
    ));
    assert!(matches!(
        message_of_stream(Err(())),
        Some(ConnectionHandleMessage::ReceiveWebSocketClose)
    ));
}

#[test]
fn websocket_close_terminates_once() {
    let mut actor = live(0);
    let out = actor.handle_message(ConnectionHandleMessage::ReceiveWebSocketClose);
    assert!(matches!(
        out,
        Some(ConnectionAction::Emit(ConnectionEvent::ConnectionTerminated))
    ));
    assert!(actor.is_terminated());
    assert!(actor.handle_message(ConnectionHandleMessage::ReceiveWebSocketClose).is_none());
    assert!(actor.handle_webrtc_event(RTCEvent::Closed).is_none());
    assert!(actor.handle_message(ConnectionHandleMessage::HandleDropped).is_none());
    assert!(actor.handle_message(ConnectionHandleMessage::SendReliable(vec![1])).is_none());
    assert!(actor.is_terminated());
}

#[test]
fn peer_transport_loss_terminates() {
    let mut actor = live(3);
    let out = actor.handle_webrtc_event(RTCEvent::Closed);
    assert!(matches!(
        out,
        Some(ConnectionAction::Emit(ConnectionEvent::ConnectionTerminated))
    ));
    assert!(actor.is_terminated());
    assert_eq!(actor.get_id(), 3);
}

#[test]
fn dropped_handle_terminates() {
    let mut actor = negotiating(0);
    let out = actor.handle_message(ConnectionHandleMessage::HandleDropped);
    assert!(matches!(
        out,
        Some(ConnectionAction::Emit(ConnectionEvent::ConnectionTerminated))
    ));
    assert!(actor.is_terminated());
}

#[test]
fn nothing_is_passed_on_before_the_upgrade() {
    let mut actor = Actor::new(0);
    assert!(actor.handle_message(ConnectionHandleMessage::SendReliable(vec![1])).is_none());
    assert!(actor.handle_message(ConnectionHandleMessage::SendUnreliable(vec![1])).is_none());
    assert!(actor
        .handle_message(ConnectionHandleMessage::ReceiveSignalling("x".to_string()))
        .is_none());
    assert!(actor
        .handle_message(ConnectionHandleMessage::ReceiveApplicationMessage(vec![1]))
        .is_none());
    assert!(actor
        .handle_webrtc_event(RTCEvent::EmitSignallingMessage("x".to_string()))
        .is_none());
    assert!(actor
        .handle_webrtc_event(RTCEvent::ApplicationMessageReceived(vec![1]))
        .is_none());
    assert_eq!(actor.get_phase(), Phase::Handshaking);
}

#[test]
fn late_upgrade_reports_change_nothing() {
    let mut actor = live(0);
    assert!(actor.handle_message(ConnectionHandleMessage::WebSocketUpgraded).is_none());
    assert!(actor.handle_message(ConnectionHandleMessage::WebSocketRefused).is_none());
    assert_eq!(actor.get_phase(), Phase::Live);
}
