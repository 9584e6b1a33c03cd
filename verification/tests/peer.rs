use net::peer::{
    handle_signalling_message, Actor, PeerAction, PeerFault, ProviderEvent, RTCEvent,
    RTCHandleMessage,
};
use net::signal::{IceCandidateInit, ParseError};

const SDP: &str = "v=0\r\no=- 4596489990601351948 2 IN IP4 127.0.0.1\r\ns=-\r\nt=0 0\r\n";

fn candidate(name: &str) -> IceCandidateInit {
    IceCandidateInit {
        candidate: name.to_string(),
        sdp_mid: Some(String::new()),
        sdp_mline_index: Some(0),
        username_fragment: None,
    }
}

fn candidate_text(name: &str) -> String {
    format!(
        "{{\"sdp\":null,\"candidate\":{{\"candidate\":\"{}\",\"sdpMid\":\"\",\"sdpMLineIndex\":0,\"usernameFragment\":null}}}}",
        name
    )
}

fn signalling(action: &PeerAction) -> &str {
    match action {
        PeerAction::Emit(RTCEvent::EmitSignallingMessage(text)) => text,
        other => panic!("unexpected action {:?}", other),
    }
}

#[test]
fn offer_goes_out_when_it_is_created() {
    let mut actor = Actor::new();
    let out = actor.handle_provider_event(ProviderEvent::OfferCreated("v=0".to_string()));
    assert_eq!(out.len(), 1);
    assert_eq!(signalling(&out[0]), "{\"sdp\":\"v=0\",\"candidate\":null}");
}

#[test]
fn candidates_found_early_wait_for_the_offer() {
    let mut actor = Actor::new();
    assert!(actor
        .handle_provider_event(ProviderEvent::IceCandidate(Some(candidate("one"))))
        .is_empty());
    assert!(actor
        .handle_provider_event(ProviderEvent::IceCandidate(Some(candidate("two"))))
        .is_empty());
    let out = actor.handle_provider_event(ProviderEvent::OfferCreated("v=0".to_string()));
    assert_eq!(out.len(), 3);
    assert_eq!(signalling(&out[0]), "{\"sdp\":\"v=0\",\"candidate\":null}");
    assert_eq!(signalling(&out[1]), candidate_text("one"));
    assert_eq!(signalling(&out[2]), candidate_text("two"));

    // a later candidate goes out at once, and once
    let out = actor.handle_provider_event(ProviderEvent::IceCandidate(Some(candidate("three"))));
    assert_eq!(out.len(), 1);
    assert_eq!(signalling(&out[0]), candidate_text("three"));
}

#[test]
fn second_offer_is_not_sent() {
    let mut actor = Actor::new();
    assert_eq!(
        actor.handle_provider_event(ProviderEvent::OfferCreated("v=0".to_string())).len(),
        1
    );
    assert!(actor
        .handle_provider_event(ProviderEvent::OfferCreated("v=0".to_string()))
        .is_empty());
}

#[test]
fn end_of_candidates_is_passed_over() {
    let mut actor = Actor::new();
    assert!(actor.handle_provider_event(ProviderEvent::IceCandidate(None)).is_empty());
    let _ = actor.handle_provider_event(ProviderEvent::OfferCreated("v=0".to_string()));
    assert!(actor.handle_provider_event(ProviderEvent::IceCandidate(None)).is_empty());
}

#[test]
fn channel_events_are_passed_on() {
    let mut actor = Actor::new();
    let out = actor.handle_provider_event(ProviderEvent::ChannelOpened);
    assert_eq!(out.len(), 1);
    assert!(matches!(out[0], PeerAction::Emit(RTCEvent::Opened)));

    let out = actor.handle_provider_event(ProviderEvent::ChannelMessage(vec![1, 2]));
    assert_eq!(out.len(), 1);
    match &out[0] {
        PeerAction::Emit(RTCEvent::ApplicationMessageReceived(bytes)) => {
            assert_eq!(bytes, &vec![1u8, 2])
        }
        other => panic!("unexpected action {:?}", other),
    }

    let out = actor.handle_provider_event(ProviderEvent::ChannelClosed);
    assert_eq!(out.len(), 1);
    assert!(matches!(out[0], PeerAction::Emit(RTCEvent::Closed)));
}

#[test]
fn datagram_is_sent_on_the_channel() {
    let mut actor = Actor::new();
    match actor.handle_message(RTCHandleMessage::Send(vec![5, 6, 7])) {
        PeerAction::SendDatagram(bytes) => assert_eq!(bytes, vec![5u8, 6, 7]),
        other => panic!("unexpected action {:?}", other),
    }
}

#[test]
fn answer_of_the_client_becomes_remote_description() {
    let mut actor = Actor::new();
    match actor.handle_message(RTCHandleMessage::ReceiveSignalling(SDP.to_string())) {
        PeerAction::SetRemoteDescription(sdp) => assert_eq!(sdp, SDP),
        other => panic!("unexpected action {:?}", other),
    }
}

#[test]
fn candidate_of_the_client_is_added() {
    let mut actor = Actor::new();
    let text = "{\"type\":\"ice\",\"candidate\":{\"candidate\":\"c\",\"sdpMid\":\"0\",\"sdpMLineIndex\":3}}";
    match actor.handle_message(RTCHandleMessage::ReceiveSignalling(text.to_string())) {
        PeerAction::AddIceCandidate(init) => {
            assert_eq!(init.candidate, "c");
            assert_eq!(init.sdp_mid, Some("0".to_string()));
            assert_eq!(init.sdp_mline_index, Some(3));
            assert_eq!(init.username_fragment, None);
        }
        other => panic!("unexpected action {:?}", other),
    }
}

#[test]
fn parse_error_is_reported_and_nothing_else() {
    let mut actor = Actor::new();
    match actor.handle_message(RTCHandleMessage::ReceiveSignalling("not-json".to_string())) {
        PeerAction::Report(fault) => assert_eq!(fault, PeerFault::Parse(ParseError::NotAnObject)),
        other => panic!("unexpected action {:?}", other),
    }
    // the actor goes on as before
    let out = actor.handle_provider_event(ProviderEvent::OfferCreated("v=0".to_string()));
    assert_eq!(out.len(), 1);
}

#[test]
fn signalling_message_is_read_and_applied() {
    match handle_signalling_message(SDP) {
        PeerAction::SetRemoteDescription(sdp) => assert_eq!(sdp, SDP),
        other => panic!("unexpected action {:?}", other),
    }
    match handle_signalling_message("{\"type\":\"answer\"}") {
        PeerAction::Report(fault) => assert_eq!(fault, PeerFault::Parse(ParseError::MissingSdp)),
        other => panic!("unexpected action {:?}", other),
    }
}
