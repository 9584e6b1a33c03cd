use net::signal::{
    begins_session_description, find_member, generate_ice_candidate_message,
    generate_sdp_offer_message, parse_signalling_message, read_signalling_object, IceCandidateInit,
    IncomingSignallingMessage, ParseError,
};

const SDP: &str = "v=0\r\no=- 4596489990601351948 2 IN IP4 127.0.0.1\r\ns=-\r\nt=0 0\r\n";

fn text(s: &str) -> String {
    s.to_string()
}

#[test]
fn raw_session_description_is_an_answer() {
    match parse_signalling_message(SDP) {
        Ok(IncomingSignallingMessage::SDP(body)) => assert_eq!(body, SDP),
        other => panic!("unexpected outcome {:?}", other),
    }
}

#[test]
fn raw_session_description_that_does_not_parse_is_refused() {
    assert_eq!(
        parse_signalling_message("v=0 and nothing else").err(),
        Some(ParseError::InvalidSdp)
    );
}

#[test]
fn answer_object_carries_the_description() {
    let message = serde_json::to_string(&serde_json::Value::Object({
        let mut m = serde_json::Map::new();
        m.insert(text("type"), serde_json::Value::String(text("answer")));
        m.insert(text("sdp"), serde_json::Value::String(text(SDP)));
        m
    }))
    .unwrap();
    match parse_signalling_message(&message) {
        Ok(IncomingSignallingMessage::SDP(body)) => assert_eq!(body, SDP),
        other => panic!("unexpected outcome {:?}", other),
    }
}

#[test]
fn candidate_object_carries_the_candidate() {
    let message = "{\"type\":\"ice\",\"candidate\":{\"candidate\":\"candidate:1 1 udp 2130706431 192.168.1.2 50000 typ host\",\"sdpMid\":\"0\",\"sdpMLineIndex\":0,\"usernameFragment\":null}}";
    match parse_signalling_message(message) {
        Ok(IncomingSignallingMessage::ICECandidate(init)) => {
            assert_eq!(
                init.candidate,
                "candidate:1 1 udp 2130706431 192.168.1.2 50000 typ host"
            );
            assert_eq!(init.sdp_mid, Some(text("0")));
            assert_eq!(init.sdp_mline_index, Some(0));
            assert_eq!(init.username_fragment, None);
        }
        other => panic!("unexpected outcome {:?}", other),
    }
}

#[test]
fn candidate_with_escapes_and_spaces_is_read() {
    let message = " { \"candidate\" : { \"candidate\" : \"a\\\"b\\u0041\", \"sdpMid\" : null, \"sdpMLineIndex\" : 65535, \"usernameFragment\" : \"uf\" } , \"type\" : \"ice\" } ";
    match parse_signalling_message(message) {
        Ok(IncomingSignallingMessage::ICECandidate(init)) => {
            assert_eq!(init.candidate, "a\"bA");
            assert_eq!(init.sdp_mid, None);
            assert_eq!(init.sdp_mline_index, Some(65535));
            assert_eq!(init.username_fragment, Some(text("uf")));
        }
        other => panic!("unexpected outcome {:?}", other),
    }
}

#[test]
fn text_that_is_no_json_is_refused() {
    assert_eq!(parse_signalling_message("not-json").err(), Some(ParseError::NotAnObject));
    assert_eq!(parse_signalling_message("").err(), Some(ParseError::NotAnObject));
    assert_eq!(parse_signalling_message("{\"type\":").err(), Some(ParseError::NotAnObject));
}

#[test]
fn json_that_is_no_object_is_refused() {
    assert_eq!(parse_signalling_message("[1,2]").err(), Some(ParseError::NotAnObject));
    assert_eq!(parse_signalling_message("\"ice\"").err(), Some(ParseError::NotAnObject));
    assert_eq!(parse_signalling_message("null").err(), Some(ParseError::NotAnObject));
}

#[test]
fn object_without_type_is_refused() {
    assert_eq!(parse_signalling_message("{}").err(), Some(ParseError::MissingType));
    assert_eq!(
        parse_signalling_message("{\"sdp\":\"v=0\",\"candidate\":null}").err(),
        Some(ParseError::MissingType)
    );
}

#[test]
fn other_types_are_refused() {
    assert_eq!(
        parse_signalling_message("{\"type\":\"offer\",\"sdp\":\"x\"}").err(),
        Some(ParseError::UnknownType)
    );
    assert_eq!(parse_signalling_message("{\"type\":5}").err(), Some(ParseError::UnknownType));
    assert_eq!(parse_signalling_message("{\"type\":null}").err(), Some(ParseError::UnknownType));
    assert_eq!(parse_signalling_message("{\"type\":\"ICE\"}").err(), Some(ParseError::UnknownType));
}

#[test]
fn candidate_object_without_candidate_is_refused() {
    assert_eq!(
        parse_signalling_message("{\"type\":\"ice\"}").err(),
        Some(ParseError::MissingCandidate)
    );
}

#[test]
fn candidate_that_is_no_initialiser_is_refused() {
    assert_eq!(
        parse_signalling_message("{\"type\":\"ice\",\"candidate\":\"text\"}").err(),
        Some(ParseError::InvalidCandidate)
    );
    assert_eq!(
        parse_signalling_message("{\"type\":\"ice\",\"candidate\":{\"sdpMid\":\"0\"}}").err(),
        Some(ParseError::InvalidCandidate)
    );
    assert_eq!(
        parse_signalling_message(
            "{\"type\":\"ice\",\"candidate\":{\"candidate\":\"c\",\"sdpMLineIndex\":65536}}"
        )
        .err(),
        Some(ParseError::InvalidCandidate)
    );
}

#[test]
fn answer_object_without_sdp_is_refused() {
    assert_eq!(
        parse_signalling_message("{\"type\":\"answer\"}").err(),
        Some(ParseError::MissingSdp)
    );
}

#[test]
fn answer_whose_sdp_is_no_string_is_refused() {
    assert_eq!(
        parse_signalling_message("{\"type\":\"answer\",\"sdp\":7}").err(),
        Some(ParseError::SdpNotAString)
    );
    assert_eq!(
        parse_signalling_message("{\"type\":\"answer\",\"sdp\":null}").err(),
        Some(ParseError::SdpNotAString)
    );
}

#[test]
fn answer_whose_sdp_does_not_parse_is_refused() {
    assert_eq!(
        parse_signalling_message("{\"type\":\"answer\",\"sdp\":\"nonsense\"}").err(),
        Some(ParseError::InvalidSdp)
    );
}

#[test]
fn session_description_is_known_by_its_first_three_characters() {
    assert!(begins_session_description("v=0"));
    assert!(begins_session_description("v=0\r\nrest"));
    assert!(!begins_session_description("v=1"));
    assert!(!begins_session_description("v="));
    assert!(!begins_session_description(""));
    assert!(!begins_session_description(" v=0"));
    assert!(!begins_session_description("{\"sdp\":\"v=0\"}"));
}

#[test]
fn first_member_of_a_name_is_found() {
    let members = vec![
        (text("a"), text("1")),
        (text("type"), text("\"ice\"")),
        (text("type"), text("\"answer\"")),
    ];
    assert_eq!(find_member(&members, "type"), Some(text("\"ice\"")));
    assert_eq!(find_member(&members, "a"), Some(text("1")));
    assert_eq!(find_member(&members, "b"), None);
    assert_eq!(find_member(&Vec::new(), "type"), None);
}

#[test]
fn members_are_read_as_a_signalling_message() {
    let members = vec![
        (text("candidate"), text("{\"candidate\":\"c\"}")),
        (text("type"), text("\"ice\"")),
    ];
    match read_signalling_object(&members) {
        Ok(IncomingSignallingMessage::ICECandidate(init)) => {
            assert_eq!(init.candidate, "c");
            assert_eq!(init.sdp_mid, None);
            assert_eq!(init.sdp_mline_index, None);
            assert_eq!(init.username_fragment, None);
        }
        other => panic!("unexpected outcome {:?}", other),
    }
    let members = vec![(text("type"), text("ice"))];
    assert_eq!(read_signalling_object(&members).err(), Some(ParseError::UnknownType));
}

#[test]
fn offer_message_has_the_description_and_no_candidate() {
    assert_eq!(
        generate_sdp_offer_message("v=0\r\ns=-\r\n"),
        Some(text("{\"sdp\":\"v=0\\r\\ns=-\\r\\n\",\"candidate\":null}"))
    );
    assert_eq!(
        generate_sdp_offer_message("say \"hi\""),
        Some(text("{\"sdp\":\"say \\\"hi\\\"\",\"candidate\":null}"))
    );
    assert_eq!(generate_sdp_offer_message(""), Some(text("{\"sdp\":\"\",\"candidate\":null}")));
}

#[test]
fn candidate_message_has_the_candidate_and_no_description() {
    let init = IceCandidateInit {
        candidate: text("candidate:1 1 udp 2130706431 10.0.0.1 3000 typ host"),
        sdp_mid: Some(text("")),
        sdp_mline_index: Some(0),
        username_fragment: None,
    };
    assert_eq!(
        generate_ice_candidate_message(init),
        Some(text(
            "{\"sdp\":null,\"candidate\":{\"candidate\":\"candidate:1 1 udp 2130706431 10.0.0.1 3000 typ host\",\"sdpMid\":\"\",\"sdpMLineIndex\":0,\"usernameFragment\":null}}"
        ))
    );
}

#[test]
fn messages_for_the_client_are_json_with_one_member_set() {
    let offer = generate_sdp_offer_message(SDP).unwrap();
    let value: serde_json::Value = serde_json::from_str(&offer).unwrap();
    assert_eq!(value.get("sdp").and_then(|v| v.as_str()), Some(SDP));
    assert!(value.get("candidate").unwrap().is_null());

    let init = IceCandidateInit {
        candidate: text("c"),
        sdp_mid: None,
        sdp_mline_index: Some(2),
        username_fragment: Some(text("u")),
    };
    let message = generate_ice_candidate_message(init).unwrap();
    let value: serde_json::Value = serde_json::from_str(&message).unwrap();
    assert!(value.get("sdp").unwrap().is_null());
    let candidate = value.get("candidate").unwrap();
    assert_eq!(candidate.get("candidate").and_then(|v| v.as_str()), Some("c"));
    assert!(candidate.get("sdpMid").unwrap().is_null());
    assert_eq!(candidate.get("sdpMLineIndex").and_then(|v| v.as_u64()), Some(2));
    assert_eq!(candidate.get("usernameFragment").and_then(|v| v.as_str()), Some("u"));
}

#[test]
fn message_for_the_client_is_no_message_of_the_client() {
    let init = IceCandidateInit {
        candidate: text("c"),
        sdp_mid: None,
        sdp_mline_index: None,
        username_fragment: None,
    };
    let message = generate_ice_candidate_message(init).unwrap();
    assert_eq!(parse_signalling_message(&message).err(), Some(ParseError::MissingType));
}

#[test]
fn candidate_survives_the_way_to_the_client_and_back() {
    let init = IceCandidateInit {
        candidate: text("candidate:7 1 udp 1 10.1.1.1 9 typ host"),
        sdp_mid: Some(text("data")),
        sdp_mline_index: Some(1),
        username_fragment: Some(text("frag")),
    };
    let message = generate_ice_candidate_message(init).unwrap();
    // the client wraps the candidate it was sent as a message of its own
    let value: serde_json::Value = serde_json::from_str(&message).unwrap();
    let mut reply = serde_json::Map::new();
    reply.insert(text("type"), serde_json::Value::String(text("ice")));
    reply.insert(text("candidate"), value.get("candidate").unwrap().clone());
    let reply = serde_json::to_string(&serde_json::Value::Object(reply)).unwrap();
    match parse_signalling_message(&reply) {
        Ok(IncomingSignallingMessage::ICECandidate(back)) => {
            assert_eq!(back.candidate, "candidate:7 1 udp 1 10.1.1.1 9 typ host");
            assert_eq!(back.sdp_mid, Some(text("data")));
            assert_eq!(back.sdp_mline_index, Some(1));
            assert_eq!(back.username_fragment, Some(text("frag")));
        }
        other => panic!("unexpected outcome {:?}", other),
    }
}

#[test]
fn errors_are_put_in_words() {
    assert_eq!(
        ParseError::NotAnObject.message(),
        "Signalling Parse Error: JSON object should be a map"
    );
    assert_eq!(
        ParseError::MissingType.message(),
        "Signalling Parse Error: Map should contain key 'type'"
    );
    assert_eq!(
        ParseError::UnknownType.message(),
        "Signalling Parse Error: Unrecognised signalling message format"
    );
    assert_eq!(
        ParseError::MissingCandidate.message(),
        "Signalling Parse Error: Should have key 'candidate'"
    );
    assert_eq!(
        ParseError::InvalidCandidate.message(),
        "Signalling Parse Error: Value of 'candidate' should be an ICE candidate"
    );
    assert_eq!(
        ParseError::MissingSdp.message(),
        "Signalling Parse Error: Should have key 'sdp'"
    );
    assert_eq!(
        ParseError::SdpNotAString.message(),
        "Signalling Parse Error: Value of 'sdp' should be a string"
    );
    assert_eq!(
        ParseError::InvalidSdp.message(),
        "Signalling Parse Error: SDP should be a session description"
    );
}
