//! The signalling codec: what the server writes to a client to offer a
//! session and to name its ICE candidates, and how it reads what the client
//! sends back. JSON and session descriptions are read and written by
//! `serde_json` and `webrtc`; the wire format around them is framed here.

use vstd::prelude::*;

verus! {

/// What initialises an ICE candidate on the other side.
#[derive(Debug)]
pub struct IceCandidateInit {
    pub candidate: String,
    pub sdp_mid: Option<String>,
    pub sdp_mline_index: Option<u16>,
    pub username_fragment: Option<String>,
}

/// The mathematical value of an [`IceCandidateInit`].
pub ghost struct IceCandidateInitModel {
    pub candidate: Seq<char>,
    pub sdp_mid: Option<Seq<char>>,
    pub sdp_mline_index: Option<u16>,
    pub username_fragment: Option<Seq<char>>,
}

/// The characters of a text that may be absent.
pub open spec fn text_of(text: Option<String>) -> Option<Seq<char>> {
    match text {
        Some(t) => Some(t@),
        None => None,
    }
}

impl View for IceCandidateInit {
    type V = IceCandidateInitModel;

    open spec fn view(&self) -> IceCandidateInitModel {
        IceCandidateInitModel {
            candidate: self.candidate@,
            sdp_mid: text_of(self.sdp_mid),
            sdp_mline_index: self.sdp_mline_index,
            username_fragment: text_of(self.username_fragment),
        }
    }
}

/// The error of `serde_json`, carried through and never looked into.
#[verifier::external_type_specification]
#[verifier::external_body]
pub struct ExJsonError(serde_json::Error);

/// The error of `webrtc`, carried through and never looked into.
#[verifier::external_type_specification]
#[verifier::external_body]
pub struct ExRtcError(::webrtc::Error);

/// The members of the JSON object that `text` holds, each with its value
/// written as compact JSON, in the order in which `serde_json::Map` walks them;
/// `None` where `text` is not a JSON object.
pub uninterp spec fn json_members(text: Seq<char>) -> Option<Seq<(Seq<char>, Seq<char>)>>;

/// The string that `text` denotes as JSON; `None` where `text` is not one JSON
/// string.
pub uninterp spec fn json_string(text: Seq<char>) -> Option<Seq<char>>;

/// `text` as a JSON string, quoted and escaped; `None` where serialising fails.
pub uninterp spec fn json_quoted(text: Seq<char>) -> Option<Seq<char>>;

/// The candidate initialiser that the JSON `text` holds; `None` where it holds
/// none.
pub uninterp spec fn candidate_of_json(text: Seq<char>) -> Option<IceCandidateInitModel>;

/// The candidate initialiser as compact JSON; `None` where serialising fails.
pub uninterp spec fn json_of_candidate(candidate: IceCandidateInitModel) -> Option<Seq<char>>;

/// Whether `sdp` parses as a session description.
pub uninterp spec fn sdp_parses(sdp: Seq<char>) -> bool;

/// The mathematical value of a list of members.
pub open spec fn members_of(members: Seq<(String, String)>) -> Seq<(Seq<char>, Seq<char>)> {
    members.map_values(|m: (String, String)| (m.0@, m.1@))
}

/// Calls `serde_json::from_str` for a `serde_json::Map` and writes each value
/// with `serde_json::to_string`. The contract claims only that the outcome is
/// a function of `text`, under the name `json_members`.
#[verifier::external_body]
fn read_members(text: &str) -> (r: Result<Vec<(String, String)>, serde_json::Error>)
    ensures
        match r {
            Ok(members) => json_members(text@) == Some(members_of(members@)),
            Err(_) => json_members(text@).is_none(),
        },
{
    let map: serde_json::Map<String, serde_json::Value> = serde_json::from_str(text)?;
    map.into_iter().map(|(key, value)| Ok((key, serde_json::to_string(&value)?))).collect()
}

/// Calls `serde_json::from_str` for a `String`. The contract claims only that
/// the outcome is a function of `text`, under the name `json_string`.
#[verifier::external_body]
fn read_string(text: &str) -> (r: Result<String, serde_json::Error>)
    ensures
        match r {
            Ok(value) => json_string(text@) == Some(value@),
            Err(_) => json_string(text@).is_none(),
        },
{
    serde_json::from_str::<String>(text)
}

/// Calls `serde_json::to_string` on a `str`. The contract claims only that
/// the outcome is a function of `text`, under the name `json_quoted`.
#[verifier::external_body]
fn write_string(text: &str) -> (r: Result<String, serde_json::Error>)
    ensures
        match r {
            Ok(quoted) => json_quoted(text@) == Some(quoted@),
            Err(_) => json_quoted(text@).is_none(),
        },
{
    serde_json::to_string(text)
}

/// Calls `serde_json::from_str` for a `webrtc` `RTCIceCandidateInit` and moves
/// its four fields over. The contract claims only that the outcome is a
/// function of `text`, under the name `candidate_of_json`.
#[verifier::external_body]
fn read_candidate(text: &str) -> (r: Result<IceCandidateInit, serde_json::Error>)
    ensures
        match r {
            Ok(candidate) => candidate_of_json(text@) == Some(candidate@),
            Err(_) => candidate_of_json(text@).is_none(),
        },
{
    let init: ::webrtc::ice_transport::ice_candidate::RTCIceCandidateInit = serde_json::from_str(
        text,
    )?;
    Ok(
        IceCandidateInit {
            candidate: init.candidate,
            sdp_mid: init.sdp_mid,
            sdp_mline_index: init.sdp_mline_index,
            username_fragment: init.username_fragment,
        },
    )
}

/// Calls `serde_json::to_string` on a `webrtc` `RTCIceCandidateInit` made of
/// the four fields. The contract claims only that the outcome is a function of
/// the fields, under the name `json_of_candidate`.
#[verifier::external_body]
fn write_candidate(candidate: &IceCandidateInit) -> (r: Result<String, serde_json::Error>)
    ensures
        match r {
            Ok(text) => json_of_candidate(candidate@) == Some(text@),
            Err(_) => json_of_candidate(candidate@).is_none(),
        },
{
    let init = ::webrtc::ice_transport::ice_candidate::RTCIceCandidateInit {
        candidate: candidate.candidate.clone(),
        sdp_mid: candidate.sdp_mid.clone(),
        sdp_mline_index: candidate.sdp_mline_index,
        username_fragment: candidate.username_fragment.clone(),
    };
    serde_json::to_string(&init)
}

/// Calls `RTCSessionDescription::answer` of `webrtc`, which parses `sdp`, and
/// drops the description. The contract claims only that success is a function
/// of `sdp`, under the name `sdp_parses`.
#[verifier::external_body]
fn check_answer(sdp: &str) -> (r: Result<(), ::webrtc::Error>)
    ensures
        r.is_ok() == sdp_parses(sdp@),
{
    let _ = ::webrtc::peer_connection::sdp::session_description::RTCSessionDescription::answer(
        sdp.to_string(),
    )?;
    Ok(())
}

/// A signalling message of the client, read.
#[derive(Debug)]
pub enum IncomingSignallingMessage {
    /// The body of the client's SDP answer.
    SDP(String),
    /// An ICE candidate of the client.
    ICECandidate(IceCandidateInit),
}

/// The mathematical value of an [`IncomingSignallingMessage`].
pub ghost enum IncomingSignallingMessageModel {
    SDP(Seq<char>),
    ICECandidate(IceCandidateInitModel),
}

impl View for IncomingSignallingMessage {
    type V = IncomingSignallingMessageModel;

    open spec fn view(&self) -> IncomingSignallingMessageModel {
        match self {
            IncomingSignallingMessage::SDP(sdp) => IncomingSignallingMessageModel::SDP(sdp@),
            IncomingSignallingMessage::ICECandidate(candidate) => {
                IncomingSignallingMessageModel::ICECandidate(candidate@)
            },
        }
    }
}

/// Why a text is no signalling message.
#[derive(Clone, Copy, Debug, PartialEq, Eq, Structural)]
pub enum ParseError {
    /// The text is not a JSON object.
    NotAnObject,
    /// The object has no member `type`.
    MissingType,
    /// The member `type` is neither `"ice"` nor `"answer"`.
    UnknownType,
    /// An object of type `ice` has no member `candidate`.
    MissingCandidate,
    /// The member `candidate` holds no candidate initialiser.
    InvalidCandidate,
    /// An object of type `answer` has no member `sdp`.
    MissingSdp,
    /// The member `sdp` is not a string.
    SdpNotAString,
    /// The SDP does not parse as a session description.
    InvalidSdp,
}

/// Whether the text begins as the body of a session description does.
pub open spec fn is_session_description(text: Seq<char>) -> bool {
    text.len() >= 3 && text[0] == 'v' && text[1] == '=' && text[2] == '0'
}

/// The value of the first member named `key`.
pub open spec fn member(members: Seq<(Seq<char>, Seq<char>)>, key: Seq<char>) -> Option<
    Seq<char>,
>
    decreases members.len(),
{
    if members.len() == 0 {
        None
    } else if members[0].0 == key {
        Some(members[0].1)
    } else {
        member(members.drop_first(), key)
    }
}

/// A session description with the body `sdp`, if that parses.
pub open spec fn answer(sdp: Seq<char>) -> Result<IncomingSignallingMessageModel, ParseError> {
    if sdp_parses(sdp) {
        Ok(IncomingSignallingMessageModel::SDP(sdp))
    } else {
        Err(ParseError::InvalidSdp)
    }
}

/// What the members of a JSON object say: an object of type `ice` carries a
/// candidate initialiser under `candidate`, one of type `answer` the body of a
/// session description, as a string, under `sdp`.
pub open spec fn read_object(members: Seq<(Seq<char>, Seq<char>)>) -> Result<
    IncomingSignallingMessageModel,
    ParseError,
> {
    match member(members, "type"@) {
        None => Err(ParseError::MissingType),
        Some(kind) => {
            if json_string(kind) == Some("ice"@) {
                match member(members, "candidate"@) {
                    None => Err(ParseError::MissingCandidate),
                    Some(candidate) => match candidate_of_json(candidate) {
                        None => Err(ParseError::InvalidCandidate),
                        Some(init) => Ok(IncomingSignallingMessageModel::ICECandidate(init)),
                    },
                }
            } else if json_string(kind) == Some("answer"@) {
                match member(members, "sdp"@) {
                    None => Err(ParseError::MissingSdp),
                    Some(sdp) => match json_string(sdp) {
                        None => Err(ParseError::SdpNotAString),
                        Some(body) => answer(body),
                    },
                }
            } else {
                Err(ParseError::UnknownType)
            }
        },
    }
}

/// What a text of the client says: a text that begins with `v=0` is as a whole
/// the body of a session description; any other has to be a JSON object.
pub open spec fn parsed(text: Seq<char>) -> Result<IncomingSignallingMessageModel, ParseError> {
    if is_session_description(text) {
        answer(text)
    } else {
        match json_members(text) {
            None => Err(ParseError::NotAnObject),
            Some(members) => read_object(members),
        }
    }
}

/// The mathematical value of what parsing returns.
pub open spec fn outcome(r: Result<IncomingSignallingMessage, ParseError>) -> Result<
    IncomingSignallingMessageModel,
    ParseError,
> {
    match r {
        Ok(message) => Ok(message@),
        Err(e) => Err(e),
    }
}

/// Whether the text begins as the body of a session description does.
pub fn begins_session_description(text: &str) -> (yes: bool)
    ensures
        yes == is_session_description(text@),
{
    text.unicode_len() >= 3 && text.get_char(0) == 'v' && text.get_char(1) == '='
        && text.get_char(2) == '0'
}

/// The value of the first member named `key`.
pub fn find_member(members: &Vec<(String, String)>, key: &str) -> (value: Option<String>)
    ensures
        text_of(value) == member(members_of(members@), key@),
{
    let wanted = String::from_str(key);
    let ghost all = members_of(members@);
    let mut i: usize = 0;
    assert(all.skip(0) =~= all);
    while i < members.len()
        invariant
            i <= members.len(),
            all == members_of(members@),
            wanted@ == key@,
            member(all, key@) == member(all.skip(i as int), key@),
        decreases members.len() - i,
    {
        assert(all.skip(i as int)[0] == all[i as int]);
        assert(all.skip(i as int).drop_first() =~= all.skip(i + 1));
        if members[i].0 == wanted {
            return Some(members[i].1.clone());
        }
        i += 1;
    }
    None
}

/// Wraps the body of a session description, if it parses.
fn read_answer(sdp: String) -> (r: Result<IncomingSignallingMessage, ParseError>)
    ensures
        outcome(r) == answer(sdp@),
{
    match check_answer(sdp.as_str()) {
        Ok(_) => Ok(IncomingSignallingMessage::SDP(sdp)),
        Err(_) => Err(ParseError::InvalidSdp),
    }
}

/// Reads the members of a JSON object as a signalling message.
pub fn read_signalling_object(members: &Vec<(String, String)>) -> (r: Result<
    IncomingSignallingMessage,
    ParseError,
>)
    ensures
        outcome(r) == read_object(members_of(members@)),
{
    let kind_text = match find_member(members, "type") {
        Some(t) => t,
        None => {
            return Err(ParseError::MissingType);
        },
    };
    let kind = match read_string(kind_text.as_str()) {
        Ok(k) => k,
        Err(_) => {
            return Err(ParseError::UnknownType);
        },
    };
    if kind == String::from_str("ice") {
        let candidate = match find_member(members, "candidate") {
            Some(c) => c,
            None => {
                return Err(ParseError::MissingCandidate);
            },
        };
        match read_candidate(candidate.as_str()) {
            Ok(init) => Ok(IncomingSignallingMessage::ICECandidate(init)),
            Err(_) => Err(ParseError::InvalidCandidate),
        }
    } else if kind == String::from_str("answer") {
        let sdp = match find_member(members, "sdp") {
            Some(s) => s,
            None => {
                return Err(ParseError::MissingSdp);
            },
        };
        match read_string(sdp.as_str()) {
            Ok(body) => read_answer(body),
            Err(_) => Err(ParseError::SdpNotAString),
        }
    } else {
        Err(ParseError::UnknownType)
    }
}

/// Reads a text of the client as a signalling message.
pub fn parse_signalling_message(message: &str) -> (r: Result<
    IncomingSignallingMessage,
    ParseError,
>)
    ensures
        outcome(r) == parsed(message@),
{
    if begins_session_description(message) {
        return read_answer(String::from_str(message));
    }
    match read_members(message) {
        Ok(members) => read_signalling_object(&members),
        Err(_) => Err(ParseError::NotAnObject),
    }
}

/// The message that carries a session description to the client: a JSON
/// object whose member `sdp` is the description, quoted, and whose member
/// `candidate` is null.
pub open spec fn offer_message(sdp: Seq<char>) -> Option<Seq<char>> {
    match json_quoted(sdp) {
        Some(quoted) => Some("{\"sdp\":"@ + quoted + ",\"candidate\":null}"@),
        None => None,
    }
}

/// The message that carries an ICE candidate to the client: a JSON object
/// whose member `sdp` is null and whose member `candidate` is the
/// initialiser.
pub open spec fn candidate_message(candidate: IceCandidateInitModel) -> Option<Seq<char>> {
    match json_of_candidate(candidate) {
        Some(json) => Some("{\"sdp\":null,\"candidate\":"@ + json + "}"@),
        None => None,
    }
}

/// Writes the message that carries the candidate to the client. There is
/// none where the candidate cannot be written as JSON.
pub fn generate_ice_candidate_message(candidate: IceCandidateInit) -> (message: Option<String>)
    ensures
        text_of(message) == candidate_message(candidate@),
{
    match write_candidate(&candidate) {
        Ok(json) => {
            let mut message = String::from_str("{\"sdp\":null,\"candidate\":");
            message.append(json.as_str());
            message.append("}");
            Some(message)
        },
        Err(_) => None,
    }
}

/// Writes the message that carries the offer `sdp` to the client. There is
/// none where the description cannot be written as JSON.
pub fn generate_sdp_offer_message(sdp: &str) -> (message: Option<String>)
    ensures
        text_of(message) == offer_message(sdp@),
{
    match write_string(sdp) {
        Ok(quoted) => {
            let mut message = String::from_str("{\"sdp\":");
            message.append(quoted.as_str());
            message.append(",\"candidate\":null}");
            Some(message)
        },
        Err(_) => None,
    }
}

impl ParseError {
    /// The error in words.
    pub open spec fn words(self) -> Seq<char> {
        match self {
            ParseError::NotAnObject => "JSON object should be a map"@,
            ParseError::MissingType => "Map should contain key 'type'"@,
            ParseError::UnknownType => "Unrecognised signalling message format"@,
            ParseError::MissingCandidate => "Should have key 'candidate'"@,
            ParseError::InvalidCandidate => "Value of 'candidate' should be an ICE candidate"@,
            ParseError::MissingSdp => "Should have key 'sdp'"@,
            ParseError::SdpNotAString => "Value of 'sdp' should be a string"@,
            ParseError::InvalidSdp => "SDP should be a session description"@,
        }
    }

    /// The error in words, for a log.
    pub fn message(&self) -> (text: String)
        ensures
            text@ == "Signalling Parse Error: "@ + self.words(),
    {
        let mut text = String::from_str("Signalling Parse Error: ");
        match self {
            ParseError::NotAnObject => text.append("JSON object should be a map"),
            ParseError::MissingType => text.append("Map should contain key 'type'"),
            ParseError::UnknownType => text.append("Unrecognised signalling message format"),
            ParseError::MissingCandidate => text.append("Should have key 'candidate'"),
            ParseError::InvalidCandidate => text.append(
                "Value of 'candidate' should be an ICE candidate",
            ),
            ParseError::MissingSdp => text.append("Should have key 'sdp'"),
            ParseError::SdpNotAString => text.append("Value of 'sdp' should be a string"),
            ParseError::InvalidSdp => text.append("SDP should be a session description"),
        }
        text
    }
}

} // verus!
