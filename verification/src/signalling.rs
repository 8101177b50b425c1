use ::webrtc::ice_transport::ice_candidate::RTCIceCandidateInit;
use ::webrtc::peer_connection::sdp::sdp_type::RTCSdpType;
use ::webrtc::peer_connection::sdp::session_description::RTCSessionDescription;
use vstd::prelude::*;
use vstd::string::StringExecFns;
use crate::session::Session;

verus! {

/// The type of a session description.
#[derive(Clone, Copy, PartialEq, Eq, Debug, Structural)]
pub enum SdpKind {
    Unspecified,
    Offer,
    Pranswer,
    Answer,
    Rollback,
}

/// A session description as it travels in JSON: its type and its SDP text.
pub struct SessionDescription {
    pub kind: SdpKind,
    pub sdp: String,
}

/// An ICE candidate as it travels in JSON.
pub struct IceCandidate {
    pub candidate: String,
    pub sdp_mid: Option<String>,
    pub sdp_mline_index: Option<u16>,
    pub username_fragment: Option<String>,
}

/// The characters of an optional string.
pub open spec fn opt_chars(o: Option<String>) -> Option<Seq<char>> {
    match o {
        Some(s) => Some(s@),
        None => None,
    }
}

/// The fields of a candidate, as characters.
pub open spec fn candidate_fields(c: IceCandidate) -> (Seq<char>, Option<Seq<char>>, Option<u16>, Option<Seq<char>>) {
    (c.candidate@, opt_chars(c.sdp_mid), c.sdp_mline_index, opt_chars(c.username_fragment))
}

/// What `serde_json::from_str` reads from `json` as a session description:
/// its type and SDP text, or the `Debug` text of the error.
pub uninterp spec fn session_description_read(json: Seq<char>) -> Result<(SdpKind, Seq<char>), Seq<char>>;

/// What `serde_json::from_str` reads from `json` as an ICE candidate: its
/// fields, or the `Debug` text of the error.
pub uninterp spec fn ice_candidate_read(json: Seq<char>) -> Result<
    (Seq<char>, Option<Seq<char>>, Option<u16>, Option<Seq<char>>),
    Seq<char>,
>;

/// What `serde_json::to_string` writes for a session description of this
/// type and SDP text, or the `Debug` text of the error.
pub uninterp spec fn session_description_json(kind: SdpKind, sdp: Seq<char>) -> Result<Seq<char>, Seq<char>>;

/// What `serde_json::to_string` writes for an ICE candidate with these
/// fields, or the `Debug` text of the error.
pub uninterp spec fn ice_candidate_json(
    fields: (Seq<char>, Option<Seq<char>>, Option<u16>, Option<Seq<char>>),
) -> Result<Seq<char>, Seq<char>>;

/// `json` reads as a session description of this type with exactly this SDP
/// text.
pub open spec fn description_reads_as(json: Seq<char>, kind: SdpKind, sdp: Seq<char>) -> bool {
    session_description_read(json) == Ok::<(SdpKind, Seq<char>), Seq<char>>((kind, sdp))
}

/// `json` reads as an ICE candidate with exactly these fields.
pub open spec fn candidate_reads_as(
    json: Seq<char>,
    fields: (Seq<char>, Option<Seq<char>>, Option<u16>, Option<Seq<char>>),
) -> bool {
    ice_candidate_read(json) == Ok::<
        (Seq<char>, Option<Seq<char>>, Option<u16>, Option<Seq<char>>),
        Seq<char>,
    >(fields)
}

/// `serde_json::from_str::<RTCSessionDescription>`, its result moved field
/// by field into a `SessionDescription` and its error formatted with `{:?}`.
/// The contract claims that the outcome is a function of the text, named
/// `session_description_read`.
#[verifier::external_body]
fn read_session_description(json: &str) -> (r: Result<SessionDescription, String>)
    ensures
        match (r, session_description_read(json@)) {
            (Ok(d), Ok((kind, sdp))) => d.kind == kind && d.sdp@ == sdp,
            (Err(e), Err(text)) => e@ == text,
            _ => false,
        },
{
    match serde_json::from_str::<RTCSessionDescription>(json) {
        Ok(d) => Ok(SessionDescription {
            kind: match d.sdp_type {
                RTCSdpType::Unspecified => SdpKind::Unspecified,
                RTCSdpType::Offer => SdpKind::Offer,
                RTCSdpType::Pranswer => SdpKind::Pranswer,
                RTCSdpType::Answer => SdpKind::Answer,
                RTCSdpType::Rollback => SdpKind::Rollback,
            },
            sdp: d.sdp,
        }),
        Err(e) => Err(format!("{:?}", e)),
    }
}

/// `serde_json::from_str::<RTCIceCandidateInit>`, its fields moved into an
/// `IceCandidate` and its error formatted with `{:?}`. The contract claims
/// that the outcome is a function of the text, named `ice_candidate_read`.
#[verifier::external_body]
fn read_ice_candidate(json: &str) -> (r: Result<IceCandidate, String>)
    ensures
        match (r, ice_candidate_read(json@)) {
            (Ok(c), Ok(fields)) => candidate_fields(c) == fields,
            (Err(e), Err(text)) => e@ == text,
            _ => false,
        },
{
    match serde_json::from_str::<RTCIceCandidateInit>(json) {
        Ok(c) => Ok(IceCandidate {
            candidate: c.candidate,
            sdp_mid: c.sdp_mid,
            sdp_mline_index: c.sdp_mline_index,
            username_fragment: c.username_fragment,
        }),
        Err(e) => Err(format!("{:?}", e)),
    }
}

/// `serde_json::to_string` of the `RTCSessionDescription` with this type and
/// SDP text (the one field it skips left at its default), its error
/// formatted with `{:?}`. The contract claims that the outcome is a function
/// of the type and the text, named `session_description_json`, and that
/// the JSON written reads back (by the derived `Deserialize` of the same
/// struct) as the same type and the whole SDP text.
#[verifier::external_body]
fn write_session_description(d: &SessionDescription) -> (r: Result<String, String>)
    ensures
        match (r, session_description_json(d.kind, d.sdp@)) {
            (Ok(json), Ok(text)) => json@ == text,
            (Err(e), Err(text)) => e@ == text,
            _ => false,
        },
        r matches Ok(json) ==> description_reads_as(json@, d.kind, d.sdp@),
{
    let mut desc = RTCSessionDescription::default();
    desc.sdp_type = match d.kind {
        SdpKind::Unspecified => RTCSdpType::Unspecified,
        SdpKind::Offer => RTCSdpType::Offer,
        SdpKind::Pranswer => RTCSdpType::Pranswer,
        SdpKind::Answer => RTCSdpType::Answer,
        SdpKind::Rollback => RTCSdpType::Rollback,
    };
    desc.sdp = d.sdp.clone();
    match serde_json::to_string(&desc) {
        Ok(json) => Ok(json),
        Err(e) => Err(format!("{:?}", e)),
    }
}

/// `serde_json::to_string` of the `RTCIceCandidateInit` with these fields,
/// its error formatted with `{:?}`. The contract claims that the outcome is
/// a function of the fields, named `ice_candidate_json`, and that the JSON
/// written reads back (by the derived `Deserialize`) as the same fields.
#[verifier::external_body]
fn write_ice_candidate(c: &IceCandidate) -> (r: Result<String, String>)
    ensures
        match (r, ice_candidate_json(candidate_fields(*c))) {
            (Ok(json), Ok(text)) => json@ == text,
            (Err(e), Err(text)) => e@ == text,
            _ => false,
        },
        r matches Ok(json) ==> candidate_reads_as(json@, candidate_fields(*c)),
{
    let init = RTCIceCandidateInit {
        candidate: c.candidate.clone(),
        sdp_mid: c.sdp_mid.clone(),
        sdp_mline_index: c.sdp_mline_index,
        username_fragment: c.username_fragment.clone(),
    };
    match serde_json::to_string(&init) {
        Ok(json) => Ok(json),
        Err(e) => Err(format!("{:?}", e)),
    }
}

fn same_text(a: &Option<String>, b: &Option<String>) -> (same: bool)
    ensures
        same == (opt_chars(*a) == opt_chars(*b)),
{
    match (a, b) {
        (Some(x), Some(y)) => *x == *y,
        (None, None) => true,
        _ => false,
    }
}

/// Whether two candidates have the same fields.
fn same_candidate(a: &IceCandidate, b: &IceCandidate) -> (same: bool)
    ensures
        same == (candidate_fields(*a) == candidate_fields(*b)),
{
    let index_same = match (a.sdp_mline_index, b.sdp_mline_index) {
        (Some(x), Some(y)) => x == y,
        (None, None) => true,
        _ => false,
    };
    a.candidate == b.candidate && same_text(&a.sdp_mid, &b.sdp_mid) && index_same && same_text(
        &a.username_fragment,
        &b.username_fragment,
    )
}

/// Records a local ICE candidate that was just gathered, in its JSON form;
/// a candidate whose JSON cannot be written is left out. The JSON is
/// checked before it is kept: read back, it must give the candidate's
/// fields unchanged. Returns whether its JSON was written (without a peer
/// connection it is then dropped all the same).
pub fn gather_candidate(session: &mut Session, candidate: &IceCandidate) -> (recorded: bool)
    ensures
        match ice_candidate_json(candidate_fields(*candidate)) {
            Ok(text) => recorded && exists|json: String|
                #[trigger] json@ == text && candidate_reads_as(json@, candidate_fields(*candidate))
                    && final(session)@ == crate::session::with_candidate(
                    old(session)@,
                    json,
                ),
            Err(_) => !recorded && final(session)@ == old(session)@,
        },
{
    match write_ice_candidate(candidate) {
        Ok(json) => {
            let reads_back = match read_ice_candidate(json.as_str()) {
                Ok(back) => same_candidate(&back, candidate),
                Err(_) => false,
            };
            if reads_back {
                session.add_local_candidate(json);
                true
            } else {
                false
            }
        },
        Err(_) => false,
    }
}

/// Refuses a signalling step when there is no peer connection.
pub fn require_peer(session: &Session) -> (r: Result<(), String>)
    ensures
        session@.peer is Some <==> r is Ok,
        r matches Err(e) ==> e@ == "PeerConnection not initialized"@,
{
    if session.is_initialized() {
        Ok(())
    } else {
        Err("PeerConnection not initialized".to_owned())
    }
}

/// What reading a remote session description returns: refused without a
/// peer connection; otherwise what the text holds, or the reading error
/// behind `prefix`.
pub open spec fn description_outcome(
    session: crate::session::SessionModel,
    json: Seq<char>,
    prefix: Seq<char>,
    r: Result<SessionDescription, String>,
) -> bool {
    match session.peer {
        None => (r matches Err(e) && e@ == "PeerConnection not initialized"@),
        Some(_) => match session_description_read(json) {
            Ok((kind, sdp)) => (r matches Ok(d) && d.kind == kind && d.sdp@ == sdp),
            Err(text) => (r matches Err(e) && e@ == prefix + text),
        },
    }
}

fn remote_description(session: &Session, json: &str, prefix: &str) -> (r: Result<SessionDescription, String>)
    ensures
        description_outcome(session@, json@, prefix@, r),
{
    require_peer(session)?;
    match read_session_description(json) {
        Ok(desc) => Ok(desc),
        Err(e) => Err(prefix.to_owned().concat(e.as_str())),
    }
}

/// The offer that the remote side sent, read from its JSON: refused without
/// a peer connection; otherwise the type and SDP text that the JSON holds,
/// or "Failed to parse offer JSON: " followed by the reading error.
pub fn offer_description(session: &Session, offer_json: &str) -> (r: Result<SessionDescription, String>)
    ensures
        description_outcome(session@, offer_json@, "Failed to parse offer JSON: "@, r),
{
    remote_description(session, offer_json, "Failed to parse offer JSON: ")
}

/// The answer that the remote side sent, read from its JSON: refused
/// without a peer connection; otherwise the type and SDP text that the JSON
/// holds, or "Failed to parse answer JSON: " followed by the reading error.
pub fn answer_description(session: &Session, answer_json: &str) -> (r: Result<SessionDescription, String>)
    ensures
        description_outcome(session@, answer_json@, "Failed to parse answer JSON: "@, r),
{
    remote_description(session, answer_json, "Failed to parse answer JSON: ")
}

/// What reading a remote ICE candidate returns: refused without a peer
/// connection; otherwise the fields the text holds, or the reading error
/// behind "Failed to parse ICE candidate JSON: ".
pub open spec fn candidate_outcome(
    session: crate::session::SessionModel,
    json: Seq<char>,
    r: Result<IceCandidate, String>,
) -> bool {
    match session.peer {
        None => (r matches Err(e) && e@ == "PeerConnection not initialized"@),
        Some(_) => match ice_candidate_read(json) {
            Ok(fields) => (r matches Ok(c) && candidate_fields(c) == fields),
            Err(text) => (r matches Err(e) && e@ == "Failed to parse ICE candidate JSON: "@ + text),
        },
    }
}

/// A remote ICE candidate, read from its JSON: refused without a peer
/// connection; otherwise the fields that the JSON holds, or "Failed to
/// parse ICE candidate JSON: " followed by the reading error.
pub fn remote_candidate(session: &Session, candidate_json: &str) -> (r: Result<IceCandidate, String>)
    ensures
        candidate_outcome(session@, candidate_json@, r),
{
    require_peer(session)?;
    match read_ice_candidate(candidate_json) {
        Ok(c) => Ok(c),
        Err(e) => Err("Failed to parse ICE candidate JSON: ".to_owned().concat(e.as_str())),
    }
}

/// What writing a local description as JSON returns: the JSON, which reads
/// back as the same type and the whole SDP text, or the writing error
/// behind `prefix`.
pub open spec fn written_outcome(desc: SessionDescription, prefix: Seq<char>, r: Result<String, String>) -> bool {
    match session_description_json(desc.kind, desc.sdp@) {
        Ok(text) => (r matches Ok(json) && json@ == text && description_reads_as(
            json@,
            desc.kind,
            desc.sdp@,
        )),
        Err(text) => (r matches Err(e) && e@ == prefix + text),
    }
}

fn description_json(desc: &SessionDescription, prefix: &str) -> (r: Result<String, String>)
    ensures
        written_outcome(*desc, prefix@, r),
{
    match write_session_description(desc) {
        Ok(json) => {
            // The JSON must read back as the description it was written from.
            let reads_back = match read_session_description(json.as_str()) {
                Ok(back) => back.kind == desc.kind && back.sdp == desc.sdp,
                Err(_) => false,
            };
            if reads_back {
                Ok(json)
            } else {
                Err(prefix.to_owned().concat("the written JSON does not read back"))
            }
        },
        Err(e) => Err(prefix.to_owned().concat(e.as_str())),
    }
}

/// The JSON of a local offer, to send to the remote side, or "Failed to
/// serialize offer: " followed by the writing error.
pub fn offer_to_json(offer: &SessionDescription) -> (r: Result<String, String>)
    ensures
        written_outcome(*offer, "Failed to serialize offer: "@, r),
{
    description_json(offer, "Failed to serialize offer: ")
}

/// The JSON of a local answer, to send to the remote side, or "Failed to
/// serialize answer: " followed by the writing error.
pub fn answer_to_json(answer: &SessionDescription) -> (r: Result<String, String>)
    ensures
        written_outcome(*answer, "Failed to serialize answer: "@, r),
{
    description_json(answer, "Failed to serialize answer: ")
}

/// A description survives the trip to the peer unchanged: whatever JSON the
/// library writes for a local offer or answer, the peer's library reads it
/// back as the same type with the whole SDP text, not a part of it.
pub proof fn lemma_written_description_reads_back(
    desc: SessionDescription,
    write_prefix: Seq<char>,
    json: String,
    peer: crate::session::SessionModel,
    read_prefix: Seq<char>,
    r: Result<SessionDescription, String>,
)
    requires
        written_outcome(desc, write_prefix, Ok(json)),
        peer.peer is Some,
        description_outcome(peer, json@, read_prefix, r),
    ensures
        r matches Ok(d) && d.kind == desc.kind && d.sdp@ == desc.sdp@,
{
}

/// A gathered candidate survives the trip to the peer unchanged: the JSON
/// recorded for it reads back, on the other side, as exactly its fields.
pub proof fn lemma_gathered_candidate_reads_back(
    candidate: IceCandidate,
    json: String,
    peer: crate::session::SessionModel,
    r: Result<IceCandidate, String>,
)
    requires
        candidate_reads_as(json@, candidate_fields(candidate)),
        peer.peer is Some,
        candidate_outcome(peer, json@, r),
    ensures
        r matches Ok(c) && c.candidate@ == candidate.candidate@ && opt_chars(c.sdp_mid) == opt_chars(
            candidate.sdp_mid,
        ) && c.sdp_mline_index == candidate.sdp_mline_index && opt_chars(c.username_fragment)
            == opt_chars(candidate.username_fragment),
{
}

} // verus!
