use p2p_webrtc::session::Session;
use p2p_webrtc::signalling::{
    answer_description, answer_to_json, gather_candidate, offer_description, offer_to_json,
    remote_candidate, require_peer, IceCandidate, SdpKind, SessionDescription,
};
use p2p_webrtc::session::get_local_candidates;
use webrtc::ice_transport::ice_candidate::RTCIceCandidateInit;
use webrtc::peer_connection::sdp::sdp_type::RTCSdpType;
use webrtc::peer_connection::sdp::session_description::RTCSessionDescription;

const OFFER: &str = r#"{"type":"offer","sdp":"v=0\r\n"}"#;
const ANSWER: &str = r#"{"type":"answer","sdp":"v=0\r\no=- 1 1 IN IP4 0.0.0.0\r\n"}"#;
const CANDIDATE: &str = r#"{"candidate":"candidate:1 1 udp 2130706431 192.0.2.1 5000 typ host","sdpMid":"0","sdpMLineIndex":0}"#;

fn offer_error(json: &str) -> String {
    format!("{:?}", serde_json::from_str::<RTCSessionDescription>(json).unwrap_err())
}

#[test]
fn signalling_refused_without_peer_connection() {
    let session = Session::new();
    let not_init = "PeerConnection not initialized".to_string();
    assert_eq!(require_peer(&session), Err(not_init.clone()));
    assert_eq!(offer_description(&session, OFFER).err(), Some(not_init.clone()));
    assert_eq!(answer_description(&session, "garbage").err(), Some(not_init.clone()));
    assert_eq!(remote_candidate(&session, CANDIDATE).err(), Some(not_init));
}

#[test]
fn signalling_reads_what_the_json_holds() {
    let mut session = Session::new();
    session.install_follower();
    assert_eq!(require_peer(&session), Ok(()));
    let offer = offer_description(&session, OFFER).unwrap();
    assert_eq!(offer.kind, SdpKind::Offer);
    assert_eq!(offer.sdp, "v=0\r\n");
    let answer = answer_description(&session, ANSWER).unwrap();
    assert_eq!(answer.kind, SdpKind::Answer);
    assert_eq!(answer.sdp, "v=0\r\no=- 1 1 IN IP4 0.0.0.0\r\n");
    let rollback = offer_description(&session, r#"{"type":"rollback","sdp":""}"#).unwrap();
    assert_eq!(rollback.kind, SdpKind::Rollback);
    let candidate = remote_candidate(&session, CANDIDATE).unwrap();
    let expected: RTCIceCandidateInit = serde_json::from_str(CANDIDATE).unwrap();
    assert_eq!(candidate.candidate, expected.candidate);
    assert_eq!(candidate.sdp_mid, Some("0".to_string()));
    assert_eq!(candidate.sdp_mline_index, Some(0));
    assert_eq!(candidate.username_fragment, None);
}

#[test]
fn signalling_reports_unreadable_json() {
    let mut session = Session::new();
    session.install_leader();
    assert_eq!(
        offer_description(&session, "not json").err(),
        Some(format!("Failed to parse offer JSON: {}", offer_error("not json")))
    );
    let missing_type = r#"{"sdp":"v=0"}"#;
    assert_eq!(
        answer_description(&session, missing_type).err(),
        Some(format!("Failed to parse answer JSON: {}", offer_error(missing_type)))
    );
    let e = remote_candidate(&session, "[1, 2]").err().unwrap();
    let detail = format!("{:?}", serde_json::from_str::<RTCIceCandidateInit>("[1, 2]").unwrap_err());
    assert_eq!(e, format!("Failed to parse ICE candidate JSON: {}", detail));
}

#[test]
fn local_descriptions_are_written_as_serde_writes_them() {
    let offer = SessionDescription { kind: SdpKind::Offer, sdp: "v=0\r\n".to_string() };
    let json = offer_to_json(&offer).unwrap();
    let mut expected = RTCSessionDescription::default();
    expected.sdp_type = RTCSdpType::Offer;
    expected.sdp = "v=0\r\n".to_string();
    assert_eq!(json, serde_json::to_string(&expected).unwrap());
    assert_eq!(json, r#"{"type":"offer","sdp":"v=0\r\n"}"#);
    let answer = SessionDescription { kind: SdpKind::Answer, sdp: "v=0\r\n".to_string() };
    assert_eq!(answer_to_json(&answer).unwrap(), r#"{"type":"answer","sdp":"v=0\r\n"}"#);
    let session = {
        let mut s = Session::new();
        s.install_leader();
        s
    };
    let back = offer_description(&session, &json).unwrap();
    assert_eq!(back.kind, SdpKind::Offer);
    assert_eq!(back.sdp, offer.sdp);
}

#[test]
fn gathered_candidates_are_kept_as_json() {
    let mut session = Session::new();
    session.install_leader();
    let c = IceCandidate {
        candidate: "candidate:1 1 udp 2130706431 192.0.2.1 5000 typ host".to_string(),
        sdp_mid: Some("0".to_string()),
        sdp_mline_index: Some(0),
        username_fragment: None,
    };
    assert!(gather_candidate(&mut session, &c));
    let expected = serde_json::to_string(&RTCIceCandidateInit {
        candidate: c.candidate.clone(),
        sdp_mid: Some("0".to_string()),
        sdp_mline_index: Some(0),
        username_fragment: None,
    })
    .unwrap();
    assert!(expected.starts_with(r#"{"candidate":"candidate:1 1 udp"#));
    assert_eq!(get_local_candidates(&mut session), Ok(vec![expected]));
}
