use p2p_webrtc::session::{
    check_default_devices_changed, classify_channel, close, get_local_candidates,
    has_file_channel, is_audio_active, is_connected, is_mic_muted, recv_file_message,
    recv_message, recv_would_block, send_file_message, send_message, set_mic_muted,
    start_audio, stop_audio, ChannelKind, Session, AUDIO_CHANNEL_LABEL, DATA_CHANNEL_LABEL,
    FILE_CHANNEL_LABEL,
};

#[test]
fn test_initial_webrtc_state() {
    let mut session = Session::new();
    let _ = stop_audio(&mut session);
    let _ = close(&mut session);
    let connected = is_connected(&session);
    assert!(connected.is_ok());
    assert_eq!(connected.unwrap(), false);

    let file_chan = has_file_channel(&session);
    assert!(file_chan.is_ok());
    assert_eq!(file_chan.unwrap(), false);

    let active = is_audio_active(&session);
    assert!(active.is_ok());
    assert_eq!(active.unwrap(), false);

    let muted = is_mic_muted(&session);
    assert!(muted.is_ok());
    assert_eq!(muted.unwrap(), true);

    let changed = check_default_devices_changed(&session, None, None);
    assert!(changed.is_ok());
    assert_eq!(changed.unwrap(), false);
}

#[test]
fn test_messaging_before_init() {
    let mut session = Session::new();
    let _ = stop_audio(&mut session);
    let _ = close(&mut session);
    let sent = send_message(&mut session, "hello".to_string());
    assert!(sent.is_ok());
    assert_eq!(sent.unwrap(), false);

    let sent_file = send_file_message(&mut session, "hello file".to_string());
    assert!(sent_file.is_ok());
    assert_eq!(sent_file.unwrap(), false);

    let recv = recv_message(&mut session);
    assert!(recv.is_ok());
    assert_eq!(recv.unwrap(), None);

    let recv_file = recv_file_message(&mut session);
    assert!(recv_file.is_ok());
    assert_eq!(recv_file.unwrap(), None);
}

// With no default device present (a headless machine), the stored names
// are compared against the absent devices, as the bridge does.
#[test]
fn test_default_devices_changed_detection() {
    let mut session = Session::new();
    let _ = stop_audio(&mut session);
    let _ = close(&mut session);
    session.attach_audio(
        "Fictional Input Device".to_string(),
        "Fictional Output Device".to_string(),
    );

    let changed = check_default_devices_changed(&session, None, None);
    assert!(changed.is_ok());
    assert_eq!(changed.unwrap(), true);

    let default_input_name = "Unknown".to_string();
    let default_output_name = "Unknown".to_string();
    session.attach_audio(default_input_name, default_output_name);

    let changed = check_default_devices_changed(&session, None, None);
    assert!(changed.is_ok());
    assert_eq!(changed.unwrap(), false);

    let _ = stop_audio(&mut session);
}

#[test]
fn device_change_compares_present_device_names() {
    let mut session = Session::new();
    session.attach_audio("Mic A".to_string(), "Speaker A".to_string());
    assert_eq!(
        check_default_devices_changed(
            &session,
            Some("Mic A".to_string()),
            Some("Speaker A".to_string())
        ),
        Ok(false)
    );
    assert_eq!(
        check_default_devices_changed(
            &session,
            Some("Mic A".to_string()),
            Some("Speaker B".to_string())
        ),
        Ok(true)
    );
    assert_eq!(
        check_default_devices_changed(&session, Some("Mic B".to_string()), None),
        Ok(true)
    );
    // A device that was recorded with an empty name and is now gone has not changed.
    session.attach_audio(String::new(), "Unknown".to_string());
    assert_eq!(check_default_devices_changed(&session, None, None), Ok(false));
    assert_eq!(
        check_default_devices_changed(&session, Some("Unknown".to_string()), None),
        Ok(true)
    );
}

#[test]
fn leader_sends_and_receives_in_order() {
    let mut session = Session::new();
    assert!(!session.is_initialized());
    assert!(session.install_leader());
    assert!(session.is_initialized());
    assert!(!session.install_leader());
    assert!(!session.install_follower());

    assert_eq!(send_message(&mut session, "one".to_string()), Ok(true));
    assert_eq!(send_message(&mut session, "two".to_string()), Ok(true));
    assert_eq!(send_file_message(&mut session, "file".to_string()), Ok(true));
    assert_eq!(session.take_outgoing_messages(), vec!["one".to_string(), "two".to_string()]);
    assert_eq!(session.take_outgoing_messages(), Vec::<String>::new());
    assert_eq!(session.take_outgoing_file_messages(), vec!["file".to_string()]);

    assert!(!recv_would_block(&session));
    session.set_connected(true);
    assert_eq!(is_connected(&session), Ok(true));
    assert!(recv_would_block(&session));
    assert!(session.deliver_message(b"first".to_vec()));
    assert!(session.deliver_message("second \u{e9}".as_bytes().to_vec()));
    assert!(!session.deliver_message(vec![0xff, 0xfe]));
    assert!(session.deliver_file_message(b"chunk".to_vec()));
    assert!(!recv_would_block(&session));
    assert_eq!(recv_message(&mut session), Ok(Some("first".to_string())));
    assert_eq!(recv_message(&mut session), Ok(Some("second \u{e9}".to_string())));
    assert_eq!(recv_message(&mut session), Ok(None));
    assert!(recv_would_block(&session));
    assert_eq!(recv_file_message(&mut session), Ok(Some("chunk".to_string())));
    assert_eq!(recv_file_message(&mut session), Ok(None));

    session.set_connected(false);
    assert!(!recv_would_block(&session));
    assert_eq!(is_connected(&session), Ok(false));
    assert_eq!(close(&mut session), Ok(()));
    assert!(!session.is_initialized());
}

#[test]
fn follower_learns_channels_from_labels() {
    assert_eq!(classify_channel(AUDIO_CHANNEL_LABEL), ChannelKind::Audio);
    assert_eq!(classify_channel(FILE_CHANNEL_LABEL), ChannelKind::File);
    assert_eq!(classify_channel(DATA_CHANNEL_LABEL), ChannelKind::Data);
    assert_eq!(classify_channel("something else"), ChannelKind::Data);

    let mut session = Session::new();
    assert!(session.install_follower());
    assert_eq!(has_file_channel(&session), Ok(false));
    assert_eq!(send_message(&mut session, "early".to_string()), Ok(false));
    assert_eq!(session.take_outgoing_messages(), Vec::<String>::new());
    assert_eq!(start_audio(&session), Err("Audio Data Channel not available".to_string()));

    assert_eq!(session.attach_channel("nvda-remote-file"), ChannelKind::File);
    assert_eq!(has_file_channel(&session), Ok(true));
    assert_eq!(session.attach_channel("nvda-remote"), ChannelKind::Data);
    assert_eq!(send_message(&mut session, "late".to_string()), Ok(true));
    assert_eq!(session.attach_channel("nvda-remote-audio"), ChannelKind::Audio);
    assert_eq!(start_audio(&session), Ok(true));
}

#[test]
fn attaching_a_channel_without_a_peer_changes_nothing() {
    let mut session = Session::new();
    assert_eq!(session.attach_channel("nvda-remote-file"), ChannelKind::File);
    assert_eq!(has_file_channel(&session), Ok(false));
    assert!(!session.deliver_message(b"lost".to_vec()));
    session.add_local_candidate("c".to_string());
    assert_eq!(get_local_candidates(&mut session), Ok(Vec::new()));
}

#[test]
fn candidates_are_handed_out_once_in_order() {
    let mut session = Session::new();
    assert_eq!(get_local_candidates(&mut session), Ok(Vec::new()));
    session.install_leader();
    session.add_local_candidate("a".to_string());
    session.add_local_candidate("b".to_string());
    assert_eq!(
        get_local_candidates(&mut session),
        Ok(vec!["a".to_string(), "b".to_string()])
    );
    assert_eq!(get_local_candidates(&mut session), Ok(Vec::new()));
    session.add_local_candidate("c".to_string());
    assert_eq!(get_local_candidates(&mut session), Ok(vec!["c".to_string()]));
}

#[test]
fn start_audio_decides_and_errors() {
    let mut session = Session::new();
    assert_eq!(start_audio(&session), Err("PeerConnection not initialized".to_string()));
    session.install_leader();
    assert_eq!(start_audio(&session), Ok(true));
    session.attach_audio("in".to_string(), "out".to_string());
    assert_eq!(start_audio(&session), Ok(false));
    assert_eq!(is_audio_active(&session), Ok(true));
    session.report_audio_error();
    assert_eq!(is_audio_active(&session), Ok(false));
    assert_eq!(set_mic_muted(&mut session, false), Ok(()));
    session.set_connected(true);
    assert!(session.deliver_message(b"still failed".to_vec()));
    assert_eq!(is_audio_active(&session), Ok(false));
    session.attach_audio("in".to_string(), "out".to_string());
    assert_eq!(is_audio_active(&session), Ok(true));
    session.report_audio_error();
    assert_eq!(stop_audio(&mut session), Ok(()));
    assert_eq!(is_audio_active(&session), Ok(false));
    assert_eq!(start_audio(&session), Ok(true));
}

#[test]
fn microphone_starts_muted_and_reads_back() {
    let mut session = Session::new();
    assert_eq!(set_mic_muted(&mut session, false), Ok(()));
    assert_eq!(is_mic_muted(&session), Ok(true));
    session.attach_audio("in".to_string(), "out".to_string());
    assert_eq!(is_mic_muted(&session), Ok(true));
    assert_eq!(set_mic_muted(&mut session, false), Ok(()));
    assert_eq!(is_mic_muted(&session), Ok(false));
    assert_eq!(set_mic_muted(&mut session, true), Ok(()));
    assert_eq!(is_mic_muted(&session), Ok(true));
    assert_eq!(close(&mut session), Ok(()));
    assert_eq!(is_mic_muted(&session), Ok(true));
}
