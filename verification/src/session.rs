use std::collections::VecDeque;
use vstd::prelude::*;

verus! {

/// Label of the data channel that carries control messages.
pub const DATA_CHANNEL_LABEL: &'static str = "nvda-remote";

/// Label of the data channel that carries voice packets.
pub const AUDIO_CHANNEL_LABEL: &'static str = "nvda-remote-audio";

/// Label of the data channel that carries file transfers.
pub const FILE_CHANNEL_LABEL: &'static str = "nvda-remote-file";

/// The name under which a device whose name cannot be read is recorded.
pub const UNKNOWN_DEVICE_NAME: &'static str = "Unknown";

/// The purpose of a data channel, told by its label.
#[derive(Clone, Copy, PartialEq, Eq, Debug, Structural)]
pub enum ChannelKind {
    Data,
    Audio,
    File,
}

/// The kind of the channel that carries `label`: the audio and file labels
/// name their channels, any other label is the control channel.
pub open spec fn channel_kind(label: Seq<char>) -> ChannelKind {
    if label == AUDIO_CHANNEL_LABEL@ {
        ChannelKind::Audio
    } else if label == FILE_CHANNEL_LABEL@ {
        ChannelKind::File
    } else {
        ChannelKind::Data
    }
}

/// What a session knows of its peer connection.
pub struct PeerModel {
    pub data_channel: bool,
    pub audio_channel: bool,
    pub file_channel: bool,
    pub connected: bool,
    /// Local ICE candidates gathered and not yet handed out, oldest first.
    pub local_candidates: Seq<String>,
    /// Control messages received and not yet read, oldest first.
    pub inbox: Seq<String>,
    /// File-channel messages received and not yet read, oldest first.
    pub file_inbox: Seq<String>,
    /// Control messages accepted for sending and not yet sent, oldest first.
    pub outbox: Seq<String>,
    /// File-channel messages accepted for sending and not yet sent, oldest first.
    pub file_outbox: Seq<String>,
}

/// What a session knows of its voice pipeline.
pub struct AudioModel {
    pub muted: bool,
    pub failed: bool,
    pub input_device: Seq<char>,
    pub output_device: Seq<char>,
}

/// A session: a peer connection, once initialised, and a voice pipeline,
/// while one runs.
pub struct SessionModel {
    pub peer: Option<PeerModel>,
    pub audio: Option<AudioModel>,
}

/// A peer connection with no candidates, no messages and no open channel;
/// the leader creates its three channels itself.
pub open spec fn fresh_peer(leader: bool) -> PeerModel {
    PeerModel {
        data_channel: leader,
        audio_channel: leader,
        file_channel: leader,
        connected: false,
        local_candidates: Seq::empty(),
        inbox: Seq::empty(),
        file_inbox: Seq::empty(),
        outbox: Seq::empty(),
        file_outbox: Seq::empty(),
    }
}

/// `m` with `f` applied to its peer connection, if it has one.
pub open spec fn map_peer(m: SessionModel, f: spec_fn(PeerModel) -> PeerModel) -> SessionModel {
    match m.peer {
        Some(p) => SessionModel { peer: Some(f(p)), audio: m.audio },
        None => m,
    }
}

/// `m` with `f` applied to its voice pipeline, if it has one.
pub open spec fn map_audio(m: SessionModel, f: spec_fn(AudioModel) -> AudioModel) -> SessionModel {
    match m.audio {
        Some(a) => SessionModel { peer: m.peer, audio: Some(f(a)) },
        None => m,
    }
}

/// Whether a message can be sent now on the control channel (`file`
/// false) or the file channel (`file` true): that channel exists.
pub open spec fn can_send_on(m: SessionModel, file: bool) -> bool {
    m.peer matches Some(p) && if file {
        p.file_channel
    } else {
        p.data_channel
    }
}

/// The messages received on the control channel (`file` false) or the file
/// channel (`file` true) and not yet read, oldest first.
pub open spec fn inbox_of(m: SessionModel, file: bool) -> Seq<String> {
    match m.peer {
        Some(p) => if file {
            p.file_inbox
        } else {
            p.inbox
        },
        None => Seq::empty(),
    }
}

/// The messages accepted for sending on the control channel (`file` false)
/// or the file channel (`file` true) and not yet sent, oldest first.
pub open spec fn outbox_of(m: SessionModel, file: bool) -> Seq<String> {
    match m.peer {
        Some(p) => if file {
            p.file_outbox
        } else {
            p.outbox
        },
        None => Seq::empty(),
    }
}

/// `m` with the given messages waiting to be read on one channel.
pub open spec fn set_inbox(m: SessionModel, file: bool, msgs: Seq<String>) -> SessionModel {
    map_peer(
        m,
        |p: PeerModel|
            if file {
                PeerModel { file_inbox: msgs, ..p }
            } else {
                PeerModel { inbox: msgs, ..p }
            },
    )
}

/// `m` with the given messages waiting to be sent on one channel.
pub open spec fn set_outbox(m: SessionModel, file: bool, msgs: Seq<String>) -> SessionModel {
    map_peer(
        m,
        |p: PeerModel|
            if file {
                PeerModel { file_outbox: msgs, ..p }
            } else {
                PeerModel { outbox: msgs, ..p }
            },
    )
}

/// Whether the microphone is muted: a running pipeline says so; without one
/// the microphone counts as muted.
pub open spec fn mic_muted(m: SessionModel) -> bool {
    match m.audio {
        Some(a) => a.muted,
        None => true,
    }
}

/// `m` with the running pipeline's microphone set to `muted`.
pub open spec fn with_mic_muted(m: SessionModel, muted: bool) -> SessionModel {
    map_audio(m, |a: AudioModel| AudioModel { muted: muted, ..a })
}

/// The local ICE candidates gathered and not yet handed out, oldest first.
pub open spec fn candidates_of(m: SessionModel) -> Seq<String> {
    match m.peer {
        Some(p) => p.local_candidates,
        None => Seq::empty(),
    }
}

/// `m` after a local ICE candidate was gathered.
pub open spec fn with_candidate(m: SessionModel, candidate: String) -> SessionModel {
    map_peer(
        m,
        |p: PeerModel| PeerModel { local_candidates: p.local_candidates.push(candidate), ..p },
    )
}

/// `m` with no local ICE candidate waiting.
pub open spec fn without_candidates(m: SessionModel) -> SessionModel {
    map_peer(m, |p: PeerModel| PeerModel { local_candidates: Seq::empty(), ..p })
}

/// `m` after `text` arrived on one channel.
pub open spec fn with_received(m: SessionModel, file: bool, text: String) -> SessionModel {
    set_inbox(m, file, inbox_of(m, file).push(text))
}

/// `m` after `text` was accepted for sending on one channel.
pub open spec fn with_sent(m: SessionModel, file: bool, text: String) -> SessionModel {
    set_outbox(m, file, outbox_of(m, file).push(text))
}

/// What the next read on one channel returns: the oldest unread message.
pub open spec fn next_received(m: SessionModel, file: bool) -> Option<String> {
    if inbox_of(m, file).len() > 0 {
        Some(inbox_of(m, file)[0])
    } else {
        None
    }
}

/// `m` after a read on one channel.
pub open spec fn after_read(m: SessionModel, file: bool) -> SessionModel {
    if inbox_of(m, file).len() > 0 {
        set_inbox(m, file, inbox_of(m, file).drop_first())
    } else {
        m
    }
}

/// Whether a reader of control messages must wait: the peer is connected and
/// nothing is waiting to be read.
pub open spec fn must_wait(m: SessionModel) -> bool {
    m.peer matches Some(p) && p.connected && p.inbox.len() == 0
}

/// Whether a default device differs from the recorded one: a present device
/// differs when its name does; an absent one differs unless nothing, or the
/// unknown name, was recorded.
pub open spec fn device_changed(current: Option<String>, recorded: Seq<char>) -> bool {
    match current {
        Some(name) => name@ != recorded,
        None => recorded.len() != 0 && recorded != UNKNOWN_DEVICE_NAME@,
    }
}

/// `String::from_utf8`: by its documentation it succeeds exactly on valid
/// UTF-8 and then holds the decoded characters. The contract claims that
/// `valid_utf8` and `decode_utf8` of vstd describe that validity and that
/// decoding.
#[verifier::external_body]
fn string_from_utf8(bytes: Vec<u8>) -> (r: Option<String>)
    ensures
        r is Some <==> vstd::utf8::valid_utf8(bytes@),
        r matches Some(s) ==> s@ == vstd::utf8::decode_utf8(bytes@),
{
    String::from_utf8(bytes).ok()
}

/// The text a received message carries, if its bytes are valid UTF-8.
pub open spec fn message_text(data: Seq<u8>) -> Option<Seq<char>> {
    if vstd::utf8::valid_utf8(data) {
        Some(vstd::utf8::decode_utf8(data))
    } else {
        None
    }
}

/// Whether two byte strings are the same.
fn same_bytes(a: &[u8], b: &[u8]) -> (same: bool)
    ensures
        same == (a@ == b@),
{
    if a.len() != b.len() {
        return false;
    }
    let mut i: usize = 0;
    while i < a.len()
        invariant
            i <= a@.len(),
            a@.len() == b@.len(),
            forall|j: int| 0 <= j < i ==> a@[j] == b@[j],
        decreases a@.len() - i,
    {
        if a[i] != b[i] {
            return false;
        }
        i = i + 1;
    }
    assert(a@ =~= b@);
    true
}

/// The text that a received message carries: the UTF-8 decoding of all its
/// bytes, or nothing where they are not UTF-8. The text is checked against
/// the bytes: encoding it again must give back exactly the bytes received.
fn received_text(data: &Vec<u8>) -> (r: Option<String>)
    ensures
        r is Some <==> vstd::utf8::valid_utf8(data@),
        r matches Some(s) ==> s@ == vstd::utf8::decode_utf8(data@) && vstd::utf8::encode_utf8(s@)
            == data@,
{
    match string_from_utf8(vstd::slice::slice_to_vec(data.as_slice())) {
        Some(text) => {
            if same_bytes(text.as_str().as_bytes(), data.as_slice()) {
                proof {
                    vstd::utf8::encode_utf8_decode_utf8(text@);
                    vstd::utf8::encode_utf8_valid_utf8(text@);
                }
                Some(text)
            } else {
                proof {
                    vstd::utf8::decode_utf8_encode_utf8(data@);
                }
                None
            }
        },
        None => None,
    }
}

/// Tells a data channel's purpose by its label.
pub fn classify_channel(label: &str) -> (kind: ChannelKind)
    ensures
        kind == channel_kind(label@),
{
    let label = label.to_owned();
    if label == AUDIO_CHANNEL_LABEL.to_owned() {
        ChannelKind::Audio
    } else if label == FILE_CHANNEL_LABEL.to_owned() {
        ChannelKind::File
    } else {
        ChannelKind::Data
    }
}

struct PeerState {
    data_channel: bool,
    audio_channel: bool,
    file_channel: bool,
    connected: bool,
    local_candidates: Vec<String>,
    received_messages: VecDeque<String>,
    received_file_messages: VecDeque<String>,
    outgoing_messages: Vec<String>,
    outgoing_file_messages: Vec<String>,
}

impl PeerState {
    closed spec fn model(&self) -> PeerModel {
        PeerModel {
            data_channel: self.data_channel,
            audio_channel: self.audio_channel,
            file_channel: self.file_channel,
            connected: self.connected,
            local_candidates: self.local_candidates@,
            inbox: self.received_messages@,
            file_inbox: self.received_file_messages@,
            outbox: self.outgoing_messages@,
            file_outbox: self.outgoing_file_messages@,
        }
    }

    fn fresh(leader: bool) -> (p: PeerState)
        ensures
            p.model() == fresh_peer(leader),
    {
        PeerState {
            data_channel: leader,
            audio_channel: leader,
            file_channel: leader,
            connected: false,
            local_candidates: Vec::new(),
            received_messages: VecDeque::new(),
            received_file_messages: VecDeque::new(),
            outgoing_messages: Vec::new(),
            outgoing_file_messages: Vec::new(),
        }
    }
}

struct AudioState {
    muted: bool,
    failed: bool,
    input_device_name: String,
    output_device_name: String,
}

impl AudioState {
    closed spec fn model(&self) -> AudioModel {
        AudioModel {
            muted: self.muted,
            failed: self.failed,
            input_device: self.input_device_name@,
            output_device: self.output_device_name@,
        }
    }
}

/// The state that the bridge keeps between calls: the peer connection's
/// bookkeeping and the voice pipeline's.
pub struct Session {
    peer: Option<PeerState>,
    audio: Option<AudioState>,
}

impl View for Session {
    type V = SessionModel;

    closed spec fn view(&self) -> SessionModel {
        SessionModel {
            peer: match self.peer {
                Some(p) => Some(p.model()),
                None => None,
            },
            audio: match self.audio {
                Some(a) => Some(a.model()),
                None => None,
            },
        }
    }
}

impl Session {
    /// A session with no peer connection and no voice pipeline.
    pub fn new() -> (s: Session)
        ensures
            s@ == (SessionModel { peer: None, audio: None }),
    {
        Session { peer: None, audio: None }
    }

    pub fn is_initialized(&self) -> (b: bool)
        ensures
            b == self@.peer is Some,
    {
        self.peer.is_some()
    }

    /// Records the peer connection of the side that offers: it has created
    /// the control, audio and file channels. A session that already has a
    /// peer connection is left as it is, and `false` is returned.
    pub fn install_leader(&mut self) -> (installed: bool)
        ensures
            installed == old(self)@.peer is None,
            installed ==> final(self)@ == (SessionModel { peer: Some(fresh_peer(true)), audio: old(self)@.audio }),
            !installed ==> final(self)@ == old(self)@,
    {
        if self.peer.is_some() {
            return false;
        }
        self.peer = Some(PeerState::fresh(true));
        true
    }

    /// Records the peer connection of the side that answers: its channels
    /// arrive later, from the leader. A session that already has a peer
    /// connection is left as it is, and `false` is returned.
    pub fn install_follower(&mut self) -> (installed: bool)
        ensures
            installed == old(self)@.peer is None,
            installed ==> final(self)@ == (SessionModel { peer: Some(fresh_peer(false)), audio: old(self)@.audio }),
            !installed ==> final(self)@ == old(self)@,
    {
        if self.peer.is_some() {
            return false;
        }
        self.peer = Some(PeerState::fresh(false));
        true
    }

    /// Keeps a local ICE candidate, serialised, until it is handed out.
    pub fn add_local_candidate(&mut self, candidate: String)
        ensures
            final(self)@ == with_candidate(old(self)@, candidate),
    {
        match &mut self.peer {
            Some(p) => {
                p.local_candidates.push(candidate);
            },
            None => {},
        }
    }

    /// Queues a message received on the control channel, if it is valid
    /// UTF-8; returns whether it was queued.
    pub fn deliver_message(&mut self, data: Vec<u8>) -> (queued: bool)
        ensures
            queued == (old(self)@.peer is Some && message_text(data@) is Some),
            queued ==> exists|text: String|
                #[trigger] text@ == message_text(data@)->0 && vstd::utf8::encode_utf8(text@) == data@
                    && final(self)@ == with_received(
                    old(self)@,
                    false,
                    text,
                ),
            !queued ==> final(self)@ == old(self)@,
    {
        match &mut self.peer {
            Some(p) => {
                match received_text(&data) {
                    Some(text) => {
                        p.received_messages.push_back(text);
                        true
                    },
                    None => false,
                }
            },
            None => false,
        }
    }

    /// Queues a message received on the file channel, if it is valid UTF-8;
    /// returns whether it was queued.
    pub fn deliver_file_message(&mut self, data: Vec<u8>) -> (queued: bool)
        ensures
            queued == (old(self)@.peer is Some && message_text(data@) is Some),
            queued ==> exists|text: String|
                #[trigger] text@ == message_text(data@)->0 && vstd::utf8::encode_utf8(text@) == data@
                    && final(self)@ == with_received(
                    old(self)@,
                    true,
                    text,
                ),
            !queued ==> final(self)@ == old(self)@,
    {
        match &mut self.peer {
            Some(p) => {
                match received_text(&data) {
                    Some(text) => {
                        p.received_file_messages.push_back(text);
                        true
                    },
                    None => false,
                }
            },
            None => false,
        }
    }

    /// Records a channel that the leader opened towards this side, as the
    /// kind its label tells, and returns that kind.
    pub fn attach_channel(&mut self, label: &str) -> (kind: ChannelKind)
        ensures
            kind == channel_kind(label@),
            final(self)@ == map_peer(
                old(self)@,
                |p: PeerModel|
                    match kind {
                        ChannelKind::Audio => PeerModel { audio_channel: true, ..p },
                        ChannelKind::File => PeerModel { file_channel: true, ..p },
                        ChannelKind::Data => PeerModel { data_channel: true, ..p },
                    },
            ),
    {
        let kind = classify_channel(label);
        match &mut self.peer {
            Some(p) => {
                match kind {
                    ChannelKind::Audio => {
                        p.audio_channel = true;
                    },
                    ChannelKind::File => {
                        p.file_channel = true;
                    },
                    ChannelKind::Data => {
                        p.data_channel = true;
                    },
                }
            },
            None => {},
        }
        kind
    }

    /// Hands out the control messages waiting to be sent, oldest first.
    pub fn take_outgoing_messages(&mut self) -> (msgs: Vec<String>)
        ensures
            msgs@ == outbox_of(old(self)@, false),
            final(self)@ == set_outbox(old(self)@, false, Seq::empty()),
    {
        let mut msgs: Vec<String> = Vec::new();
        match &mut self.peer {
            Some(p) => {
                std::mem::swap(&mut msgs, &mut p.outgoing_messages);
            },
            None => {},
        }
        msgs
    }

    /// Hands out the file-channel messages waiting to be sent, oldest first.
    pub fn take_outgoing_file_messages(&mut self) -> (msgs: Vec<String>)
        ensures
            msgs@ == outbox_of(old(self)@, true),
            final(self)@ == set_outbox(old(self)@, true, Seq::empty()),
    {
        let mut msgs: Vec<String> = Vec::new();
        match &mut self.peer {
            Some(p) => {
                std::mem::swap(&mut msgs, &mut p.outgoing_file_messages);
            },
            None => {},
        }
        msgs
    }

    /// Records a voice pipeline that has just started on the named devices:
    /// the microphone starts muted.
    pub fn attach_audio(&mut self, input_device_name: String, output_device_name: String)
        ensures
            final(self)@ == (SessionModel {
                peer: old(self)@.peer,
                audio: Some(AudioModel {
                    muted: true,
                    failed: false,
                    input_device: input_device_name@,
                    output_device: output_device_name@,
                }),
            }),
    {
        self.audio = Some(AudioState {
            muted: true,
            failed: false,
            input_device_name,
            output_device_name,
        });
    }

    /// Records that an audio stream reported an error.
    pub fn report_audio_error(&mut self)
        ensures
            final(self)@ == map_audio(old(self)@, |a: AudioModel| AudioModel { failed: true, ..a }),
    {
        match &mut self.audio {
            Some(a) => {
                a.failed = true;
            },
            None => {},
        }
    }

    /// Records that the control channel opened (`true`) or closed (`false`).
    pub fn set_connected(&mut self, open: bool)
        ensures
            final(self)@ == map_peer(old(self)@, |p: PeerModel| PeerModel { connected: open, ..p }),
    {
        match &mut self.peer {
            Some(p) => {
                p.connected = open;
            },
            None => {},
        }
    }
}

} // verus!

verus! {

/// Hands out the local ICE candidates gathered so far, oldest first, and
/// forgets them; without a peer connection there are none.
pub fn get_local_candidates(session: &mut Session) -> (r: Result<Vec<String>, String>)
    ensures
        r matches Ok(c) && c@ == candidates_of(old(session)@),
        final(session)@ == without_candidates(old(session)@),
{
    let mut candidates: Vec<String> = Vec::new();
    match &mut session.peer {
        Some(p) => {
            std::mem::swap(&mut candidates, &mut p.local_candidates);
        },
        None => {},
    }
    Ok(candidates)
}

/// Accepts a control message for sending when the control channel exists,
/// and says whether it did.
pub fn send_message(session: &mut Session, msg: String) -> (r: Result<bool, String>)
    ensures
        r == Ok::<bool, String>(can_send_on(old(session)@, false)),
        can_send_on(old(session)@, false) ==> final(session)@ == with_sent(old(session)@, false, msg),
        !can_send_on(old(session)@, false) ==> final(session)@ == old(session)@,
{
    match &mut session.peer {
        Some(p) => {
            if p.data_channel {
                p.outgoing_messages.push(msg);
                Ok(true)
            } else {
                Ok(false)
            }
        },
        None => Ok(false),
    }
}

/// Accepts a file-channel message for sending when the file channel
/// exists, and says whether it did.
pub fn send_file_message(session: &mut Session, msg: String) -> (r: Result<bool, String>)
    ensures
        r == Ok::<bool, String>(can_send_on(old(session)@, true)),
        can_send_on(old(session)@, true) ==> final(session)@ == with_sent(old(session)@, true, msg),
        !can_send_on(old(session)@, true) ==> final(session)@ == old(session)@,
{
    match &mut session.peer {
        Some(p) => {
            if p.file_channel {
                p.outgoing_file_messages.push(msg);
                Ok(true)
            } else {
                Ok(false)
            }
        },
        None => Ok(false),
    }
}

/// Whether a reader of control messages has to wait for one to arrive: the
/// peer is connected and no message is waiting.
pub fn recv_would_block(session: &Session) -> (b: bool)
    ensures
        b == must_wait(session@),
{
    match &session.peer {
        Some(p) => p.connected && p.received_messages.len() == 0,
        None => false,
    }
}

/// Takes the oldest control message received and not yet read, if any.
pub fn recv_message(session: &mut Session) -> (r: Result<Option<String>, String>)
    ensures
        r == Ok::<Option<String>, String>(next_received(old(session)@, false)),
        final(session)@ == after_read(old(session)@, false),
{
    match &mut session.peer {
        Some(p) => Ok(p.received_messages.pop_front()),
        None => Ok(None),
    }
}

/// Takes the oldest file-channel message received and not yet read, if any.
pub fn recv_file_message(session: &mut Session) -> (r: Result<Option<String>, String>)
    ensures
        r == Ok::<Option<String>, String>(next_received(old(session)@, true)),
        final(session)@ == after_read(old(session)@, true),
{
    match &mut session.peer {
        Some(p) => Ok(p.received_file_messages.pop_front()),
        None => Ok(None),
    }
}

/// Whether the control channel is open.
pub fn is_connected(session: &Session) -> (r: Result<bool, String>)
    ensures
        r == Ok::<bool, String>(session@.peer matches Some(p) && p.connected),
{
    match &session.peer {
        Some(p) => Ok(p.connected),
        None => Ok(false),
    }
}

/// Whether the file channel exists.
pub fn has_file_channel(session: &Session) -> (r: Result<bool, String>)
    ensures
        r == Ok::<bool, String>(session@.peer matches Some(p) && p.file_channel),
{
    match &session.peer {
        Some(p) => Ok(p.file_channel),
        None => Ok(false),
    }
}

/// Decides whether a voice pipeline has to be started: not when one is
/// already running (`Ok(false)`); it cannot be without a peer connection or
/// without the audio channel (each an error); otherwise it must (`Ok(true)`).
pub fn start_audio(session: &Session) -> (r: Result<bool, String>)
    ensures
        match (session@.audio, session@.peer) {
            (Some(_), _) => r == Ok::<bool, String>(false),
            (None, None) => (r matches Err(e) && e@ == "PeerConnection not initialized"@),
            (None, Some(p)) => if p.audio_channel {
                r == Ok::<bool, String>(true)
            } else {
                (r matches Err(e) && e@ == "Audio Data Channel not available"@)
            },
        },
{
    if session.audio.is_some() {
        return Ok(false);
    }
    match &session.peer {
        Some(p) => {
            if p.audio_channel {
                Ok(true)
            } else {
                Err("Audio Data Channel not available".to_owned())
            }
        },
        None => Err("PeerConnection not initialized".to_owned()),
    }
}

/// Stops the voice pipeline, if one runs.
pub fn stop_audio(session: &mut Session) -> (r: Result<(), String>)
    ensures
        r is Ok,
        final(session)@ == (SessionModel { peer: old(session)@.peer, audio: None }),
{
    session.audio = None;
    Ok(())
}

/// Mutes or unmutes the microphone of the running voice pipeline; without
/// one nothing changes.
pub fn set_mic_muted(session: &mut Session, muted: bool) -> (r: Result<(), String>)
    ensures
        r is Ok,
        final(session)@ == with_mic_muted(old(session)@, muted),
{
    match &mut session.audio {
        Some(a) => {
            a.muted = muted;
        },
        None => {},
    }
    Ok(())
}

/// Whether the microphone is muted; without a voice pipeline it counts as
/// muted.
pub fn is_mic_muted(session: &Session) -> (r: Result<bool, String>)
    ensures
        r == Ok::<bool, String>(mic_muted(session@)),
{
    match &session.audio {
        Some(a) => Ok(a.muted),
        None => Ok(true),
    }
}

/// Whether a voice pipeline runs and none of its streams has failed.
pub fn is_audio_active(session: &Session) -> (r: Result<bool, String>)
    ensures
        r == Ok::<bool, String>(audio_active(session@)),
{
    match &session.audio {
        Some(a) => Ok(!a.failed),
        None => Ok(false),
    }
}

/// Ends the session: the voice pipeline stops and the peer connection,
/// with its queues, is dropped.
pub fn close(session: &mut Session) -> (r: Result<(), String>)
    ensures
        r is Ok,
        final(session)@ == (SessionModel { peer: None, audio: None }),
{
    session.audio = None;
    session.peer = None;
    Ok(())
}

fn device_name_changed(current: Option<String>, recorded: &String) -> (b: bool)
    ensures
        b == device_changed(current, recorded@),
{
    match current {
        Some(name) => !(name == *recorded),
        None => !recorded.as_str().is_empty() && !(*recorded == UNKNOWN_DEVICE_NAME.to_owned()),
    }
}

/// Whether the system's default input or output device differs from the
/// one the running voice pipeline was built on. `current_input` and
/// `current_output` are the names of the present default devices (the
/// unknown name where a name cannot be read), `None` where there is none.
/// Without a voice pipeline nothing has changed.
pub fn check_default_devices_changed(
    session: &Session,
    current_input: Option<String>,
    current_output: Option<String>,
) -> (r: Result<bool, String>)
    ensures
        r == Ok::<bool, String>(match session@.audio {
            Some(a) => device_changed(current_input, a.input_device) || device_changed(
                current_output,
                a.output_device,
            ),
            None => false,
        }),
{
    match &session.audio {
        Some(a) => {
            let input_changed = device_name_changed(current_input, &a.input_device_name);
            let output_changed = device_name_changed(current_output, &a.output_device_name);
            Ok(input_changed || output_changed)
        },
        None => Ok(false),
    }
}

/// `m` after the messages `texts` arrived on one channel, in that order.
pub open spec fn receive_all(m: SessionModel, file: bool, texts: Seq<String>) -> SessionModel
    decreases texts.len(),
{
    if texts.len() == 0 {
        m
    } else {
        with_received(receive_all(m, file, texts.drop_last()), file, texts.last())
    }
}

/// `m` after the messages `texts` were accepted for sending on one channel,
/// in that order.
pub open spec fn send_all(m: SessionModel, file: bool, texts: Seq<String>) -> SessionModel
    decreases texts.len(),
{
    if texts.len() == 0 {
        m
    } else {
        with_sent(send_all(m, file, texts.drop_last()), file, texts.last())
    }
}

/// What `n` reads in a row on one channel return.
pub open spec fn read_n(m: SessionModel, file: bool, n: nat) -> Seq<Option<String>>
    decreases n,
{
    if n == 0 {
        Seq::empty()
    } else {
        seq![next_received(m, file)] + read_n(after_read(m, file), file, (n - 1) as nat)
    }
}

proof fn lemma_receive_all_appends(m: SessionModel, file: bool, texts: Seq<String>)
    requires
        m.peer is Some,
    ensures
        receive_all(m, file, texts).peer is Some,
        inbox_of(receive_all(m, file, texts), file) == inbox_of(m, file) + texts,
    decreases texts.len(),
{
    if texts.len() > 0 {
        lemma_receive_all_appends(m, file, texts.drop_last());
        assert(inbox_of(m, file) + texts.drop_last() + seq![texts.last()] =~= inbox_of(m, file) + texts);
    } else {
        assert(inbox_of(m, file) + texts =~= inbox_of(m, file));
    }
}

proof fn lemma_reads_drain_inbox(m: SessionModel, file: bool)
    requires
        m.peer is Some,
    ensures
        read_n(m, file, inbox_of(m, file).len() + 1) == inbox_of(m, file).map_values(
            |t: String| Some(t),
        ).push(None),
    decreases inbox_of(m, file).len(),
{
    let inbox = inbox_of(m, file);
    let n = inbox.len() + 1;
    if inbox.len() == 0 {
        assert(read_n(after_read(m, file), file, 0) == Seq::<Option<String>>::empty());
        assert(read_n(m, file, n) =~= inbox.map_values(|t: String| Some(t)).push(None));
    } else {
        let m2 = after_read(m, file);
        assert(inbox_of(m2, file) == inbox.drop_first());
        lemma_reads_drain_inbox(m2, file);
        assert(read_n(m, file, n) == seq![Some(inbox[0])] + read_n(m2, file, (n - 1) as nat));
        assert(read_n(m, file, n) =~= inbox.map_values(|t: String| Some(t)).push(None));
    }
}

/// Messages are read in the order they arrived: on a connected peer, the
/// reads after a run of arrivals return the messages that were waiting,
/// then the new ones, each once, and then nothing.
pub proof fn lemma_read_in_arrival_order(m: SessionModel, file: bool, texts: Seq<String>)
    requires
        m.peer is Some,
    ensures
        read_n(receive_all(m, file, texts), file, inbox_of(m, file).len() + texts.len() + 1) == (
        inbox_of(m, file) + texts).map_values(|t: String| Some(t)).push(None),
{
    lemma_receive_all_appends(m, file, texts);
    lemma_reads_drain_inbox(receive_all(m, file, texts), file);
}

/// Messages leave in the order they were accepted: while a channel exists,
/// sending a run of messages appends them, in order, to what waits to be
/// sent on it.
pub proof fn lemma_sent_in_order(m: SessionModel, file: bool, texts: Seq<String>)
    requires
        can_send_on(m, file),
    ensures
        can_send_on(send_all(m, file, texts), file),
        outbox_of(send_all(m, file, texts), file) == outbox_of(m, file) + texts,
    decreases texts.len(),
{
    if texts.len() > 0 {
        lemma_sent_in_order(m, file, texts.drop_last());
        assert(outbox_of(m, file) + texts.drop_last() + seq![texts.last()] =~= outbox_of(m, file) + texts);
    } else {
        assert(outbox_of(m, file) + texts =~= outbox_of(m, file));
    }
}

/// Before a peer connection exists nothing can be sent and nothing is read:
/// every send is refused and every read finds nothing.
pub proof fn lemma_nothing_before_init(m: SessionModel, file: bool)
    requires
        m.peer is None,
    ensures
        !can_send_on(m, file),
        next_received(m, file) is None,
        after_read(m, file) == m,
        !must_wait(m),
{
}

/// The microphone setting reads back: with a voice pipeline running, the
/// microphone is muted exactly when it was last set so; without one it
/// counts as muted whatever was set.
pub proof fn lemma_mute_reads_back(m: SessionModel, muted: bool)
    ensures
        with_mic_muted(m, muted).audio is Some == m.audio is Some,
        mic_muted(with_mic_muted(m, muted)) == (m.audio is None || muted),
{
}

/// `m` after the candidates `found` were gathered, in that order.
pub open spec fn gather_all(m: SessionModel, found: Seq<String>) -> SessionModel
    decreases found.len(),
{
    if found.len() == 0 {
        m
    } else {
        with_candidate(gather_all(m, found.drop_last()), found.last())
    }
}

/// Local candidates are handed out once each, in the order they were
/// gathered: a hand-out returns those waiting followed by those gathered
/// since, and the next hand-out returns none of them again.
pub proof fn lemma_candidates_handed_out_once(m: SessionModel, found: Seq<String>)
    requires
        m.peer is Some,
    ensures
        candidates_of(gather_all(m, found)) == candidates_of(m) + found,
        candidates_of(without_candidates(gather_all(m, found))) == Seq::<String>::empty(),
    decreases found.len(),
{
    if found.len() > 0 {
        lemma_candidates_handed_out_once(m, found.drop_last());
        assert(candidates_of(m) + found.drop_last() + seq![found.last()] =~= candidates_of(m) + found);
    } else {
        assert(candidates_of(m) + found =~= candidates_of(m));
    }
}

/// What a run of hand-outs returns: between one hand-out and the next, the
/// candidates of one round of `rounds` are gathered.
pub open spec fn handouts(m: SessionModel, rounds: Seq<Seq<String>>) -> Seq<Seq<String>>
    decreases rounds.len(),
{
    if rounds.len() == 0 {
        Seq::empty()
    } else {
        let gathered = gather_all(m, rounds[0]);
        seq![candidates_of(gathered)] + handouts(without_candidates(gathered), rounds.drop_first())
    }
}

proof fn lemma_gather_all_keeps_peer(m: SessionModel, found: Seq<String>)
    requires
        m.peer is Some,
    ensures
        gather_all(m, found).peer is Some,
    decreases found.len(),
{
    if found.len() > 0 {
        lemma_gather_all_keeps_peer(m, found.drop_last());
    }
}

/// Over any run of hand-outs, every candidate is handed out exactly once and
/// in the order gathered: the first hand-out returns those already waiting
/// and those of its round, each later one returns exactly the candidates of
/// its own round (none when none were gathered), and together they return
/// everything gathered.
pub proof fn lemma_handouts_return_each_candidate_once(m: SessionModel, rounds: Seq<Seq<String>>)
    requires
        m.peer is Some,
    ensures
        handouts(m, rounds).len() == rounds.len(),
        rounds.len() > 0 ==> handouts(m, rounds)[0] == candidates_of(m) + rounds[0],
        forall|i: int| 0 < i < rounds.len() ==> #[trigger] handouts(m, rounds)[i] == rounds[i],
        candidates_of(m) + rounds.flatten() == if rounds.len() == 0 {
            candidates_of(m)
        } else {
            handouts(m, rounds).flatten()
        },
    decreases rounds.len(),
{
    if rounds.len() == 0 {
        assert(candidates_of(m) + rounds.flatten() =~= candidates_of(m));
    } else {
        let gathered = gather_all(m, rounds[0]);
        let next = without_candidates(gathered);
        let rest = rounds.drop_first();
        lemma_candidates_handed_out_once(m, rounds[0]);
        lemma_gather_all_keeps_peer(m, rounds[0]);
        assert(next.peer is Some);
        assert(candidates_of(next) == Seq::<String>::empty());
        lemma_handouts_return_each_candidate_once(next, rest);
        let h = handouts(m, rounds);
        assert(h == seq![candidates_of(gathered)] + handouts(next, rest));
        assert forall|i: int| 0 < i < rounds.len() implies #[trigger] h[i] == rounds[i] by {
            assert(h[i] == handouts(next, rest)[i - 1]);
            if i - 1 == 0 {
                assert(candidates_of(next) + rest[0] =~= rest[0]);
            }
        }
        assert(h.drop_first() =~= handouts(next, rest));
        if rest.len() == 0 {
            assert(handouts(next, rest) =~= Seq::<Seq<String>>::empty());
            assert(h.drop_first().flatten() =~= Seq::<String>::empty());
            assert(rest.flatten() =~= Seq::<String>::empty());
        } else {
            assert(candidates_of(next) + rest.flatten() =~= rest.flatten());
        }
        assert(rounds.flatten() == rounds[0] + rest.flatten());
        assert(h.flatten() == h[0] + h.drop_first().flatten());
        assert(candidates_of(m) + rounds.flatten() =~= h.flatten());
    }
}

/// Whether a voice pipeline runs and none of its streams has failed.
pub open spec fn audio_active(m: SessionModel) -> bool {
    m.audio matches Some(a) && !a.failed
}

/// A stream error sticks until the pipeline is replaced: after an error the
/// pipeline is not active, and neither a change to the peer connection's
/// bookkeeping, nor muting, nor a further error makes it active again; only
/// attaching a new pipeline (or stopping it, or closing) changes that.
pub proof fn lemma_audio_error_persists(m: SessionModel, f: spec_fn(PeerModel) -> PeerModel, muted: bool)
    ensures
        ({
            let failed = map_audio(m, |a: AudioModel| AudioModel { failed: true, ..a });
            &&& !audio_active(failed)
            &&& map_peer(failed, f).audio == failed.audio
            &&& !audio_active(map_peer(failed, f))
            &&& !audio_active(with_mic_muted(failed, muted))
            &&& !audio_active(map_audio(failed, |a: AudioModel| AudioModel { failed: true, ..a }))
        }),
{
}

/// A message is read as it was received: when it arrives on an empty
/// inbox, the next read returns a text that is the UTF-8 decoding of all its
/// bytes, and whose UTF-8 encoding is those bytes again, none lost or added.
pub proof fn lemma_read_returns_received_bytes(m: SessionModel, file: bool, data: Seq<u8>, text: String)
    requires
        m.peer is Some,
        inbox_of(m, file).len() == 0,
        text@ == message_text(data)->0,
        vstd::utf8::encode_utf8(text@) == data,
    ensures
        next_received(with_received(m, file, text), file) matches Some(t) && vstd::utf8::encode_utf8(t@)
            == data && t@ == vstd::utf8::decode_utf8(data) && t@.len() <= data.len(),
{
    let after = with_received(m, file, text);
    assert(inbox_of(after, file) =~= seq![text]);
    vstd::utf8::encode_utf8_decode_utf8(text@);
    lemma_encoding_is_no_shorter(text@);
}

proof fn lemma_encoding_is_no_shorter(chars: Seq<char>)
    ensures
        chars.len() <= vstd::utf8::encode_utf8(chars).len(),
    decreases chars.len(),
{
    if chars.len() > 0 {
        lemma_encoding_is_no_shorter(chars.drop_first());
        vstd::utf8::encode_utf8_first_scalar(chars);
    }
}

} // verus!
