use std::collections::VecDeque;
use vstd::prelude::*;
use crate::audio::jitter::{JitterBuffer, pop_output, pop_remaining, state_after_pop};

verus! {

/// Samples in one processing frame: 10 ms at 48 kHz.
pub const FRAME_SAMPLES: usize = 480;

/// Samples the playout buffer collects before it plays: 40 ms at 48 kHz.
pub const JITTER_TARGET_SAMPLES: usize = 1920;

/// Bit rate of the voice encoder, in bits per second.
pub const OPUS_BITRATE: i32 = 32000;

/// Room reserved for one encoded frame, in bytes.
pub const MAX_ENCODED_FRAME_BYTES: usize = 1000;

/// Stream identifier of the microphone.
pub const MICROPHONE_STREAM_ID: u8 = 0;

/// One voice packet on the audio channel: a stream identifier and an
/// encoded frame.
pub struct AudioPacket {
    pub stream_id: u8,
    pub payload: Vec<u8>,
}

/// The wire form of a packet: its stream identifier byte, then its payload.
pub open spec fn packet_bytes(stream_id: u8, payload: Seq<u8>) -> Seq<u8> {
    seq![stream_id] + payload
}

/// A received message is a packet when it holds more than one byte: the
/// first is the stream identifier, the rest the payload.
pub open spec fn parse_packet(data: Seq<u8>) -> Option<(u8, Seq<u8>)> {
    if data.len() > 1 {
        Some((data[0], data.skip(1)))
    } else {
        None
    }
}

impl AudioPacket {
    /// The wire form of this packet.
    pub fn to_bytes(&self) -> (bytes: Vec<u8>)
        ensures
            bytes@ == packet_bytes(self.stream_id, self.payload@),
    {
        let mut bytes: Vec<u8> = Vec::new();
        bytes.push(self.stream_id);
        let mut i: usize = 0;
        while i < self.payload.len()
            invariant
                i <= self.payload@.len(),
                bytes@ == seq![self.stream_id] + self.payload@.take(i as int),
            decreases self.payload@.len() - i,
        {
            bytes.push(self.payload[i]);
            i = i + 1;
            assert(self.payload@.take(i as int) == self.payload@.take(i - 1) + seq![self.payload@[i - 1]]);
        }
        assert(self.payload@.take(self.payload@.len() as int) == self.payload@);
        bytes
    }

    /// The packet that a received message holds, if it holds one.
    pub fn from_bytes(data: &[u8]) -> (p: Option<AudioPacket>)
        ensures
            p is Some <==> parse_packet(data@) is Some,
            p matches Some(q) ==> parse_packet(data@) == Some((q.stream_id, q.payload@)),
    {
        if data.len() > 1 {
            let payload = vstd::slice::slice_to_vec(vstd::slice::slice_subrange(data, 1, data.len()));
            assert(data@.subrange(1, data@.len() as int) == data@.skip(1));
            Some(AudioPacket { stream_id: data[0], payload })
        } else {
            None
        }
    }

    /// Whether this packet carries the microphone stream.
    pub fn is_microphone(&self) -> (b: bool)
        ensures
            b == (self.stream_id == MICROPHONE_STREAM_ID),
    {
        self.stream_id == MICROPHONE_STREAM_ID
    }
}

/// Reading a packet back from its wire form gives the packet, provided its
/// payload is not empty (a one-byte message is not a packet).
pub proof fn lemma_packet_round_trip(stream_id: u8, payload: Seq<u8>)
    ensures
        payload.len() > 0 <==> parse_packet(packet_bytes(stream_id, payload)) is Some,
        payload.len() > 0 ==> parse_packet(packet_bytes(stream_id, payload)) == Some((stream_id, payload)),
{
    let bytes = packet_bytes(stream_id, payload);
    assert(bytes.skip(1) =~= payload);
}

/// Writing a packet read from a message gives the message back.
pub proof fn lemma_parse_then_write(data: Seq<u8>)
    ensures
        parse_packet(data) matches Some((id, payload)) ==> packet_bytes(id, payload) == data,
{
    if data.len() > 1 {
        assert(seq![data[0]] + data.skip(1) =~= data);
    }
}

/// Takes the next full frame of `frame_len` samples off the front of the
/// captured samples, if there are that many.
pub fn next_frame<S>(pending: &mut Vec<S>, frame_len: usize) -> (frame: Option<Vec<S>>)
    ensures
        match frame {
            Some(f) => {
                &&& old(pending)@.len() >= frame_len
                &&& f@ == old(pending)@.take(frame_len as int)
                &&& final(pending)@ == old(pending)@.skip(frame_len as int)
            },
            None => old(pending)@.len() < frame_len && final(pending)@ == old(pending)@,
        },
{
    if pending.len() >= frame_len {
        let mut frame = pending.split_off(frame_len);
        std::mem::swap(&mut frame, pending);
        Some(frame)
    } else {
        None
    }
}

/// Fills the front of `chunk` from the front of `queue`: all of it where
/// the queue holds enough, otherwise as many samples as it holds, leaving
/// the rest of `chunk` as it was. Returns how many samples were taken.
pub fn fill_from_queue<S: Copy>(queue: &mut VecDeque<S>, chunk: &mut [S]) -> (taken: usize)
    ensures
        taken == if old(queue)@.len() < old(chunk)@.len() {
            old(queue)@.len()
        } else {
            old(chunk)@.len()
        },
        final(chunk)@ == old(queue)@.take(taken as int) + old(chunk)@.skip(taken as int),
        final(queue)@ == old(queue)@.skip(taken as int),
{
    let ghost q0 = queue@;
    let ghost c0 = chunk@;
    let available = queue.len();
    let taken = if available >= chunk.len() { chunk.len() } else { available };
    let mut i: usize = 0;
    while i < taken
        invariant
            i <= taken,
            taken <= q0.len(),
            taken <= c0.len(),
            chunk@.len() == c0.len(),
            queue@ == q0.skip(i as int),
            forall|j: int| 0 <= j < i ==> chunk@[j] == q0[j],
            forall|j: int| i <= j < c0.len() ==> chunk@[j] == c0[j],
        decreases taken - i,
    {
        let s = queue.pop_front();
        match s {
            Some(x) => {
                chunk[i] = x;
            },
            None => {},
        }
        i = i + 1;
    }
    assert(chunk@ =~= q0.take(taken as int) + c0.skip(taken as int));
    taken
}

/// Each mono sample written to `channels` consecutive slots of an
/// interleaved buffer: slot `i` gets sample `i / channels` where there is
/// one, and keeps its value past the last.
pub open spec fn spread<S>(mono: Seq<S>, channels: nat, before: Seq<S>) -> Seq<S> {
    Seq::new(
        before.len(),
        |i: int| if i < mono.len() * channels { mono[i / channels as int] } else { before[i] },
    )
}

/// Writes every mono sample to `channels` consecutive slots of `out`, as
/// far as `out` reaches.
pub fn spread_mono<S: Copy>(mono: &[S], channels: usize, out: &mut [S])
    requires
        channels > 0,
    ensures
        final(out)@ == spread(mono@, channels as nat, old(out)@),
{
    let ghost before = out@;
    let len = out.len();
    let mut write_idx: usize = 0;
    let mut k: usize = 0;
    while k < mono.len()
        invariant
            k <= mono@.len(),
            len == out@.len(),
            len == before.len(),
            channels > 0,
            write_idx == if k * channels <= len { k * channels } else { len as int },
            forall|i: int| 0 <= i < write_idx ==> out@[i] == mono@[i / channels as int],
            forall|i: int| write_idx <= i < len ==> out@[i] == before[i],
        decreases mono@.len() - k,
    {
        let sample = mono[k];
        let mut c: usize = 0;
        while c < channels
            invariant
                k < mono@.len(),
                c <= channels,
                len == out@.len(),
                len == before.len(),
                channels > 0,
                sample == mono@[k as int],
                write_idx == if k * channels + c <= len { k * channels + c } else { len as int },
                forall|i: int| 0 <= i < write_idx ==> out@[i] == mono@[i / channels as int],
                forall|i: int| write_idx <= i < len ==> out@[i] == before[i],
            decreases channels - c,
        {
            if write_idx < len {
                proof {
                    vstd::arithmetic::div_mod::lemma_fundamental_div_mod_converse(
                        write_idx as int,
                        channels as int,
                        k as int,
                        c as int,
                    );
                }
                out[write_idx] = sample;
                write_idx = write_idx + 1;
            }
            c = c + 1;
        }
        proof {
            vstd::arithmetic::mul::lemma_mul_is_distributive_add_other_way(channels as int, k as int, 1);
        }
        k = k + 1;
    }
    assert(out@ =~= spread(mono@, channels as nat, before));
}

/// Fills an interleaved playback buffer of `channels` channels from the
/// jitter buffer: one pop of `data.len() / channels` mono samples, each
/// written to a frame of `channels` slots (slots past the last whole frame
/// keep their values).
pub fn play_into<S: Copy + Default>(jb: &mut JitterBuffer<S>, channels: usize, data: &mut [S])
    requires
        channels > 0,
    ensures
        ({
            let n = old(data)@.len() / (channels as nat);
            let mono = pop_output(
                old(jb).phase(),
                old(jb).buffered(),
                old(jb).target(),
                n,
                old(jb).silence(),
            );
            &&& final(data)@ == spread(mono, channels as nat, old(data)@)
            &&& final(jb).buffered() == pop_remaining(
                old(jb).phase(),
                old(jb).buffered(),
                old(jb).target(),
                n,
            )
            &&& final(jb).phase() == state_after_pop(
                old(jb).phase(),
                old(jb).buffered(),
                old(jb).target(),
                n,
            )
            &&& final(jb).target() == old(jb).target()
            &&& final(jb).silence() == old(jb).silence()
        }),
{
    if channels == 1 {
        let ghost before = data@;
        jb.pop(data);
        assert(data@ =~= spread(data@, 1, before));
    } else {
        let mut mono = vec![S::default(); data.len() / channels];
        jb.pop(mono.as_mut_slice());
        spread_mono(mono.as_slice(), channels, data);
    }
}

} // verus!
