# p2p_webrtc

The Rust side of a peer-to-peer remote-access add-on: a WebRTC session with a
control channel, a file channel and a voice channel, and the voice pipeline
behind it.

- `src/` is the library, verified with Verus:
  - `audio/jitter.rs` — the playout (jitter) buffer, generic over the sample
    type: buffering towards a target, the cap at twice the target, underrun
    handling, and its laws (first in, first out; no sample invented or lost).
  - `audio/pipeline.rs` — the voice packet wire format (stream byte, then the
    encoded frame), cutting capture frames, taking the echo reference, and
    spreading mono playback over the output channels.
  - `audio/device.rs` — choosing a stream's channel count and sample rate from
    what a device supports.
  - `session.rs` — the session's bookkeeping: peer connection, channels,
    message queues in both directions, local ICE candidates, and the voice
    pipeline's state (muting, failure, the devices it was built on).
  - `signalling.rs` — signalling: a peer connection must exist; remote
    offers, answers and ICE candidates are read from their JSON, and local
    offers, answers and candidates written to it (through serde_json), with
    the errors the caller sees.
- `app/` is the Python extension module: it owns the tokio runtime, the
  WebRTC objects, the cpal streams, the opus codec and the sonora audio
  processor. It performs the I/O and the float arithmetic on samples, and
  converts between the webrtc types and the library's; the session's
  decisions are the library's.
- `tests/` runs the library on concrete values.
