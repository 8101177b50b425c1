use p2p_webrtc::audio::device::{
    resolve_input_config, resolve_output_config, StreamSettings, SupportedRange,
};
use p2p_webrtc::audio::pipeline::{
    fill_from_queue, next_frame, play_into, spread_mono, AudioPacket, FRAME_SAMPLES,
    JITTER_TARGET_SAMPLES,
};
use p2p_webrtc::audio::{BufferState, JitterBuffer};
use std::collections::VecDeque;

fn ramp(from: u32, n: u32) -> Vec<f32> {
    (from..from + n).map(|x| x as f32).collect()
}

#[test]
fn jitter_buffer_plays_silence_until_target() {
    let mut jb: JitterBuffer<f32> = JitterBuffer::new(4);
    let mut out = [7.0f32; 3];
    jb.pop(&mut out);
    assert_eq!(out, [0.0, 0.0, 0.0]);
    jb.push(&[1.0, 2.0, 3.0]);
    jb.pop(&mut out);
    assert_eq!(out, [0.0, 0.0, 0.0]);
    jb.push(&[4.0]);
    jb.pop(&mut out);
    assert_eq!(out, [1.0, 2.0, 3.0]);
}

#[test]
fn jitter_buffer_is_first_in_first_out() {
    let mut jb: JitterBuffer<f32> = JitterBuffer::new(2);
    jb.push(&[1.0, 2.0]);
    jb.push(&[3.0]);
    let mut out = [0.0f32; 2];
    jb.pop(&mut out);
    assert_eq!(out, [1.0, 2.0]);
    let mut one = [0.0f32; 1];
    jb.pop(&mut one);
    assert_eq!(one, [3.0]);
}

#[test]
fn jitter_buffer_caps_at_twice_target_keeping_newest() {
    let mut jb: JitterBuffer<f32> = JitterBuffer::new(2);
    jb.push(&ramp(1, 7));
    let mut out = [0.0f32; 4];
    jb.pop(&mut out);
    assert_eq!(out, [4.0, 5.0, 6.0, 7.0]);
}

#[test]
fn jitter_buffer_underrun_returns_rest_then_silence_and_rebuffers() {
    let mut jb: JitterBuffer<f32> = JitterBuffer::new(2);
    jb.push(&[1.0, 2.0, 3.0]);
    let mut out = [9.0f32; 5];
    jb.pop(&mut out);
    assert_eq!(out, [1.0, 2.0, 3.0, 0.0, 0.0]);
    jb.push(&[4.0]);
    let mut out = [9.0f32; 1];
    jb.pop(&mut out);
    assert_eq!(out, [0.0]);
    jb.push(&[5.0]);
    jb.pop(&mut out);
    assert_eq!(out, [4.0]);
}

#[test]
fn jitter_buffer_with_integer_samples() {
    let mut jb: JitterBuffer<i16> = JitterBuffer::new(1);
    jb.push(&[-3, 8]);
    let mut out = [1i16; 3];
    jb.pop(&mut out);
    assert_eq!(out, [-3, 8, 0]);
}

#[test]
fn jitter_buffer_with_the_session_target() {
    let mut jb: JitterBuffer<f32> = JitterBuffer::new(JITTER_TARGET_SAMPLES);
    let frame = ramp(0, FRAME_SAMPLES as u32);
    for _ in 0..3 {
        jb.push(&frame);
    }
    let mut out = vec![1.0f32; FRAME_SAMPLES];
    jb.pop(&mut out);
    assert!(out.iter().all(|s| *s == 0.0));
    jb.push(&frame);
    jb.pop(&mut out);
    assert_eq!(out, frame);
    assert_eq!(BufferState::Playing, BufferState::Playing);
    assert_ne!(BufferState::Playing, BufferState::Buffering);
}

#[test]
fn playback_spreads_mono_over_channels() {
    let mut jb: JitterBuffer<f32> = JitterBuffer::new(2);
    jb.push(&[1.0, 2.0, 3.0]);
    let mut data = [9.0f32; 5];
    play_into(&mut jb, 2, &mut data);
    assert_eq!(data, [1.0, 1.0, 2.0, 2.0, 9.0]);
    let mut mono = [9.0f32; 2];
    play_into(&mut jb, 1, &mut mono);
    assert_eq!(mono, [3.0, 0.0]);
}

#[test]
fn spread_mono_stops_at_the_end_of_either_buffer() {
    let mut out = [0u8; 7];
    spread_mono(&[1, 2], 3, &mut out);
    assert_eq!(out, [1, 1, 1, 2, 2, 2, 0]);
    let mut short = [0u8; 4];
    spread_mono(&[1, 2], 3, &mut short);
    assert_eq!(short, [1, 1, 1, 2]);
}

#[test]
fn packets_round_trip() {
    let p = AudioPacket { stream_id: 0, payload: vec![10, 20, 30] };
    let bytes = p.to_bytes();
    assert_eq!(bytes, vec![0, 10, 20, 30]);
    let q = AudioPacket::from_bytes(&bytes).unwrap();
    assert_eq!(q.stream_id, 0);
    assert_eq!(q.payload, vec![10, 20, 30]);
    assert!(q.is_microphone());
    let other = AudioPacket::from_bytes(&[3, 1]).unwrap();
    assert_eq!(other.stream_id, 3);
    assert!(!other.is_microphone());
    assert!(AudioPacket::from_bytes(&[0]).is_none());
    assert!(AudioPacket::from_bytes(&[]).is_none());
}

#[test]
fn frames_are_cut_from_the_front() {
    let mut pending: Vec<u8> = vec![1, 2, 3, 4, 5];
    assert_eq!(next_frame(&mut pending, 2), Some(vec![1, 2]));
    assert_eq!(next_frame(&mut pending, 2), Some(vec![3, 4]));
    assert_eq!(next_frame(&mut pending, 2), None);
    assert_eq!(pending, vec![5]);
}

#[test]
fn render_chunk_takes_what_is_there() {
    let mut queue: VecDeque<f32> = VecDeque::from(vec![1.0, 2.0]);
    let mut chunk = [0.0f32; 3];
    assert_eq!(fill_from_queue(&mut queue, &mut chunk), 2);
    assert_eq!(chunk, [1.0, 2.0, 0.0]);
    assert!(queue.is_empty());
    let mut queue: VecDeque<f32> = VecDeque::from(vec![1.0, 2.0, 3.0, 4.0]);
    assert_eq!(fill_from_queue(&mut queue, &mut chunk), 3);
    assert_eq!(chunk, [1.0, 2.0, 3.0]);
    assert_eq!(queue, VecDeque::from(vec![4.0]));
}

#[test]
fn stream_config_prefers_first_range_with_48k() {
    let ranges = [
        SupportedRange { channels: 6, min_sample_rate: 8000, max_sample_rate: 44100 },
        SupportedRange { channels: 2, min_sample_rate: 44100, max_sample_rate: 48000 },
        SupportedRange { channels: 1, min_sample_rate: 8000, max_sample_rate: 96000 },
    ];
    assert_eq!(
        resolve_input_config(4, &ranges),
        StreamSettings { channels: 2, sample_rate: 48000 }
    );
    assert_eq!(
        resolve_output_config(4, &ranges[..1]),
        StreamSettings { channels: 4, sample_rate: 48000 }
    );
    assert_eq!(
        resolve_output_config(1, &[]),
        StreamSettings { channels: 1, sample_rate: 48000 }
    );
}
