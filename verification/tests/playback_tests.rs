use std::collections::VecDeque;

use streamapp::error::AudioError;
use streamapp::format::AudioHeader;
use streamapp::format::SampleFormat;
use streamapp::playback::CpalFileWrite;

fn fmt_16_mono() -> AudioHeader {
    AudioHeader {
        sample_rate: 8000,
        channels: 1,
        bits_per_sample: 16,
        sample_format: SampleFormat::Int,
    }
}

fn fmt_16_stereo() -> AudioHeader {
    AudioHeader {
        sample_rate: 8000,
        channels: 2,
        bits_per_sample: 16,
        sample_format: SampleFormat::Int,
    }
}

#[test]
fn underrun_yields_silence_and_keeps_queue() {
    let mut pb = CpalFileWrite::new();
    pb.update_format(&fmt_16_stereo()).unwrap(); // frame = 4 bytes
    pb.write(&[1, 2, 3]).unwrap(); // less than one frame
    let (frame, signal) = pb.pop_frame();
    assert_eq!(frame, vec![0, 0, 0, 0], "equilibrium bytes on underrun");
    assert!(!signal, "queue is not empty, no drain signal");
    assert_eq!(pb.queued_len(), 3, "underrun leaves the queue alone");
}

#[test]
fn underrun_on_empty_queue() {
    let mut pb = CpalFileWrite::new();
    pb.update_format(&fmt_16_mono()).unwrap();
    pb.write(&[]).unwrap();
    let (frame, signal) = pb.pop_frame();
    assert_eq!(frame, vec![0, 0]);
    assert!(signal, "first drain of an empty queue signals once");
    let (_, again) = pb.pop_frame();
    assert!(!again, "the one-shot guard holds");
}

#[test]
fn frames_come_out_in_push_order() {
    let mut pb = CpalFileWrite::new();
    pb.update_format(&fmt_16_mono()).unwrap(); // frame = 2 bytes
    for b in 1u8..=8 {
        pb.write(&[b]).unwrap(); // one byte per push
    }
    let mut played = Vec::new();
    for _ in 0..4 {
        let (frame, _) = pb.pop_frame();
        played.extend_from_slice(&frame);
    }
    assert_eq!(played, vec![1, 2, 3, 4, 5, 6, 7, 8]);
    assert_eq!(pb.queued_len(), 0);
}

#[test]
fn drain_signal_once_per_cycle() {
    let mut pb = CpalFileWrite::new();
    pb.update_format(&fmt_16_mono()).unwrap(); // frame = 2 bytes
    // cycle one: two frames in, drain fully
    pb.write(&[1, 2, 3, 4]).unwrap();
    let (_, s1) = pb.pop_frame();
    assert!(!s1, "queue still holds a frame");
    let (_, s2) = pb.pop_frame();
    assert!(s2, "the emptying pop signals");
    let (_, s3) = pb.pop_frame();
    assert!(!s3, "no repeat while empty");
    // cycle two: new data re-arms the guard
    pb.write(&[5, 6]).unwrap();
    let (frame, s4) = pb.pop_frame();
    assert_eq!(frame, vec![5, 6]);
    assert!(s4, "the second cycle signals exactly once more");
    let (_, s5) = pb.pop_frame();
    assert!(!s5);
}

#[test]
fn fill_frames_whole_callback() {
    let mut pb = CpalFileWrite::new();
    pb.update_format(&fmt_16_mono()).unwrap();
    pb.write(&[1, 2, 3, 4]).unwrap();
    let (out, signal) = pb.fill_frames(3);
    // two real frames, then one silent underrun frame
    assert_eq!(out, vec![1, 2, 3, 4, 0, 0]);
    assert!(signal, "the callback that drained the queue reports it");
}

#[test]
fn format_change_after_start_is_refused() {
    let mut pb = CpalFileWrite::new();
    pb.update_format(&fmt_16_mono()).unwrap();
    pb.write(&[1, 2]).unwrap(); // first write starts playback
    assert!(pb.is_started());
    assert_eq!(pb.update_format(&fmt_16_stereo()), Err(AudioError::AlreadyStarted));
}

#[test]
fn write_needs_format_and_stops_after_finalize() {
    let mut pb = CpalFileWrite::new();
    assert_eq!(pb.write(&[1]), Err(AudioError::FormatNotSet));
    pb.update_format(&fmt_16_mono()).unwrap();
    pb.write(&[1, 2]).unwrap();
    pb.finalize().unwrap();
    assert!(pb.is_finalized());
    assert_eq!(pb.write(&[3, 4]), Err(AudioError::Finalized));
    assert_eq!(pb.finalize(), Err(AudioError::Finalized));
}

#[test]
fn invalid_format_is_refused_by_playback() {
    let mut pb = CpalFileWrite::new();
    let bad = AudioHeader {
        sample_rate: 8000,
        channels: 1,
        bits_per_sample: 8,
        sample_format: SampleFormat::Int,
    };
    assert_eq!(pb.update_format(&bad), Err(AudioError::UnsupportedFormat));
}

#[test]
fn extract_whole_samples_only() {
    let mut buf: VecDeque<u8> = VecDeque::new();
    buf.push_back(1);
    buf.push_back(2);
    buf.push_back(3);
    assert_eq!(CpalFileWrite::extract_bytes_from_buf(&mut buf, 4), None);
    assert_eq!(buf.len(), 3, "a refused extraction takes nothing");
    assert_eq!(CpalFileWrite::extract_bytes_from_buf(&mut buf, 2), Some(vec![1, 2]));
    assert_eq!(buf.len(), 1);
}
