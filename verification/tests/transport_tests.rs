use broadcast_daw_studio::audio_engine::transport::create_wav_header;
use broadcast_daw_studio::audio_engine::{Transport, TransportState, RecordingInfo};
use broadcast_daw_studio::shared::types::AudioConfig;
use std::time::{Duration, Instant};

fn config(sample_rate: u32) -> AudioConfig {
    AudioConfig {
        input_device: "in".to_string(),
        output_device: "out".to_string(),
        sample_rate,
        buffer_size: 256,
        exclusive_mode: false,
    }
}

#[test]
fn wav_header_layout() {
    let h = create_wav_header(2, 48000, 384000, 8, 32, 100);
    assert_eq!(h.len(), 44);
    assert_eq!(&h[0..4], b"RIFF");
    assert_eq!(&h[4..8], &136u32.to_le_bytes());
    assert_eq!(&h[8..12], b"WAVE");
    assert_eq!(&h[12..16], b"fmt ");
    assert_eq!(&h[16..20], &16u32.to_le_bytes());
    assert_eq!(&h[20..22], &3u16.to_le_bytes());
    assert_eq!(&h[22..24], &2u16.to_le_bytes());
    assert_eq!(&h[24..28], &48000u32.to_le_bytes());
    assert_eq!(&h[28..32], &384000u32.to_le_bytes());
    assert_eq!(&h[32..34], &8u16.to_le_bytes());
    assert_eq!(&h[34..36], &32u16.to_le_bytes());
    assert_eq!(&h[36..40], b"data");
    assert_eq!(&h[40..44], &100u32.to_le_bytes());
}

#[test]
fn recording_header_is_float_stereo() {
    let t = Transport::new(config(44100));
    let h = t.recording_header();
    assert_eq!(h, create_wav_header(2, 44100, 44100 * 8, 8, 32, 0));
}

#[test]
fn play_pause_stop() {
    let mut t = Transport::new(config(48000));
    assert_eq!(t.get_state(), TransportState::Stopped);
    t.play();
    assert_eq!(t.get_state(), TransportState::Playing);
    assert!(t.is_playing());
    t.pause();
    assert_eq!(t.get_state(), TransportState::Paused);
    t.toggle_play();
    assert_eq!(t.get_state(), TransportState::Playing);
    t.toggle_play();
    assert_eq!(t.get_state(), TransportState::Paused);
    t.set_position(500);
    assert!(!t.stop());
    assert_eq!(t.get_state(), TransportState::Stopped);
    assert_eq!(t.get_position_samples(), 0);
}

#[test]
fn recording_starts_from_stopped_and_stop_ends_it() {
    let mut t = Transport::new(config(48000));
    assert!(t.can_record());
    t.begin_recording(RecordingInfo {
        sample_rate: 48000,
        channels: 2,
        start_time: Instant::now(),
        duration: Duration::from_secs(0),
    });
    assert!(t.is_recording());
    assert!(t.is_playing());
    assert!(!t.can_record());
    assert_eq!(t.get_recording_info().unwrap().channels, 2);
    t.pause();
    assert_eq!(t.get_state(), TransportState::Paused);
    assert!(t.stop());
    assert!(!t.is_recording());
    assert!(t.get_recording_info().is_none());
}

#[test]
fn position_advances_only_while_rolling() {
    let mut t = Transport::new(config(48000));
    t.process_audio(512);
    assert_eq!(t.get_position_samples(), 0);
    t.play();
    t.process_audio(512);
    assert_eq!(t.get_position_samples(), 256);
    t.process_audio(3);
    assert_eq!(t.get_position_samples(), 257);
}

#[test]
fn loop_wraps_to_start() {
    let mut t = Transport::new(config(48000));
    t.set_loop(100, 1000);
    t.set_loop_enabled(true);
    assert!(t.is_loop_enabled());
    t.set_position(900);
    t.play();
    t.process_audio(200);
    assert_eq!(t.get_position_samples(), 100);
    t.set_loop(1000, 1000);
    t.set_position(900);
    t.process_audio(400);
    assert_eq!(t.get_position_samples(), 1100);
}
