use broadcast_daw_studio::timecode::{decode_frame, FrameRate, LtcDecoder, LtcStep, Timecode};

/// Seconds from 00:00:00:00 to a label, as the studio computes them from the frame count
/// (the library keeps no floating point).
fn to_seconds(tc: &Timecode) -> f64 {
    let fps = match tc.frame_rate {
        FrameRate::Fps24 => 24.0,
        FrameRate::Fps25 => 25.0,
        FrameRate::Fps2997Drop | FrameRate::Fps2997NonDrop => 30.0 / 1.001,
        FrameRate::Fps30Drop | FrameRate::Fps30NonDrop => 30.0,
    };
    tc.to_total_frames() as f64 / fps
}

#[test]
fn test_timecode_conversion() {
    let tc = Timecode::new(1, 0, 0, 0, FrameRate::Fps25);
    assert_eq!(to_seconds(&tc), 3600.0);
    assert_eq!(tc.to_total_frames(), 3600 * 25);
    let back = Timecode::from_total_frames(tc.to_total_frames(), FrameRate::Fps25);
    assert_eq!(back.hours, 1);
    assert_eq!(back.minutes, 0);
}

#[test]
fn nominal_rates_and_drop_flags() {
    assert_eq!(FrameRate::Fps24.nominal_fps(), 24);
    assert_eq!(FrameRate::Fps25.nominal_fps(), 25);
    assert_eq!(FrameRate::Fps2997Drop.nominal_fps(), 30);
    assert_eq!(FrameRate::Fps30NonDrop.nominal_fps(), 30);
    assert!(FrameRate::Fps2997Drop.is_drop_frame());
    assert!(FrameRate::Fps30Drop.is_drop_frame());
    assert!(!FrameRate::Fps2997NonDrop.is_drop_frame());
    assert!(!FrameRate::Fps25.is_drop_frame());
}

#[test]
fn drop_frame_skips_two_labels_per_minute() {
    let tc = Timecode::new(0, 1, 0, 2, FrameRate::Fps2997Drop);
    assert_eq!(tc.to_total_frames(), 1800);
    let back = Timecode::from_total_frames(1800, FrameRate::Fps2997Drop);
    assert_eq!((back.hours, back.minutes, back.seconds, back.frames), (0, 1, 0, 2));
    let before = Timecode::from_total_frames(1799, FrameRate::Fps2997Drop);
    assert_eq!((before.minutes, before.seconds, before.frames), (0, 59, 29));
}

#[test]
fn drop_frame_tenth_minute_keeps_its_labels() {
    let tc = Timecode::new(0, 10, 0, 0, FrameRate::Fps2997Drop);
    assert_eq!(tc.to_total_frames(), 17982);
    let tc30 = Timecode::new(0, 1, 0, 4, FrameRate::Fps30Drop);
    assert_eq!(tc30.to_total_frames(), 1800);
}

#[test]
fn non_drop_round_trip() {
    for fr in [FrameRate::Fps24, FrameRate::Fps25, FrameRate::Fps30NonDrop, FrameRate::Fps2997NonDrop] {
        let tc = Timecode::new(10, 59, 58, 23, fr);
        let back = Timecode::from_total_frames(tc.to_total_frames(), fr);
        assert_eq!((back.hours, back.minutes, back.seconds, back.frames), (10, 59, 58, 23));
    }
}

#[test]
fn labels_print_with_separator_by_rate() {
    assert_eq!(Timecode::new(1, 2, 3, 4, FrameRate::Fps25).to_string(), "01:02:03:04");
    assert_eq!(Timecode::new(10, 20, 30, 15, FrameRate::Fps2997Drop).to_string(), "10:20:30;15");
}

#[test]
fn decode_frame_reads_fields_and_flag() {
    // frames 12, seconds 34, minutes 56, hours 7; tens weighted by 16
    let b: [u8; 10] = [0x02, 0x41, 0x04, 0x02, 0x06, 0x03, 0x07, 0x00, 0, 0];
    let tc = decode_frame(&b, None).unwrap();
    assert_eq!(tc.frames, 0x12);
    assert_eq!(tc.seconds, 0x24);
    assert_eq!(tc.minutes, 0x36);
    assert_eq!(tc.hours, 7);
    assert_eq!(tc.frame_rate, FrameRate::Fps2997Drop);
    let tc = decode_frame(&b, Some(FrameRate::Fps25)).unwrap();
    assert_eq!(tc.frame_rate, FrameRate::Fps25);
    let bad: [u8; 10] = [0, 0, 0, 0x07, 0, 0, 0, 0, 0, 0];
    assert!(decode_frame(&bad, None).is_none());
}

#[test]
fn decode_frame_keeps_user_bits() {
    let b: [u8; 10] = [0x51, 0x00, 0x62, 0x00, 0x73, 0x00, 0x84, 0x00, 0, 0];
    let tc = decode_frame(&b, None).unwrap();
    assert_eq!(tc.user_bits, [5, 6, 7, 8]);
    assert_eq!(tc.frame_rate, FrameRate::Fps30NonDrop);
}

/// Feeds one bit as LTC biphase: a transition after `len` samples of silence.
fn feed_bit(d: &mut LtcDecoder, bit: u8) -> Vec<LtcStep> {
    let len = if bit == 0 { 20 } else { 40 };
    let mut out = Vec::new();
    for i in 0..len {
        let t = i == len - 1;
        assert!(d.can_step(t));
        out.push(d.step(t, 10, 30));
    }
    out
}

#[test]
fn decoder_finds_sync_word_and_frame() {
    let mut d = LtcDecoder::new();
    assert!(!d.is_locked());
    let sync: u16 = 0b0011111111111101;
    let mut saw_sync = false;
    for k in (0..16).rev() {
        for s in feed_bit(&mut d, ((sync >> k) & 1) as u8) {
            if let LtcStep::SyncWord { .. } = s {
                saw_sync = true;
            }
        }
    }
    assert!(saw_sync);
    let frame: [u8; 10] = [0x05, 0x00, 0x03, 0x00, 0x02, 0x00, 0x01, 0x00, 0, 0];
    let mut got = None;
    for byte in frame.iter() {
        for bit in 0..8 {
            for s in feed_bit(&mut d, (byte >> bit) & 1) {
                if let LtcStep::Frame(tc) = s {
                    got = Some(tc);
                }
            }
        }
    }
    let tc = got.unwrap();
    assert_eq!((tc.hours, tc.minutes, tc.seconds, tc.frames), (1, 2, 3, 5));
    assert_eq!(d.last_timecode().unwrap().frames, 5);
    d.set_detected_fps(FrameRate::Fps25);
    assert_eq!(d.detected_frame_rate(), Some(FrameRate::Fps25));
    d.reset();
    assert_eq!(d.samples_since_sync(), 0);
    assert!(!d.is_locked());
}

#[test]
fn frame_count_range_check() {
    assert!(Timecode::frame_count_in_range(i64::MAX, FrameRate::Fps25));
    assert!(!Timecode::frame_count_in_range(i64::MAX, FrameRate::Fps2997Drop));
    assert!(!Timecode::frame_count_in_range(i64::MIN, FrameRate::Fps30Drop));
    assert!(Timecode::frame_count_in_range(1_000_000, FrameRate::Fps2997Drop));
    assert!(Timecode::frame_count_in_range(-1_000_000, FrameRate::Fps30Drop));
}

#[test]
fn drop_frame_decoding_past_nine_minutes_drifts() {
    // counting uses 17982 frames per ten minutes, decoding uses 18000
    let back = Timecode::from_total_frames(17982, FrameRate::Fps2997Drop);
    assert_eq!((back.hours, back.minutes, back.seconds, back.frames), (0, 10, 0, 2));
    let early = Timecode::new(0, 9, 59, 29, FrameRate::Fps2997Drop);
    let round = Timecode::from_total_frames(early.to_total_frames(), FrameRate::Fps2997Drop);
    assert_eq!((round.minutes, round.seconds, round.frames), (9, 59, 29));
}

#[test]
fn default_label_is_zero_at_25() {
    let tc = Timecode::default();
    assert_eq!(tc.frame_rate, FrameRate::Fps25);
    assert_eq!(tc.to_string(), "00:00:00:00");
    assert_eq!(tc.to_total_frames(), 0);
}

/// The transitions that spell one bit as LTC biphase.
fn bit_ticks(bit: u8, out: &mut Vec<bool>) {
    let len = if bit == 0 { 20 } else { 40 };
    for i in 0..len {
        out.push(i == len - 1);
    }
}

#[test]
fn decoder_run_stops_at_sync_and_appends_frames() {
    let mut ticks = Vec::new();
    let sync: u16 = 0b0011111111111101;
    for k in (0..16).rev() {
        bit_ticks(((sync >> k) & 1) as u8, &mut ticks);
    }
    let sync_end = ticks.len();
    let frame: [u8; 10] = [0x05, 0x00, 0x03, 0x00, 0x02, 0x00, 0x01, 0x00, 0, 0];
    for byte in frame.iter() {
        for bit in 0..8 {
            bit_ticks((byte >> bit) & 1, &mut ticks);
        }
    }
    let mut d = LtcDecoder::new();
    let mut out = vec![Timecode::default()];
    assert!(d.can_run(ticks.len()));
    let (next, sync_seen) = d.run(&ticks, 0, 10, 30, &mut out);
    assert_eq!(next, sync_end);
    assert!(sync_seen.is_some());
    assert_eq!(out.len(), 1);
    assert_eq!(d.samples_since_sync(), sync_end as u64);
    let (end, none) = d.run(&ticks, next, 10, 30, &mut out);
    assert_eq!(end, ticks.len());
    assert!(none.is_none());
    assert_eq!(out.len(), 2);
    assert_eq!(out[0], Timecode::default());
    assert_eq!((out[1].hours, out[1].minutes, out[1].seconds, out[1].frames), (1, 2, 3, 5));
    assert_eq!(d.last_timecode(), Some(out[1]));
    assert_eq!(d.samples_since_sync(), ticks.len() as u64);
}
