use vstd::prelude::*;
use std::time::{Duration, Instant};
use crate::shared::types::AudioConfig;

verus! {

/// A point in monotonic time, carried through unread.
#[verifier::external_type_specification]
#[verifier::external_body]
pub struct ExInstant(Instant);

#[derive(Debug, Clone, Copy, PartialEq, Eq, Structural)]
pub enum TransportState {
    Stopped,
    Playing,
    Recording,
    Paused,
}

/// What is known of the recording in progress.
#[derive(Debug, Clone, Copy)]
pub struct RecordingInfo {
    pub sample_rate: u32,
    pub channels: usize,
    pub start_time: Instant,
    pub duration: Duration,
}

/// The abstract state of the transport.
pub struct TransportView {
    pub sample_rate: u32,
    pub buffer_size: u32,
    pub state: TransportState,
    pub is_recording: bool,
    pub recording_info: Option<RecordingInfo>,
    pub position_samples: u64,
    pub loop_enabled: bool,
    pub loop_start: u64,
    pub loop_end: u64,
}

/// The play/record state machine and the playback position of the studio transport.
/// Writing the recorded audio to disk is left to the caller.
pub struct Transport {
    config: AudioConfig,
    state: TransportState,
    is_recording: bool,
    recording_info: Option<RecordingInfo>,
    position_samples: u64,
    loop_enabled: bool,
    loop_start: u64,
    loop_end: u64,
}

impl View for Transport {
    type V = TransportView;

    closed spec fn view(&self) -> TransportView {
        TransportView {
            sample_rate: self.config.sample_rate,
            buffer_size: self.config.buffer_size,
            state: self.state,
            is_recording: self.is_recording,
            recording_info: self.recording_info,
            position_samples: self.position_samples,
            loop_enabled: self.loop_enabled,
            loop_start: self.loop_start,
            loop_end: self.loop_end,
        }
    }
}

impl TransportView {
    /// A recording's info is kept exactly while a recording is in progress.
    pub open spec fn well_formed(self) -> bool {
        self.is_recording <==> self.recording_info is Some
    }
}

/// The state `play` leads to.
pub open spec fn after_play(s: TransportState) -> TransportState {
    if s == TransportState::Stopped || s == TransportState::Paused {
        TransportState::Playing
    } else {
        s
    }
}

/// The state `pause` leads to.
pub open spec fn after_pause(s: TransportState) -> TransportState {
    if s == TransportState::Playing || s == TransportState::Recording {
        TransportState::Paused
    } else {
        s
    }
}

/// The state `toggle_play` leads to: stopped or paused play, playing or recording pause.
pub open spec fn after_toggle_play(s: TransportState) -> TransportState {
    match s {
        TransportState::Stopped => after_play(s),
        TransportState::Playing => after_pause(s),
        TransportState::Paused => after_play(s),
        TransportState::Recording => after_pause(s),
    }
}

/// The position after a block of `frames` frames while rolling: it advances, and with
/// looping on over a non-empty loop it jumps back to the loop start on reaching the end.
pub open spec fn advanced_position(v: TransportView, frames: int) -> int {
    let p = v.position_samples + frames;
    if v.loop_enabled && v.loop_end > v.loop_start && p >= v.loop_end {
        v.loop_start as int
    } else {
        p
    }
}


/// Little-endian bytes of a 16-bit value.
pub open spec fn le_u16(x: u16) -> Seq<u8> {
    seq![(x % 256) as u8, (x / 256) as u8]
}

/// Little-endian bytes of a 32-bit value.
pub open spec fn le_u32(x: u32) -> Seq<u8> {
    seq![(x % 256) as u8, (x / 256 % 256) as u8, (x / 65536 % 256) as u8, (x / 16777216) as u8]
}

/// The 44-byte header of a WAV file holding IEEE-float samples (format tag 3): the
/// `RIFF` chunk, whose size is 36 plus the data size, the 16-byte `fmt ` chunk, and
/// the head of the `data` chunk.
pub open spec fn wav_header(
    num_channels: u16,
    sample_rate: u32,
    byte_rate: u32,
    block_align: u16,
    bits_per_sample: u16,
    data_size: u32,
) -> Seq<u8> {
    seq![82u8, 73u8, 70u8, 70u8] + le_u32((36 + data_size) as u32) + seq![87u8, 65u8, 86u8, 69u8]
        + seq![102u8, 109u8, 116u8, 32u8] + le_u32(16) + le_u16(3) + le_u16(num_channels) + le_u32(
        sample_rate,
    ) + le_u32(byte_rate) + le_u16(block_align) + le_u16(bits_per_sample) + seq![
        100u8,
        97u8,
        116u8,
        97u8,
    ] + le_u32(data_size)
}

/// The header a new recording starts with: 32-bit float stereo at the configured
/// sample rate, with an empty data chunk.
pub open spec fn recording_header_of(sample_rate: u32) -> Seq<u8> {
    wav_header(2, sample_rate, (sample_rate * 8) as u32, 8, 32, 0)
}

fn push_le_u16(v: &mut Vec<u8>, x: u16)
    ensures
        final(v)@ == old(v)@ + le_u16(x),
{
    v.push((x % 256) as u8);
    v.push((x / 256) as u8);
    assert(v@ =~= old(v)@ + le_u16(x));
}

fn push_le_u32(v: &mut Vec<u8>, x: u32)
    ensures
        final(v)@ == old(v)@ + le_u32(x),
{
    v.push((x % 256) as u8);
    v.push((x / 256 % 256) as u8);
    v.push((x / 65536 % 256) as u8);
    v.push((x / 16777216) as u8);
    assert(v@ =~= old(v)@ + le_u32(x));
}

fn push_tag(v: &mut Vec<u8>, a: u8, b: u8, c: u8, d: u8)
    ensures
        final(v)@ == old(v)@ + seq![a, b, c, d],
{
    v.push(a);
    v.push(b);
    v.push(c);
    v.push(d);
    assert(v@ =~= old(v)@ + seq![a, b, c, d]);
}

/// Lays out the header of a float WAV file.
pub fn create_wav_header(
    num_channels: u16,
    sample_rate: u32,
    byte_rate: u32,
    block_align: u16,
    bits_per_sample: u16,
    data_size: u32,
) -> (header: Vec<u8>)
    requires
        data_size + 36 <= u32::MAX,
    ensures
        header@ == wav_header(
            num_channels,
            sample_rate,
            byte_rate,
            block_align,
            bits_per_sample,
            data_size,
        ),
        header@.len() == 44,
{
    let mut header: Vec<u8> = Vec::with_capacity(44);
    push_tag(&mut header, 82, 73, 70, 70);
    let file_size: u32 = 36 + data_size;
    push_le_u32(&mut header, file_size);
    push_tag(&mut header, 87, 65, 86, 69);
    push_tag(&mut header, 102, 109, 116, 32);
    push_le_u32(&mut header, 16);
    push_le_u16(&mut header, 3);
    push_le_u16(&mut header, num_channels);
    push_le_u32(&mut header, sample_rate);
    push_le_u32(&mut header, byte_rate);
    push_le_u16(&mut header, block_align);
    push_le_u16(&mut header, bits_per_sample);
    push_tag(&mut header, 100, 97, 116, 97);
    push_le_u32(&mut header, data_size);
    header
}

impl Transport {
    pub fn new(config: AudioConfig) -> (t: Self)
        ensures
            t@.sample_rate == config.sample_rate,
            t@.buffer_size == config.buffer_size,
            t@.state == TransportState::Stopped,
            !t@.is_recording,
            t@.recording_info is None,
            t@.position_samples == 0,
            !t@.loop_enabled,
            t@.loop_start == 0,
            t@.loop_end == 0,
            t@.well_formed(),
    {
        Self {
            config,
            state: TransportState::Stopped,
            is_recording: false,
            recording_info: None,
            position_samples: 0,
            loop_enabled: false,
            loop_start: 0,
            loop_end: 0,
        }
    }

    pub fn play(&mut self)
        ensures
            old(self)@.well_formed() ==> final(self)@.well_formed(),
            final(self)@ == (TransportView { state: after_play(old(self)@.state), ..old(self)@ }),
    {
        if self.state == TransportState::Stopped || self.state == TransportState::Paused {
            self.state = TransportState::Playing;
        }
    }

    /// Stops, ends a recording in progress (dropping its info) and rewinds to zero.
    /// Returns whether a recording was ended, so the caller can close its file.
    pub fn stop(&mut self) -> (was_recording: bool)
        ensures
            old(self)@.well_formed() ==> final(self)@.well_formed(),
            was_recording == old(self)@.is_recording,
            final(self)@ == (TransportView {
                state: TransportState::Stopped,
                is_recording: false,
                recording_info: if old(self)@.is_recording {
                    None
                } else {
                    old(self)@.recording_info
                },
                position_samples: 0,
                ..old(self)@
            }),
    {
        self.state = TransportState::Stopped;
        let was_recording = self.is_recording;
        if was_recording {
            self.stop_recording_internal();
        }
        self.position_samples = 0;
        was_recording
    }

    fn stop_recording_internal(&mut self)
        ensures
            final(self)@ == (TransportView { is_recording: false, recording_info: None, ..old(self)@ }),
    {
        self.is_recording = false;
        self.recording_info = None;
    }

    pub fn pause(&mut self)
        ensures
            old(self)@.well_formed() ==> final(self)@.well_formed(),
            final(self)@ == (TransportView { state: after_pause(old(self)@.state), ..old(self)@ }),
    {
        if self.state == TransportState::Playing {
            self.state = TransportState::Paused;
        } else if self.state == TransportState::Recording {
            self.state = TransportState::Paused;
        }
    }

    /// Whether `record` starts a recording: only from stopped or paused.
    pub fn can_record(&self) -> (r: bool)
        ensures
            r == (self@.state == TransportState::Stopped || self@.state == TransportState::Paused),
    {
        self.state == TransportState::Stopped || self.state == TransportState::Paused
    }

    /// The WAV header a recording is to start with, for the caller to write before
    /// calling `begin_recording`.
    pub fn recording_header(&self) -> (header: Vec<u8>)
        requires
            self@.sample_rate * 8 <= u32::MAX,
        ensures
            header@ == recording_header_of(self@.sample_rate),
    {
        let sample_rate = self.config.sample_rate;
        let bits_per_sample: u16 = 32;
        let num_channels: u16 = 2;
        let bytes_per_frame: u32 = num_channels as u32 * (bits_per_sample / 8) as u32;
        assert(bytes_per_frame == 8);
        let byte_rate: u32 = sample_rate * bytes_per_frame;
        let block_align: u16 = num_channels * (bits_per_sample / 8);
        create_wav_header(num_channels, sample_rate, byte_rate, block_align, bits_per_sample, 0)
    }

    /// Enters recording once the caller has opened the file and written its header.
    pub fn begin_recording(&mut self, info: RecordingInfo)
        ensures
            old(self)@.well_formed() ==> final(self)@.well_formed(),
            final(self)@ == (TransportView {
                state: TransportState::Recording,
                is_recording: true,
                recording_info: Some(info),
                ..old(self)@
            }),
    {
        self.recording_info = Some(info);
        self.is_recording = true;
        self.state = TransportState::Recording;
    }

    pub fn toggle_play(&mut self)
        ensures
            old(self)@.well_formed() ==> final(self)@.well_formed(),
            final(self)@ == (TransportView { state: after_toggle_play(old(self)@.state), ..old(self)@ }),
    {
        let state = self.state;
        match state {
            TransportState::Stopped => self.play(),
            TransportState::Playing => self.pause(),
            TransportState::Paused => self.play(),
            TransportState::Recording => self.pause(),
        }
    }

    /// Advances the position by a block of interleaved stereo samples while playing or
    /// recording, looping when looping is on.
    pub fn process_audio(&mut self, block_len: usize)
        requires
            old(self)@.position_samples + block_len / 2 <= u64::MAX,
        ensures
            old(self)@.well_formed() ==> final(self)@.well_formed(),
            final(self)@ == (TransportView {
                position_samples: if old(self)@.state == TransportState::Playing || old(self)@.state
                    == TransportState::Recording {
                    advanced_position(old(self)@, block_len as int / 2) as u64
                } else {
                    old(self)@.position_samples
                },
                ..old(self)@
            }),
    {
        let state = self.state;
        if state == TransportState::Playing || state == TransportState::Recording {
            let frames = block_len / 2;
            self.position_samples = self.position_samples + frames as u64;
            if self.loop_enabled {
                let loop_start = self.loop_start;
                let loop_end = self.loop_end;
                if loop_end > loop_start && self.position_samples >= loop_end {
                    self.position_samples = loop_start;
                }
            }
        }
    }

    pub fn get_state(&self) -> (r: TransportState)
        ensures
            r == self@.state,
    {
        self.state
    }

    pub fn is_playing(&self) -> (r: bool)
        ensures
            r == (self@.state == TransportState::Playing || self@.state == TransportState::Recording),
    {
        matches!(self.state, TransportState::Playing | TransportState::Recording)
    }

    pub fn is_recording(&self) -> (r: bool)
        ensures
            r == self@.is_recording,
    {
        self.is_recording
    }

    pub fn sample_rate(&self) -> (r: u32)
        ensures
            r == self@.sample_rate,
    {
        self.config.sample_rate
    }

    pub fn buffer_size(&self) -> (r: u32)
        ensures
            r == self@.buffer_size,
    {
        self.config.buffer_size
    }

    pub fn get_position_samples(&self) -> (r: u64)
        ensures
            r == self@.position_samples,
    {
        self.position_samples
    }

    pub fn set_position(&mut self, samples: u64)
        ensures
            old(self)@.well_formed() ==> final(self)@.well_formed(),
            final(self)@ == (TransportView { position_samples: samples, ..old(self)@ }),
    {
        self.position_samples = samples;
    }

    pub fn set_loop(&mut self, start: u64, end: u64)
        ensures
            old(self)@.well_formed() ==> final(self)@.well_formed(),
            final(self)@ == (TransportView { loop_start: start, loop_end: end, ..old(self)@ }),
    {
        self.loop_start = start;
        self.loop_end = end;
    }

    pub fn set_loop_enabled(&mut self, enabled: bool)
        ensures
            old(self)@.well_formed() ==> final(self)@.well_formed(),
            final(self)@ == (TransportView { loop_enabled: enabled, ..old(self)@ }),
    {
        self.loop_enabled = enabled;
    }

    pub fn is_loop_enabled(&self) -> (r: bool)
        ensures
            r == self@.loop_enabled,
    {
        self.loop_enabled
    }

    pub fn get_recording_info(&self) -> (r: Option<RecordingInfo>)
        ensures
            r == self@.recording_info,
    {
        self.recording_info
    }
}

/// Toggling play twice from playing or paused comes back to the same state.
pub proof fn lemma_toggle_play_twice(s: TransportState)
    requires
        s == TransportState::Playing || s == TransportState::Paused,
    ensures
        after_toggle_play(after_toggle_play(s)) == s,
{
}

/// With looping on over a non-empty loop, the position after a block is always before
/// the loop end, wherever it stood and however long the block.
pub proof fn lemma_loop_keeps_position_before_end(v: TransportView, frames: int)
    requires
        v.loop_enabled,
        v.loop_start < v.loop_end,
    ensures
        advanced_position(v, frames) < v.loop_end,
{
}

/// `play` starts playback only from stopped or paused; a transport that is playing or
/// recording keeps its state, so playing never ends or interrupts a recording.
pub proof fn lemma_play_starts_only_when_idle(v: TransportView)
    ensures
        (v.state == TransportState::Stopped || v.state == TransportState::Paused) ==> after_play(v.state)
            == TransportState::Playing,
        v.state == TransportState::Recording ==> (TransportView { state: after_play(v.state), ..v }) == v,
        v.state == TransportState::Playing ==> (TransportView { state: after_play(v.state), ..v }) == v,
        after_play(v.state) == TransportState::Recording <==> v.state == TransportState::Recording,
{
}

/// `pause` pauses playback and recording alike and leaves a stopped or paused transport
/// as it was.
pub proof fn lemma_pause_only_when_rolling(s: TransportState)
    ensures
        (s == TransportState::Playing || s == TransportState::Recording) ==> after_pause(s)
            == TransportState::Paused,
        (s == TransportState::Stopped || s == TransportState::Paused) ==> after_pause(s) == s,
{
}

} // verus!
