use vstd::prelude::*;
use std::sync::Arc;
use std::sync::atomic::{AtomicBool, AtomicU64};
use super::types::{FrameRate, Timecode};

verus! {

/// The 16-bit LTC sync word that ends every frame.
pub const LTC_SYNC: u64 = 0b0011111111111101;

/// The four timecode fields of a received LTC frame. Each field is read from the units
/// nibble and the low bits of the next byte, the latter weighted by 16.
pub open spec fn ltc_field(units: u8, tens: u8, tens_mask: int) -> int {
    (tens as int % tens_mask) * 16 + units as int % 16
}

/// Whether every field of a received frame is in range: frames and seconds and minutes
/// below 60, hours below 24.
pub open spec fn frame_fields_in_range(b: Seq<u8>) -> bool {
    &&& ltc_field(b[0], b[1], 4) < 60
    &&& ltc_field(b[2], b[3], 8) < 60
    &&& ltc_field(b[4], b[5], 8) < 60
    &&& ltc_field(b[6], b[7], 4) < 24
}

/// The frame rate a received frame is labelled with: the detected one, else 29.97
/// drop-frame when the drop-frame flag (bit 6 of byte 1) is set, else 30 non-drop.
pub open spec fn frame_rate_of(b: Seq<u8>, detected: Option<FrameRate>) -> FrameRate {
    match detected {
        Some(f) => f,
        None => if (b[1] as int / 64) % 2 == 1 {
            FrameRate::Fps2997Drop
        } else {
            FrameRate::Fps30NonDrop
        },
    }
}

/// The label a frame decodes to: its four fields, the frame rate, and the high nibbles of
/// bytes 0, 2, 4 and 6 as user bits.
pub open spec fn is_decoded_label(tc: Timecode, b: Seq<u8>, detected: Option<FrameRate>) -> bool {
    &&& tc.frames as int == ltc_field(b[0], b[1], 4)
    &&& tc.seconds as int == ltc_field(b[2], b[3], 8)
    &&& tc.minutes as int == ltc_field(b[4], b[5], 8)
    &&& tc.hours as int == ltc_field(b[6], b[7], 4)
    &&& tc.frame_rate == frame_rate_of(b, detected)
    &&& tc.user_bits@ == seq![
        (b[0] as int / 16) as u8,
        (b[2] as int / 16) as u8,
        (b[4] as int / 16) as u8,
        (b[6] as int / 16) as u8,
    ]
}

fn field(units: u8, tens: u8, tens_bits: u8) -> (r: u8)
    requires
        tens_bits == 3 || tens_bits == 7,
    ensures
        r as int == ltc_field(units, tens, tens_bits as int + 1),
{
    let t = tens & tens_bits;
    let u = units & 0x0F;
    proof {
        assert(units & 0x0F == units % 16) by (bit_vector);
        assert(tens & 3u8 == tens % 4) by (bit_vector);
        assert(tens & 7u8 == tens % 8) by (bit_vector);
        assert(t < 8);
        assert(t < 8 && u < 16 ==> (t << 4u8) | u == t * 16 + u) by (bit_vector);
    }
    (t << 4u8) | u
}

/// Decodes the ten bytes that follow a sync word.
pub fn decode_frame(b: &[u8; 10], detected_fps: Option<FrameRate>) -> (r: Option<Timecode>)
    ensures
        r is Some <==> frame_fields_in_range(b@),
        r matches Some(tc) ==> is_decoded_label(tc, b@, detected_fps),
{
    let (b0, b1, b2, b3, b4, b5, b6, b7) = (b[0], b[1], b[2], b[3], b[4], b[5], b[6], b[7]);
    assert(b0 == b@[0] && b1 == b@[1] && b2 == b@[2] && b3 == b@[3]);
    assert(b4 == b@[4] && b5 == b@[5] && b6 == b@[6] && b7 == b@[7]);
    let frames = field(b[0], b[1], 3);
    let df_flag = (b[1] & 0x40) != 0;
    let seconds = field(b[2], b[3], 7);
    let minutes = field(b[4], b[5], 7);
    let hours = field(b[6], b[7], 3);
    proof {
        let b1 = b[1];
        assert((b1 & 0x40 != 0) == ((b1 / 64) % 2 == 1)) by (bit_vector);
    }
    let frame_rate = match detected_fps {
        Some(f) => f,
        None => if df_flag {
            FrameRate::Fps2997Drop
        } else {
            FrameRate::Fps30NonDrop
        },
    };
    assert(frames as int == ltc_field(b@[0], b@[1], 4));
    assert(hours as int == ltc_field(b@[6], b@[7], 4));
    if frames >= 60 || seconds >= 60 || minutes >= 60 || hours >= 24 {
        assert(seconds as int == ltc_field(b@[2], b@[3], 8));
        assert(minutes as int == ltc_field(b@[4], b@[5], 8));
        return None;
    }
    let mut tc = Timecode::new(hours, minutes, seconds, frames, frame_rate);
    proof {
        assert((b0 >> 4u8) & 0x0F == b0 / 16) by (bit_vector);
        assert((b2 >> 4u8) & 0x0F == b2 / 16) by (bit_vector);
        assert((b4 >> 4u8) & 0x0F == b4 / 16) by (bit_vector);
        assert((b6 >> 4u8) & 0x0F == b6 / 16) by (bit_vector);
    }
    let ub = [(b0 >> 4u8) & 0x0F, (b2 >> 4u8) & 0x0F, (b4 >> 4u8) & 0x0F, (b6 >> 4u8) & 0x0F];
    tc.user_bits = ub;
    assert(tc.user_bits@ =~= seq![
        (b@[0] as int / 16) as u8,
        (b@[2] as int / 16) as u8,
        (b@[4] as int / 16) as u8,
        (b@[6] as int / 16) as u8,
    ]);
    Some(tc)
}

/// Counters an LTC source shares across threads.
#[derive(Clone)]
pub struct LtcSourceHandle {
    pub enabled: Arc<AtomicBool>,
    pub frame_counter: Arc<AtomicU64>,
    pub last_timecode_samples: Arc<AtomicU64>,
    pub locked: Arc<AtomicBool>,
}

impl LtcSourceHandle {
    /// Everything starts cleared. The atomics' contents have no model here, so the
    /// contract states nothing of them.
    pub fn new() -> (h: Self) {
        Self {
            enabled: Arc::new(AtomicBool::new(false)),
            frame_counter: Arc::new(AtomicU64::new(0)),
            last_timecode_samples: Arc::new(AtomicU64::new(0)),
            locked: Arc::new(AtomicBool::new(false)),
        }
    }
}


impl Default for LtcSourceHandle {
    fn default() -> (h: Self) {
        Self::new()
    }
}

/// What one sample tick of the decoder produced.
#[derive(Debug, Clone, Copy, PartialEq, Eq)]
pub enum LtcStep {
    /// Nothing to report.
    Nothing,
    /// A sync word ended; `frame_duration` samples passed since the previous one
    /// (wrapping). The caller estimates the frame rate from it.
    SyncWord { frame_duration: u64 },
    /// A frame was received and decoded to this label.
    Frame(Timecode),
}

/// The state of the LTC bit decoder.
pub struct LtcState {
    pub last_transition: u64,
    pub bit_buffer: u64,
    pub bit_count: u8,
    pub sync_word_detected: bool,
    pub samples_since_sync: u64,
    pub last_frame_samples: u64,
    pub frame_buffer: Seq<u8>,
    pub frame_byte_index: usize,
    pub frame_bit_index: usize,
    pub valid_frame_count: u32,
    pub locked: bool,
    pub last_timecode: Option<Timecode>,
    pub detected_fps: Option<FrameRate>,
}

/// The integer side of an LTC decoder: it turns the zero-crossing transitions of the
/// signal into bits, finds sync words, assembles the ten frame bytes after each and
/// decodes them. Reading samples and estimating the frame rate from frame durations is
/// left to the caller.
pub struct LtcDecoder {
    last_transition: u64,
    bit_buffer: u64,
    bit_count: u8,
    sync_word_detected: bool,
    samples_since_sync: u64,
    last_frame_samples: u64,
    frame_buffer: [u8; 10],
    frame_byte_index: usize,
    frame_bit_index: usize,
    valid_frame_count: u32,
    locked: bool,
    last_timecode: Option<Timecode>,
    detected_fps: Option<FrameRate>,
}

impl View for LtcDecoder {
    type V = LtcState;

    closed spec fn view(&self) -> LtcState {
        LtcState {
            last_transition: self.last_transition,
            bit_buffer: self.bit_buffer,
            bit_count: self.bit_count,
            sync_word_detected: self.sync_word_detected,
            samples_since_sync: self.samples_since_sync,
            last_frame_samples: self.last_frame_samples,
            frame_buffer: self.frame_buffer@,
            frame_byte_index: self.frame_byte_index,
            frame_bit_index: self.frame_bit_index,
            valid_frame_count: self.valid_frame_count,
            locked: self.locked,
            last_timecode: self.last_timecode,
            detected_fps: self.detected_fps,
        }
    }
}

impl LtcState {
    /// Bit and byte positions stay inside the ten-byte frame buffer, and the decoder is
    /// locked exactly when it has received at least five valid frames since it was made
    /// or reset.
    pub open spec fn well_formed(self) -> bool {
        &&& self.frame_buffer.len() == 10
        &&& self.frame_bit_index < 8
        &&& self.frame_byte_index <= 10
        &&& self.locked == (self.valid_frame_count >= 5)
    }

    /// A tick may run when the sample counter can advance and, on a transition, the time
    /// since the last transition does not underflow (it does after `reset`, which clears
    /// the sample counter but not the last transition).
    pub open spec fn can_step(self, transition: bool) -> bool {
        &&& self.samples_since_sync < u64::MAX
        &&& transition ==> self.last_transition <= self.samples_since_sync + 1
    }
}

/// The bit a transition stands for: none when it came sooner than `bit_min` samples after
/// the previous one, 0 up to `bit_max` samples, 1 beyond.
pub open spec fn bit_of(since_last: int, bit_min: u64, bit_max: u64) -> Option<u8> {
    if since_last < bit_min {
        None
    } else if since_last <= bit_max {
        Some(0u8)
    } else {
        Some(1u8)
    }
}

/// The state after a data bit is stored at the current bit position: the bit is or-ed
/// into the current byte, and the position moves on.
pub open spec fn store_bit(s: LtcState, bit: u8) -> LtcState {
    let buf = if bit == 1 {
        s.frame_buffer.update(
            s.frame_byte_index as int,
            s.frame_buffer[s.frame_byte_index as int] | (1u8 << (s.frame_bit_index as u8)),
        )
    } else {
        s.frame_buffer
    };
    let bit_index = s.frame_bit_index + 1;
    if bit_index >= 8 {
        LtcState { frame_buffer: buf, frame_bit_index: 0, frame_byte_index: (s.frame_byte_index + 1) as usize, ..s }
    } else {
        LtcState { frame_buffer: buf, frame_bit_index: bit_index as usize, ..s }
    }
}

/// One sample tick of the decoder, up to the decoding of a completed frame: the state
/// and report before a frame that the tick completes is decoded.
pub open spec fn ltc_step(s: LtcState, transition: bool, bit_min: u64, bit_max: u64) -> (LtcState, LtcStep) {
    let now = (s.samples_since_sync + 1) as u64;
    let s1 = LtcState { samples_since_sync: now, ..s };
    if !transition {
        (s1, LtcStep::Nothing)
    } else {
        let since_last = now - s.last_transition;
        let s2 = LtcState { last_transition: now, ..s1 };
        match bit_of(since_last, bit_min, bit_max) {
            None => (s2, LtcStep::Nothing),
            Some(bit) => {
                let buffer = (s.bit_buffer << 1u64) | (bit as u64);
                let count = if s.bit_count == 255 { 255u8 } else { (s.bit_count + 1) as u8 };
                let s3 = LtcState { bit_buffer: buffer, bit_count: count, ..s2 };
                if count >= 16 && buffer & 0xFFFFu64 == LTC_SYNC {
                    (
                        LtcState {
                            sync_word_detected: true,
                            frame_byte_index: 0,
                            frame_bit_index: 0,
                            bit_count: 0,
                            last_frame_samples: now,
                            ..s3
                        },
                        LtcStep::SyncWord { frame_duration: wrapped_difference(now, s.last_frame_samples) },
                    )
                } else if s3.sync_word_detected && s3.frame_byte_index < 10 {
                    (store_bit(s3, bit), LtcStep::Nothing)
                } else {
                    (s3, LtcStep::Nothing)
                }
            },
        }
    }
}


/// `a - b` modulo 2^64.
pub open spec fn wrapped_difference(a: u64, b: u64) -> u64 {
    if a >= b {
        (a - b) as u64
    } else {
        (a - b + 0x1_0000_0000_0000_0000) as u64
    }
}

/// Whether a tick completes the ten frame bytes (which are then decoded).
pub open spec fn completes_frame(s: LtcState, transition: bool, bit_min: u64, bit_max: u64) -> bool {
    let t = ltc_step(s, transition, bit_min, bit_max).0;
    s.sync_word_detected && s.frame_byte_index < 10 && t.sync_word_detected && t.frame_byte_index >= 10
        && t.bit_count != 0
}

/// Saturating increment of the valid-frame counter.
pub open spec fn count_up(c: u32) -> u32 {
    if c == u32::MAX { c } else { (c + 1) as u32 }
}

/// A decoded label's fields are in their LTC ranges and its user bits are nibbles.
pub open spec fn label_in_range(tc: Timecode) -> bool {
    &&& tc.hours < 24
    &&& tc.minutes < 60
    &&& tc.seconds < 60
    &&& tc.frames < 60
    &&& forall|k: int| 0 <= k < 4 ==> tc.user_bits@[k] <= 15
}

/// What one tick leaves of the state apart from the bit and frame work: the sample
/// counter advances by one, the last transition stays or moves to the new count, and
/// the frame counter, lock, last label and detected rate are unchanged; the tick reports
/// no frame.
proof fn lemma_tick_bookkeeping(s: LtcState, transition: bool, bit_min: u64, bit_max: u64)
    requires
        s.samples_since_sync < u64::MAX,
    ensures
        ({
            let (t, ev) = ltc_step(s, transition, bit_min, bit_max);
            &&& t.samples_since_sync == s.samples_since_sync + 1
            &&& (t.last_transition == s.last_transition || t.last_transition == t.samples_since_sync)
            &&& t.valid_frame_count == s.valid_frame_count
            &&& t.locked == s.locked
            &&& t.last_timecode == s.last_timecode
            &&& t.detected_fps == s.detected_fps
            &&& !(ev is Frame)
        }),
{
}

/// The label a completed frame decodes to (the one `is_decoded_label` describes).
pub open spec fn decoded_label(b: Seq<u8>, detected: Option<FrameRate>) -> Timecode {
    choose|tc: Timecode| is_decoded_label(tc, b, detected)
}

/// `is_decoded_label` describes one label only.
proof fn lemma_decoded_label_unique(tc: Timecode, b: Seq<u8>, detected: Option<FrameRate>)
    requires
        is_decoded_label(tc, b, detected),
    ensures
        decoded_label(b, detected) == tc,
{
    broadcast use vstd::array::group_array_axioms;

    let c = decoded_label(b, detected);
    assert(is_decoded_label(c, b, detected));
    assert forall|i: int| 0 <= i < 4 implies c.user_bits[i] == tc.user_bits[i] by {
        assert(c.user_bits@[i] == tc.user_bits@[i]);
    }
    assert(c.user_bits =~= tc.user_bits);
}

/// One whole sample tick, frame decoding included: the state after it, the label it
/// decoded (if it completed a valid frame), and the frame duration of the sync word it
/// ended (if it ended one).
pub open spec fn ltc_tick(s: LtcState, transition: bool, bit_min: u64, bit_max: u64) -> (
    LtcState,
    Option<Timecode>,
    Option<u64>,
) {
    let (t, ev) = ltc_step(s, transition, bit_min, bit_max);
    if !completes_frame(s, transition, bit_min, bit_max) {
        let sync = match ev {
            LtcStep::SyncWord { frame_duration } => Some(frame_duration),
            _ => None,
        };
        (t, None, sync)
    } else {
        let tail = LtcState { sync_word_detected: false, ..t };
        if frame_fields_in_range(t.frame_buffer) {
            let tc = decoded_label(t.frame_buffer, t.detected_fps);
            (
                LtcState {
                    last_timecode: Some(tc),
                    valid_frame_count: count_up(t.valid_frame_count),
                    locked: count_up(t.valid_frame_count) >= 5,
                    ..tail
                },
                Some(tc),
                None,
            )
        } else {
            (tail, None, None)
        }
    }
}

/// A run of ticks that stops right after the first tick ending a sync word: the final
/// state, the labels decoded in order, the frame duration of the sync word it stopped at
/// (none when it took every tick), and the number of ticks taken.
pub open spec fn ltc_ticks(s: LtcState, ts: Seq<bool>, bit_min: u64, bit_max: u64) -> (
    LtcState,
    Seq<Timecode>,
    Option<u64>,
    nat,
)
    decreases ts.len(),
{
    if ts.len() == 0 {
        (s, Seq::empty(), None, 0)
    } else {
        let (t, label, sync) = ltc_tick(s, ts[0], bit_min, bit_max);
        let first = match label {
            Some(tc) => seq![tc],
            None => Seq::empty(),
        };
        if sync is Some {
            (t, first, sync, 1)
        } else {
            let (u, rest, stop, n) = ltc_ticks(t, ts.drop_first(), bit_min, bit_max);
            (u, first + rest, stop, n + 1)
        }
    }
}

/// Whether a run of `ticks` ticks may start: the time since the last transition cannot
/// underflow and the sample counter cannot overflow.
pub open spec fn can_run(s: LtcState, ticks: int) -> bool {
    &&& s.last_transition <= s.samples_since_sync + 1
    &&& s.samples_since_sync + ticks < u64::MAX
}

impl LtcDecoder {
    pub fn new() -> (d: Self)
        ensures
            d@.well_formed(),
            d@.last_transition == 0,
            d@.bit_buffer == 0,
            d@.bit_count == 0,
            !d@.sync_word_detected,
            d@.samples_since_sync == 0,
            d@.last_frame_samples == 0,
            d@.frame_buffer == Seq::new(10, |i: int| 0u8),
            d@.frame_byte_index == 0,
            d@.frame_bit_index == 0,
            d@.valid_frame_count == 0,
            !d@.locked,
            d@.last_timecode is None,
            d@.detected_fps is None,
    {
        let d = Self {
            last_transition: 0,
            bit_buffer: 0,
            bit_count: 0,
            sync_word_detected: false,
            samples_since_sync: 0,
            last_frame_samples: 0,
            frame_buffer: [0u8; 10],
            frame_byte_index: 0,
            frame_bit_index: 0,
            valid_frame_count: 0,
            locked: false,
            last_timecode: None,
            detected_fps: None,
        };
        assert(d@.frame_buffer =~= Seq::new(10, |i: int| 0u8));
        d
    }

    /// Whether `step` may run for this tick (see `LtcState::can_step`).
    pub fn can_step(&self, transition: bool) -> (r: bool)
        ensures
            r == self@.can_step(transition),
    {
        self.samples_since_sync < u64::MAX && (!transition || self.last_transition
            <= self.samples_since_sync + 1)
    }

    /// Processes one sample, given whether the signal crossed zero at it and the
    /// shortest and longest spacing (in samples) of a zero bit.
    pub fn step(&mut self, transition: bool, bit_min: u64, bit_max: u64) -> (r: LtcStep)
        requires
            old(self)@.well_formed(),
            old(self)@.can_step(transition),
        ensures
            final(self)@.well_formed(),
            ({
                let (t, ev) = ltc_step(old(self)@, transition, bit_min, bit_max);
                if !completes_frame(old(self)@, transition, bit_min, bit_max) {
                    final(self)@ == t && r == ev
                } else {
                    let tail = LtcState { sync_word_detected: false, ..t };
                    if frame_fields_in_range(t.frame_buffer) {
                        &&& r matches LtcStep::Frame(tc)
                        &&& is_decoded_label(tc, t.frame_buffer, t.detected_fps)
                        &&& final(self)@ == (LtcState {
                            last_timecode: Some(tc),
                            valid_frame_count: count_up(t.valid_frame_count),
                            locked: count_up(t.valid_frame_count) >= 5,
                            ..tail
                        })
                    } else {
                        r == LtcStep::Nothing && final(self)@ == tail
                    }
                }
            }),
    {
        self.samples_since_sync += 1;
        if !transition {
            return LtcStep::Nothing;
        }
        let since_last = self.samples_since_sync - self.last_transition;
        self.last_transition = self.samples_since_sync;
        let bit: u8 = if since_last < bit_min {
            return LtcStep::Nothing;
        } else if since_last <= bit_max {
            0
        } else {
            1
        };
        self.bit_buffer = (self.bit_buffer << 1u64) | (bit as u64);
        self.bit_count = self.bit_count.saturating_add(1);
        if self.bit_count >= 16 {
            if (self.bit_buffer & 0xFFFF) == LTC_SYNC {
                self.sync_word_detected = true;
                self.frame_byte_index = 0;
                self.frame_bit_index = 0;
                self.bit_count = 0;
                let frame_duration = self.samples_since_sync.wrapping_sub(self.last_frame_samples);
                self.last_frame_samples = self.samples_since_sync;
                return LtcStep::SyncWord { frame_duration };
            }
        }
        if self.sync_word_detected && self.frame_byte_index < 10 {
            if bit == 1 {
                let i = self.frame_byte_index;
                let k = self.frame_bit_index as u8;
                self.frame_buffer[i] = self.frame_buffer[i] | (1u8 << k);
            }
            self.frame_bit_index += 1;
            if self.frame_bit_index >= 8 {
                self.frame_bit_index = 0;
                self.frame_byte_index += 1;
                if self.frame_byte_index >= 10 {
                    let decoded = decode_frame(&self.frame_buffer, self.detected_fps);
                    let out = match decoded {
                        Some(tc) => {
                            self.last_timecode = Some(tc);
                            self.valid_frame_count = self.valid_frame_count.saturating_add(1);
                            self.locked = self.valid_frame_count >= 5;
                            LtcStep::Frame(tc)
                        },
                        None => LtcStep::Nothing,
                    };
                    self.sync_word_detected = false;
                    return out;
                }
            }
        }
        LtcStep::Nothing
    }

    /// Whether `run` may take `ticks` ticks (see `can_run`).
    pub fn can_run(&self, ticks: usize) -> (r: bool)
        ensures
            r == can_run(self@, ticks as int),
    {
        (ticks as u64) < u64::MAX - self.samples_since_sync && self.last_transition <= self.samples_since_sync + 1
    }

    /// Processes the ticks from `start` on, given whether the signal crossed zero at each,
    /// appending each decoded label to `out`. It stops right after a tick that ends a sync
    /// word, so the caller can record the frame rate before going on, and returns where
    /// it stopped and the sync word's frame duration; otherwise it takes every tick.
    /// The state it leaves, the labels it appends, where it stops and the duration it
    /// returns are those of `ltc_ticks` on the ticks from `start`; so `out` only grows,
    /// every label appended is in range, the sample counter advances by one per tick
    /// taken, a lock is never lost, and the last label appended is the one the decoder
    /// keeps.
    pub fn run(
        &mut self,
        transitions: &[bool],
        start: usize,
        bit_min: u64,
        bit_max: u64,
        out: &mut Vec<Timecode>,
    ) -> (r: (usize, Option<u64>))
        requires
            old(self)@.well_formed(),
            start <= transitions@.len(),
            can_run(old(self)@, transitions@.len() - start),
        ensures
            final(self)@.well_formed(),
            start <= r.0 <= transitions@.len(),
            r.1 is None ==> r.0 == transitions@.len(),
            r.1 is Some ==> r.0 > start,
            final(self)@.samples_since_sync == old(self)@.samples_since_sync + (r.0 - start),
            can_run(final(self)@, transitions@.len() - r.0),
            final(self)@.detected_fps == old(self)@.detected_fps,
            old(out)@.len() <= final(out)@.len(),
            final(out)@.subrange(0, old(out)@.len() as int) == old(out)@,
            forall|k: int| old(out)@.len() <= k < final(out)@.len() ==> label_in_range(#[trigger] final(out)@[k]),
            old(self)@.locked ==> final(self)@.locked,
            final(out)@.len() > old(out)@.len() ==> final(self)@.last_timecode == Some(final(out)@.last()),
            ({
                let res = ltc_ticks(
                    old(self)@,
                    transitions@.subrange(start as int, transitions@.len() as int),
                    bit_min,
                    bit_max,
                );
                &&& final(self)@ == res.0
                &&& final(out)@ == old(out)@ + res.1
                &&& r.1 == res.2
                &&& r.0 == start + res.3
            }),
    {
        let ghost out0 = out@;
        let ghost s0 = self@;
        let mut i: usize = start;
        proof {
            let rest = ltc_ticks(
                s0,
                transitions@.subrange(start as int, transitions@.len() as int),
                bit_min,
                bit_max,
            );
            assert(out@.subrange(out0.len() as int, out@.len() as int) + rest.1 =~= rest.1);
        }
        while i < transitions.len()
            invariant
                s0 == old(self)@,
                out0 == old(out)@,
                start <= transitions@.len(),
                self@.well_formed(),
                start <= i <= transitions@.len(),
                self@.samples_since_sync == s0.samples_since_sync + (i - start),
                can_run(self@, transitions@.len() - i),
                self@.detected_fps == s0.detected_fps,
                out0.len() <= out@.len(),
                out@.subrange(0, out0.len() as int) == out0,
                forall|k: int| out0.len() <= k < out@.len() ==> label_in_range(#[trigger] out@[k]),
                s0.locked ==> self@.locked,
                out@.len() > out0.len() ==> self@.last_timecode == Some(out@.last()),
                ({
                    let whole = ltc_ticks(
                        s0,
                        transitions@.subrange(start as int, transitions@.len() as int),
                        bit_min,
                        bit_max,
                    );
                    let rest = ltc_ticks(
                        self@,
                        transitions@.subrange(i as int, transitions@.len() as int),
                        bit_min,
                        bit_max,
                    );
                    &&& whole.0 == rest.0
                    &&& whole.1 == out@.subrange(out0.len() as int, out@.len() as int) + rest.1
                    &&& whole.2 == rest.2
                    &&& whole.3 == (i - start) + rest.3
                }),
            decreases transitions@.len() - i,
        {
            let transition = transitions[i];
            let ghost before = self@;
            let ghost out_before = out@;
            let ghost ts_i = transitions@.subrange(i as int, transitions@.len() as int);
            let ghost ts_next = transitions@.subrange(i + 1, transitions@.len() as int);
            let ghost rest_next = ltc_ticks(ltc_tick(before, transition, bit_min, bit_max).0, ts_next, bit_min, bit_max);
            proof {
                lemma_tick_bookkeeping(before, transition, bit_min, bit_max);
                assert(ts_i[0] == transition);
                assert(ts_i.drop_first() =~= ts_next);
            }
            let step = self.step(transition, bit_min, bit_max);
            i += 1;
            match step {
                LtcStep::Frame(tc) => {
                    out.push(tc);
                    proof {
                        let t = ltc_step(before, transition, bit_min, bit_max).0;
                        let b = t.frame_buffer;
                        assert(tc.user_bits@[0] == (b[0] as int / 16) as u8);
                        assert(tc.user_bits@[1] == (b[2] as int / 16) as u8);
                        assert(tc.user_bits@[2] == (b[4] as int / 16) as u8);
                        assert(tc.user_bits@[3] == (b[6] as int / 16) as u8);
                        assert(label_in_range(tc));
                        assert(out@.subrange(0, out0.len() as int) =~= out_before.subrange(0, out0.len() as int));
                        assert forall|k: int| out0.len() <= k < out@.len() implies label_in_range(#[trigger] out@[k]) by {
                            if k < out_before.len() {
                                assert(out@[k] == out_before[k]);
                            }
                        }
                        lemma_decoded_label_unique(tc, b, t.detected_fps);
                        assert(self@ == ltc_tick(before, transition, bit_min, bit_max).0);
                        assert(ltc_tick(before, transition, bit_min, bit_max).1 == Some(tc));
                        let sub_before = out_before.subrange(out0.len() as int, out_before.len() as int);
                        assert(out@.subrange(out0.len() as int, out@.len() as int) =~= sub_before.push(tc));
                        assert(sub_before + (seq![tc] + rest_next.1) =~= sub_before.push(tc) + rest_next.1);
                    }
                },
                LtcStep::SyncWord { frame_duration } => {
                    proof {
                        assert(!completes_frame(before, transition, bit_min, bit_max));
                        assert(self@ == ltc_step(before, transition, bit_min, bit_max).0);
                        assert(self@.samples_since_sync == before.samples_since_sync + 1);
                        assert(self@.detected_fps == before.detected_fps);
                        let sub = out@.subrange(out0.len() as int, out@.len() as int);
                        assert(sub + Seq::<Timecode>::empty() =~= sub);
                        assert(out@ =~= out0 + sub);
                    }
                    return (i, Some(frame_duration));
                },
                LtcStep::Nothing => {
                    proof {
                        assert(self@ == ltc_tick(before, transition, bit_min, bit_max).0);
                        assert(ltc_tick(before, transition, bit_min, bit_max).1 is None);
                        assert(ltc_tick(before, transition, bit_min, bit_max).2 is None);
                        let sub = out@.subrange(out0.len() as int, out@.len() as int);
                        assert(sub + (Seq::<Timecode>::empty() + rest_next.1) =~= sub + rest_next.1);
                    }
                },
            }
        }
        proof {
            let sub = out@.subrange(out0.len() as int, out@.len() as int);
            assert(transitions@.subrange(i as int, transitions@.len() as int) =~= Seq::<bool>::empty());
            assert(sub + Seq::<Timecode>::empty() =~= sub);
            assert(out@ =~= out0 + sub);
        }
        (i, None)
    }

    /// Records the frame rate the caller estimated from a sync-word spacing.
    pub fn set_detected_fps(&mut self, fps: FrameRate)
        ensures
            final(self)@ == (LtcState { detected_fps: Some(fps), ..old(self)@ }),
    {
        self.detected_fps = Some(fps);
    }

    pub fn is_locked(&self) -> (r: bool)
        ensures
            r == self@.locked,
    {
        self.locked
    }

    pub fn last_timecode(&self) -> (r: Option<Timecode>)
        ensures
            r == self@.last_timecode,
    {
        self.last_timecode
    }

    pub fn samples_since_sync(&self) -> (r: u64)
        ensures
            r == self@.samples_since_sync,
    {
        self.samples_since_sync
    }

    pub fn detected_frame_rate(&self) -> (r: Option<FrameRate>)
        ensures
            r == self@.detected_fps,
    {
        self.detected_fps
    }

    /// Clears the bit and frame state, the lock and the sample counter; the last
    /// transition, the frame buffer, the last timecode and the detected rate stay.
    pub fn reset(&mut self)
        ensures
            final(self)@ == (LtcState {
                bit_buffer: 0,
                bit_count: 0,
                sync_word_detected: false,
                frame_byte_index: 0,
                frame_bit_index: 0,
                valid_frame_count: 0,
                locked: false,
                samples_since_sync: 0,
                ..old(self)@
            }),
    {
        self.bit_buffer = 0;
        self.bit_count = 0;
        self.sync_word_detected = false;
        self.frame_byte_index = 0;
        self.frame_bit_index = 0;
        self.valid_frame_count = 0;
        self.locked = false;
        self.samples_since_sync = 0;
    }
}

} // verus!
