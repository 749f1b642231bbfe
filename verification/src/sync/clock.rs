use vstd::prelude::*;
use std::sync::atomic::{AtomicBool, AtomicU64};

verus! {

/// The playback position a studio machine multicasts to its peers. The two
/// floating-point quantities travel as their IEEE-754 bit patterns:
/// `position_seconds_bits` is an `f64`'s bits, `speed_ratio_bits` an `f32`'s.
#[derive(Debug, Clone, Copy, PartialEq, Eq, Structural)]
pub struct PositionBroadcast {
    pub session_id: u64,
    pub sequence: u64,
    pub wall_time_us: u64,
    pub position_seconds_bits: u64,
    pub timecode_hh: u8,
    pub timecode_mm: u8,
    pub timecode_ss: u8,
    pub timecode_ff: u8,
    pub is_playing: bool,
    pub speed_ratio_bits: u32,
}

impl Default for PositionBroadcast {
    fn default() -> (r: Self)
        ensures
            r == (PositionBroadcast {
                session_id: 0,
                sequence: 0,
                wall_time_us: 0,
                position_seconds_bits: 0,
                timecode_hh: 0,
                timecode_mm: 0,
                timecode_ss: 0,
                timecode_ff: 0,
                is_playing: false,
                speed_ratio_bits: 0,
            }),
    {
        PositionBroadcast {
            session_id: 0,
            sequence: 0,
            wall_time_us: 0,
            position_seconds_bits: 0,
            timecode_hh: 0,
            timecode_mm: 0,
            timecode_ss: 0,
            timecode_ff: 0,
            is_playing: false,
            speed_ratio_bits: 0,
        }
    }
}

/// The sample clock's counters, shared with the audio thread. `drift_ppm` holds an `f64`'s
/// bits.
pub struct ClockStateAtomic {
    pub samples_elapsed: AtomicU64,
    pub wall_time_us: AtomicU64,
    pub drift_ppm: AtomicU64,
    pub locked_to_external: AtomicBool,
}

impl ClockStateAtomic {
    /// All counters start at zero and the clock unlocked. The atomics' contents have no
    /// model here, so the contract states nothing of them.
    pub fn new() -> (c: Self) {
        Self {
            samples_elapsed: AtomicU64::new(0),
            wall_time_us: AtomicU64::new(0),
            drift_ppm: AtomicU64::new(0),
            locked_to_external: AtomicBool::new(false),
        }
    }
}

impl Default for ClockStateAtomic {
    fn default() -> (c: Self) {
        Self::new()
    }
}

/// Big-endian bytes of a 64-bit value.
pub open spec fn be_u64(x: u64) -> Seq<u8> {
    seq![
        (x >> 56u64) as u8,
        (x >> 48u64) as u8,
        (x >> 40u64) as u8,
        (x >> 32u64) as u8,
        (x >> 24u64) as u8,
        (x >> 16u64) as u8,
        (x >> 8u64) as u8,
        x as u8,
    ]
}

/// Big-endian bytes of a 32-bit value.
pub open spec fn be_u32(x: u32) -> Seq<u8> {
    seq![(x >> 24u32) as u8, (x >> 16u32) as u8, (x >> 8u32) as u8, x as u8]
}

/// The 64-bit value whose big-endian bytes start at `off`.
pub open spec fn read_be_u64(b: Seq<u8>, off: int) -> u64 {
    (b[off] as u64) << 56u64 | (b[off + 1] as u64) << 48u64 | (b[off + 2] as u64) << 40u64 | (b[off
        + 3] as u64) << 32u64 | (b[off + 4] as u64) << 24u64 | (b[off + 5] as u64) << 16u64 | (b[off
        + 6] as u64) << 8u64 | (b[off + 7] as u64)
}

/// The 32-bit value whose big-endian bytes start at `off`.
pub open spec fn read_be_u32(b: Seq<u8>, off: int) -> u32 {
    (b[off] as u32) << 24u32 | (b[off + 1] as u32) << 16u32 | (b[off + 2] as u32) << 8u32 | (b[off
        + 3] as u32)
}

/// The 56-byte datagram: three big-endian 64-bit counters, the position's bits, the four
/// timecode fields, a playing flag byte (1 or 0), the speed ratio's bits, and zero padding.
pub open spec fn broadcast_bytes(m: PositionBroadcast) -> Seq<u8> {
    be_u64(m.session_id) + be_u64(m.sequence) + be_u64(m.wall_time_us) + be_u64(
        m.position_seconds_bits,
    ) + seq![
        m.timecode_hh,
        m.timecode_mm,
        m.timecode_ss,
        m.timecode_ff,
        if m.is_playing { 1u8 } else { 0u8 },
    ] + be_u32(m.speed_ratio_bits) + Seq::new(15, |i: int| 0u8)
}

/// What a datagram decodes to: nothing below 41 bytes; otherwise the fields at the
/// offsets `broadcast_bytes` writes them, any non-zero flag byte meaning playing.
pub open spec fn decode_broadcast(b: Seq<u8>) -> Option<PositionBroadcast> {
    if b.len() < 41 {
        None
    } else {
        Some(
            PositionBroadcast {
                session_id: read_be_u64(b, 0),
                sequence: read_be_u64(b, 8),
                wall_time_us: read_be_u64(b, 16),
                position_seconds_bits: read_be_u64(b, 24),
                timecode_hh: b[32],
                timecode_mm: b[33],
                timecode_ss: b[34],
                timecode_ff: b[35],
                is_playing: b[36] != 0,
                speed_ratio_bits: read_be_u32(b, 37),
            },
        )
    }
}

fn put_u64(buf: &mut [u8; 56], off: usize, x: u64)
    requires
        off + 8 <= 56,
    ensures
        final(buf)@ == old(buf)@.subrange(0, off as int) + be_u64(x) + old(buf)@.subrange(
            off + 8,
            56,
        ),
{
    buf[off] = (x >> 56u64) as u8;
    buf[off + 1] = (x >> 48u64) as u8;
    buf[off + 2] = (x >> 40u64) as u8;
    buf[off + 3] = (x >> 32u64) as u8;
    buf[off + 4] = (x >> 24u64) as u8;
    buf[off + 5] = (x >> 16u64) as u8;
    buf[off + 6] = (x >> 8u64) as u8;
    buf[off + 7] = x as u8;
    assert(buf@ =~= old(buf)@.subrange(0, off as int) + be_u64(x) + old(buf)@.subrange(off + 8, 56));
}

fn get_u64(b: &[u8], off: usize) -> (r: u64)
    requires
        off + 8 <= b@.len(),
    ensures
        r == read_be_u64(b@, off as int),
{
    (b[off] as u64) << 56u64 | (b[off + 1] as u64) << 48u64 | (b[off + 2] as u64) << 40u64 | (b[off
        + 3] as u64) << 32u64 | (b[off + 4] as u64) << 24u64 | (b[off + 5] as u64) << 16u64 | (b[off
        + 6] as u64) << 8u64 | (b[off + 7] as u64)
}

impl PositionBroadcast {
    pub fn to_bytes(&self) -> (buf: [u8; 56])
        ensures
            buf@ == broadcast_bytes(*self),
    {
        let mut buf = [0u8; 56];
        put_u64(&mut buf, 0, self.session_id);
        put_u64(&mut buf, 8, self.sequence);
        put_u64(&mut buf, 16, self.wall_time_us);
        put_u64(&mut buf, 24, self.position_seconds_bits);
        buf[32] = self.timecode_hh;
        buf[33] = self.timecode_mm;
        buf[34] = self.timecode_ss;
        buf[35] = self.timecode_ff;
        buf[36] = if self.is_playing { 1 } else { 0 };
        let s = self.speed_ratio_bits;
        buf[37] = (s >> 24u32) as u8;
        buf[38] = (s >> 16u32) as u8;
        buf[39] = (s >> 8u32) as u8;
        buf[40] = s as u8;
        assert(buf@ =~= broadcast_bytes(*self));
        buf
    }

    pub fn from_bytes(buf: &[u8]) -> (r: Option<Self>)
        ensures
            r == decode_broadcast(buf@),
    {
        if buf.len() < 41 {
            return None;
        }
        let session_id = get_u64(buf, 0);
        let sequence = get_u64(buf, 8);
        let wall_time_us = get_u64(buf, 16);
        let position_seconds_bits = get_u64(buf, 24);
        let speed_ratio_bits = (buf[37] as u32) << 24u32 | (buf[38] as u32) << 16u32 | (buf[39] as u32)
            << 8u32 | (buf[40] as u32);
        Some(
            Self {
                session_id,
                sequence,
                wall_time_us,
                position_seconds_bits,
                timecode_hh: buf[32],
                timecode_mm: buf[33],
                timecode_ss: buf[34],
                timecode_ff: buf[35],
                is_playing: buf[36] != 0,
                speed_ratio_bits,
            },
        )
    }
}

proof fn lemma_u64_round_trip(x: u64)
    ensures
        read_be_u64(be_u64(x), 0) == x,
{
    let b = be_u64(x);
    let b0 = (x >> 56u64) as u8;
    let b1 = (x >> 48u64) as u8;
    let b2 = (x >> 40u64) as u8;
    let b3 = (x >> 32u64) as u8;
    let b4 = (x >> 24u64) as u8;
    let b5 = (x >> 16u64) as u8;
    let b6 = (x >> 8u64) as u8;
    let b7 = x as u8;
    assert((b0 as u64) << 56u64 | (b1 as u64) << 48u64 | (b2 as u64) << 40u64 | (b3 as u64) << 32u64
        | (b4 as u64) << 24u64 | (b5 as u64) << 16u64 | (b6 as u64) << 8u64 | (b7 as u64) == x)
        by (bit_vector)
        requires
            b0 == (x >> 56u64) as u8,
            b1 == (x >> 48u64) as u8,
            b2 == (x >> 40u64) as u8,
            b3 == (x >> 32u64) as u8,
            b4 == (x >> 24u64) as u8,
            b5 == (x >> 16u64) as u8,
            b6 == (x >> 8u64) as u8,
            b7 == x as u8,
    ;
}

proof fn lemma_u32_round_trip(x: u32)
    ensures
        read_be_u32(be_u32(x), 0) == x,
{
    let b0 = (x >> 24u32) as u8;
    let b1 = (x >> 16u32) as u8;
    let b2 = (x >> 8u32) as u8;
    let b3 = x as u8;
    assert((b0 as u32) << 24u32 | (b1 as u32) << 16u32 | (b2 as u32) << 8u32 | (b3 as u32) == x)
        by (bit_vector)
        requires
            b0 == (x >> 24u32) as u8,
            b1 == (x >> 16u32) as u8,
            b2 == (x >> 8u32) as u8,
            b3 == x as u8,
    ;
}

proof fn lemma_read_shift(a: Seq<u8>, b: Seq<u8>, off: int)
    requires
        0 <= off,
        off + 8 <= a.len(),
        a.subrange(off, off + 8) == b,
    ensures
        read_be_u64(a, off) == read_be_u64(b, 0),
{
    assert(a[off] == b[0] && a[off + 1] == b[1] && a[off + 2] == b[2] && a[off + 3] == b[3]);
    assert(a[off + 4] == b[4] && a[off + 5] == b[5] && a[off + 6] == b[6] && a[off + 7] == b[7]);
}

/// A datagram decodes to the message it was made from.
pub proof fn lemma_broadcast_round_trip(m: PositionBroadcast)
    ensures
        decode_broadcast(broadcast_bytes(m)) == Some(m),
{
    let b = broadcast_bytes(m);
    assert(b.len() == 56);
    lemma_u64_round_trip(m.session_id);
    lemma_u64_round_trip(m.sequence);
    lemma_u64_round_trip(m.wall_time_us);
    lemma_u64_round_trip(m.position_seconds_bits);
    lemma_u32_round_trip(m.speed_ratio_bits);
    assert(b.subrange(0, 8) =~= be_u64(m.session_id));
    assert(b.subrange(8, 16) =~= be_u64(m.sequence));
    assert(b.subrange(16, 24) =~= be_u64(m.wall_time_us));
    assert(b.subrange(24, 32) =~= be_u64(m.position_seconds_bits));
    lemma_read_shift(b, be_u64(m.session_id), 0);
    lemma_read_shift(b, be_u64(m.sequence), 8);
    lemma_read_shift(b, be_u64(m.wall_time_us), 16);
    lemma_read_shift(b, be_u64(m.position_seconds_bits), 24);
    let s = be_u32(m.speed_ratio_bits);
    assert(b[37] == s[0] && b[38] == s[1] && b[39] == s[2] && b[40] == s[3]);
}

} // verus!
