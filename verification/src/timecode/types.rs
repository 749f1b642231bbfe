use vstd::prelude::*;
use vstd::string::*;
use vstd::arithmetic::div_mod::lemma_fundamental_div_mod_converse;

verus! {

/// SMPTE frame rates understood by the timecode layer.
#[derive(Debug, Clone, Copy, PartialEq, Eq, Structural)]
pub enum FrameRate {
    Fps24,
    Fps25,
    Fps2997Drop,
    Fps2997NonDrop,
    Fps30Drop,
    Fps30NonDrop,
}

/// Whole frames counted per second of timecode labels (30 for the 29.97 rates).
pub open spec fn nominal_of(fr: FrameRate) -> int {
    match fr {
        FrameRate::Fps24 => 24,
        FrameRate::Fps25 => 25,
        _ => 30,
    }
}

/// Whether the rate skips frame labels at the start of most minutes.
pub open spec fn is_drop_rate(fr: FrameRate) -> bool {
    fr == FrameRate::Fps2997Drop || fr == FrameRate::Fps30Drop
}

/// How many frame labels a drop-frame rate skips per affected minute.
pub open spec fn drop_count(fr: FrameRate) -> int {
    match fr {
        FrameRate::Fps2997Drop => 2,
        FrameRate::Fps30Drop => 4,
        _ => 0,
    }
}

/// Division truncating toward zero, as machine integers divide.
pub open spec fn tdiv(a: int, b: int) -> int {
    if a >= 0 { a / b } else { -((-a) / b) }
}

/// Remainder taking the sign of the dividend, as machine integers do.
pub open spec fn tmod(a: int, b: int) -> int {
    if a >= 0 { a % b } else { -((-a) % b) }
}

/// The low eight bits of `x`, read as an unsigned byte.
pub open spec fn low_byte(x: int) -> u8 {
    (x % 256) as u8
}

impl FrameRate {
    pub fn nominal_fps(&self) -> (r: u8)
        ensures
            r as int == nominal_of(*self),
    {
        match self {
            FrameRate::Fps24 => 24,
            FrameRate::Fps25 => 25,
            FrameRate::Fps2997Drop | FrameRate::Fps2997NonDrop | FrameRate::Fps30Drop
            | FrameRate::Fps30NonDrop => 30,
        }
    }

    pub fn is_drop_frame(&self) -> (r: bool)
        ensures
            r == is_drop_rate(*self),
    {
        matches!(self, FrameRate::Fps2997Drop | FrameRate::Fps30Drop)
    }
}

/// A timecode label: hours, minutes, seconds and frames at a frame rate,
/// with four nibbles of user bits.
#[derive(Debug, Clone, Copy, PartialEq, Eq)]
pub struct Timecode {
    pub hours: u8,
    pub minutes: u8,
    pub seconds: u8,
    pub frames: u8,
    pub frame_rate: FrameRate,
    pub user_bits: [u8; 4],
}

/// Frame count of a label: labels counted from 00:00:00:00, minus the labels a
/// drop-frame rate skips (`drop_count` at every minute not divisible by ten).
pub open spec fn label_frame_count(tc: Timecode) -> int {
    let nominal = nominal_of(tc.frame_rate);
    let base = ((tc.hours as int * 3600) + (tc.minutes as int * 60) + tc.seconds as int) * nominal
        + tc.frames as int;
    if is_drop_rate(tc.frame_rate) {
        let minutes = tc.hours as int * 60 + tc.minutes as int;
        base - drop_count(tc.frame_rate) * (minutes - minutes / 10)
    } else {
        base
    }
}

/// The frame count `from_total_frames` decodes after re-inserting skipped labels.
pub open spec fn drop_adjusted_total(total: int, fr: FrameRate) -> int {
    if is_drop_rate(fr) {
        let nominal = nominal_of(fr);
        let dc = drop_count(fr);
        let frames_per_10min = nominal * 60 * 10;
        let frames_per_min = nominal * 60 - dc;
        let d = tdiv(total, frames_per_10min);
        let m = tmod(total, frames_per_10min);
        if m > dc {
            total + (dc * 9 * d + dc * ((m - dc) / frames_per_min))
        } else {
            total + dc * 9 * d
        }
    } else {
        total
    }
}

/// The label `from_total_frames` produces for a frame count.
pub open spec fn label_of_frame_count(total: int, fr: FrameRate) -> Timecode {
    let t = drop_adjusted_total(total, fr);
    let nominal = nominal_of(fr);
    let total_sec = tdiv(t, nominal);
    let total_min = tdiv(total_sec, 60);
    Timecode {
        hours: low_byte(tdiv(total_min, 60)),
        minutes: low_byte(tmod(total_min, 60)),
        seconds: low_byte(tmod(total_sec, 60)),
        frames: low_byte(tmod(t, nominal)),
        frame_rate: fr,
        user_bits: [0u8, 0u8, 0u8, 0u8],
    }
}

/// Two decimal digits at least, as `{:02}` prints an unsigned number.
pub open spec fn digit_char(d: int) -> char {
    (d + 48) as char
}

pub open spec fn decimal(n: nat) -> Seq<char>
    decreases n,
{
    if n < 10 {
        seq![digit_char(n as int)]
    } else {
        decimal(n / 10).push(digit_char((n % 10) as int))
    }
}

pub open spec fn pad2(n: nat) -> Seq<char> {
    if n < 10 {
        seq!['0', digit_char(n as int)]
    } else {
        decimal(n)
    }
}

/// The text `Timecode::to_string` produces: `HH:MM:SS:FF`, or `HH:MM:SS;FF` at drop-frame rates.
pub open spec fn timecode_text(tc: Timecode) -> Seq<char> {
    let sep = if is_drop_rate(tc.frame_rate) { ';' } else { ':' };
    pad2(tc.hours as nat) + seq![':'] + pad2(tc.minutes as nat) + seq![':'] + pad2(
        tc.seconds as nat,
    ) + seq![sep] + pad2(tc.frames as nat)
}

/// The text of one decimal digit.
fn digit_text(d: usize) -> (r: &'static str)
    requires
        d < 10,
    ensures
        r@ == seq![digit_char(d as int)],
{
    proof {
        reveal_strlit("0");
        reveal_strlit("1");
        reveal_strlit("2");
        reveal_strlit("3");
        reveal_strlit("4");
        reveal_strlit("5");
        reveal_strlit("6");
        reveal_strlit("7");
        reveal_strlit("8");
        reveal_strlit("9");
    }
    match d {
        0 => "0",
        1 => "1",
        2 => "2",
        3 => "3",
        4 => "4",
        5 => "5",
        6 => "6",
        7 => "7",
        8 => "8",
        _ => "9",
    }
}

/// The decimal digits of a number, as `usize`'s `Display` prints them.
pub(crate) fn usize_text(n: usize) -> (r: String)
    ensures
        r@ == decimal(n as nat),
    decreases n,
{
    if n < 10 {
        digit_text(n).to_owned()
    } else {
        let mut r = usize_text(n / 10);
        r.append(digit_text(n % 10));
        r
    }
}

/// A number printed with at least two digits, as `{:02}` prints it.
fn pad2_text(n: u8) -> (r: String)
    ensures
        r@ == pad2(n as nat),
{
    let digits = usize_text(n as usize);
    if n < 10 {
        let mut r = "0".to_owned();
        r.append(digits.as_str());
        proof {
            reveal_strlit("0");
            reveal_with_fuel(decimal, 1);
            assert(r@ =~= pad2(n as nat));
        }
        r
    } else {
        digits
    }
}

/// Lays out a label: the four fields with two digits each, colons between the first
/// three and `sep` before the frames.
fn format_label(h: u8, m: u8, s: u8, sep: &str, f: u8) -> (r: String)
    ensures
        r@ == pad2(h as nat) + ":"@ + pad2(m as nat) + ":"@ + pad2(s as nat) + sep@ + pad2(
            f as nat,
        ),
{
    let mut r = pad2_text(h);
    r.append(":");
    let mm = pad2_text(m);
    r.append(mm.as_str());
    r.append(":");
    let ss = pad2_text(s);
    r.append(ss.as_str());
    r.append(sep);
    let ff = pad2_text(f);
    r.append(ff.as_str());
    r
}

proof fn lemma_tdiv_bounds(a: int, b: int)
    requires
        b >= 1,
    ensures
        -(if a >= 0 { a } else { -a }) <= tdiv(a, b) <= (if a >= 0 { a } else { -a }),
        a >= 0 ==> 0 <= tdiv(a, b),
        a >= 0 ==> tdiv(a, b) == a / b,
        -b < tmod(a, b) < b,
        a == b * tdiv(a, b) + tmod(a, b),
{
    if a >= 0 {
        assert(0 <= a / b <= a) by (nonlinear_arith) requires a >= 0, b >= 1;
        assert(a == b * (a / b) + a % b) by (nonlinear_arith) requires b >= 1;
    } else {
        assert(0 <= (-a) / b <= -a) by (nonlinear_arith) requires -a >= 0, b >= 1;
        let q = (-a) / b;
        let r = (-a) % b;
        assert(-a == b * q + r) by (nonlinear_arith) requires b >= 1, q == (-a) / b, r == (-a) % b;
        assert(b * (-q) == -(b * q)) by (nonlinear_arith);
    }
}

fn wrap_to_byte(x: i64) -> (r: u8)
    ensures
        r == low_byte(x as int),
{
    assert((x as u8) as int == (x as int) % 256) by (bit_vector);
    x as u8
}

impl Default for Timecode {
    /// 00:00:00:00 at 25 fps.
    fn default() -> (tc: Self)
        ensures
            tc == (Timecode { hours: 0, minutes: 0, seconds: 0, frames: 0, frame_rate: FrameRate::Fps25, user_bits: [0u8, 0u8, 0u8, 0u8] }),
    {
        Self::new(0, 0, 0, 0, FrameRate::Fps25)
    }
}

impl Timecode {
    pub fn new(hours: u8, minutes: u8, seconds: u8, frames: u8, frame_rate: FrameRate) -> (tc: Self)
        ensures
            tc == (Timecode { hours, minutes, seconds, frames, frame_rate, user_bits: [0u8, 0u8, 0u8, 0u8] }),
    {
        Self { hours, minutes, seconds, frames, frame_rate, user_bits: [0u8, 0u8, 0u8, 0u8] }
    }

    pub fn to_total_frames(&self) -> (r: i64)
        ensures
            r == label_frame_count(*self),
    {
        let nominal = self.frame_rate.nominal_fps() as i64;
        let secs = (self.hours as i64 * 3600) + (self.minutes as i64 * 60) + self.seconds as i64;
        assert(secs * nominal <= 1_000_000 * 30) by (nonlinear_arith)
            requires
                0 <= secs <= 1_000_000,
                0 <= nominal <= 30,
        ;
        let mut total = secs * nominal + self.frames as i64;
        if self.frame_rate.is_drop_frame() {
            let drop_frames: i64 = if matches!(self.frame_rate, FrameRate::Fps2997Drop) {
                2
            } else {
                4
            };
            let minutes = self.hours as i64 * 60 + self.minutes as i64;
            total -= drop_frames * (minutes - minutes / 10);
        }
        total
    }

    pub fn from_total_frames(total: i64, frame_rate: FrameRate) -> (tc: Self)
        requires
            i64::MIN <= drop_adjusted_total(total as int, frame_rate) <= i64::MAX,
        ensures
            tc == label_of_frame_count(total as int, frame_rate),
    {
        let mut total = total;
        let nominal = frame_rate.nominal_fps() as i64;
        if frame_rate.is_drop_frame() {
            let drop_frames: i64 = if matches!(frame_rate, FrameRate::Fps2997Drop) {
                2
            } else {
                4
            };
            let frames_per_10min = nominal * 60 * 10;
            let frames_per_min = nominal * 60 - drop_frames;
            let d = total / frames_per_10min;
            let m = total % frames_per_10min;
            proof {
                lemma_tdiv_bounds(total as int, frames_per_10min as int);
                lemma_tdiv_bounds(m - drop_frames, frames_per_min as int);
            }
            if m > drop_frames {
                total += drop_frames * 9 * d + drop_frames * ((m - drop_frames) / frames_per_min);
            } else {
                total += drop_frames * 9 * d;
            }
        }
        let frames = wrap_to_byte(total % nominal);
        let total_sec = total / nominal;
        let seconds = wrap_to_byte(total_sec % 60);
        let total_min = total_sec / 60;
        let minutes = wrap_to_byte(total_min % 60);
        let hours = wrap_to_byte(total_min / 60);
        Self { hours, minutes, seconds, frames, frame_rate, user_bits: [0u8, 0u8, 0u8, 0u8] }
    }

    /// Whether `from_total_frames` can take this count at this rate: the count with the
    /// skipped drop-frame labels added back fits in an `i64`.
    pub fn frame_count_in_range(total: i64, frame_rate: FrameRate) -> (r: bool)
        ensures
            r == (i64::MIN <= drop_adjusted_total(total as int, frame_rate) <= i64::MAX),
    {
        if !frame_rate.is_drop_frame() {
            return true;
        }
        let t = total as i128;
        let dc: i128 = if matches!(frame_rate, FrameRate::Fps2997Drop) {
            2
        } else {
            4
        };
        let frames_per_10min: i128 = 30 * 60 * 10;
        let frames_per_min: i128 = 30 * 60 - dc;
        let d = t / frames_per_10min;
        let m = t % frames_per_10min;
        proof {
            lemma_tdiv_bounds(t as int, frames_per_10min as int);
            lemma_tdiv_bounds(m - dc, frames_per_min as int);
        }
        assert(-36 * 0x8000_0000_0000_0000 <= dc * 9 * d <= 36 * 0x8000_0000_0000_0000) by (nonlinear_arith)
            requires
                2 <= dc <= 4,
                -0x8000_0000_0000_0000 <= d <= 0x8000_0000_0000_0000,
        ;
        let adjusted: i128 = if m > dc {
            let q = (m - dc) / frames_per_min;
            assert(0 <= q <= 18000);
            assert(0 <= dc * q <= 72000) by (nonlinear_arith)
                requires
                    2 <= dc <= 4,
                    0 <= q <= 18000,
            ;
            t + (dc * 9 * d + dc * q)
        } else {
            t + dc * 9 * d
        };
        i64::MIN as i128 <= adjusted && adjusted <= i64::MAX as i128
    }

    pub fn to_string(&self) -> (r: String)
        ensures
            r@ == timecode_text(*self),
    {
        let sep = if self.frame_rate.is_drop_frame() { ";" } else { ":" };
        proof {
            reveal_strlit(";");
            reveal_strlit(":");
        }
        let r = format_label(self.hours, self.minutes, self.seconds, sep, self.frames);
        assert(r@ =~= timecode_text(*self));
        r
    }
}

} // verus!

verus! {

/// A label that names a frame: minutes and seconds below sixty, frames below the
/// nominal rate, and at drop-frame rates none of the labels the rate skips.
pub open spec fn is_valid_label(tc: Timecode) -> bool {
    &&& tc.minutes < 60
    &&& tc.seconds < 60
    &&& (tc.frames as int) < nominal_of(tc.frame_rate)
    &&& is_drop_rate(tc.frame_rate) ==> !(tc.seconds == 0 && (tc.frames as int) < drop_count(
        tc.frame_rate,
    ) && tc.minutes % 10 != 0)
}

proof fn lemma_split(x: int, d: int, q: int, r: int)
    requires
        d > 0,
        0 <= r < d,
        x == q * d + r,
    ensures
        x / d == q,
        x % d == r,
{
    lemma_fundamental_div_mod_converse(x, d, q, r);
}

/// At the non-drop rates, decoding the frame count of a valid label gives back that
/// label (with cleared user bits).
pub proof fn lemma_label_round_trip_non_drop(tc: Timecode)
    requires
        !is_drop_rate(tc.frame_rate),
        is_valid_label(tc),
        tc.user_bits == [0u8, 0u8, 0u8, 0u8],
    ensures
        drop_adjusted_total(label_frame_count(tc), tc.frame_rate) == label_frame_count(tc),
        label_of_frame_count(label_frame_count(tc), tc.frame_rate) == tc,
{
    let n = nominal_of(tc.frame_rate);
    let h = tc.hours as int;
    let m = tc.minutes as int;
    let s = tc.seconds as int;
    let f = tc.frames as int;
    let k = h * 3600 + m * 60 + s;
    let t = label_frame_count(tc);
    assert(t == k * n + f);
    assert(k * n >= 0) by (nonlinear_arith) requires k >= 0, n >= 0;
    lemma_split(t, n, k, f);
    lemma_split(k, 60, h * 60 + m, s);
    lemma_split(h * 60 + m, 60, h, m);
    let r = label_of_frame_count(t, tc.frame_rate);
    assert(r.user_bits =~= tc.user_bits);
}

/// At the non-drop rates, every frame count from zero up to 256 hours is the frame
/// count of the label it decodes to.
pub proof fn lemma_frame_count_round_trip_non_drop(total: int, fr: FrameRate)
    requires
        !is_drop_rate(fr),
        0 <= total < 256 * 3600 * nominal_of(fr),
    ensures
        label_frame_count(label_of_frame_count(total, fr)) == total,
        is_valid_label(label_of_frame_count(total, fr)),
{
    let n = nominal_of(fr);
    let f = total % n;
    let secs = total / n;
    let s = secs % 60;
    let mins = secs / 60;
    let m = mins % 60;
    let h = mins / 60;
    assert(total == n * secs + f && 0 <= f < n) by (nonlinear_arith) requires n > 0, f == total % n, secs == total / n;
    assert(secs == 60 * mins + s && 0 <= s < 60) by (nonlinear_arith) requires mins == secs / 60, s == secs % 60;
    assert(mins == 60 * h + m && 0 <= m < 60) by (nonlinear_arith) requires h == mins / 60, m == mins % 60;
    assert(0 <= secs < 256 * 3600) by (nonlinear_arith) requires 0 <= total < 256 * 3600 * n, n > 0, secs == total / n;
    assert(0 <= h < 256);
    assert(secs * n == n * secs) by (nonlinear_arith);
}

} // verus!

verus! {

/// Frame count of a label when no labels are skipped.
pub open spec fn nominal_label_count(tc: Timecode) -> int {
    ((tc.hours as int * 3600) + (tc.minutes as int * 60) + tc.seconds as int) * nominal_of(
        tc.frame_rate,
    ) + tc.frames as int
}

/// Decoding the frame count of `tc` re-inserts exactly the labels that counting it skipped.
pub open spec fn decode_reinserts_dropped(tc: Timecode) -> bool {
    drop_adjusted_total(label_frame_count(tc), tc.frame_rate) == nominal_label_count(tc)
}

proof fn lemma_decode_nominal(a: int, tc: Timecode)
    requires
        a == nominal_label_count(tc),
        tc.minutes < 60,
        tc.seconds < 60,
        (tc.frames as int) < nominal_of(tc.frame_rate),
        tc.user_bits == [0u8, 0u8, 0u8, 0u8],
    ensures
        ({
            let n = nominal_of(tc.frame_rate);
            let total_sec = tdiv(a, n);
            let total_min = tdiv(total_sec, 60);
            &&& low_byte(tdiv(total_min, 60)) == tc.hours
            &&& low_byte(tmod(total_min, 60)) == tc.minutes
            &&& low_byte(tmod(total_sec, 60)) == tc.seconds
            &&& low_byte(tmod(a, n)) == tc.frames
        }),
{
    let n = nominal_of(tc.frame_rate);
    let h = tc.hours as int;
    let m = tc.minutes as int;
    let s = tc.seconds as int;
    let f = tc.frames as int;
    let k = h * 3600 + m * 60 + s;
    assert(a == k * n + f);
    assert(k * n >= 0) by (nonlinear_arith) requires k >= 0, n >= 0;
    lemma_split(a, n, k, f);
    lemma_split(k, 60, h * 60 + m, s);
    lemma_split(h * 60 + m, 60, h, m);
}

/// At the drop-frame rates, decoding the frame count of a label gives back that label
/// exactly when decoding re-inserts as many skipped labels as counting removed.
#[verifier::spinoff_prover]
#[verifier::rlimit(30)]
pub proof fn lemma_label_round_trip_drop(tc: Timecode)
    requires
        is_drop_rate(tc.frame_rate),
        tc.minutes < 60,
        tc.seconds < 60,
        (tc.frames as int) < nominal_of(tc.frame_rate),
        tc.user_bits == [0u8, 0u8, 0u8, 0u8],
    ensures
        label_of_frame_count(label_frame_count(tc), tc.frame_rate) == tc <==> decode_reinserts_dropped(
            tc,
        ),
{
    let fr = tc.frame_rate;
    let n = nominal_of(fr);
    let dc = drop_count(fr);
    let t = label_frame_count(tc);
    let a = drop_adjusted_total(t, fr);
    let c = nominal_label_count(tc);
    let h = tc.hours as int;
    let mins = h * 60 + tc.minutes as int;
    assert(n == 30);
    assert(0 <= mins <= 15359);
    assert(0 <= mins / 10 <= mins);
    assert(t == c - dc * (mins - mins / 10));
    assert(c >= 1800 * mins) by (nonlinear_arith) requires c == (h * 3600 + tc.minutes as int * 60 + tc.seconds as int) * 30 + tc.frames as int, mins == h * 60 + tc.minutes as int, tc.seconds >= 0, tc.frames >= 0;
    assert(dc * (mins - mins / 10) <= 4 * mins) by (nonlinear_arith) requires 0 <= dc <= 4, 0 <= mins / 10 <= mins;
    assert(dc * (mins - mins / 10) >= 0) by (nonlinear_arith) requires 0 <= dc <= 4, 0 <= mins / 10 <= mins;
    assert(t >= 0);
    assert(c <= 256 * 108000);
    // bounds on what decoding adds back
    let d = tdiv(t, 18000);
    let md = tmod(t, 18000);
    lemma_tdiv_bounds(t, 18000);
    assert(d == t / 18000 && md == t % 18000);
    assert(0 <= d <= 1536);
    if md > dc {
        let g = (md - dc) / (1800 - dc);
        assert(0 <= g <= 10) by (nonlinear_arith) requires 0 <= md - dc < 18000, 1796 <= 1800 - dc, g == (md - dc) / (1800 - dc);
        assert(a == t + (dc * 9 * d + dc * g));
        assert(0 <= dc * 9 * d + dc * g <= 4 * 9 * 1536 + 40) by (nonlinear_arith) requires 0 <= dc <= 4, 0 <= d <= 1536, 0 <= g <= 10;
    } else {
        assert(a == t + dc * 9 * d);
        assert(0 <= dc * 9 * d <= 4 * 9 * 1536) by (nonlinear_arith) requires 0 <= dc <= 4, 0 <= d <= 1536;
    }
    assert(t <= a <= t + 4 * 9 * 1536 + 40);
    assert(c - 4 * 15359 <= a <= c + 4 * 9 * 1536 + 40);
    let r = label_of_frame_count(t, fr);
    if a == c {
        lemma_decode_nominal(a, tc);
        assert(r.user_bits =~= tc.user_bits);
    }
    if r == tc {
        // decode the label fields back into a frame count
        let total_sec = tdiv(a, n);
        let total_min = tdiv(total_sec, 60);
        let hr = tdiv(total_min, 60);
        lemma_tdiv_bounds(a, n);
        lemma_tdiv_bounds(total_sec, 60);
        lemma_tdiv_bounds(total_min, 60);
        assert(a == 30 * total_sec + tc.frames as int);
        assert(total_sec == 60 * total_min + tc.seconds as int);
        assert(total_min == 60 * hr + tc.minutes as int);
        assert(hr % 256 == h);
        assert(a == 108000 * hr + 1800 * tc.minutes as int + 30 * tc.seconds as int + tc.frames as int);
        assert(c == 108000 * h + 1800 * tc.minutes as int + 30 * tc.seconds as int + tc.frames as int);
        let k = hr / 256;
        assert(hr == 256 * k + h) by (nonlinear_arith) requires hr % 256 == h, k == hr / 256, hr >= 0;
        assert(a - c == 27648000 * k);
        assert(k == 0);
    }
}

/// Within the first ten minutes, decoding re-inserts exactly the skipped labels of
/// every label that names a frame.
pub proof fn lemma_drop_round_trip_first_ten_minutes(tc: Timecode)
    requires
        is_drop_rate(tc.frame_rate),
        is_valid_label(tc),
        tc.hours == 0,
        tc.minutes < 10,
    ensures
        decode_reinserts_dropped(tc),
{
    let fr = tc.frame_rate;
    let dc = drop_count(fr);
    let m = tc.minutes as int;
    let q = tc.seconds as int * 30 + tc.frames as int;
    let t = label_frame_count(tc);
    let fpm = 1800 - dc;
    assert(m / 10 == 0);
    assert(m * fpm == 1800 * m - dc * m) by (nonlinear_arith) requires fpm == 1800 - dc;
    assert(t == m * fpm + q);
    assert(0 <= t < 18000);
    lemma_tdiv_bounds(t, 18000);
    lemma_split(t, 18000, 0, t);
    if m == 0 {
        if t > dc {
            lemma_split(t - dc, fpm, 0, t - dc);
        }
    } else {
        assert(q >= dc);
        lemma_split(t - dc, fpm, m, q - dc);
    }
}

/// At a drop-frame rate every whole hour of labels spans the same number of frames: the
/// label an hour later counts `3600 * nominal - 54 * drop_count` more frames (107892 at
/// 29.97 drop-frame), as 54 of the hour's 60 minutes each skip `drop_count` labels,
/// wherever in the day the hour starts.
pub proof fn lemma_drop_frame_hour_span(tc: Timecode)
    requires
        is_drop_rate(tc.frame_rate),
        tc.hours < 255,
    ensures
        label_frame_count(Timecode { hours: (tc.hours + 1) as u8, ..tc }) - label_frame_count(tc)
            == 3600 * nominal_of(tc.frame_rate) - 54 * drop_count(tc.frame_rate),
{
    let m = tc.hours as int * 60 + tc.minutes as int;
    assert((m + 60) / 10 == m / 10 + 6);
}

/// At a drop-frame rate the label `h:00:00;00` counts `h` hours of frames:
/// `h * (3600 * nominal - 54 * drop_count)`, so 01:00:00;00 at 29.97 drop-frame counts
/// 107892 frames.
pub proof fn lemma_drop_frame_whole_hours(tc: Timecode)
    requires
        is_drop_rate(tc.frame_rate),
        tc.minutes == 0,
        tc.seconds == 0,
        tc.frames == 0,
    ensures
        label_frame_count(tc) == tc.hours as int * (3600 * nominal_of(tc.frame_rate) - 54 * drop_count(
            tc.frame_rate,
        )),
{
    let h = tc.hours as int;
    let n = nominal_of(tc.frame_rate);
    let dc = drop_count(tc.frame_rate);
    assert((h * 60) / 10 == h * 6);
    assert((h * 3600) * n - dc * (h * 60 - h * 6) == h * (3600 * n - 54 * dc)) by (nonlinear_arith);
}

/// Within an hour at a drop-frame rate, the label one minute on counts `60 * nominal`
/// frames more when it starts a tenth minute, and `60 * nominal - drop_count` more when it
/// starts any other minute (whose first `drop_count` labels are skipped).
pub proof fn lemma_drop_frame_minute_step(tc: Timecode)
    requires
        is_drop_rate(tc.frame_rate),
        tc.minutes < 59,
    ensures
        label_frame_count(Timecode { minutes: (tc.minutes + 1) as u8, ..tc }) - label_frame_count(tc)
            == 60 * nominal_of(tc.frame_rate) - (if (tc.hours as int * 60 + tc.minutes as int + 1) % 10
            == 0 {
            0
        } else {
            drop_count(tc.frame_rate)
        }),
{
    let m = tc.hours as int * 60 + tc.minutes as int;
    let n = nominal_of(tc.frame_rate);
    let b = tc.hours as int * 3600 + tc.minutes as int * 60 + tc.seconds as int;
    assert((b + 60) * n == b * n + 60 * n) by (nonlinear_arith);
    let t2 = Timecode { minutes: (tc.minutes + 1) as u8, ..tc };
    let dc = drop_count(tc.frame_rate);
    assert(t2.minutes as int == tc.minutes as int + 1);
    assert(t2.hours as int * 3600 + t2.minutes as int * 60 + t2.seconds as int == b + 60);
    assert(label_frame_count(tc) == b * n + tc.frames as int - dc * (m - m / 10));
    assert(label_frame_count(t2) == (b + 60) * n + tc.frames as int - dc * ((m + 1) - (m + 1) / 10));
    if (m + 1) % 10 == 0 {
        assert((m + 1) / 10 == m / 10 + 1);
    } else {
        assert((m + 1) / 10 == m / 10);
    }
}

/// At a rate that skips no labels, the frame count of `h:m:s:f` is the number of frames
/// from 00:00:00:00 at the nominal rate.
pub proof fn lemma_non_drop_frame_count(tc: Timecode)
    requires
        !is_drop_rate(tc.frame_rate),
    ensures
        label_frame_count(tc) == ((tc.hours as int * 60 + tc.minutes as int) * 60 + tc.seconds as int)
            * nominal_of(tc.frame_rate) + tc.frames as int,
{
    let n = nominal_of(tc.frame_rate);
    assert(((tc.hours as int * 3600) + (tc.minutes as int * 60) + tc.seconds as int) * n == ((tc.hours as int
        * 60 + tc.minutes as int) * 60 + tc.seconds as int) * n);
}

/// One hour of labels at each rate: 86400 frames at 24 fps, 90000 at 25, 108000 at the
/// non-drop 29.97 and 30 rates, 107892 at 29.97 drop-frame (two labels skipped in 54
/// minutes) and 107784 at 30 drop-frame (four skipped).
pub proof fn lemma_one_hour_of_frames(tc: Timecode)
    requires
        tc.hours == 1,
        tc.minutes == 0,
        tc.seconds == 0,
        tc.frames == 0,
    ensures
        tc.frame_rate == FrameRate::Fps24 ==> label_frame_count(tc) == 86400,
        tc.frame_rate == FrameRate::Fps25 ==> label_frame_count(tc) == 90000,
        tc.frame_rate == FrameRate::Fps2997NonDrop ==> label_frame_count(tc) == 108000,
        tc.frame_rate == FrameRate::Fps30NonDrop ==> label_frame_count(tc) == 108000,
        tc.frame_rate == FrameRate::Fps2997Drop ==> label_frame_count(tc) == 107892,
        tc.frame_rate == FrameRate::Fps30Drop ==> label_frame_count(tc) == 107784,
{
}

} // verus!
