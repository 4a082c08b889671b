//! The capture loop: which way the screen is captured, when a frame is sent, and when it has to
//! be a key frame.
//!
//! Capture starts with desktop duplication, tried three times, and falls back to copies through
//! GDI. Five failures of desktop duplication in a row tear it down; it is then set up anew, or
//! tried again every thirty seconds.

use crate::agent::services::capture_dxgi::DirtyRect;
use crate::agent::services::yuv;
use crate::jpeg_frame;
use crate::outside::jpeg;
use crate::text;
use vstd::prelude::*;

verus! {

/// The frames sent in a second, at most.
pub const TARGET_FPS: u64 = 60;

/// The time between two frames, in nanoseconds.
pub const FRAME_INTERVAL_NANOS: u64 = 16_666_000;

/// The quality of JPEG frames, of 100.
pub const JPEG_QUALITY: u8 = 80;

/// The bit rate of VP9 where none is set.
pub const BITRATE_KBPS_DEFAULT: u32 = 8000;

/// The failures in a row after which desktop duplication is set up anew.
pub const DXGI_FAIL_THRESHOLD: u32 = 5;

/// The time between two attempts to leave GDI mode, in nanoseconds.
pub const DXGI_RETRY_NANOS: u64 = 30_000_000_000;

/// The attempts to start with desktop duplication.
pub const DXGI_START_ATTEMPTS: u8 = 3;

/// The pause after a failed attempt to start, in milliseconds.
pub const START_PAUSE_MILLIS: u64 = 200;

/// The pause after a failed capture through desktop duplication, in milliseconds.
pub const DXGI_PAUSE_MILLIS: u64 = 100;

/// The pause after a failed capture through GDI, in milliseconds.
pub const GDI_PAUSE_MILLIS: u64 = 200;

/// The pause between tearing desktop duplication down and setting it up anew, in milliseconds.
pub const RESET_PAUSE_MILLIS: u64 = 500;

/// How a frame is encoded.
#[derive(Clone, Copy, Debug, PartialEq, Eq, Structural)]
pub enum Codec {
    Jpeg,
    Vp9,
}

impl Codec {
    /// The number of the codec on the wire.
    pub open spec fn number(self) -> u8 {
        match self {
            Codec::Jpeg => 0,
            Codec::Vp9 => 1,
        }
    }

    /// Gives the number of the codec on the wire.
    pub fn code(self) -> (n: u8)
        ensures
            n == self.number(),
    {
        match self {
            Codec::Jpeg => 0,
            Codec::Vp9 => 1,
        }
    }
}

/// An encoded frame.
#[derive(Debug)]
pub struct VideoFrame {
    pub data: Vec<u8>,
    pub width: u32,
    pub height: u32,
    pub fps: u8,
    pub codec: Codec,
    pub is_key: bool,
}

impl VideoFrame {
    /// Makes a frame of the loop's frame rate.
    pub fn new(data: Vec<u8>, width: u32, height: u32, codec: Codec, is_key: bool) -> (f: VideoFrame)
        ensures
            f.data == data,
            f.width == width,
            f.height == height,
            f.fps == TARGET_FPS,
            f.codec == codec,
            f.is_key == is_key,
    {
        VideoFrame { data, width, height, fps: 60, codec, is_key }
    }
}

/// The start value of the FNV-1a hash.
pub const FNV_OFFSET: u64 = 0xcbf29ce484222325;

/// The multiplier of the FNV-1a hash.
pub const FNV_PRIME: u64 = 0x100000001b3;

/// One step of the FNV-1a hash.
pub open spec fn fnv_step(h: u64, b: u8) -> u64 {
    (((h ^ (b as u64)) * FNV_PRIME) % 0x1_0000_0000_0000_0000) as u64
}

/// The FNV-1a hash of the first `n` of every 256th byte.
pub open spec fn fnv_of(data: Seq<u8>, n: nat) -> u64
    decreases n,
{
    if n == 0 {
        FNV_OFFSET
    } else {
        fnv_step(fnv_of(data, (n - 1) as nat), data[256 * (n - 1)])
    }
}

/// The FNV-1a hash of every 256th byte, beginning with the first.
pub open spec fn sampled_hash(data: Seq<u8>) -> u64 {
    fnv_of(data, ((data.len() + 255) / 256) as nat)
}

/// Hashes every 256th byte, to tell whether a picture changed.
pub fn fnv_sample(data: &[u8]) -> (h: u64)
    ensures
        h == sampled_hash(data@),
{
    let mut h: u64 = FNV_OFFSET;
    let len: usize = data.len();
    let count: usize = len / 256 + (if len % 256 == 0 {
        0
    } else {
        1
    });
    let mut n: usize = 0;
    while n < count
        invariant
            n <= count,
            len == data.len(),
            count == (len + 255) / 256,
            h == fnv_of(data@, n as nat),
        decreases count - n,
    {
        let b: u8 = data[256 * n];
        h = (h ^ (b as u64)).wrapping_mul(FNV_PRIME);
        n = n + 1;
    }
    h
}

/// The number that undoes the multiplication by the FNV prime.
pub const FNV_INVERSE: u64 = 0xce965057aff6957b;

proof fn lemma_prime_undone(a: u64)
    ensures
        (((a * FNV_PRIME) % 0x1_0000_0000_0000_0000) * FNV_INVERSE) % 0x1_0000_0000_0000_0000 == a,
{
    let m = 0x1_0000_0000_0000_0000int;
    let (x, p, q) = (a as int, FNV_PRIME as int, FNV_INVERSE as int);
    vstd::arithmetic::div_mod::lemma_mul_mod_noop_left(x * p, q, m);
    assert(x * p * q == x * (p * q)) by (nonlinear_arith);
    vstd::arithmetic::div_mod::lemma_mul_mod_noop_right(x, p * q, m);
    assert((p * q) % m == 1);
    assert(x % m == x);
}

/// A step of the hash tells states apart, and bytes.
proof fn lemma_step_tells_apart(g: u64, h: u64, a: u8, b: u8)
    ensures
        fnv_step(g, a) == fnv_step(h, a) ==> g == h,
        fnv_step(g, a) == fnv_step(g, b) ==> a == b,
{
    lemma_prime_undone(g ^ (a as u64));
    lemma_prime_undone(h ^ (a as u64));
    lemma_prime_undone(g ^ (b as u64));
    let (x, y) = (a as u64, b as u64);
    assert(g ^ x == h ^ x ==> g == h) by (bit_vector);
    assert(g ^ x == g ^ y ==> x == y) by (bit_vector);
}

proof fn lemma_one_difference(a: Seq<u8>, b: Seq<u8>, n: nat, i: int)
    requires
        0 <= i,
        n <= (a.len() + 255) / 256,
        a[256 * i] != b[256 * i],
        forall|k: int| 0 <= k < a.len() && k % 256 == 0 && k != 256 * i ==> #[trigger] a[k] == b[k],
    ensures
        i < n ==> fnv_of(a, n) != fnv_of(b, n),
        n <= i ==> fnv_of(a, n) == fnv_of(b, n),
    decreases n,
{
    if n > 0 {
        let m = (n - 1) as nat;
        let k = 256 * (n - 1);
        lemma_one_difference(a, b, m, i);
        assert(k % 256 == 0);
        assert(m != i ==> a[k] == b[k]);
        lemma_step_tells_apart(fnv_of(a, m), fnv_of(b, m), a[k], b[k]);
    }
}

/// Why a picture was not encoded.
#[derive(Clone, Copy, Debug, PartialEq, Eq, Structural)]
pub enum EncodeError {
    /// There are fewer pixels than the size says, or more bytes in a row than can be counted.
    TooFewPixels,
    /// JPEG has no picture of that size.
    NotEncoded,
}

/// The colours of a BGRA picture: three bytes a pixel, red, green and blue. Bytes that make no
/// whole pixel are left out.
pub open spec fn rgb_of(bgra: Seq<u8>) -> Seq<u8> {
    Seq::new((3 * (bgra.len() / 4)) as nat, |k: int| bgra[4 * (k / 3) + 2 - k % 3])
}

fn to_rgb(bgra: &[u8]) -> (rgb: Vec<u8>)
    ensures
        rgb@ == rgb_of(bgra@),
{
    let mut rgb: Vec<u8> = Vec::new();
    let count: usize = bgra.len() / 4;
    let mut p: usize = 0;
    while p < count
        invariant
            p <= count,
            count == bgra.len() / 4,
            rgb@ == Seq::new((3 * p) as nat, |k: int| bgra@[4 * (k / 3) + 2 - k % 3]),
        decreases count - p,
    {
        rgb.push(bgra[4 * p + 2]);
        rgb.push(bgra[4 * p + 1]);
        rgb.push(bgra[4 * p]);
        p = p + 1;
        assert(rgb@ =~= Seq::new((3 * p) as nat, |k: int| bgra@[4 * (k / 3) + 2 - k % 3]));
    }
    rgb
}

/// Encodes a BGRA picture as JPEG.
pub fn encode_jpeg(bgra: &[u8], w: u32, h: u32) -> (r: Result<Vec<u8>, EncodeError>)
    ensures
        match r {
            Ok(file) => {
                &&& w * h <= bgra@.len() / 4
                &&& jpeg::jpeg_sized(w, h)
                &&& file@ == jpeg::jpeg_file(rgb_of(bgra@), w, h, JPEG_QUALITY)
                &&& jpeg_frame::is_plain(
                    file@,
                    w as int,
                    h as int,
                    jpeg::first_quantiser(16, JPEG_QUALITY),
                    jpeg::first_quantiser(17, JPEG_QUALITY),
                )
            },
            Err(EncodeError::TooFewPixels) => w * h > bgra@.len() / 4 || 3 * w > usize::MAX,
            Err(EncodeError::NotEncoded) => {
                &&& w * h <= bgra@.len() / 4
                &&& 3 * w <= usize::MAX
                &&& !jpeg::jpeg_sized(w, h)
            },
        },
{
    let rgb: Vec<u8> = to_rgb(bgra);
    match jpeg::encode_rgb(rgb, w, h, JPEG_QUALITY) {
        None => Err(EncodeError::TooFewPixels),
        Some(Err(_)) => Err(EncodeError::NotEncoded),
        Some(Ok(file)) => Ok(file),
    }
}

/// What became of a captured picture before VP9 has seen it.
#[derive(Debug)]
pub enum Prepared {
    /// The I420 buffer holds the picture; VP9 encodes it.
    ForVp9,
    /// The picture is encoded.
    Encoded(Vec<u8>, Codec, bool),
    /// There is nothing to send.
    Nothing,
}

/// The frame that is sent where there is no VP9 encoder: a key frame, unless JPEG fails.
pub open spec fn jpeg_fallback(p: Prepared, bgra: Seq<u8>, w: u32, h: u32) -> bool {
    if w * h <= bgra.len() / 4 && jpeg::jpeg_sized(w, h) {
        p matches Prepared::Encoded(data, codec, is_key) && data@ == jpeg::jpeg_file(
            rgb_of(bgra),
            w,
            h,
            JPEG_QUALITY,
        ) && codec == Codec::Jpeg && is_key
    } else {
        p is Nothing
    }
}

fn fall_back(bgra: &[u8], w: u32, h: u32) -> (p: Prepared)
    ensures
        jpeg_fallback(p, bgra@, w, h),
{
    match encode_jpeg(bgra, w, h) {
        Ok(data) => Prepared::Encoded(data, Codec::Jpeg, true),
        Err(_) => Prepared::Nothing,
    }
}

/// The picture can be turned into I420.
pub open spec fn convertible(bgra: Seq<u8>, w: u32, h: u32) -> bool {
    yuv::even_size(w as int, h as int) && 4 * (w * h) <= bgra.len()
}

/// Tells whether the picture can be turned into I420.
pub fn is_convertible(bgra: &[u8], w: u32, h: u32) -> (b: bool)
    ensures
        b == convertible(bgra@, w, h),
{
    assert(0 <= w * h <= 0xFFFF_FFFF * 0xFFFF_FFFF) by (nonlinear_arith)
        requires
            0 <= w <= 0xFFFF_FFFF,
            0 <= h <= 0xFFFF_FFFF,
    ;
    (w == 0 || h == 0 || (w % 2 == 0 && h % 2 == 0)) && w as u64 * h as u64 <= bgra.len() as u64 / 4
}

/// Prepares a picture from desktop duplication: for VP9 the I420 buffer is brought up to date,
/// whole or in the changed regions; without VP9 the picture is encoded as JPEG.
pub fn encode_frame_dxgi(
    bgra: &[u8],
    is_full_frame: bool,
    dirty_rects: &[DirtyRect],
    w: u32,
    h: u32,
    i420_buf: &mut Vec<u8>,
    has_vp9: bool,
) -> (p: Prepared)
    requires
        has_vp9 ==> convertible(bgra@, w, h),
    ensures
        has_vp9 ==> p is ForVp9 && final(i420_buf)@ == (if is_full_frame {
            yuv::i420_picture(bgra@, w as int, h as int)
        } else {
            yuv::i420_update(bgra@, w as int, h as int, old(i420_buf)@, dirty_rects@)
        }),
        !has_vp9 ==> jpeg_fallback(p, bgra@, w, h) && final(i420_buf)@ == old(i420_buf)@,
{
    if has_vp9 {
        if is_full_frame {
            yuv::bgra_to_i420(bgra, w as usize, h as usize, i420_buf);
        } else {
            yuv::bgra_to_i420_rects(bgra, w as usize, h as usize, i420_buf, dirty_rects);
        }
        Prepared::ForVp9
    } else {
        fall_back(bgra, w, h)
    }
}

/// Prepares a picture from GDI: for VP9 the I420 buffer is made anew; without VP9 the picture is
/// encoded as JPEG.
pub fn encode_frame_gdi(bgra: &[u8], w: u32, h: u32, i420_buf: &mut Vec<u8>, has_vp9: bool) -> (p:
    Prepared)
    requires
        has_vp9 ==> convertible(bgra@, w, h),
    ensures
        has_vp9 ==> p is ForVp9 && final(i420_buf)@ == yuv::i420_picture(
            bgra@,
            w as int,
            h as int,
        ),
        !has_vp9 ==> jpeg_fallback(p, bgra@, w, h) && final(i420_buf)@ == old(i420_buf)@,
{
    if has_vp9 {
        yuv::bgra_to_i420(bgra, w as usize, h as usize, i420_buf);
        Prepared::ForVp9
    } else {
        fall_back(bgra, w, h)
    }
}

/// The bit rate of VP9: the setting, where it is a number, or the default.
pub fn bitrate_kbps(setting: Option<&str>) -> (n: u32)
    ensures
        n == match setting {
            Some(s) => match text::parsed_unsigned(s@, u32::MAX as nat) {
                Some(v) => v,
                None => BITRATE_KBPS_DEFAULT as nat,
            },
            None => BITRATE_KBPS_DEFAULT as nat,
        },
{
    match setting {
        Some(s) => {
            let v: Vec<char> = text::chars_of(s);
            match text::parse_unsigned(&v, u32::MAX as u64) {
                Some(n) => n as u32,
                None => BITRATE_KBPS_DEFAULT,
            }
        },
        None => BITRATE_KBPS_DEFAULT,
    }
}

/// How the screen is captured.
#[derive(Clone, Copy, Debug, PartialEq, Eq, Structural)]
pub enum CaptureMode {
    Dxgi,
    Gdi,
}

/// What follows an attempt to start with desktop duplication.
#[derive(Clone, Copy, Debug, PartialEq, Eq, Structural)]
pub enum Startup {
    /// Capture starts in this mode.
    Start(CaptureMode),
    /// Another attempt follows after a pause of so many milliseconds.
    TryAgain(u64),
}

/// What follows attempt number `attempt` to start with desktop duplication.
pub fn after_attempt(attempt: u8, opened: bool) -> (s: Startup)
    ensures
        s == (if opened {
            Startup::Start(CaptureMode::Dxgi)
        } else if attempt < DXGI_START_ATTEMPTS {
            Startup::TryAgain(START_PAUSE_MILLIS)
        } else {
            Startup::Start(CaptureMode::Gdi)
        }),
{
    if opened {
        Startup::Start(CaptureMode::Dxgi)
    } else if attempt < DXGI_START_ATTEMPTS {
        Startup::TryAgain(START_PAUSE_MILLIS)
    } else {
        Startup::Start(CaptureMode::Gdi)
    }
}

/// How long to wait for the next round, in nanoseconds: for the rest of the frame interval, where
/// `elapsed` of it have passed.
pub fn pace(elapsed: u64) -> (wait: u64)
    ensures
        wait == if elapsed < FRAME_INTERVAL_NANOS {
            FRAME_INTERVAL_NANOS - elapsed
        } else {
            0
        },
{
    if elapsed < FRAME_INTERVAL_NANOS {
        FRAME_INTERVAL_NANOS - elapsed
    } else {
        0
    }
}

/// What a round of the capture loop begins with.
#[derive(Clone, Copy, Debug, PartialEq, Eq, Structural)]
pub enum Round {
    /// An attempt to return to desktop duplication.
    TryDxgi,
    /// A capture, whose frame has to be a key frame or not.
    Capture { force_key: bool },
}

/// What became of a frame that was handed on.
#[derive(Clone, Copy, Debug, PartialEq, Eq, Structural)]
pub enum Handover {
    Taken,
    /// The queue was full, and the frame is lost.
    QueueFull,
    /// Nobody takes frames any more.
    Closed,
}

/// The state of the capture loop.
#[derive(Clone, Copy, Debug, PartialEq, Eq, Structural)]
pub struct CaptureLoop {
    pub mode: CaptureMode,
    /// The hash of the picture that was last looked at.
    pub last_hash: u64,
    /// The frames that were handed on.
    pub frames: u64,
    /// The frames in a row that were lost because the queue was full.
    pub drop_count: u32,
    /// The next captured frame has to be a key frame.
    pub force_keyframe: bool,
    /// The failures of desktop duplication in a row.
    pub fail_streak: u32,
    /// When a return to desktop duplication was last tried, in nanoseconds.
    pub last_retry: u64,
}

impl CaptureLoop {
    /// Failures are counted up to the one that tears desktop duplication down, and in GDI mode
    /// there are none.
    pub open spec fn wf(self) -> bool {
        &&& self.fail_streak < DXGI_FAIL_THRESHOLD
        &&& self.mode == CaptureMode::Gdi ==> self.fail_streak == 0
    }

    /// The state at the start.
    pub open spec fn started(mode: CaptureMode, now: u64) -> CaptureLoop {
        CaptureLoop {
            mode,
            last_hash: 0,
            frames: 0,
            drop_count: 0,
            force_keyframe: false,
            fail_streak: 0,
            last_retry: now,
        }
    }

    /// It is time to try desktop duplication again.
    pub open spec fn retry_due(self, now: u64) -> bool {
        self.mode == CaptureMode::Gdi && now - self.last_retry >= DXGI_RETRY_NANOS
    }

    /// The next captured frame is a key frame: where one is asked for, and every ten seconds'
    /// worth of frames.
    pub open spec fn key_due(self) -> bool {
        self.force_keyframe || self.frames % 600 == 0
    }

    /// The state once a capture has begun.
    pub open spec fn capturing(self) -> CaptureLoop {
        CaptureLoop { force_keyframe: false, ..self }
    }

    /// The state back in desktop duplication.
    pub open spec fn returned(self) -> CaptureLoop {
        CaptureLoop {
            mode: CaptureMode::Dxgi,
            fail_streak: 0,
            force_keyframe: true,
            ..self
        }
    }

    /// The state after a capture through desktop duplication failed.
    pub open spec fn failed_once(self) -> CaptureLoop {
        CaptureLoop {
            fail_streak: if self.fail_streak + 1 >= DXGI_FAIL_THRESHOLD {
                0
            } else {
                (self.fail_streak + 1) as u32
            },
            ..self
        }
    }

    /// The failure is the one that tears desktop duplication down.
    pub open spec fn tears_down(self) -> bool {
        self.fail_streak + 1 >= DXGI_FAIL_THRESHOLD
    }

    /// The state after desktop duplication was torn down and, where `opened` says so, set up anew.
    pub open spec fn set_up_anew(self, opened: bool, now: u64) -> CaptureLoop {
        CaptureLoop {
            mode: if opened {
                CaptureMode::Dxgi
            } else {
                CaptureMode::Gdi
            },
            last_retry: if opened {
                self.last_retry
            } else {
                now
            },
            force_keyframe: true,
            ..self
        }
    }

    /// The state after a frame was handed on.
    pub open spec fn handed(self, outcome: Handover) -> CaptureLoop {
        match outcome {
            Handover::Taken => CaptureLoop {
                drop_count: 0,
                frames: (self.frames + 1) as u64,
                ..self
            },
            Handover::QueueFull => CaptureLoop {
                drop_count: (self.drop_count + 1) as u32,
                force_keyframe: true,
                frames: (self.frames + 1) as u64,
                ..self
            },
            Handover::Closed => self,
        }
    }

    /// The state after a picture from desktop duplication was looked at. Only the hash of a whole
    /// picture whose changes the system named is kept.
    pub open spec fn seen_dxgi(self, bgra: Seq<u8>, full: bool, named: bool) -> CaptureLoop {
        CaptureLoop {
            fail_streak: 0,
            last_hash: if full && named {
                sampled_hash(bgra)
            } else {
                self.last_hash
            },
            ..self
        }
    }

    /// The picture from desktop duplication is not encoded: it looks as the last one did, and no
    /// key frame is due.
    pub open spec fn skips_dxgi(self, bgra: Seq<u8>, full: bool, named: bool, force_key: bool) -> bool {
        full && named && sampled_hash(bgra) == self.last_hash && !force_key
    }

    /// The picture from GDI is not encoded: it looks as the last one did, and no key frame is due.
    pub open spec fn skips_gdi(self, bgra: Seq<u8>, force_key: bool) -> bool {
        sampled_hash(bgra) == self.last_hash && !force_key
    }

    /// The state after a picture from GDI was looked at.
    pub open spec fn seen_gdi(self, bgra: Seq<u8>) -> CaptureLoop {
        CaptureLoop { last_hash: sampled_hash(bgra), ..self }
    }

    /// Starts the loop in a mode.
    pub fn new(mode: CaptureMode, now: u64) -> (s: CaptureLoop)
        ensures
            s == CaptureLoop::started(mode, now),
            s.wf(),
    {
        CaptureLoop {
            mode,
            last_hash: 0,
            frames: 0,
            drop_count: 0,
            force_keyframe: false,
            fail_streak: 0,
            last_retry: now,
        }
    }

    fn start_capture(&mut self) -> (force_key: bool)
        ensures
            force_key == old(self).key_due(),
            *final(self) == old(self).capturing(),
    {
        let force_key: bool = self.force_keyframe || self.frames % (TARGET_FPS * 10) == 0;
        self.force_keyframe = false;
        force_key
    }

    /// Begins a round: with an attempt to return to desktop duplication where one is due, else
    /// with a capture.
    pub fn begin_round(&mut self, now: u64) -> (r: Round)
        requires
            old(self).wf(),
        ensures
            final(self).wf(),
            old(self).retry_due(now) ==> r == Round::TryDxgi && *final(self) == (CaptureLoop {
                last_retry: now,
                ..*old(self)
            }),
            !old(self).retry_due(now) ==> r == (Round::Capture { force_key: old(self).key_due() })
                && *final(self) == old(self).capturing(),
    {
        if self.mode == CaptureMode::Gdi && now >= self.last_retry && now - self.last_retry
            >= DXGI_RETRY_NANOS {
            self.last_retry = now;
            Round::TryDxgi
        } else {
            let force_key: bool = self.start_capture();
            Round::Capture { force_key }
        }
    }

    /// Takes the outcome of the attempt to return to desktop duplication. Where it failed, the
    /// capture of this round follows, whose frame has to be a key frame or not.
    pub fn dxgi_tried(&mut self, opened: bool) -> (r: Option<bool>)
        requires
            old(self).wf(),
        ensures
            final(self).wf(),
            opened ==> r is None && *final(self) == old(self).returned(),
            !opened ==> r == Some(old(self).key_due()) && *final(self) == old(self).capturing(),
    {
        if opened {
            self.mode = CaptureMode::Dxgi;
            self.fail_streak = 0;
            self.force_keyframe = true;
            None
        } else {
            let force_key: bool = self.start_capture();
            Some(force_key)
        }
    }

    /// Takes a picture from desktop duplication and tells whether to encode it.
    pub fn dxgi_frame(&mut self, bgra: &[u8], full: bool, named: bool, force_key: bool) -> (encode:
        bool)
        requires
            old(self).wf(),
        ensures
            final(self).wf(),
            encode == !old(self).skips_dxgi(bgra@, full, named, force_key),
            *final(self) == old(self).seen_dxgi(bgra@, full, named),
    {
        self.fail_streak = 0;
        if full && named {
            let hash: u64 = fnv_sample(bgra);
            let same: bool = hash == self.last_hash;
            self.last_hash = hash;
            !(same && !force_key)
        } else {
            true
        }
    }

    /// Takes note that nothing changed on the screen.
    pub fn dxgi_unchanged(&mut self)
        requires
            old(self).wf(),
        ensures
            final(self).wf(),
            *final(self) == (CaptureLoop { fail_streak: 0, ..*old(self) }),
    {
        self.fail_streak = 0;
    }

    /// Takes note that a capture through desktop duplication failed, and tells whether to tear it
    /// down after the pause.
    pub fn dxgi_failed(&mut self) -> (reset: bool)
        requires
            old(self).wf(),
            old(self).mode == CaptureMode::Dxgi,
        ensures
            final(self).wf(),
            reset == old(self).tears_down(),
            *final(self) == old(self).failed_once(),
    {
        self.fail_streak = self.fail_streak + 1;
        if self.fail_streak >= DXGI_FAIL_THRESHOLD {
            self.fail_streak = 0;
            true
        } else {
            false
        }
    }

    /// Takes a picture from GDI and tells whether to encode it.
    pub fn gdi_frame(&mut self, bgra: &[u8], force_key: bool) -> (encode: bool)
        requires
            old(self).wf(),
        ensures
            final(self).wf(),
            encode == !old(self).skips_gdi(bgra@, force_key),
            *final(self) == old(self).seen_gdi(bgra@),
    {
        let hash: u64 = fnv_sample(bgra);
        if hash == self.last_hash && !force_key {
            false
        } else {
            self.last_hash = hash;
            true
        }
    }

    /// Goes on after desktop duplication was torn down: in desktop duplication where it was set up
    /// anew, else in GDI mode. The next frame is a key frame.
    pub fn reset_done(&mut self, opened: bool, now: u64)
        requires
            old(self).wf(),
            old(self).fail_streak == 0,
        ensures
            final(self).wf(),
            *final(self) == old(self).set_up_anew(opened, now),
    {
        if opened {
            self.mode = CaptureMode::Dxgi;
        } else {
            self.mode = CaptureMode::Gdi;
            self.last_retry = now;
        }
        self.force_keyframe = true;
    }

    /// Takes note of what became of a frame, and tells whether the loop goes on.
    pub fn handed_over(&mut self, outcome: Handover) -> (go_on: bool)
        requires
            old(self).wf(),
            outcome != Handover::Closed ==> old(self).frames < u64::MAX,
            outcome == Handover::QueueFull ==> old(self).drop_count < u32::MAX,
        ensures
            final(self).wf(),
            go_on == (outcome != Handover::Closed),
            *final(self) == old(self).handed(outcome),
    {
        match outcome {
            Handover::Taken => {
                self.drop_count = 0;
            },
            Handover::QueueFull => {
                self.drop_count = self.drop_count + 1;
                self.force_keyframe = true;
            },
            Handover::Closed => {
                return false;
            },
        }
        self.frames = self.frames + 1;
        true
    }
}

/// A lost frame is made good by a key frame: once the queue was full, the next capture asks for
/// one, whether or not a return to desktop duplication is tried before.
pub proof fn loss_is_followed_by_key_frame(s: CaptureLoop)
    ensures
        s.handed(Handover::QueueFull).key_due(),
        s.handed(Handover::QueueFull).returned().key_due(),
{
}

/// A change of the way of capture is followed by a key frame.
pub proof fn change_of_mode_is_followed_by_key_frame(s: CaptureLoop, opened: bool, now: u64)
    ensures
        s.returned().key_due(),
        s.set_up_anew(opened, now).key_due(),
{
}

/// The first frame of a loop is a key frame.
pub proof fn first_frame_is_key_frame(mode: CaptureMode, now: u64)
    ensures
        CaptureLoop::started(mode, now).key_due(),
{
}

/// A key frame that is due is never skipped, however little has changed.
pub proof fn key_frame_is_never_skipped(s: CaptureLoop, bgra: Seq<u8>, full: bool, named: bool)
    ensures
        !s.skips_dxgi(bgra, full, named, true),
        !s.skips_gdi(bgra, true),
{
}

/// A still picture is sent once: after it was looked at, the same picture is skipped until a key
/// frame is due.
pub proof fn still_picture_is_skipped(s: CaptureLoop, bgra: Seq<u8>)
    ensures
        s.seen_dxgi(bgra, true, true).skips_dxgi(bgra, true, true, false),
        s.seen_gdi(bgra).skips_gdi(bgra, false),
{
}

/// A change is noticed wherever it is: where two pictures of the same length differ in one byte whose
/// number is a multiple of 256, and in no other such byte, the second is not taken for the first.
pub proof fn change_is_noticed(s: CaptureLoop, a: Seq<u8>, b: Seq<u8>, i: int)
    requires
        a.len() == b.len(),
        0 <= i < a.len(),
        i % 256 == 0,
        a[i] != b[i],
        forall|k: int| 0 <= k < a.len() && k % 256 == 0 && k != i ==> #[trigger] a[k] == b[k],
    ensures
        sampled_hash(a) != sampled_hash(b),
        !s.seen_gdi(a).skips_gdi(b, false),
        !s.seen_dxgi(a, true, true).skips_dxgi(b, true, true, false),
{
    let n = ((a.len() + 255) / 256) as nat;
    let m = i / 256;
    assert(256 * m == i);
    lemma_one_difference(a, b, n, m);
}

/// A picture with other bytes only between every 256th is taken for the one before.
pub proof fn only_every_256th_byte_is_looked_at(s: CaptureLoop, a: Seq<u8>, b: Seq<u8>)
    requires
        a.len() == b.len(),
        forall|k: int| 0 <= k < a.len() && k % 256 == 0 ==> #[trigger] a[k] == b[k],
    ensures
        s.seen_gdi(a).skips_gdi(b, false),
        s.seen_dxgi(a, true, true).skips_dxgi(b, true, true, false),
{
    let n = ((a.len() + 255) / 256) as nat;
    lemma_same_samples(a, b, n);
}

proof fn lemma_same_samples(a: Seq<u8>, b: Seq<u8>, n: nat)
    requires
        a.len() == b.len(),
        n <= (a.len() + 255) / 256,
        forall|k: int| 0 <= k < a.len() && k % 256 == 0 ==> #[trigger] a[k] == b[k],
    ensures
        fnv_of(a, n) == fnv_of(b, n),
    decreases n,
{
    if n > 0 {
        lemma_same_samples(a, b, (n - 1) as nat);
        assert((256 * (n - 1)) % 256 == 0);
        assert(a[256 * (n - 1)] == b[256 * (n - 1)]);
    }
}

/// The state after so many failures of desktop duplication in a row.
pub open spec fn after_failures(s: CaptureLoop, n: nat) -> CaptureLoop
    decreases n,
{
    if n == 0 {
        s
    } else {
        after_failures(s, (n - 1) as nat).failed_once()
    }
}

/// Desktop duplication is torn down at the fifth failure in a row and not before.
pub proof fn fifth_failure_tears_down(s: CaptureLoop, n: nat)
    requires
        s.fail_streak == 0,
        n < DXGI_FAIL_THRESHOLD,
    ensures
        after_failures(s, n).tears_down() <==> n == DXGI_FAIL_THRESHOLD - 1,
{
    lemma_streak(s, n);
}

proof fn lemma_streak(s: CaptureLoop, n: nat)
    requires
        s.fail_streak == 0,
        n < DXGI_FAIL_THRESHOLD,
    ensures
        after_failures(s, n).fail_streak == n,
    decreases n,
{
    if n > 0 {
        lemma_streak(s, (n - 1) as nat);
    }
}

/// Attempts to leave GDI mode are thirty seconds apart.
pub proof fn retries_are_apart(s: CaptureLoop, t: u64, later: u64)
    requires
        s.retry_due(t),
    ensures
        (CaptureLoop { last_retry: t, ..s }).retry_due(later) <==> later - t >= DXGI_RETRY_NANOS,
{
}

/// In desktop duplication no return is tried.
pub proof fn no_retry_in_dxgi(s: CaptureLoop, now: u64)
    requires
        s.mode == CaptureMode::Dxgi,
    ensures
        !s.retry_due(now),
{
}

/// The hash is FNV-1a with 64 bits: it starts at its offset, and each byte that it takes in is put to
/// it by exclusive or before it is multiplied by its prime. It takes in the bytes 0, 256, 512, and so
/// on.
pub proof fn hash_is_fnv_1a(data: Seq<u8>, n: nat)
    ensures
        fnv_of(data, 0) == 0xcbf2_9ce4_8422_2325,
        fnv_of(data, n + 1) == ((fnv_of(data, n) ^ (data[256 * n as int] as u64)) * 0x100_0000_01b3)
            % 0x1_0000_0000_0000_0000,
        sampled_hash(data.take(0)) == 0xcbf2_9ce4_8422_2325,
        data.len() == 256 * n + 1 ==> sampled_hash(data) == fnv_of(data, n + 1),
        data.len() == 256 * n + 256 ==> sampled_hash(data) == fnv_of(data, n + 1),
{
}

} // verus!
