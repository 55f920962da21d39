//! The decisions of the playback engine: which codec to open, what a
//! prepared stream reports, how the decode loop reacts to each read and seek,
//! and which control requests are accepted.
use vstd::prelude::*;
use crate::error::AroundError;
use crate::state::PlaybackStatus;
use crate::text::{joined, push_decimal};
use crate::types::SampleSpec;

verus! {

/// The lowest probe confidence at which a codec is chosen.
pub const MIN_CONFIDENCE: u8 = 50;

/// Picks the codec to open from the confidences the codecs reported, in
/// registration order: the first with the highest confidence, if that is at
/// least [`MIN_CONFIDENCE`]. `None` leaves the choice to the built-in WAV codec.
pub fn select_codec(confidences: &[u8]) -> (r: Option<usize>)
    ensures
        match r {
            Some(k) => {
                &&& k < confidences@.len()
                &&& confidences@[k as int] >= MIN_CONFIDENCE
                &&& forall|j: int| 0 <= j < confidences@.len() ==> confidences@[j] <= confidences@[k as int]
                &&& forall|j: int| 0 <= j < k ==> confidences@[j] < confidences@[k as int]
            },
            None => forall|j: int| 0 <= j < confidences@.len() ==> confidences@[j] < MIN_CONFIDENCE,
        },
{
    let mut best_conf: u8 = 0;
    let mut best: Option<usize> = None;
    let mut i: usize = 0;
    while i < confidences.len()
        invariant
            i <= confidences@.len(),
            match best {
                Some(k) => {
                    &&& k < i
                    &&& best_conf == confidences@[k as int]
                    &&& best_conf >= MIN_CONFIDENCE
                    &&& forall|j: int| 0 <= j < i ==> confidences@[j] <= best_conf
                    &&& forall|j: int| 0 <= j < k ==> confidences@[j] < best_conf
                },
                None => best_conf == 0 && forall|j: int| 0 <= j < i ==> confidences@[j] < MIN_CONFIDENCE,
            },
        decreases confidences@.len() - i,
    {
        let c = confidences[i];
        if c >= MIN_CONFIDENCE && c > best_conf {
            best_conf = c;
            best = Some(i);
        }
        i = i + 1;
    }
    best
}

/// A stream ready to play: its id, the codec that opened it, its duration
/// when known, whether it can seek, and its output format.
#[derive(Debug, Clone, PartialEq, Eq)]
pub struct PreparedStream {
    pub stream_id: u64,
    pub codec_name: String,
    pub duration_ms: Option<u64>,
    pub seekable: bool,
    pub output_format: SampleSpec,
}

/// Handle of a playing stream.
#[derive(Debug, Clone, Copy, PartialEq, Eq, Structural)]
pub struct PlaybackHandle {
    pub stream_id: u64,
}

/// What a prepared stream reports: its output format and, when its length is
/// known, its duration.
#[derive(Debug, Clone, Copy, PartialEq, Eq, Structural)]
pub struct PreparedInfo {
    pub output_format: SampleSpec,
    pub duration_ms: Option<u64>,
}

/// Duration in milliseconds of `total_frames` frames at `sample_rate`,
/// truncated to 64 bits.
pub open spec fn spec_duration_ms(total_frames: u64, sample_rate: u32) -> u64 {
    ((total_frames * 1000 / (sample_rate as int)) % 0x1_0000_0000_0000_0000) as u64
}

/// Checks what an opened codec reports and derives the prepared stream's
/// format (16-bit interleaved) and duration.
pub fn prepared_info(sample_rate: u32, channels: u8, total_frames: u64) -> (r: Result<PreparedInfo, AroundError>)
    ensures
        sample_rate == 0 ==> (r matches Err(AroundError::DecodeError { message }) && message@
            == "codec returned sample_rate=0"@),
        sample_rate > 0 && !(1 <= channels <= 32) ==> r matches Err(AroundError::DecodeError { .. }),
        sample_rate > 0 && 1 <= channels <= 32 ==> (r matches Ok(info) && info.output_format
            == (SampleSpec {
            sample_rate,
            channels,
            bit_depth: 16,
            interleave: crate::types::Interleave::Interleaved,
        }) && info.duration_ms == (if total_frames > 0 {
            Some(spec_duration_ms(total_frames, sample_rate))
        } else {
            None
        })),
{
    if sample_rate == 0 {
        return Err(AroundError::DecodeError { message: String::from_str("codec returned sample_rate=0") });
    }
    let output_format = match SampleSpec::interleaved(sample_rate, channels, 16) {
        Ok(f) => f,
        Err(e) => {
            return Err(AroundError::DecodeError { message: joined("invalid stream spec: ", e) });
        },
    };
    let duration_ms = if total_frames > 0 {
        assert(total_frames * 1000 <= 0xffff_ffff_ffff_ffff * 1000) by (nonlinear_arith)
            requires
                total_frames <= 0xffff_ffff_ffff_ffff,
        ;
        let d: u128 = total_frames as u128 * 1000 / sample_rate as u128;
        Some((d % 0x1_0000_0000_0000_0000) as u64)
    } else {
        None
    };
    Ok(PreparedInfo { output_format, duration_ms })
}

/// What the decode loop does after a read.
#[derive(Debug, Clone, Copy, PartialEq, Eq, Structural)]
pub enum LoopAction {
    /// Samples were decoded; the position is now this many milliseconds.
    Continue(u64),
    /// The read failed; try again.
    Retry,
    /// The stream ended.
    Finish,
    /// Three reads in a row failed, the last with this code.
    Fail(i32),
}

/// What the decode loop does before its next read.
#[derive(Debug, Clone, Copy, PartialEq, Eq, Structural)]
pub enum LoopGate {
    /// The stream was cancelled: leave the loop.
    Cancelled,
    /// The output device was lost: the stream is marked failed; with
    /// `reconnect` the loop clears the loss and goes on, else it stops.
    DeviceLost { reconnect: bool },
    /// The stream is paused: wait, then look again.
    Paused,
    /// Nothing holds the stream back: read.
    Read,
}

/// Decides what the decode loop does before a read, in the order the loop
/// looks: cancellation, then a lost device, then a pause.
pub fn loop_gate(cancelled: bool, device_lost: bool, auto_reconnect: bool, status: PlaybackStatus) -> (r:
    LoopGate)
    ensures
        r == (if cancelled {
            LoopGate::Cancelled
        } else if device_lost {
            LoopGate::DeviceLost { reconnect: auto_reconnect }
        } else if status == PlaybackStatus::Paused {
            LoopGate::Paused
        } else {
            LoopGate::Read
        }),
{
    if cancelled {
        LoopGate::Cancelled
    } else if device_lost {
        LoopGate::DeviceLost { reconnect: auto_reconnect }
    } else if status == PlaybackStatus::Paused {
        LoopGate::Paused
    } else {
        LoopGate::Read
    }
}

/// Reads in a row that may fail before the loop gives up.
pub const MAX_CONSECUTIVE_ERRORS: u32 = 3;

/// Bookkeeping of a running decode loop.
#[derive(Debug, Clone, Copy, PartialEq, Eq, Structural)]
pub struct DecodeLoop {
    pub sample_rate: u64,
    pub channels: u8,
    pub frames_decoded: u64,
    pub consecutive_errors: u32,
}

impl DecodeLoop {
    pub open spec fn wf(self) -> bool {
        self.sample_rate > 0 && self.channels > 0 && self.consecutive_errors < MAX_CONSECUTIVE_ERRORS
    }

    /// The playback position in milliseconds of `frames` frames.
    pub open spec fn spec_position_ms(self, frames: u64) -> int {
        frames * 1000 / (self.sample_rate as int)
    }

    pub fn new(sample_rate: u64, channels: u8) -> (r: Self)
        requires
            sample_rate > 0,
            channels > 0,
        ensures
            r.wf(),
            r == (DecodeLoop { sample_rate, channels, frames_decoded: 0, consecutive_errors: 0 }),
    {
        DecodeLoop { sample_rate, channels, frames_decoded: 0, consecutive_errors: 0 }
    }

    /// The loop after a read with outcome `n`, and what it does next.
    pub open spec fn spec_on_read(self, n: i32) -> (DecodeLoop, LoopAction) {
        if n > 0 {
            let frames = (self.frames_decoded + (n as int) / (self.channels as int)) as u64;
            (
                DecodeLoop { frames_decoded: frames, consecutive_errors: 0, ..self },
                LoopAction::Continue(self.spec_position_ms(frames) as u64),
            )
        } else if n == 0 {
            (self, LoopAction::Finish)
        } else {
            let errors = (self.consecutive_errors + 1) as u32;
            (
                DecodeLoop { consecutive_errors: errors, ..self },
                if errors >= MAX_CONSECUTIVE_ERRORS {
                    LoopAction::Fail(n)
                } else {
                    LoopAction::Retry
                },
            )
        }
    }

    /// Handles the outcome `n` of a read: samples decoded when positive, the
    /// end when zero, a failure when negative.
    pub fn on_read(&mut self, n: i32) -> (a: LoopAction)
        requires
            old(self).wf(),
            n > 0 ==> (old(self).frames_decoded + (n as int) / (old(self).channels as int)) * 1000
                <= u64::MAX,
        ensures
            (*final(self), a) == old(self).spec_on_read(n),
            a is Retry || a is Continue ==> final(self).wf(),
    {
        if n > 0 {
            let frames = self.frames_decoded + (n as u64) / (self.channels as u64);
            self.frames_decoded = frames;
            self.consecutive_errors = 0;
            LoopAction::Continue(frames * 1000 / self.sample_rate)
        } else if n == 0 {
            LoopAction::Finish
        } else {
            self.consecutive_errors = self.consecutive_errors + 1;
            if self.consecutive_errors >= MAX_CONSECUTIVE_ERRORS {
                LoopAction::Fail(n)
            } else {
                LoopAction::Retry
            }
        }
    }

    /// The frame to seek the codec to for a position in milliseconds.
    pub fn seek_frame(&self, position_ms: u64) -> (f: u64)
        requires
            self.sample_rate > 0,
        ensures
            f == (position_ms * self.sample_rate / 1000) % 0x1_0000_0000_0000_0000,
    {
        assert(position_ms * self.sample_rate <= 0xffff_ffff_ffff_ffff * 0xffff_ffff_ffff_ffff)
            by (nonlinear_arith)
            requires
                position_ms <= 0xffff_ffff_ffff_ffff,
                self.sample_rate <= 0xffff_ffff_ffff_ffff,
        ;
        let f: u128 = position_ms as u128 * self.sample_rate as u128 / 1000;
        (f % 0x1_0000_0000_0000_0000) as u64
    }

    /// Records where a completed seek landed; returns the new position in
    /// milliseconds.
    pub fn on_seeked(&mut self, new_frame: u64) -> (position_ms: u64)
        requires
            old(self).wf(),
            new_frame * 1000 <= u64::MAX,
        ensures
            *final(self) == (DecodeLoop { frames_decoded: new_frame, ..*old(self) }),
            position_ms == old(self).spec_position_ms(new_frame),
    {
        self.frames_decoded = new_frame;
        new_frame * 1000 / self.sample_rate
    }
}

/// What a read does to the loop, for every channel count and rate: after
/// `n > 0` samples the frames decoded grow by the whole frames those samples
/// hold (`n` split into frames of `channels` samples, the rest dropped), the
/// error count is cleared, and the position reported is the time those
/// frames take at the sample rate, in whole milliseconds; the end (`n == 0`)
/// changes nothing and finishes; a failure counts one more error and fails
/// the loop on the third in a row.
pub proof fn law_read_advances_by_whole_frames(l: DecodeLoop, n: i32)
    requires
        l.wf(),
        n > 0 ==> (l.frames_decoded + (n as int) / (l.channels as int)) * 1000 <= u64::MAX,
    ensures
        ({
            let (after, a) = l.spec_on_read(n);
            let grown = after.frames_decoded - l.frames_decoded;
            &&& after.sample_rate == l.sample_rate
            &&& after.channels == l.channels
            &&& n > 0 ==> {
                &&& grown >= 0
                &&& grown * l.channels <= n < (grown + 1) * l.channels
                &&& after.consecutive_errors == 0
                &&& a matches LoopAction::Continue(p) && p * l.sample_rate <= after.frames_decoded * 1000
                    < (p + 1) * l.sample_rate
            }
            &&& n == 0 ==> after == l && a == LoopAction::Finish
            &&& n < 0 ==> {
                &&& after.frames_decoded == l.frames_decoded
                &&& after.consecutive_errors == l.consecutive_errors + 1
                &&& a == (if l.consecutive_errors + 1 >= 3 {
                    LoopAction::Fail(n)
                } else {
                    LoopAction::Retry
                })
            }
        }),
{
    if n > 0 {
        let ch = l.channels as int;
        let q = (n as int) / ch;
        vstd::arithmetic::div_mod::lemma_fundamental_div_mod(n as int, ch);
        vstd::arithmetic::div_mod::lemma_mod_pos_bound(n as int, ch);
        assert(q * ch <= n < (q + 1) * ch) by (nonlinear_arith)
            requires
                n as int == ch * q + (n as int) % ch,
                0 <= (n as int) % ch < ch,
        ;
        assert(q >= 0) by (nonlinear_arith)
            requires
                q == (n as int) / ch,
                n > 0,
                ch > 0,
        ;
        let (after, a) = l.spec_on_read(n);
        let f = after.frames_decoded as int;
        assert(f == l.frames_decoded + q);
        let r = l.sample_rate as int;
        let x = f * 1000;
        let p = x / r;
        vstd::arithmetic::div_mod::lemma_fundamental_div_mod(x, r);
        vstd::arithmetic::div_mod::lemma_mod_pos_bound(x, r);
        assert(p * r <= x < (p + 1) * r) by (nonlinear_arith)
            requires
                x == r * p + x % r,
                0 <= x % r < r,
        ;
        assert(p <= x) by (nonlinear_arith)
            requires
                p == x / r,
                x >= 0,
                r >= 1,
        ;
    }
}

/// The status a stream is left in when its loop ends: error when decoding
/// failed, stopped otherwise.
pub fn final_status(failed: bool) -> (s: PlaybackStatus)
    ensures
        s == (if failed {
            PlaybackStatus::Error
        } else {
            PlaybackStatus::Stopped
        }),
{
    if failed {
        PlaybackStatus::Error
    } else {
        PlaybackStatus::Stopped
    }
}

/// The code of a failed read as shown: its digits, after a minus sign when
/// negative.
pub open spec fn spec_signed_decimal(code: i32) -> Seq<char> {
    if code < 0 {
        "-"@ + crate::text::spec_decimal((0 - code) as nat)
    } else {
        crate::text::spec_decimal(code as nat)
    }
}

/// The error of a decode loop that gave up: `decode error: code N`.
pub fn decode_failure(code: i32) -> (e: AroundError)
    ensures
        e matches AroundError::DecodeError { message } && message@ == "decode error: code "@
            + spec_signed_decimal(code),
{
    let mut s = String::from_str("decode error: code ");
    if code < 0 {
        s.append("-");
        push_decimal(&mut s, (0i64 - code as i64) as u64);
    } else {
        push_decimal(&mut s, code as u64);
    }
    AroundError::DecodeError { message: s }
}

/// Why a seek request was refused.
#[derive(Debug, Clone, Copy, PartialEq, Eq, Structural)]
pub enum SeekError {
    StreamNotFound,
    NotSeekable,
    StreamEnded,
}

impl SeekError {
    pub fn to_string(&self) -> (r: String)
        ensures
            r@ == (match self {
                SeekError::StreamNotFound => "stream not found"@,
                SeekError::NotSeekable => "stream is not seekable"@,
                SeekError::StreamEnded => "stream has ended or been stopped"@,
            }),
    {
        match self {
            SeekError::StreamNotFound => String::from_str("stream not found"),
            SeekError::NotSeekable => String::from_str("stream is not seekable"),
            SeekError::StreamEnded => String::from_str("stream has ended or been stopped"),
        }
    }
}

/// What a stream tells a seek request about itself.
#[derive(Debug, Clone, Copy, PartialEq, Eq, Structural)]
pub struct SeekTarget {
    pub seekable: bool,
    pub duration_ms: Option<u64>,
    pub status: PlaybackStatus,
}

/// Whether a seek to `position_ms` is accepted: the stream exists, can seek,
/// the position is within its known duration, and it has not stopped or failed.
pub fn check_seek(stream: Option<SeekTarget>, position_ms: u64) -> (r: Result<u64, SeekError>)
    ensures
        match stream {
            None => r == Err::<u64, SeekError>(SeekError::StreamNotFound),
            Some(t) => if !t.seekable {
                r == Err::<u64, SeekError>(SeekError::NotSeekable)
            } else if t.duration_ms matches Some(d) && position_ms > d {
                r == Err::<u64, SeekError>(SeekError::StreamEnded)
            } else if t.status is Stopped || t.status is Error {
                r == Err::<u64, SeekError>(SeekError::StreamEnded)
            } else {
                r == Ok::<u64, SeekError>(position_ms)
            },
        },
{
    let t = match stream {
        None => {
            return Err(SeekError::StreamNotFound);
        },
        Some(t) => t,
    };
    if !t.seekable {
        return Err(SeekError::NotSeekable);
    }
    match t.duration_ms {
        Some(d) => {
            if position_ms > d {
                return Err(SeekError::StreamEnded);
            }
        },
        None => {},
    }
    if t.status == PlaybackStatus::Stopped || t.status == PlaybackStatus::Error {
        return Err(SeekError::StreamEnded);
    }
    Ok(position_ms)
}

/// Stream `k` is the only active one.
pub open spec fn only_active(streams: Seq<(u64, bool)>, k: int) -> bool {
    &&& 0 <= k < streams.len()
    &&& streams[k].1
    &&& forall|j: int| 0 <= j < streams.len() && j != k ==> !(#[trigger] streams[j]).1
}

/// The id of the only active stream, if exactly one is active.
pub fn sole_active(streams: &[(u64, bool)]) -> (r: Option<u64>)
    ensures
        match r {
            Some(id) => exists|k: int| only_active(streams@, k) && streams@[k].0 == id,
            None => forall|k: int| !only_active(streams@, k),
        },
{
    let mut count: usize = 0;
    let mut at: usize = 0;
    let mut i: usize = 0;
    while i < streams.len()
        invariant
            i <= streams@.len(),
            count <= 2,
            count == 0 ==> forall|j: int| 0 <= j < i ==> !(#[trigger] streams@[j]).1,
            count >= 1 ==> at < i && streams@[at as int].1,
            count == 1 ==> forall|j: int| 0 <= j < i && j != at ==> !(#[trigger] streams@[j]).1,
            count == 2 ==> exists|m: int| 0 <= m < i && m != at && (#[trigger] streams@[m]).1,
        decreases streams@.len() - i,
    {
        if streams[i].1 {
            if count == 0 {
                at = i;
                count = 1;
            } else {
                assert(streams@[i as int].1);
                count = 2;
            }
        }
        i = i + 1;
    }
    if count == 1 {
        assert(only_active(streams@, at as int));
        Some(streams[at].0)
    } else {
        proof {
            if count == 2 {
                let m = choose|m: int| 0 <= m < streams@.len() && m != at && (#[trigger] streams@[m]).1;
                assert forall|k: int| !only_active(streams@, k) by {
                    if only_active(streams@, k) {
                        if k == at {
                            assert(!streams@[m].1);
                        } else {
                            assert(!streams@[at as int].1);
                        }
                    }
                }
            }
        }
        None
    }
}

/// A decode loop gives up on the third failed read in a row, and not before.
pub proof fn law_third_consecutive_failure_stops(st: DecodeLoop, a: i32, b: i32, c: i32)
    requires
        st.wf(),
        st.consecutive_errors == 0,
        a < 0,
        b < 0,
        c < 0,
    ensures
        st.spec_on_read(a).1 == LoopAction::Retry,
        st.spec_on_read(a).0.spec_on_read(b).1 == LoopAction::Retry,
        st.spec_on_read(a).0.spec_on_read(b).0.spec_on_read(c).1 == LoopAction::Fail(c),
{
}

/// A successful read clears the failures before it, so failures must again
/// come three in a row to stop the loop.
pub proof fn law_success_resets_failures(st: DecodeLoop, n: i32, m: i32)
    requires
        st.wf(),
        n > 0,
        m < 0,
    ensures
        st.spec_on_read(n).0.consecutive_errors == 0,
        st.spec_on_read(n).0.spec_on_read(m).1 == LoopAction::Retry,
{
}

/// A read never moves the position backwards, and the end of the stream
/// leaves the loop as it was.
pub proof fn law_reads_never_rewind(st: DecodeLoop, n: i32)
    requires
        st.wf(),
        n > 0 ==> st.frames_decoded + (n as int) / (st.channels as int) <= u64::MAX,
    ensures
        st.spec_on_read(n).0.frames_decoded >= st.frames_decoded,
        n == 0 ==> st.spec_on_read(n).0 == st,
{
    if n > 0 {
        assert((n as int) / (st.channels as int) >= 0) by (nonlinear_arith)
            requires
                n > 0,
                st.channels > 0,
        ;
    }
}

} // verus!
