//! Core type aliases and constants for audio primitives.
use vstd::prelude::*;

verus! {

// --- BitDepth ---
pub type BitDepth = u8;

pub const BIT_DEPTH_8: BitDepth = 8;
pub const BIT_DEPTH_16: BitDepth = 16;
pub const BIT_DEPTH_24: BitDepth = 24;
pub const BIT_DEPTH_32: BitDepth = 32;
pub const BIT_DEPTH_64: BitDepth = 64;

// --- SampleRate ---
pub type SampleRate = u32;

pub const SAMPLE_RATE_44100: SampleRate = 44100;
pub const SAMPLE_RATE_48000: SampleRate = 48000;
pub const SAMPLE_RATE_88200: SampleRate = 88200;
pub const SAMPLE_RATE_96000: SampleRate = 96000;
pub const SAMPLE_RATE_176400: SampleRate = 176400;
pub const SAMPLE_RATE_192000: SampleRate = 192000;

// --- ChannelLayout ---
pub type ChannelLayout = u8;

pub const CHANNEL_MONO: ChannelLayout = 1;
pub const CHANNEL_STEREO: ChannelLayout = 2;
pub const CHANNEL_SURROUND_2_1: ChannelLayout = 3;
pub const CHANNEL_QUAD: ChannelLayout = 4;
pub const CHANNEL_SURROUND_5_1: ChannelLayout = 6;
pub const CHANNEL_SURROUND_7_1: ChannelLayout = 8;

// --- ExtensionSource ---
pub type ExtensionSource = u8;

pub const SOURCE_BUILTIN: ExtensionSource = 0;
pub const SOURCE_STATIC: ExtensionSource = 1;
pub const SOURCE_DYNAMIC: ExtensionSource = 2;
pub const SOURCE_RUNTIME: ExtensionSource = 3;
pub const SOURCE_BYTES: ExtensionSource = 4;
pub const SOURCE_CONFIG: ExtensionSource = 5;
pub const SOURCE_DISCOVERED: ExtensionSource = 6;

/// The largest channel count a stream may declare.
pub const MAX_STREAM_CHANNELS: u8 = 32;

// --- ContentType ---

/// Free-form content classification of a source ("music", "podcast", ...).
#[derive(Debug, Clone, PartialEq, Eq)]
pub struct ContentType(pub String);

impl ContentType {
    pub const MUSIC: &'static str = "music";
    pub const PODCAST: &'static str = "podcast";
    pub const AUDIOBOOK: &'static str = "audiobook";
    pub const RADIO: &'static str = "radio";
    pub const LIVE_STREAM: &'static str = "live_stream";
    pub const AMBIENT: &'static str = "ambient";

    pub fn new(value: &str) -> (r: Self)
        ensures
            r.0@ == value@,
    {
        ContentType(value.to_owned())
    }

    pub fn as_str(&self) -> (r: &str)
        ensures
            r@ == self.0@,
    {
        self.0.as_str()
    }

    /// The text shown for this content type: the classification itself.
    pub fn to_string(&self) -> (r: String)
        ensures
            r@ == self.0@,
    {
        self.0.clone()
    }
}

impl vstd::std_specs::convert::FromSpecImpl<&str> for ContentType {
    open spec fn obeys_from_spec() -> bool {
        false
    }

    open spec fn from_spec(v: &str) -> Self {
        arbitrary()
    }
}

impl From<&str> for ContentType {
    fn from(s: &str) -> (r: Self)
        ensures
            r.0@ == s@,
    {
        ContentType(s.to_owned())
    }
}

impl vstd::std_specs::convert::FromSpecImpl<String> for ContentType {
    open spec fn obeys_from_spec() -> bool {
        true
    }

    open spec fn from_spec(v: String) -> Self {
        ContentType(v)
    }
}

impl From<String> for ContentType {
    fn from(s: String) -> (r: Self) {
        ContentType(s)
    }
}

/// Channel interleave mode for audio data.
#[derive(Debug, Clone, Copy, PartialEq, Eq, Hash, Structural)]
pub enum Interleave {
    /// Samples are interleaved: LRLRLR...
    Interleaved,
    /// Samples are planar: LLL...RRR...
    Planar,
}

// --- SampleSpec ---

/// Stream description by sample rate, channel count and bit depth.
#[derive(Debug, Clone, Copy, PartialEq, Eq, Hash, Structural)]
pub struct SampleSpec {
    pub sample_rate: SampleRate,
    pub channels: ChannelLayout,
    pub bit_depth: BitDepth,
    pub interleave: Interleave,
}

/// The parameters a [`SampleSpec`] accepts: a positive rate and 1..=32 channels.
pub open spec fn spec_params_valid(sample_rate: u32, channels: u8) -> bool {
    sample_rate > 0 && 1 <= channels <= MAX_STREAM_CHANNELS
}

impl SampleSpec {
    pub fn new(
        sample_rate: SampleRate,
        channels: ChannelLayout,
        bit_depth: BitDepth,
        interleave: Interleave,
    ) -> (r: Result<Self, &'static str>)
        ensures
            r is Ok <==> spec_params_valid(sample_rate, channels),
            r matches Err(e) ==> (sample_rate == 0 ==> e@ == "sample_rate must be > 0"@),
            r matches Err(e) ==> (sample_rate != 0 ==> e@ == "channels must be in 1..=32"@),
            r matches Ok(s) ==> s == (SampleSpec { sample_rate, channels, bit_depth, interleave }),
    {
        if sample_rate == 0 {
            return Err("sample_rate must be > 0");
        }
        if channels == 0 || channels > MAX_STREAM_CHANNELS {
            return Err("channels must be in 1..=32");
        }
        Ok(SampleSpec { sample_rate, channels, bit_depth, interleave })
    }

    /// Convenience: an interleaved spec.
    pub fn interleaved(sample_rate: SampleRate, channels: ChannelLayout, bit_depth: BitDepth) -> (r:
        Result<Self, &'static str>)
        ensures
            r is Ok <==> spec_params_valid(sample_rate, channels),
            r matches Err(e) ==> (sample_rate == 0 ==> e@ == "sample_rate must be > 0"@),
            r matches Err(e) ==> (sample_rate != 0 ==> e@ == "channels must be in 1..=32"@),
            r matches Ok(s) ==> s == (SampleSpec {
                sample_rate,
                channels,
                bit_depth,
                interleave: Interleave::Interleaved,
            }),
    {
        Self::new(sample_rate, channels, bit_depth, Interleave::Interleaved)
    }
}


// --- PlanarBuffer ---

/// Samples stored channel after channel: every frame of channel 0, then every
/// frame of channel 1, and so on.
pub struct PlanarBuffer<T> {
    data: Vec<T>,
    channels: usize,
    frames: usize,
}

impl<T> PlanarBuffer<T> {
    /// The buffer's shape holds: at least one channel, and exactly
    /// `channels * frames` samples.
    pub closed spec fn wf(&self) -> bool {
        &&& self.channels > 0
        &&& self.data@.len() == self.channels * self.frames
    }

    pub closed spec fn spec_channels(&self) -> nat {
        self.channels as nat
    }

    pub closed spec fn spec_frames(&self) -> nat {
        self.frames as nat
    }

    /// Sample `f` of channel `c`.
    pub closed spec fn sample(&self, c: int, f: int) -> T {
        self.data@[c * self.frames + f]
    }
}

impl<T> View for PlanarBuffer<T> {
    /// The samples of each channel, channel by channel.
    type V = Seq<Seq<T>>;

    closed spec fn view(&self) -> Seq<Seq<T>> {
        spec_rows(self.data@, self.channels as int, self.frames as int)
    }
}

/// `data` cut into `channels` rows of `frames` samples.
pub open spec fn spec_rows<T>(data: Seq<T>, channels: int, frames: int) -> Seq<Seq<T>> {
    Seq::new(channels as nat, |c: int| data.subrange(c * frames, c * frames + frames))
}

proof fn lemma_channel_bounds(c: int, f: int, channels: int, frames: int)
    requires
        0 <= c < channels,
        0 <= f <= frames,
    ensures
        0 <= c * frames,
        c * frames + f <= c * frames + frames <= channels * frames,
{
    assert(0 <= c * frames) by (nonlinear_arith)
        requires
            0 <= c,
            0 <= f <= frames,
    ;
    assert(c * frames + frames <= channels * frames) by (nonlinear_arith)
        requires
            0 <= c < channels,
            0 <= f <= frames,
    ;
}

proof fn lemma_frame_bounds(c: int, f: int, channels: int, frames: int)
    requires
        0 <= c < channels,
        0 <= f < frames,
    ensures
        0 <= f * channels + c < channels * frames,
{
    assert(0 <= f * channels + c < channels * frames) by (nonlinear_arith)
        requires
            0 <= c < channels,
            0 <= f < frames,
    ;
}

impl<T: Copy> PlanarBuffer<T> {
    /// The view's shape and samples, spelled out.
    pub proof fn lemma_view(&self)
        requires
            self.wf(),
        ensures
            self@.len() == self.spec_channels(),
            forall|c: int| 0 <= c < self.spec_channels() ==> (#[trigger] self@[c]).len() == self.spec_frames(),
            forall|c: int, f: int|
                0 <= c < self.spec_channels() && 0 <= f < self.spec_frames() ==> #[trigger] self@[c][f]
                    == self.sample(c, f),
    {
        assert forall|c: int| 0 <= c < self.spec_channels() implies (#[trigger] self@[c]).len()
            == self.spec_frames() by {
            lemma_channel_bounds(c, 0, self.channels as int, self.frames as int);
        }
        assert forall|c: int, f: int|
            0 <= c < self.spec_channels() && 0 <= f < self.spec_frames() implies #[trigger] self@[c][f]
            == self.sample(c, f) by {
            lemma_channel_bounds(c, f, self.channels as int, self.frames as int);
        }
    }
}


/// Two positions `c * frames + f` with `f < frames` coincide only for equal
/// channels and frames.
proof fn lemma_rows_distinct(c1: int, f1: int, c2: int, f2: int, frames: int)
    requires
        0 <= c1,
        0 <= c2,
        0 <= f1 < frames,
        0 <= f2 < frames,
        c1 * frames + f1 == c2 * frames + f2,
    ensures
        c1 == c2,
        f1 == f2,
{
    if c1 < c2 {
        assert(c1 * frames + frames <= c2 * frames) by (nonlinear_arith)
            requires
                c1 < c2,
                0 <= frames,
        ;
    } else if c2 < c1 {
        assert(c2 * frames + frames <= c1 * frames) by (nonlinear_arith)
            requires
                c2 < c1,
                0 <= frames,
        ;
    }
}

impl<T: Copy + Default> PlanarBuffer<T> {
    /// A buffer of `channels` channels of `frames` frames, every sample the
    /// type's default (silence for floats). A buffer needs a channel, and its
    /// size must fit in `usize`.
    pub fn new(channels: usize, frames: usize) -> (r: Self)
        requires
            channels > 0,
            channels * frames <= usize::MAX,
        ensures
            r.wf(),
            r.spec_channels() == channels,
            r.spec_frames() == frames,
            forall|c1: int, f1: int, c2: int, f2: int|
                0 <= c1 < channels && 0 <= f1 < frames && 0 <= c2 < channels && 0 <= f2 < frames
                    ==> #[trigger] r.sample(c1, f1) == #[trigger] r.sample(c2, f2),
    {
        let len = channels * frames;
        let d = T::default();
        let mut data: Vec<T> = Vec::new();
        while data.len() < len
            invariant
                data@.len() <= len,
                forall|i: int| 0 <= i < data@.len() ==> data@[i] == d,
            decreases len - data@.len(),
        {
            data.push(d);
        }
        let r = PlanarBuffer { data, channels, frames };
        proof {
            assert forall|c1: int, f1: int, c2: int, f2: int|
                0 <= c1 < channels && 0 <= f1 < frames && 0 <= c2 < channels && 0 <= f2 < frames
                    implies #[trigger] r.sample(c1, f1) == #[trigger] r.sample(c2, f2) by {
                lemma_channel_bounds(c1, f1, channels as int, frames as int);
                lemma_channel_bounds(c2, f2, channels as int, frames as int);
            }
        }
        r
    }
}

impl<T: Copy> PlanarBuffer<T> {
    /// Fills the buffer from frames of interleaved samples: sample `f` of
    /// channel `c` becomes `interleaved[f * channels + c]`.
    pub fn fill_from_interleaved(&mut self, interleaved: &[T])
        requires
            old(self).wf(),
            interleaved@.len() == old(self).spec_channels() * old(self).spec_frames(),
        ensures
            final(self).wf(),
            final(self).spec_channels() == old(self).spec_channels(),
            final(self).spec_frames() == old(self).spec_frames(),
            forall|c: int, f: int|
                0 <= c < old(self).spec_channels() && 0 <= f < old(self).spec_frames()
                    ==> #[trigger] final(self).sample(c, f) == interleaved@[f * old(self).spec_channels() + c],
    {
        let channels = self.channels;
        let frames = self.frames;
        let total = interleaved.len();
        let mut frame: usize = 0;
        while frame < frames
            invariant
                total == channels * frames,
                channels == self.channels,
                frames == self.frames,
                self.wf(),
                interleaved@.len() == channels * frames,
                frame <= frames,
                forall|c: int, f: int|
                    0 <= c < channels && 0 <= f < frame ==> #[trigger] self.sample(c, f) == interleaved@[f
                        * channels + c],
            decreases frames - frame,
        {
            let mut ch: usize = 0;
            while ch < channels
                invariant
                    total == channels * frames,
                    channels == self.channels,
                    frames == self.frames,
                    self.wf(),
                    interleaved@.len() == channels * frames,
                    frame < frames,
                    ch <= channels,
                    forall|c: int, f: int|
                        0 <= c < channels && 0 <= f < frame ==> #[trigger] self.sample(c, f)
                            == interleaved@[f * channels + c],
                    forall|c: int| 0 <= c < ch ==> #[trigger] self.sample(c, frame as int) == interleaved@[frame
                        * channels + c],
                decreases channels - ch,
            {
                proof {
                    lemma_channel_bounds(ch as int, frame as int, channels as int, frames as int);
                    lemma_frame_bounds(ch as int, frame as int, channels as int, frames as int);
                }
                let src = frame * channels + ch;
                let dst = ch * frames + frame;
                let v = interleaved[src];
                let ghost prev = *self;
                self.data.set(dst, v);
                proof {
                    assert forall|c: int, f: int|
                        0 <= c < channels && 0 <= f < frame implies #[trigger] self.sample(c, f)
                        == interleaved@[f * channels + c] by {
                        lemma_channel_bounds(c, f, channels as int, frames as int);
                        assert(prev.sample(c, f) == interleaved@[f * channels + c]);
                        if c * frames + f == dst {
                            lemma_rows_distinct(c, f, ch as int, frame as int, frames as int);
                        }
                    }
                    assert forall|c: int| 0 <= c < ch + 1 implies #[trigger] self.sample(c, frame as int)
                        == interleaved@[frame * channels + c] by {
                        lemma_channel_bounds(c, frame as int, channels as int, frames as int);
                        if c < ch {
                            assert(prev.sample(c, frame as int) == interleaved@[frame * channels + c]);
                            if c * frames + frame == dst {
                                lemma_rows_distinct(c, frame as int, ch as int, frame as int, frames as int);
                            }
                        }
                    }
                }
                ch = ch + 1;
            }
            frame = frame + 1;
        }
    }

    /// Writes the samples as interleaved frames to the front of
    /// `interleaved`: sample `f` of channel `c` goes to `f * channels + c`;
    /// the rest of `interleaved` is left as it was.
    pub fn write_interleaved(&self, interleaved: &mut [T])
        requires
            self.wf(),
            old(interleaved)@.len() >= self.spec_channels() * self.spec_frames(),
        ensures
            final(interleaved)@.len() == old(interleaved)@.len(),
            forall|c: int, f: int|
                0 <= c < self.spec_channels() && 0 <= f < self.spec_frames()
                    ==> #[trigger] final(interleaved)@[f * self.spec_channels() + c] == self.sample(c, f),
            forall|k: int|
                self.spec_channels() * self.spec_frames() <= k < old(interleaved)@.len()
                    ==> #[trigger] final(interleaved)@[k] == old(interleaved)@[k],
    {
        let ghost initial = interleaved@;
        let channels = self.channels;
        let frames = self.frames;
        let total = self.data.len();
        let mut ch: usize = 0;
        while ch < channels
            invariant
                total == channels * frames,
                channels == self.channels,
                frames == self.frames,
                self.wf(),
                interleaved@.len() == initial.len(),
                initial.len() >= channels * frames,
                ch <= channels,
                forall|c: int, f: int|
                    0 <= c < ch && 0 <= f < frames ==> #[trigger] interleaved@[f * channels + c]
                        == self.sample(c, f),
                forall|k: int| channels * frames <= k < initial.len() ==> #[trigger] interleaved@[k]
                    == initial[k],
            decreases channels - ch,
        {
            let mut frame: usize = 0;
            while frame < frames
                invariant
                    total == channels * frames,
                    channels == self.channels,
                    frames == self.frames,
                    self.wf(),
                    interleaved@.len() == initial.len(),
                    initial.len() >= channels * frames,
                    ch < channels,
                    frame <= frames,
                    forall|c: int, f: int|
                        0 <= c < ch && 0 <= f < frames ==> #[trigger] interleaved@[f * channels + c]
                            == self.sample(c, f),
                    forall|f: int| 0 <= f < frame ==> #[trigger] interleaved@[f * channels + ch]
                        == self.sample(ch as int, f),
                    forall|k: int| channels * frames <= k < initial.len() ==> #[trigger] interleaved@[k]
                        == initial[k],
                decreases frames - frame,
            {
                proof {
                    lemma_channel_bounds(ch as int, frame as int, channels as int, frames as int);
                    lemma_frame_bounds(ch as int, frame as int, channels as int, frames as int);
                }
                let src = ch * frames + frame;
                let dst = frame * channels + ch;
                interleaved[dst] = self.data[src];
                proof {
                    assert forall|c: int, f: int|
                        0 <= c < ch && 0 <= f < frames implies #[trigger] interleaved@[f * channels + c]
                        == self.sample(c, f) by {
                        lemma_frame_bounds(c, f, channels as int, frames as int);
                        if f * channels + c == dst {
                            lemma_rows_distinct(f, c, frame as int, ch as int, channels as int);
                        }
                    }
                    assert forall|f: int| 0 <= f < frame + 1 implies #[trigger] interleaved@[f * channels
                        + ch] == self.sample(ch as int, f) by {
                        lemma_frame_bounds(ch as int, f, channels as int, frames as int);
                        if f < frame && f * channels + ch == dst {
                            lemma_rows_distinct(f, ch as int, frame as int, ch as int, channels as int);
                        }
                    }
                }
                frame = frame + 1;
            }
            ch = ch + 1;
        }
    }

    /// The samples of channel `ch`. The channel must exist.
    pub fn channel(&self, ch: usize) -> (r: &[T])
        requires
            self.wf(),
            ch < self.spec_channels(),
        ensures
            r@ == self@[ch as int],
            r@.len() == self.spec_frames(),
            forall|f: int| 0 <= f < self.spec_frames() ==> #[trigger] r@[f] == self.sample(ch as int, f),
    {
        let total = self.data.len();
        proof {
            lemma_channel_bounds(ch as int, self.frames as int, self.channels as int, self.frames as int);
            self.lemma_view();
        }
        let start = ch * self.frames;
        let (_, rest) = self.data.as_slice().split_at(start);
        let (mid, _) = rest.split_at(self.frames);
        mid
    }

    /// The samples of channel `ch`, to change in place; the other channels
    /// stay as they are. The channel must exist.
    pub fn channel_mut(&mut self, ch: usize) -> (r: &mut [T])
        requires
            old(self).wf(),
            ch < old(self).spec_channels(),
        ensures
            r@ == old(self)@[ch as int],
            final(self).spec_channels() == old(self).spec_channels(),
            final(self).spec_frames() == old(self).spec_frames(),
            final(r)@.len() == r@.len() ==> final(self).wf(),
            final(r)@.len() == r@.len() ==> forall|c: int, f: int|
                0 <= c < old(self).spec_channels() && 0 <= f < old(self).spec_frames()
                    ==> #[trigger] final(self).sample(c, f) == if c == ch {
                    final(r)@[f]
                } else {
                    old(self).sample(c, f)
                },
    {
        let total = self.data.len();
        proof {
            lemma_channel_bounds(ch as int, self.frames as int, self.channels as int, self.frames as int);
            assert forall|c: int, f: int|
                0 <= c < self.channels && 0 <= f < self.frames implies {
                    &&& 0 <= #[trigger] (c * self.frames + f) < total
                    &&& c < ch ==> c * self.frames + f < ch * self.frames
                    &&& c > ch ==> c * self.frames + f >= ch * self.frames + self.frames
                    &&& c == ch ==> c * self.frames + f - ch * self.frames == f
                } by {
                lemma_channel_bounds(c, f, self.channels as int, self.frames as int);
                if c < ch {
                    assert(c * self.frames + self.frames <= ch * self.frames) by (nonlinear_arith)
                        requires
                            c < ch,
                            0 <= self.frames,
                    ;
                } else if c > ch {
                    assert(ch * self.frames + self.frames <= c * self.frames) by (nonlinear_arith)
                        requires
                            c > ch,
                            0 <= self.frames,
                    ;
                }
            }
        }
        let start = ch * self.frames;
        let frames = self.frames;
        let (head, rest) = self.data.as_mut_slice().split_at_mut(start);
        let (mid, tail) = rest.split_at_mut(frames);
        mid
    }

    pub fn channels(&self) -> (r: usize)
        ensures
            r == self.spec_channels(),
    {
        self.channels
    }

    pub fn frames(&self) -> (r: usize)
        ensures
            r == self.spec_frames(),
    {
        self.frames
    }

    /// Number of samples held: `channels * frames`.
    pub fn len(&self) -> (r: usize)
        requires
            self.wf(),
        ensures
            r == self.spec_channels() * self.spec_frames(),
    {
        self.data.len()
    }

    /// The buffer holds no frame.
    pub fn is_empty(&self) -> (r: bool)
        ensures
            r == (self.spec_frames() == 0),
    {
        self.frames == 0
    }
}


/// Law: filling a buffer from interleaved samples and writing it back as
/// interleaved samples gives the same samples back. The requirements are what
/// [`PlanarBuffer::fill_from_interleaved`] and
/// [`PlanarBuffer::write_interleaved`] ensure.
pub proof fn law_interleave_round_trip<T>(buf: PlanarBuffer<T>, interleaved: Seq<T>, out: Seq<T>)
    requires
        buf.wf(),
        interleaved.len() == buf.spec_channels() * buf.spec_frames(),
        forall|c: int, f: int|
            0 <= c < buf.spec_channels() && 0 <= f < buf.spec_frames() ==> #[trigger] buf.sample(c, f)
                == interleaved[f * buf.spec_channels() + c],
        out.len() >= buf.spec_channels() * buf.spec_frames(),
        forall|c: int, f: int|
            0 <= c < buf.spec_channels() && 0 <= f < buf.spec_frames() ==> #[trigger] out[f
                * buf.spec_channels() + c] == buf.sample(c, f),
    ensures
        out.subrange(0, interleaved.len() as int) == interleaved,
{
    let ch = buf.spec_channels() as int;
    let fr = buf.spec_frames() as int;
    assert forall|k: int| 0 <= k < interleaved.len() implies out.subrange(0, interleaved.len() as int)[k]
        == interleaved[k] by {
        let c = k % ch;
        let f = k / ch;
        assert(k == f * ch + c && 0 <= c < ch && 0 <= f < fr) by (nonlinear_arith)
            requires
                0 <= k < ch * fr,
                ch > 0,
                c == k % ch,
                f == k / ch,
        ;
        assert(buf.sample(c, f) == interleaved[f * ch + c]);
        assert(out[f * ch + c] == buf.sample(c, f));
    }
    assert(out.subrange(0, interleaved.len() as int) =~= interleaved);
}

} // verus!
