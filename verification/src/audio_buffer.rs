//! Borrowed audio buffers with explicit PCM format metadata.
//!
//! Data is always a byte slice so packed 24/48-bit encodings remain exact.
use vstd::prelude::*;
use crate::pcm::{PcmEncoding, SampleSpec};
use crate::text::{joined, push_decimal, spec_decimal};

verus! {

#[derive(Debug, Clone, PartialEq, Eq)]
#[allow(inconsistent_fields)]
pub enum AudioBufferError {
    Spec(String),
    EncodingMismatch { expected: PcmEncoding, actual: PcmEncoding },
    InterleaveMismatch,
    FrameAlignment { bytes: usize, frame_bytes: usize },
    LengthMismatch { expected: usize, actual: usize },
    NullData,
}

impl AudioBufferError {
    /// The message shown for this error.
    pub open spec fn spec_message(self) -> Seq<char> {
        match self {
            AudioBufferError::Spec(message) => "invalid audio buffer spec: "@ + message@,
            AudioBufferError::EncodingMismatch { expected, actual } =>
                "audio buffer encoding mismatch: expected "@ + expected.spec_name() + ", got "@
                + actual.spec_name(),
            AudioBufferError::InterleaveMismatch => "audio buffer interleave mismatch"@,
            AudioBufferError::FrameAlignment { bytes, frame_bytes } => "audio buffer has "@
                + spec_decimal(bytes as nat) + " bytes, not aligned to "@ + spec_decimal(
                frame_bytes as nat,
            ) + "-byte frames"@,
            AudioBufferError::LengthMismatch { expected, actual } =>
                "audio buffer length mismatch: expected "@ + spec_decimal(expected as nat)
                + ", got "@ + spec_decimal(actual as nat),
            AudioBufferError::NullData => "audio buffer data pointer is null"@,
        }
    }

    pub fn to_string(&self) -> (r: String)
        ensures
            r@ == self.spec_message(),
    {
        match self {
            AudioBufferError::Spec(message) => joined(
                "invalid audio buffer spec: ",
                message.as_str(),
            ),
            AudioBufferError::EncodingMismatch { expected, actual } => {
                let mut s = joined("audio buffer encoding mismatch: expected ", expected.name());
                s.append(", got ");
                s.append(actual.name());
                s
            },
            AudioBufferError::InterleaveMismatch => String::from_str(
                "audio buffer interleave mismatch",
            ),
            AudioBufferError::FrameAlignment { bytes, frame_bytes } => {
                let mut s = String::from_str("audio buffer has ");
                push_decimal(&mut s, *bytes as u64);
                s.append(" bytes, not aligned to ");
                push_decimal(&mut s, *frame_bytes as u64);
                s.append("-byte frames");
                s
            },
            AudioBufferError::LengthMismatch { expected, actual } => {
                let mut s = String::from_str("audio buffer length mismatch: expected ");
                push_decimal(&mut s, *expected as u64);
                s.append(", got ");
                push_decimal(&mut s, *actual as u64);
                s
            },
            AudioBufferError::NullData => String::from_str("audio buffer data pointer is null"),
        }
    }
}

/// The outcome of checking `frames` frames of `spec` against a byte length.
pub open spec fn spec_layout_check(spec: SampleSpec, frames: usize, len: usize) -> Result<
    (),
    AudioBufferError,
> {
    let expected = frames * spec.spec_bytes_per_frame();
    if expected > usize::MAX {
        Err(AudioBufferError::Spec(arbitrary()))
    } else if expected != len {
        Err(AudioBufferError::LengthMismatch { expected: expected as usize, actual: len })
    } else {
        Ok(())
    }
}

/// Whether a check outcome is the one the spec predicts; the text of a
/// `Spec` error is not part of the prediction.
pub open spec fn spec_same_outcome(r: Result<(), AudioBufferError>, s: Result<(), AudioBufferError>) -> bool {
    match (r, s) {
        (Ok(()), Ok(())) => true,
        (Err(AudioBufferError::Spec(_)), Err(AudioBufferError::Spec(_))) => true,
        (Err(a), Err(b)) => a == b && !(a is Spec),
        _ => false,
    }
}

fn layout_check(spec: SampleSpec, frames: usize, len: usize) -> (r: Result<(), AudioBufferError>)
    ensures
        spec_same_outcome(r, spec_layout_check(spec, frames, len)),
{
    let per_frame = spec.bytes_per_frame();
    let expected = match frames.checked_mul(per_frame) {
        Some(e) => e,
        None => {
            return Err(
                AudioBufferError::Spec(String::from_str("frame count overflows byte length")),
            );
        },
    };
    if expected != len {
        return Err(AudioBufferError::LengthMismatch { expected, actual: len });
    }
    Ok(())
}

/// A read-only view of `frames` frames of `spec` PCM.
#[derive(Debug, Clone, Copy)]
pub struct AudioBufferRef<'a> {
    spec: SampleSpec,
    frames: usize,
    data: &'a [u8],
}

impl<'a> AudioBufferRef<'a> {
    pub closed spec fn spec_spec(self) -> SampleSpec {
        self.spec
    }

    pub closed spec fn spec_frames(self) -> usize {
        self.frames
    }

    pub closed spec fn spec_data(self) -> Seq<u8> {
        self.data@
    }

    pub fn new(spec: SampleSpec, frames: usize, data: &'a [u8]) -> (r: Result<Self, AudioBufferError>)
        ensures
            r is Ok <==> spec_layout_check(spec, frames, data@.len() as usize) is Ok,
            r matches Ok(b) ==> b.spec_spec() == spec && b.spec_frames() == frames && b.spec_data()
                == data@,
            r matches Err(e) ==> spec_same_outcome(
                Err(e),
                spec_layout_check(spec, frames, data@.len() as usize),
            ),
    {
        match layout_check(spec, frames, data.len()) {
            Ok(()) => Ok(AudioBufferRef { spec, frames, data }),
            Err(e) => Err(e),
        }
    }

    pub fn spec(&self) -> (r: SampleSpec)
        ensures
            r == self.spec_spec(),
    {
        self.spec
    }

    pub fn frames(&self) -> (r: usize)
        ensures
            r == self.spec_frames(),
    {
        self.frames
    }

    pub fn data(&self) -> (r: &'a [u8])
        ensures
            r@ == self.spec_data(),
    {
        self.data
    }

    /// Checks again that the frame count matches the data length.
    pub fn validate(&self) -> (r: Result<(), AudioBufferError>)
        ensures
            spec_same_outcome(
                r,
                spec_layout_check(self.spec_spec(), self.spec_frames(), self.spec_data().len() as usize),
            ),
    {
        layout_check(self.spec, self.frames, self.data.len())
    }
}

/// A writable view of `frames` frames of `spec` PCM.
#[derive(Debug)]
pub struct AudioBufferMut<'a> {
    spec: SampleSpec,
    frames: usize,
    data: &'a mut [u8],
}

impl<'a> AudioBufferMut<'a> {
    pub closed spec fn spec_spec(self) -> SampleSpec {
        self.spec
    }

    pub closed spec fn spec_frames(self) -> usize {
        self.frames
    }

    pub closed spec fn spec_data(self) -> Seq<u8> {
        self.data@
    }

    pub fn new(spec: SampleSpec, frames: usize, data: &'a mut [u8]) -> (r: Result<
        Self,
        AudioBufferError,
    >)
        ensures
            r is Ok <==> spec_layout_check(spec, frames, old(data)@.len() as usize) is Ok,
            r matches Ok(b) ==> b.spec_spec() == spec && b.spec_frames() == frames && b.spec_data()
                == old(data)@,
            r matches Err(e) ==> spec_same_outcome(
                Err(e),
                spec_layout_check(spec, frames, old(data)@.len() as usize),
            ),
    {
        match layout_check(spec, frames, data.len()) {
            Ok(()) => Ok(AudioBufferMut { spec, frames, data }),
            Err(e) => Err(e),
        }
    }

    pub fn spec(&self) -> (r: SampleSpec)
        ensures
            r == self.spec_spec(),
    {
        self.spec
    }

    pub fn frames(&self) -> (r: usize)
        ensures
            r == self.spec_frames(),
    {
        self.frames
    }

    pub fn data(&self) -> (r: &[u8])
        ensures
            r@ == self.spec_data(),
    {
        self.data
    }

    pub fn data_mut(&mut self) -> (r: &mut [u8])
        ensures
            r@ == old(self).spec_data(),
            final(self).spec_data() == final(r)@,
            final(self).spec_spec() == old(self).spec_spec(),
            final(self).spec_frames() == old(self).spec_frames(),
    {
        &mut *self.data
    }

    /// Checks again that the frame count matches the data length.
    pub fn validate(&self) -> (r: Result<(), AudioBufferError>)
        ensures
            spec_same_outcome(
                r,
                spec_layout_check(self.spec_spec(), self.spec_frames(), self.spec_data().len() as usize),
            ),
    {
        layout_check(self.spec, self.frames, self.data.len())
    }
}

/// `data` with every consecutive `width`-byte group reversed.
pub open spec fn spec_reverse_groups(data: Seq<u8>, width: int) -> Seq<u8> {
    Seq::new(data.len(), |i: int| data[(i / width) * width + (width - 1 - i % width)])
}

/// Reversing the bytes of every sample twice gives the bytes back: turning a
/// buffer into the native order and back is lossless.
pub proof fn law_reverse_groups_involution(data: Seq<u8>, width: int)
    requires
        width >= 1,
        (data.len() as int) % width == 0,
    ensures
        spec_reverse_groups(spec_reverse_groups(data, width), width) == data,
{
    let once = spec_reverse_groups(data, width);
    let twice = spec_reverse_groups(once, width);
    assert forall|i: int| 0 <= i < data.len() implies twice[i] == data[i] by {
        let q = i / width;
        let r = i % width;
        vstd::arithmetic::div_mod::lemma_fundamental_div_mod(i, width);
        let j = q * width + (width - 1 - r);
        vstd::arithmetic::div_mod::lemma_fundamental_div_mod_converse(j, width, q, width - 1 - r);
        vstd::arithmetic::div_mod::lemma_fundamental_div_mod(data.len() as int, width);
        assert(j < data.len()) by (nonlinear_arith)
            requires
                i == q * width + r,
                0 <= r < width,
                j == q * width + (width - 1 - r),
                i < data.len(),
                data.len() as int == width * ((data.len() as int) / width),
                width >= 1,
        ;
        assert(0 <= j) by (nonlinear_arith)
            requires
                i >= 0,
                i == q * width + r,
                0 <= r < width,
                j == q * width + (width - 1 - r),
                width >= 1,
        ;
        assert(once[j] == data[(j / width) * width + (width - 1 - j % width)]);
        assert((j / width) * width + (width - 1 - j % width) == i);
    }
    assert(twice =~= data);
}

/// What [`normalize_byte_order_on`] does, on a machine whose byte order is
/// little-endian exactly when `host_little` holds.
pub open spec fn spec_normalized(spec: SampleSpec, data: Seq<u8>, host_little: bool) -> Result<
    Seq<u8>,
    AudioBufferError,
> {
    let width = spec.spec_bytes_per_sample();
    if spec.byte_order.spec_is_native_on(host_little) || width == 1 {
        Ok(data)
    } else if (data.len() as int) % (width as int) != 0 {
        Err(AudioBufferError::FrameAlignment { bytes: data.len() as usize, frame_bytes: width })
    } else {
        Ok(spec_reverse_groups(data, width as int))
    }
}

/// What normalizing does, for every sample width: a buffer already in the
/// machine's order, or of one-byte samples, is left as it is; a buffer that
/// is not a whole number of samples is refused with its length and the
/// sample width; otherwise every sample's bytes come out in reverse order.
pub proof fn law_normalize_reverses_each_sample(spec: SampleSpec, data: Seq<u8>, host_little: bool)
    ensures
        ({
            let w = spec.spec_bytes_per_sample() as int;
            if spec.byte_order.spec_is_native_on(host_little) || w == 1 {
                spec_normalized(spec, data, host_little) == Ok::<Seq<u8>, AudioBufferError>(data)
            } else if (data.len() as int) % w != 0 {
                spec_normalized(spec, data, host_little) == Err::<Seq<u8>, AudioBufferError>(
                    AudioBufferError::FrameAlignment { bytes: data.len() as usize, frame_bytes: w as usize },
                )
            } else {
                spec_normalized(spec, data, host_little) matches Ok(out) && out.len() == data.len()
                    && forall|k: int, j: int|
                    #![trigger out[k * w + j]]
                    0 <= k && 0 <= j < w && k * w + w <= data.len() ==> out[k * w + j] == data[k * w + (w
                        - 1 - j)]
            }
        }),
{
    let w = spec.spec_bytes_per_sample() as int;
    assert(w >= 1) by {
        assert(spec.encoding.spec_bits() >= 8);
    }
    if !(spec.byte_order.spec_is_native_on(host_little) || w == 1) && (data.len() as int) % w == 0 {
        let out = spec_reverse_groups(data, w);
        assert forall|k: int, j: int|
            0 <= k && 0 <= j < w && k * w + w <= data.len() implies #[trigger] out[k * w + j] == data[k * w
            + (w - 1 - j)] by {
            let i = k * w + j;
            vstd::arithmetic::div_mod::lemma_fundamental_div_mod_converse_div(i, w, k, j);
            vstd::arithmetic::div_mod::lemma_fundamental_div_mod_converse_mod(i, w, k, j);
            assert(k * w == w * k) by (nonlinear_arith);
        }
    }
}

/// Normalizing a buffer twice on the same machine gives the buffer back:
/// a second pass leaves it alone when the order is native or samples are
/// single bytes, and otherwise swaps every sample back.
pub proof fn law_normalize_twice_restores(spec: SampleSpec, data: Seq<u8>, host_little: bool)
    ensures
        spec_normalized(spec, data, host_little) matches Ok(once) ==> spec_normalized(
            spec,
            once,
            host_little,
        ) == Ok::<Seq<u8>, AudioBufferError>(data),
{
    let width = spec.spec_bytes_per_sample();
    if !(spec.byte_order.spec_is_native_on(host_little) || width == 1) && (data.len() as int) % (
    width as int) == 0 {
        law_reverse_groups_involution(data, width as int);
    }
}

/// Converts samples of a non-native byte order to native order in place,
/// on a machine whose byte order is little-endian exactly when `host_little`.
pub fn normalize_byte_order_on(spec: SampleSpec, data: &mut [u8], host_little: bool) -> (r: Result<
    (),
    AudioBufferError,
>)
    ensures
        match spec_normalized(spec, old(data)@, host_little) {
            Ok(bytes) => r is Ok && final(data)@ == bytes,
            Err(e) => r == Err::<(), AudioBufferError>(e) && final(data)@ == old(data)@,
        },
{
    let width = spec.bytes_per_sample();
    if spec.byte_order.is_native_on(host_little) || width == 1 {
        return Ok(());
    }
    if data.len() % width != 0 {
        return Err(AudioBufferError::FrameAlignment { bytes: data.len(), frame_bytes: width });
    }
    let ghost initial = data@;
    let groups = data.len() / width;
    proof {
        let len = data@.len() as int;
        let w = width as int;
        assert(groups * width == data@.len()) by (nonlinear_arith)
            requires
                len % w == 0,
                groups == len / w,
                w >= 1,
                len == data@.len(),
                w == width,
        ;
    }
    let mut g: usize = 0;
    while g < groups
        invariant
            width >= 1,
            initial.len() <= usize::MAX,
            groups * width == initial.len(),
            data@.len() == initial.len(),
            g <= groups,
            forall|i: int|
                0 <= i < g * width ==> #[trigger] data@[i] == spec_reverse_groups(
                    initial,
                    width as int,
                )[i],
            forall|i: int| g * width <= i < initial.len() ==> #[trigger] data@[i] == initial[i],
        decreases groups - g,
    {
        proof {
            assert((g + 1) * width <= groups * width) by (nonlinear_arith)
                requires
                    g < groups,
            ;
            assert((g + 1) * width == g * width + width) by (nonlinear_arith);
            assert(g * width <= groups * width) by (nonlinear_arith)
                requires
                    g <= groups,
            ;
        }
        let start = g * width;
        let mut k: usize = 0;
        let half = width / 2;
        while k < half
            invariant
                width >= 1,
                initial.len() <= usize::MAX,
                half == width / 2,
                start + width <= initial.len(),
                data@.len() == initial.len(),
                k <= half,
                forall|i: int|
                    0 <= i < start ==> #[trigger] data@[i] == spec_reverse_groups(
                        initial,
                        width as int,
                    )[i],
                forall|i: int|
                    start + width <= i < initial.len() ==> #[trigger] data@[i] == initial[i],
                forall|j: int|
                    0 <= j < k ==> #[trigger] data@[start + j] == initial[start + width - 1 - j],
                forall|j: int|
                    0 <= j < k ==> #[trigger] data@[start + width - 1 - j] == initial[start + j],
                forall|j: int| k <= j < width - k ==> #[trigger] data@[start + j] == initial[start + j],
            decreases half - k,
        {
            let ghost before = data@;
            proof {
                let m = width - 1 - k;
                assert(k <= m < width - k);
                assert(before[start + m] == initial[start + m]);
                assert(before[start + k] == initial[start + k]);
            }
            let a = data[start + k];
            let b = data[start + width - 1 - k];
            data[start + k] = b;
            data[start + width - 1 - k] = a;
            proof {
                assert(k < width - 1 - k);
                assert forall|j: int| 0 <= j < k + 1 implies #[trigger] data@[start + j]
                    == initial[start + width - 1 - j] by {
                    if j < k {
                        assert(data@[start + j] == before[start + j]);
                    }
                }
                assert forall|j: int| 0 <= j < k + 1 implies #[trigger] data@[start + width - 1 - j]
                    == initial[start + j] by {
                    if j < k {
                        assert(data@[start + width - 1 - j] == before[start + width - 1 - j]);
                    }
                }
                assert forall|j: int| k + 1 <= j < width - (k + 1) implies #[trigger] data@[start + j]
                    == initial[start + j] by {
                    assert(data@[start + j] == before[start + j]);
                }
                assert forall|i: int| 0 <= i < start implies #[trigger] data@[i]
                    == spec_reverse_groups(initial, width as int)[i] by {
                    assert(data@[i] == before[i]);
                }
                assert forall|i: int| start + width <= i < initial.len() implies #[trigger] data@[i]
                    == initial[i] by {
                    assert(data@[i] == before[i]);
                }
            }
            k = k + 1;
        }
        proof {
            assert forall|i: int| 0 <= i < (g + 1) * width implies #[trigger] data@[i]
                == spec_reverse_groups(initial, width as int)[i] by {
                if i >= start {
                    let j = i - start;
                    assert(0 <= j < width);
                    assert(i / (width as int) == g) by (nonlinear_arith)
                        requires
                            i == g * width + j,
                            0 <= j < width,
                            width >= 1,
                    ;
                    assert(i % (width as int) == j) by (nonlinear_arith)
                        requires
                            i == g * width + j,
                            0 <= j < width,
                            width >= 1,
                    ;
                    if j < half {
                        assert(data@[start + j] == initial[start + width - 1 - j]);
                    } else if j >= width - half {
                        let jj = width - 1 - j;
                        assert(0 <= jj < half);
                        assert(data@[start + width - 1 - jj] == initial[start + jj]);
                    } else {
                        assert(j == width - 1 - j);
                    }
                }
            }
        }
        g = g + 1;
    }
    proof {
        assert(data@ =~= spec_reverse_groups(initial, width as int));
    }
    Ok(())
}

/// Converts samples of a non-native byte order to native order in place.
pub fn normalize_byte_order(spec: SampleSpec, data: &mut [u8]) -> (r: Result<(), AudioBufferError>)
    ensures
        exists|host_little: bool|
            #![trigger spec_normalized(spec, old(data)@, host_little)]
            match spec_normalized(spec, old(data)@, host_little) {
                Ok(bytes) => r is Ok && final(data)@ == bytes,
                Err(e) => r == Err::<(), AudioBufferError>(e) && final(data)@ == old(data)@,
            },
        (spec.byte_order is Native || spec.spec_bytes_per_sample() == 1) ==> r is Ok
            && final(data)@ == old(data)@,
{
    let host = crate::pcm::host_is_little_endian();
    normalize_byte_order_on(spec, data, host)
}

} // verus!
