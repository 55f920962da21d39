//! Exact PCM formats: sample encoding, byte order and the format-aware spec
//! used by audio buffers, the filter chain and output planning.
use vstd::prelude::*;
use crate::types::{Interleave, MAX_STREAM_CHANNELS};

verus! {

/// Encoding of one PCM sample.
#[derive(Debug, Clone, Copy, PartialEq, Eq, Hash, Structural)]
pub enum PcmEncoding {
    I8,
    I16,
    I24,
    I32,
    I48,
    I64,
    U8,
    U16,
    U24,
    U32,
    U48,
    U64,
    F32,
    F64,
}

impl PcmEncoding {
    /// Width of one sample in bits.
    pub open spec fn spec_bits(self) -> u16 {
        match self {
            PcmEncoding::I8 | PcmEncoding::U8 => 8,
            PcmEncoding::I16 | PcmEncoding::U16 => 16,
            PcmEncoding::I24 | PcmEncoding::U24 => 24,
            PcmEncoding::I32 | PcmEncoding::U32 | PcmEncoding::F32 => 32,
            PcmEncoding::I48 | PcmEncoding::U48 => 48,
            PcmEncoding::I64 | PcmEncoding::U64 | PcmEncoding::F64 => 64,
        }
    }

    pub open spec fn spec_is_float(self) -> bool {
        self is F32 || self is F64
    }

    pub open spec fn spec_is_signed(self) -> bool {
        self is I8 || self is I16 || self is I24 || self is I32 || self is I48 || self is I64
    }

    pub open spec fn spec_is_unsigned(self) -> bool {
        self is U8 || self is U16 || self is U24 || self is U32 || self is U48 || self is U64
    }

    pub open spec fn spec_bytes_per_sample(self) -> usize {
        (self.spec_bits() / 8) as usize
    }

    pub fn bits(self) -> (r: u16)
        ensures
            r == self.spec_bits(),
    {
        match self {
            PcmEncoding::I8 | PcmEncoding::U8 => 8,
            PcmEncoding::I16 | PcmEncoding::U16 => 16,
            PcmEncoding::I24 | PcmEncoding::U24 => 24,
            PcmEncoding::I32 | PcmEncoding::U32 | PcmEncoding::F32 => 32,
            PcmEncoding::I48 | PcmEncoding::U48 => 48,
            PcmEncoding::I64 | PcmEncoding::U64 | PcmEncoding::F64 => 64,
        }
    }

    pub fn bytes_per_sample(self) -> (r: usize)
        ensures
            r == self.spec_bytes_per_sample(),
            1 <= r <= 8,
    {
        (self.bits() / 8) as usize
    }

    pub fn is_float(self) -> (r: bool)
        ensures
            r == self.spec_is_float(),
    {
        matches!(self, PcmEncoding::F32 | PcmEncoding::F64)
    }

    pub fn is_signed(self) -> (r: bool)
        ensures
            r == self.spec_is_signed(),
    {
        matches!(
            self,
            PcmEncoding::I8 | PcmEncoding::I16 | PcmEncoding::I24 | PcmEncoding::I32
                | PcmEncoding::I48 | PcmEncoding::I64
        )
    }

    pub fn is_unsigned(self) -> (r: bool)
        ensures
            r == self.spec_is_unsigned(),
    {
        matches!(
            self,
            PcmEncoding::U8 | PcmEncoding::U16 | PcmEncoding::U24 | PcmEncoding::U32
                | PcmEncoding::U48 | PcmEncoding::U64
        )
    }

    pub open spec fn spec_name(self) -> Seq<char> {
        match self {
            PcmEncoding::I8 => "I8"@,
            PcmEncoding::I16 => "I16"@,
            PcmEncoding::I24 => "I24"@,
            PcmEncoding::I32 => "I32"@,
            PcmEncoding::I48 => "I48"@,
            PcmEncoding::I64 => "I64"@,
            PcmEncoding::U8 => "U8"@,
            PcmEncoding::U16 => "U16"@,
            PcmEncoding::U24 => "U24"@,
            PcmEncoding::U32 => "U32"@,
            PcmEncoding::U48 => "U48"@,
            PcmEncoding::U64 => "U64"@,
            PcmEncoding::F32 => "F32"@,
            PcmEncoding::F64 => "F64"@,
        }
    }

    /// The name under which the encoding is shown ("I16", "F32", ...).
    pub fn name(self) -> (r: &'static str)
        ensures
            r@ == self.spec_name(),
    {
        match self {
            PcmEncoding::I8 => "I8",
            PcmEncoding::I16 => "I16",
            PcmEncoding::I24 => "I24",
            PcmEncoding::I32 => "I32",
            PcmEncoding::I48 => "I48",
            PcmEncoding::I64 => "I64",
            PcmEncoding::U8 => "U8",
            PcmEncoding::U16 => "U16",
            PcmEncoding::U24 => "U24",
            PcmEncoding::U32 => "U32",
            PcmEncoding::U48 => "U48",
            PcmEncoding::U64 => "U64",
            PcmEncoding::F32 => "F32",
            PcmEncoding::F64 => "F64",
        }
    }
}

/// Byte order of multi-byte samples.
#[derive(Debug, Clone, Copy, PartialEq, Eq, Hash, Structural)]
pub enum ByteOrder {
    /// Whatever order the running machine uses.
    Native,
    Little,
    Big,
}

/// Calls std's `u16::from_ne_bytes` on `[b0, b1]`: the bytes read in the
/// machine's own order, least significant first on a little-endian machine
/// and most significant first on a big-endian one. Which of the two it is
/// depends on the machine, so only that it is one of them is stated.
#[verifier::external_body]
fn native_u16(b0: u8, b1: u8) -> (r: u16)
    ensures
        r == b0 + 256 * b1 || r == b1 + 256 * b0,
{
    u16::from_ne_bytes([b0, b1])
}

/// Reports whether the running machine stores integers least significant
/// byte first: the bytes `[1, 0]` read in its order give 1. Which answer
/// comes is a property of the machine, so nothing more is stated of it.
pub fn host_is_little_endian() -> (r: bool) {
    native_u16(1, 0) == 1
}

impl ByteOrder {
    /// Whether this order matches a machine whose order is little-endian
    /// exactly when `host_little` holds.
    pub open spec fn spec_is_native_on(self, host_little: bool) -> bool {
        match self {
            ByteOrder::Native => true,
            ByteOrder::Little => host_little,
            ByteOrder::Big => !host_little,
        }
    }

    pub fn is_native_on(self, host_little: bool) -> (r: bool)
        ensures
            r == self.spec_is_native_on(host_little),
    {
        match self {
            ByteOrder::Native => true,
            ByteOrder::Little => host_little,
            ByteOrder::Big => !host_little,
        }
    }

    /// Whether the order matches the running machine.
    pub fn is_native(self) -> (r: bool)
        ensures
            exists|host_little: bool| r == self.spec_is_native_on(host_little),
            self is Native ==> r,
    {
        let host = host_is_little_endian();
        self.is_native_on(host)
    }

    pub open spec fn spec_name(self) -> Seq<char> {
        match self {
            ByteOrder::Native => "Native"@,
            ByteOrder::Little => "Little"@,
            ByteOrder::Big => "Big"@,
        }
    }

    pub fn name(self) -> (r: &'static str)
        ensures
            r@ == self.spec_name(),
    {
        match self {
            ByteOrder::Native => "Native",
            ByteOrder::Little => "Little",
            ByteOrder::Big => "Big",
        }
    }
}

/// Exact PCM format of a stream or buffer.
#[derive(Debug, Clone, Copy, PartialEq, Eq, Hash, Structural)]
pub struct SampleSpec {
    pub sample_rate: u32,
    pub channels: u8,
    pub encoding: PcmEncoding,
    pub interleave: Interleave,
    pub byte_order: ByteOrder,
}

/// A spec value satisfies what [`SampleSpec::new`] checks.
pub open spec fn spec_valid(spec: SampleSpec) -> bool {
    spec.sample_rate > 0 && 1 <= spec.channels <= MAX_STREAM_CHANNELS
}

impl SampleSpec {
    pub open spec fn spec_bytes_per_sample(self) -> usize {
        self.encoding.spec_bytes_per_sample()
    }

    pub open spec fn spec_bytes_per_frame(self) -> int {
        self.channels * self.spec_bytes_per_sample()
    }

    pub fn new(
        sample_rate: u32,
        channels: u8,
        encoding: PcmEncoding,
        interleave: Interleave,
        byte_order: ByteOrder,
    ) -> (r: Result<Self, &'static str>)
        ensures
            r is Ok <==> (sample_rate > 0 && 1 <= channels <= MAX_STREAM_CHANNELS),
            r matches Err(e) ==> (sample_rate == 0 ==> e@ == "sample_rate must be > 0"@),
            r matches Err(e) ==> (sample_rate != 0 ==> e@ == "channels must be in 1..=32"@),
            r matches Ok(s) ==> s == (SampleSpec {
                sample_rate,
                channels,
                encoding,
                interleave,
                byte_order,
            }),
    {
        if sample_rate == 0 {
            return Err("sample_rate must be > 0");
        }
        if channels == 0 || channels > MAX_STREAM_CHANNELS {
            return Err("channels must be in 1..=32");
        }
        Ok(SampleSpec { sample_rate, channels, encoding, interleave, byte_order })
    }

    /// An interleaved spec in the machine's own byte order.
    pub fn interleaved(sample_rate: u32, channels: u8, encoding: PcmEncoding) -> (r: Result<
        Self,
        &'static str,
    >)
        ensures
            r is Ok <==> (sample_rate > 0 && 1 <= channels <= MAX_STREAM_CHANNELS),
            r matches Err(e) ==> (sample_rate == 0 ==> e@ == "sample_rate must be > 0"@),
            r matches Err(e) ==> (sample_rate != 0 ==> e@ == "channels must be in 1..=32"@),
            r matches Ok(s) ==> s == (SampleSpec {
                sample_rate,
                channels,
                encoding,
                interleave: Interleave::Interleaved,
                byte_order: ByteOrder::Native,
            }),
    {
        Self::new(sample_rate, channels, encoding, Interleave::Interleaved, ByteOrder::Native)
    }

    pub fn bytes_per_sample(&self) -> (r: usize)
        ensures
            r == self.spec_bytes_per_sample(),
            1 <= r <= 8,
    {
        self.encoding.bytes_per_sample()
    }

    pub fn bytes_per_frame(&self) -> (r: usize)
        ensures
            r == self.spec_bytes_per_frame(),
            r <= 255 * 8,
    {
        let per_sample = self.encoding.bytes_per_sample();
        assert(self.channels * per_sample <= 255 * 8) by (nonlinear_arith)
            requires
                self.channels <= 255,
                per_sample <= 8,
        ;
        (self.channels as usize) * per_sample
    }
}

} // verus!
