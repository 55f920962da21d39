//! The format descriptors that cross the filter extension interface.
use vstd::prelude::*;

verus! {

/// Stable encoding identifiers of the filter interface.
#[derive(Debug, Clone, Copy, PartialEq, Eq, Structural)]
pub enum AudioEncodingC {
    I8,
    I16,
    I24,
    I32,
    I48,
    I64,
    U8,
    U16,
    U24,
    U32,
    U48,
    U64,
    F32,
    F64,
}

impl AudioEncodingC {
    pub open spec fn spec_code(self) -> u8 {
        match self {
            AudioEncodingC::I8 => 0,
            AudioEncodingC::I16 => 1,
            AudioEncodingC::I24 => 2,
            AudioEncodingC::I32 => 3,
            AudioEncodingC::I48 => 4,
            AudioEncodingC::I64 => 5,
            AudioEncodingC::U8 => 6,
            AudioEncodingC::U16 => 7,
            AudioEncodingC::U24 => 8,
            AudioEncodingC::U32 => 9,
            AudioEncodingC::U48 => 10,
            AudioEncodingC::U64 => 11,
            AudioEncodingC::F32 => 12,
            AudioEncodingC::F64 => 13,
        }
    }

    /// The byte that stands for this encoding on the interface.
    pub fn code(self) -> (c: u8)
        ensures
            c == self.spec_code(),
    {
        match self {
            AudioEncodingC::I8 => 0,
            AudioEncodingC::I16 => 1,
            AudioEncodingC::I24 => 2,
            AudioEncodingC::I32 => 3,
            AudioEncodingC::I48 => 4,
            AudioEncodingC::I64 => 5,
            AudioEncodingC::U8 => 6,
            AudioEncodingC::U16 => 7,
            AudioEncodingC::U24 => 8,
            AudioEncodingC::U32 => 9,
            AudioEncodingC::U48 => 10,
            AudioEncodingC::U64 => 11,
            AudioEncodingC::F32 => 12,
            AudioEncodingC::F64 => 13,
        }
    }

    /// The encoding a byte stands for, if any.
    pub fn from_code(c: u8) -> (r: Option<AudioEncodingC>)
        ensures
            r matches Some(e) ==> e.spec_code() == c,
            r is None <==> c > 13,
    {
        match c {
            0 => Some(AudioEncodingC::I8),
            1 => Some(AudioEncodingC::I16),
            2 => Some(AudioEncodingC::I24),
            3 => Some(AudioEncodingC::I32),
            4 => Some(AudioEncodingC::I48),
            5 => Some(AudioEncodingC::I64),
            6 => Some(AudioEncodingC::U8),
            7 => Some(AudioEncodingC::U16),
            8 => Some(AudioEncodingC::U24),
            9 => Some(AudioEncodingC::U32),
            10 => Some(AudioEncodingC::U48),
            11 => Some(AudioEncodingC::U64),
            12 => Some(AudioEncodingC::F32),
            13 => Some(AudioEncodingC::F64),
            _ => None,
        }
    }
}

/// One PCM format as the interface describes it: codes for the encoding,
/// the interleave and the byte order.
#[derive(Debug, Clone, Copy, PartialEq, Eq, Structural)]
pub struct AudioFormatC {
    pub sample_rate: u32,
    pub channels: u8,
    pub encoding: u8,
    pub interleave: u8,
    pub byte_order: u8,
}

impl AudioFormatC {
    /// A format that matches anything: zero rate and channels, unknown codes.
    pub fn any() -> (r: Self)
        ensures
            r == (AudioFormatC {
                sample_rate: 0,
                channels: 0,
                encoding: 255,
                interleave: 255,
                byte_order: 255,
            }),
    {
        AudioFormatC { sample_rate: 0, channels: 0, encoding: 255, interleave: 255, byte_order: 255 }
    }
}

/// Up to four formats; a length of zero means any format.
#[derive(Debug, Clone, Copy)]
pub struct AudioFormatListC {
    pub formats: [AudioFormatC; 4],
    pub len: u8,
}

impl AudioFormatListC {
    /// The formats in use: the first `len`, at most four.
    pub open spec fn spec_formats(self) -> Seq<AudioFormatC> {
        self.formats@.subrange(
            0,
            if self.len < 4 {
                self.len as int
            } else {
                4
            },
        )
    }

    pub fn any() -> (r: Self)
        ensures
            r.len == 0,
            r.spec_formats() == Seq::<AudioFormatC>::empty(),
            forall|i: int|
                0 <= i < 4 ==> r.formats@[i] == (AudioFormatC {
                    sample_rate: 0,
                    channels: 0,
                    encoding: 255,
                    interleave: 255,
                    byte_order: 255,
                }),
    {
        let a = AudioFormatC::any();
        let r = AudioFormatListC { formats: [a, a, a, a], len: 0 };
        assert(r.spec_formats() =~= Seq::<AudioFormatC>::empty());
        r
    }

    pub fn as_slice(&self) -> (r: &[AudioFormatC])
        ensures
            r@ == self.spec_formats(),
    {
        let n: usize = if self.len < 4 {
            self.len as usize
        } else {
            4
        };
        let s = self.formats.as_slice();
        let r = vstd::slice::slice_subrange(s, 0, n);
        r
    }
}

} // verus!
