//! Capability flags of byte sources, requirements of decoders, and the
//! signatures by which a format is recognised.
use vstd::prelude::*;

verus! {

/// What a source of bytes can do, as a set of bit flags.
#[derive(Debug, Clone, Copy, PartialEq, Eq, Structural)]
pub struct SourceCapabilities {
    pub bits: u8,
}

impl SourceCapabilities {
    #[allow(non_snake_case)]
    pub fn NONE() -> (r: SourceCapabilities)
        ensures
            r.bits == 0,
    {
        SourceCapabilities { bits: 0 }
    }

    /// `open` may be called more than once.
    #[allow(non_snake_case)]
    pub fn MULTI_OPEN() -> (r: SourceCapabilities)
        ensures
            r.bits == 1,
    {
        SourceCapabilities { bits: 1 }
    }

    /// The underlying storage supports random access.
    #[allow(non_snake_case)]
    pub fn SEEKABLE() -> (r: SourceCapabilities)
        ensures
            r.bits == 2,
    {
        SourceCapabilities { bits: 2 }
    }


    pub fn bits(&self) -> (b: u8)
        ensures
            b == self.bits,
    {
        self.bits
    }

    /// Every flag of `other` is set in `self`.
    pub fn contains(&self, other: SourceCapabilities) -> (r: bool)
        ensures
            r == (self.bits & other.bits == other.bits),
    {
        self.bits & other.bits == other.bits
    }

    /// The flags set in either.
    pub fn union(self, other: SourceCapabilities) -> (r: SourceCapabilities)
        ensures
            r.bits == self.bits | other.bits,
    {
        SourceCapabilities { bits: self.bits | other.bits }
    }
}

/// Law: the union of two sets of capabilities contains each of them, and
/// every set contains the empty set.
pub proof fn law_union_contains_operands(a: SourceCapabilities, b: SourceCapabilities)
    ensures
        (a.bits | b.bits) & a.bits == a.bits,
        (a.bits | b.bits) & b.bits == b.bits,
        a.bits & 0u8 == 0u8,
{
    let x = a.bits;
    let y = b.bits;
    assert((x | y) & x == x) by (bit_vector);
    assert((x | y) & y == y) by (bit_vector);
    assert(x & 0u8 == 0u8) by (bit_vector);
}

impl core::ops::BitOr for SourceCapabilities {
    type Output = SourceCapabilities;

    fn bitor(self, rhs: SourceCapabilities) -> (r: SourceCapabilities) {
        self.union(rhs)
    }
}

impl vstd::std_specs::ops::BitOrSpecImpl for SourceCapabilities {
    open spec fn obeys_bitor_spec() -> bool {
        true
    }

    open spec fn bitor_req(self, rhs: SourceCapabilities) -> bool {
        true
    }

    open spec fn bitor_spec(self, rhs: SourceCapabilities) -> SourceCapabilities {
        SourceCapabilities { bits: self.bits | rhs.bits }
    }
}

/// What a decoder needs of the source it reads, as a set of bit flags.
#[derive(Debug, Clone, Copy, PartialEq, Eq, Structural)]
pub struct SourceRequirements {
    pub bits: u8,
}

impl SourceRequirements {
    #[allow(non_snake_case)]
    pub fn NONE() -> (r: SourceRequirements)
        ensures
            r.bits == 0,
    {
        SourceRequirements { bits: 0 }
    }

    #[allow(non_snake_case)]
    pub fn SEEKABLE() -> (r: SourceRequirements)
        ensures
            r.bits == 1,
    {
        SourceRequirements { bits: 1 }
    }

    #[allow(non_snake_case)]
    pub fn KNOWN_LENGTH() -> (r: SourceRequirements)
        ensures
            r.bits == 2,
    {
        SourceRequirements { bits: 2 }
    }

    #[allow(non_snake_case)]
    pub fn KNOWN_CONTENT_TYPE() -> (r: SourceRequirements)
        ensures
            r.bits == 4,
    {
        SourceRequirements { bits: 4 }
    }


    pub fn bits(&self) -> (b: u8)
        ensures
            b == self.bits,
    {
        self.bits
    }

    /// Every flag of `other` is set in `self`.
    pub fn contains(&self, other: SourceRequirements) -> (r: bool)
        ensures
            r == (self.bits & other.bits == other.bits),
    {
        self.bits & other.bits == other.bits
    }

    /// The flags set in either.
    pub fn union(self, other: SourceRequirements) -> (r: SourceRequirements)
        ensures
            r.bits == self.bits | other.bits,
    {
        SourceRequirements { bits: self.bits | other.bits }
    }
}

impl core::ops::BitOr for SourceRequirements {
    type Output = SourceRequirements;

    fn bitor(self, rhs: SourceRequirements) -> (r: SourceRequirements) {
        self.union(rhs)
    }
}

impl vstd::std_specs::ops::BitOrSpecImpl for SourceRequirements {
    open spec fn obeys_bitor_spec() -> bool {
        true
    }

    open spec fn bitor_req(self, rhs: SourceRequirements) -> bool {
        true
    }

    open spec fn bitor_spec(self, rhs: SourceRequirements) -> SourceRequirements {
        SourceRequirements { bits: self.bits | rhs.bits }
    }
}

/// A way to recognise a format: a file extension, a MIME type, magic bytes.
#[derive(Debug, Clone, Copy)]
pub struct FormatSignature {
    pub extension: Option<&'static str>,
    pub mime_type: Option<&'static str>,
    pub magic_bytes: Option<&'static [u8]>,
    pub description: &'static str,
}

impl FormatSignature {
    pub fn from_extension(extension: &'static str, description: &'static str) -> (r: Self)
        ensures
            r.extension == Some(extension),
            r.mime_type is None,
            r.magic_bytes is None,
            r.description == description,
    {
        FormatSignature { extension: Some(extension), mime_type: None, magic_bytes: None, description }
    }

    pub fn with_mime(self, mime_type: &'static str) -> (r: Self)
        ensures
            r.mime_type == Some(mime_type),
            r.extension == self.extension,
            r.magic_bytes == self.magic_bytes,
            r.description == self.description,
    {
        FormatSignature { mime_type: Some(mime_type), ..self }
    }

    pub fn with_magic(self, magic_bytes: &'static [u8]) -> (r: Self)
        ensures
            r.magic_bytes == Some(magic_bytes),
            r.extension == self.extension,
            r.mime_type == self.mime_type,
            r.description == self.description,
    {
        FormatSignature { magic_bytes: Some(magic_bytes), ..self }
    }
}

} // verus!
