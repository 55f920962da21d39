//! Codec identities, the ordered registry used to pick codecs by extension or
//! magic bytes, and the prefix-caching reader that lets several codecs try
//! the same non-seekable stream.
use vstd::prelude::*;
use crate::source::FormatSignature;
use crate::text::{lowercase_of, spec_decimal, to_lowercase};

verus! {

// ---------------------------------------------------------------------------
// CodecInfo and CodecRegistry
// ---------------------------------------------------------------------------

/// Static identity of a codec: its name and the formats it claims.
#[derive(Debug, Clone, Copy)]
pub struct CodecInfo {
    pub name: &'static str,
    pub supported_formats: &'static [FormatSignature],
}

impl CodecInfo {
    pub fn new(name: &'static str, supported_formats: &'static [FormatSignature]) -> (r: Self)
        ensures
            r.name == name,
            r.supported_formats == supported_formats,
    {
        CodecInfo { name, supported_formats }
    }
}

/// ASCII lowercase of one byte.
pub open spec fn ascii_lower(b: u8) -> u8 {
    if 65 <= b <= 90 {
        (b + 32) as u8
    } else {
        b
    }
}

/// Equal up to ASCII case, as `str::eq_ignore_ascii_case` compares.
pub open spec fn ascii_eq_ignore_case(a: Seq<u8>, b: Seq<u8>) -> bool {
    a.len() == b.len() && forall|i: int| 0 <= i < a.len() ==> ascii_lower(#[trigger] a[i]) == ascii_lower(b[i])
}

pub fn eq_ignore_ascii_case(a: &str, b: &str) -> (r: bool)
    ensures
        r == ascii_eq_ignore_case(vstd::utf8::encode_utf8(a@), vstd::utf8::encode_utf8(b@)),
{
    let x = a.as_bytes();
    let y = b.as_bytes();
    if x.len() != y.len() {
        return false;
    }
    let mut i: usize = 0;
    while i < x.len()
        invariant
            x@ == vstd::utf8::encode_utf8(a@),
            y@ == vstd::utf8::encode_utf8(b@),
            x.len() == y.len(),
            i <= x.len(),
            forall|j: int| 0 <= j < i ==> ascii_lower(#[trigger] x@[j]) == ascii_lower(y@[j]),
        decreases x.len() - i,
    {
        let p = if 65 <= x[i] && x[i] <= 90 {
            x[i] + 32
        } else {
            x[i]
        };
        let q = if 65 <= y[i] && y[i] <= 90 {
            y[i] + 32
        } else {
            y[i]
        };
        if p != q {
            assert(ascii_lower(x@[i as int]) != ascii_lower(y@[i as int]));
            return false;
        }
        i = i + 1;
    }
    true
}

/// The format's extension equals `key` up to ASCII case.
pub open spec fn format_has_extension(f: FormatSignature, key: Seq<u8>) -> bool {
    match f.extension {
        Some(e) => ascii_eq_ignore_case(vstd::utf8::encode_utf8(e@), key),
        None => false,
    }
}

/// The format's magic bytes start `probe`.
pub open spec fn format_has_magic(f: FormatSignature, probe: Seq<u8>) -> bool {
    match f.magic_bytes {
        Some(m) => m@.len() <= probe.len() && probe.subrange(0, m@.len() as int) == m@,
        None => false,
    }
}

/// Some format of `c` has an extension equal to `key` up to ASCII case.
pub open spec fn claims_extension(c: CodecInfo, key: Seq<u8>) -> bool {
    exists|j: int| 0 <= j < c.supported_formats@.len() && format_has_extension(#[trigger] c.supported_formats@[j], key)
}

/// Some format of `c` has magic bytes that start `probe`.
pub open spec fn claims_magic(c: CodecInfo, probe: Seq<u8>) -> bool {
    exists|j: int| 0 <= j < c.supported_formats@.len() && format_has_magic(#[trigger] c.supported_formats@[j], probe)
}

/// Codecs in the order they were registered; earlier ones are tried first.
pub struct CodecRegistry {
    entries: Vec<CodecInfo>,
}

impl View for CodecRegistry {
    type V = Seq<CodecInfo>;

    closed spec fn view(&self) -> Seq<CodecInfo> {
        self.entries@
    }
}

fn extension_matches(c: CodecInfo, key: &str) -> (r: bool)
    ensures
        r == claims_extension(c, vstd::utf8::encode_utf8(key@)),
{
    let mut j: usize = 0;
    while j < c.supported_formats.len()
        invariant
            j <= c.supported_formats@.len(),
            forall|k: int|
                0 <= k < j ==> !format_has_extension(
                    #[trigger] c.supported_formats@[k],
                    vstd::utf8::encode_utf8(key@),
                ),
        decreases c.supported_formats@.len() - j,
    {
        let f = c.supported_formats[j];
        match f.extension {
            Some(e) => {
                if eq_ignore_ascii_case(e, key) {
                    return true;
                }
            },
            None => {},
        }
        j = j + 1;
    }
    false
}

fn starts_with(probe: &[u8], magic: &[u8]) -> (r: bool)
    ensures
        r == (magic@.len() <= probe@.len() && probe@.subrange(0, magic@.len() as int) == magic@),
{
    if magic.len() > probe.len() {
        return false;
    }
    let mut i: usize = 0;
    while i < magic.len()
        invariant
            magic.len() <= probe.len(),
            i <= magic.len(),
            forall|k: int| 0 <= k < i ==> probe@[k] == magic@[k],
        decreases magic.len() - i,
    {
        if probe[i] != magic[i] {
            assert(probe@.subrange(0, magic@.len() as int)[i as int] != magic@[i as int]);
            return false;
        }
        i = i + 1;
    }
    assert(probe@.subrange(0, magic@.len() as int) =~= magic@);
    true
}

fn magic_matches(c: CodecInfo, probe: &[u8]) -> (r: bool)
    ensures
        r == claims_magic(c, probe@),
{
    let mut j: usize = 0;
    while j < c.supported_formats.len()
        invariant
            j <= c.supported_formats@.len(),
            forall|k: int| 0 <= k < j ==> !format_has_magic(#[trigger] c.supported_formats@[k], probe@),
        decreases c.supported_formats@.len() - j,
    {
        let f = c.supported_formats[j];
        match f.magic_bytes {
            Some(m) => {
                if starts_with(probe, m) {
                    return true;
                }
            },
            None => {},
        }
        j = j + 1;
    }
    false
}

impl CodecRegistry {
    pub fn new() -> (r: Self)
        ensures
            r@ == Seq::<CodecInfo>::empty(),
    {
        CodecRegistry { entries: Vec::new() }
    }

    /// Adds a codec after those already registered.
    pub fn push(&mut self, info: CodecInfo)
        ensures
            final(self)@ == old(self)@.push(info),
    {
        self.entries.push(info);
    }

    /// Every codec, in registration order.
    pub fn all(&self) -> (r: &[CodecInfo])
        ensures
            r@ == self@,
    {
        self.entries.as_slice()
    }

    /// The codecs, in registration order, that claim the extension `ext`,
    /// compared after lowercasing `ext` and up to ASCII case.
    pub fn by_extension(&self, ext: &str) -> (r: Vec<CodecInfo>)
        ensures
            r@ == self@.filter(
                |c: CodecInfo| claims_extension(c, vstd::utf8::encode_utf8(lowercase_of(ext@))),
            ),
    {
        let key = to_lowercase(ext);
        let ghost pred = |c: CodecInfo| claims_extension(c, vstd::utf8::encode_utf8(key@));
        let mut out: Vec<CodecInfo> = Vec::new();
        let mut i: usize = 0;
        while i < self.entries.len()
            invariant
                i <= self.entries@.len(),
                pred == (|c: CodecInfo| claims_extension(c, vstd::utf8::encode_utf8(key@))),
                out@ == self.entries@.subrange(0, i as int).filter(pred),
            decreases self.entries@.len() - i,
        {
            let c = self.entries[i];
            proof {
                reveal(Seq::filter);
                assert(self.entries@.subrange(0, i + 1).drop_last() =~= self.entries@.subrange(
                    0,
                    i as int,
                ));
            }
            if extension_matches(c, key.as_str()) {
                out.push(c);
            }
            i = i + 1;
        }
        proof {
            assert(self.entries@.subrange(0, self.entries@.len() as int) =~= self.entries@);
        }
        out
    }

    /// The codecs, in registration order, with magic bytes that start `probe`.
    pub fn by_magic(&self, probe: &[u8]) -> (r: Vec<CodecInfo>)
        ensures
            r@ == self@.filter(|c: CodecInfo| claims_magic(c, probe@)),
    {
        let ghost pred = |c: CodecInfo| claims_magic(c, probe@);
        let mut out: Vec<CodecInfo> = Vec::new();
        let mut i: usize = 0;
        while i < self.entries.len()
            invariant
                i <= self.entries@.len(),
                pred == (|c: CodecInfo| claims_magic(c, probe@)),
                out@ == self.entries@.subrange(0, i as int).filter(pred),
            decreases self.entries@.len() - i,
        {
            let c = self.entries[i];
            proof {
                reveal(Seq::filter);
                assert(self.entries@.subrange(0, i + 1).drop_last() =~= self.entries@.subrange(
                    0,
                    i as int,
                ));
            }
            if magic_matches(c, probe) {
                out.push(c);
            }
            i = i + 1;
        }
        proof {
            assert(self.entries@.subrange(0, self.entries@.len() as int) =~= self.entries@);
        }
        out
    }
}


// ---------------------------------------------------------------------------
// PrefixReader
// ---------------------------------------------------------------------------

/// A stream that hands out its bytes in chunks, front to back.
pub trait ChunkSource {
    /// The bytes the stream has handed out so far, in order.
    spec fn taken(&self) -> Seq<u8>;

    /// Every byte the stream holds: those handed out and those to come.
    spec fn contents(&self) -> Seq<u8>;

    /// What was handed out is the start of what the stream holds.
    proof fn lemma_taken_in_contents(&self)
        ensures
            is_prefix(self.taken(), self.contents()),
    ;

    /// Whether the stream never fails, as one held in memory.
    spec fn infallible(&self) -> bool;

    /// The next `max` bytes of the stream, or all that are left when fewer
    /// are; none at its end. The bytes handed out follow those handed out
    /// before; a failure hands out none, and a stream that never fails does
    /// not.
    fn read_chunk(&mut self, max: usize) -> (r: Result<Vec<u8>, String>)
        ensures
            final(self).contents() == old(self).contents(),
            final(self).infallible() == old(self).infallible(),
            old(self).infallible() ==> r is Ok,
            match r {
                Ok(v) => {
                    &&& final(self).taken() == old(self).taken() + v@
                    &&& v@.len() == spec_chunk_len(
                        max as int,
                        old(self).contents().len() - old(self).taken().len(),
                    )
                },
                Err(_) => final(self).taken() == old(self).taken(),
            },
    ;
}

/// How many bytes a stream hands out when asked for `max` with `left` to go.
pub open spec fn spec_chunk_len(max: int, left: int) -> int {
    if max < left {
        max
    } else {
        left
    }
}

/// The first length at or past `need` that whole chunks of `cap` reach from
/// `have`.
pub open spec fn spec_fill_goal(have: int, need: int, cap: int) -> int {
    have + cap * ((need - have + cap - 1) / cap)
}

/// How many bytes a reader holds after filling toward `need` from `have`, in
/// chunks of `cap`, from a stream with `avail` bytes in all: `have` when that
/// is enough or chunks are empty; else whole chunks up to the first length
/// that reaches `need`, or all the stream has when that is less.
pub open spec fn spec_fill_len(have: int, need: int, cap: int, avail: int) -> int {
    if have >= need || cap <= 0 {
        have
    } else if avail < spec_fill_goal(have, need, cap) {
        avail
    } else {
        spec_fill_goal(have, need, cap)
    }
}

proof fn lemma_fill_goal(have: int, need: int, cap: int)
    requires
        have < need,
        cap > 0,
    ensures
        spec_fill_goal(have, need, cap) >= need,
        spec_fill_goal(have, need, cap) - cap < need,
{
    let x = need - have + cap - 1;
    let q = x / cap;
    vstd::arithmetic::div_mod::lemma_fundamental_div_mod(x, cap);
    vstd::arithmetic::div_mod::lemma_mod_pos_bound(x, cap);
    assert(cap * q + cap > x);
    assert(cap * q <= x);
}

/// An in-memory stream over a byte vector.
pub struct SliceSource {
    data: Vec<u8>,
    pos: usize,
}

impl SliceSource {
    pub closed spec fn spec_data(&self) -> Seq<u8> {
        self.data@
    }

    pub closed spec fn spec_pos(&self) -> int {
        self.pos as int
    }

    pub fn new(data: Vec<u8>) -> (r: Self)
        ensures
            r.spec_data() == data@,
            r.spec_pos() == 0,
    {
        SliceSource { data, pos: 0 }
    }
}

impl ChunkSource for SliceSource {
    /// The bytes before the read position.
    closed spec fn taken(&self) -> Seq<u8> {
        if self.pos <= self.data@.len() {
            self.data@.subrange(0, self.pos as int)
        } else {
            self.data@
        }
    }

    /// The data, whatever was read of it.
    closed spec fn contents(&self) -> Seq<u8> {
        self.data@
    }

    /// Reading memory does not fail.
    closed spec fn infallible(&self) -> bool {
        true
    }

    proof fn lemma_taken_in_contents(&self) {
        assert(self.data@.subrange(0, self.data@.len() as int) =~= self.data@);
        if self.pos <= self.data@.len() {
            assert(self.data@.subrange(0, self.pos as int).len() == self.pos);
        }
    }

    fn read_chunk(&mut self, max: usize) -> (r: Result<Vec<u8>, String>)
        ensures
            old(self).spec_pos() <= old(self).spec_data().len() ==> (r matches Ok(v) && {
                let n = if max < old(self).spec_data().len() - old(self).spec_pos() {
                    max as int
                } else {
                    old(self).spec_data().len() - old(self).spec_pos()
                };
                &&& v@ == old(self).spec_data().subrange(old(self).spec_pos(), old(self).spec_pos() + n)
                &&& final(self).spec_pos() == old(self).spec_pos() + n
                &&& final(self).spec_data() == old(self).spec_data()
            }),
    {
        if self.pos > self.data.len() {
            proof {
                assert(self.taken() + Seq::<u8>::empty() =~= self.taken());
            }
            return Ok(Vec::new());
        }
        let left = self.data.len() - self.pos;
        let n = if max < left {
            max
        } else {
            left
        };
        let mut out: Vec<u8> = Vec::new();
        let mut i: usize = 0;
        while i < n
            invariant
                self.pos + n <= self.data.len(),
                i <= n,
                out@ == self.data@.subrange(self.pos as int, self.pos + i),
            decreases n - i,
        {
            out.push(self.data[self.pos + i]);
            proof {
                assert(out@ =~= self.data@.subrange(self.pos as int, self.pos + i + 1));
            }
            i = i + 1;
        }
        let ghost before = self.taken();
        self.pos = self.pos + n;
        proof {
            assert(self.taken() =~= before + out@);
        }
        Ok(out)
    }
}

impl SliceSource {
    /// What the stream has handed out: the bytes before its read position,
    /// always a prefix of its data, which is all it holds; reading it never
    /// fails.
    pub proof fn lemma_taken(&self)
        ensures
            self.spec_pos() <= self.spec_data().len() ==> self.taken() == self.spec_data().subrange(
                0,
                self.spec_pos(),
            ),
            is_prefix(self.taken(), self.spec_data()),
            self.contents() == self.spec_data(),
            self.infallible(),
    {
        assert(self.data@.subrange(0, self.data@.len() as int) =~= self.data@);
        if self.pos <= self.data@.len() {
            assert(self.data@.subrange(0, self.pos as int).len() == self.pos);
        }
    }
}

/// Law: whatever the stream, a reader holds exactly the stream's bytes from
/// where it took over, as many as it pulled. Every read, seek and rewind keeps
/// the reader well formed, keeps where it took over and what the stream
/// holds, and only lets the buffer grow, so this holds after any sequence of
/// calls, with each buffer a prefix of the next.
pub proof fn law_buffer_is_stream_from_start<R: ChunkSource>(r: PrefixReader<R>)
    requires
        r.wf(),
    ensures
        r.taken_before().len() + r.buffered().len() <= r.source().contents().len(),
        r.buffered() == r.source().contents().subrange(
            r.taken_before().len() as int,
            (r.taken_before().len() + r.buffered().len()) as int,
        ),
{
    r.source().lemma_taken_in_contents();
    r.lemma_buffered_is_taken();
    let t = r.source().taken();
    let c = r.source().contents();
    let s = r.taken_before().len() as int;
    let n = r.buffered().len() as int;
    assert(t.len() == s + n);
    assert forall|i: int| 0 <= i < n implies #[trigger] r.buffered()[i] == c.subrange(s, s + n)[i] by {
        assert(c.subrange(0, t.len() as int)[s + i] == c[s + i]);
        assert(t.subrange(s, t.len() as int)[i] == t[s + i]);
    }
    assert(r.buffered() =~= c.subrange(s, s + n));
}

/// Law: a reader made over a fresh in-memory stream holds a prefix of the
/// stream's bytes, whatever reads, seeks and rewinds came before.
pub proof fn law_buffer_is_stream_prefix(r: PrefixReader<SliceSource>)
    requires
        r.wf(),
        r.taken_before() == Seq::<u8>::empty(),
    ensures
        is_prefix(r.buffered(), r.source().spec_data()),
{
    r.lemma_buffered_is_taken();
    r.source().lemma_taken();
    let t = r.source().taken();
    assert(t.subrange(0, t.len() as int) =~= t);
    assert(r.buffered() =~= t);
}

/// Law: what a reader over a fresh in-memory stream holds at any position is
/// the stream's own bytes from there, so a read after a rewind replays the
/// stream from its start.
pub proof fn law_buffer_replays_stream(r: PrefixReader<SliceSource>, from: int, n: int)
    requires
        r.wf(),
        r.taken_before() == Seq::<u8>::empty(),
        0 <= from,
        0 <= n,
        from + n <= r.buffered().len(),
    ensures
        r.buffered().subrange(from, from + n) == r.source().spec_data().subrange(from, from + n),
{
    law_buffer_is_stream_prefix(r);
    let b = r.buffered();
    let d = r.source().spec_data();
    assert(d.subrange(0, b.len() as int) == b);
    let x = b.subrange(from, from + n);
    let y = d.subrange(from, from + n);
    assert forall|i: int| 0 <= i < n implies #[trigger] x[i] == y[i] by {
        assert(d.subrange(0, b.len() as int)[from + i] == d[from + i]);
    }
    assert(x =~= y);
}

/// Where a seek goes: from the start, from the end, or from the current position.
#[derive(Debug, Clone, Copy, PartialEq, Eq, Structural)]
pub enum SeekFrom {
    Start(u64),
    End(i64),
    Current(i64),
}

#[derive(Debug, Clone, PartialEq, Eq)]
pub enum PrefixReadError {
    /// The underlying stream failed.
    Inner(String),
    /// Seeking from the end is not supported.
    EndUnsupported,
    /// The target lies before the start.
    NegativePosition,
    /// The stream ended before the target.
    BeyondBuffered { target: u64, available: usize },
}

impl PrefixReadError {
    /// The message shown for this error.
    pub open spec fn spec_message(self) -> Seq<char> {
        match self {
            PrefixReadError::Inner(m) => m@,
            PrefixReadError::EndUnsupported => "PrefixReader does not support SeekFrom::End"@,
            PrefixReadError::NegativePosition => "negative seek position"@,
            PrefixReadError::BeyondBuffered { target, available } => "seek to "@ + spec_decimal(
                target as nat,
            ) + " beyond buffered data ("@ + spec_decimal(available as nat) + " bytes available)"@,
        }
    }

    pub fn to_string(&self) -> (r: String)
        ensures
            r@ == self.spec_message(),
    {
        match self {
            PrefixReadError::Inner(m) => m.clone(),
            PrefixReadError::EndUnsupported => String::from_str(
                "PrefixReader does not support SeekFrom::End",
            ),
            PrefixReadError::NegativePosition => String::from_str("negative seek position"),
            PrefixReadError::BeyondBuffered { target, available } => {
                let mut s = String::from_str("seek to ");
                crate::text::push_decimal(&mut s, *target);
                s.append(" beyond buffered data (");
                crate::text::push_decimal(&mut s, *available as u64);
                s.append(" bytes available)");
                s
            },
        }
    }
}

/// Wraps a stream that cannot seek, keeping every byte read so far, so that
/// reads can be replayed from any position within what was read.
pub struct PrefixReader<R: ChunkSource> {
    inner: R,
    buffer: Vec<u8>,
    pos: usize,
    capacity: usize,
    /// What the stream had handed out before the reader took it.
    taken_before: Ghost<Seq<u8>>,
}

/// `a` is a prefix of `b`.
pub open spec fn is_prefix(a: Seq<u8>, b: Seq<u8>) -> bool {
    a.len() <= b.len() && b.subrange(0, a.len() as int) == a
}

proof fn lemma_prefix_refl(a: Seq<u8>)
    ensures
        is_prefix(a, a),
{
    assert(a.subrange(0, a.len() as int) =~= a);
}

impl<R: ChunkSource> PrefixReader<R> {
    /// The bytes read from the stream so far.
    pub closed spec fn buffered(&self) -> Seq<u8> {
        self.buffer@
    }

    /// The logical read position.
    pub closed spec fn position(&self) -> int {
        self.pos as int
    }

    /// The chunk size used to read from the stream.
    pub closed spec fn chunk_size(&self) -> usize {
        self.capacity
    }

    /// The stream read from.
    pub closed spec fn source(&self) -> R {
        self.inner
    }

    /// What the stream had handed out before the reader was made over it.
    pub closed spec fn taken_before(&self) -> Seq<u8> {
        self.taken_before@
    }

    /// The position lies within the buffer, and the buffer holds exactly the
    /// bytes the stream handed out since the reader was made over it.
    pub closed spec fn wf(&self) -> bool {
        &&& self.pos <= self.buffer@.len()
        &&& self.inner.taken() == self.taken_before@ + self.buffer@
    }

    pub fn new(inner: R, capacity: usize) -> (r: Self)
        ensures
            r.wf(),
            r.buffered() == Seq::<u8>::empty(),
            r.position() == 0,
            r.chunk_size() == capacity,
            r.source() == inner,
            r.taken_before() == inner.taken(),
            r.source().taken() == r.taken_before() + r.buffered(),
    {
        let ghost before = inner.taken();
        let r = PrefixReader {
            inner,
            buffer: Vec::with_capacity(capacity),
            pos: 0,
            capacity,
            taken_before: Ghost(before),
        };
        proof {
            assert(before + Seq::<u8>::empty() =~= before);
        }
        r
    }

    /// The buffered bytes are those the stream handed out since the reader
    /// was made over it.
    pub proof fn lemma_buffered_is_taken(&self)
        requires
            self.wf(),
        ensures
            self.buffered() == self.source().taken().subrange(
                self.taken_before().len() as int,
                self.source().taken().len() as int,
            ),
    {
        assert(self.inner.taken().subrange(
            self.taken_before@.len() as int,
            self.inner.taken().len() as int,
        ) =~= self.buffer@);
    }

    /// Moves the read position back to the start; nothing buffered is lost.
    pub fn rewind(&mut self)
        requires
            old(self).wf(),
        ensures
            final(self).wf(),
            final(self).position() == 0,
            final(self).buffered() == old(self).buffered(),
            final(self).chunk_size() == old(self).chunk_size(),
            final(self).source() == old(self).source(),
            final(self).taken_before() == old(self).taken_before(),
            final(self).source().taken() == final(self).taken_before() + final(self).buffered(),
            final(self).source().contents() == old(self).source().contents(),
            final(self).source().infallible() == old(self).source().infallible(),
    {
        self.pos = 0;
    }

    /// The bytes buffered so far.
    pub fn buffer(&self) -> (r: &[u8])
        ensures
            r@ == self.buffered(),
    {
        self.buffer.as_slice()
    }

    /// Reads from the stream until at least `need` bytes are buffered or the
    /// stream ends; returns how many bytes are buffered.
    fn fill_to(&mut self, need: usize) -> (r: Result<usize, PrefixReadError>)
        requires
            old(self).wf(),
        ensures
            final(self).wf(),
            is_prefix(old(self).buffered(), final(self).buffered()),
            final(self).position() == old(self).position(),
            final(self).chunk_size() == old(self).chunk_size(),
            final(self).taken_before() == old(self).taken_before(),
            final(self).source().taken() == final(self).taken_before() + final(self).buffered(),
            final(self).source().contents() == old(self).source().contents(),
            final(self).source().infallible() == old(self).source().infallible(),
            r matches Ok(n) ==> n == final(self).buffered().len(),
            r matches Err(e) ==> e is Inner,
            old(self).buffered().len() >= need ==> final(self).buffered() == old(self).buffered(),
            old(self).buffered().len() >= need || old(self).source().infallible() ==> r is Ok,
            r is Ok ==> final(self).buffered().len() == spec_fill_len(
                old(self).buffered().len() as int,
                need as int,
                old(self).chunk_size() as int,
                old(self).source().contents().len() - old(self).taken_before().len(),
            ),
            r is Ok && final(self).buffered().len() < need && final(self).chunk_size() > 0
                ==> final(self).source().taken() == final(self).source().contents(),
    {
        let ghost start = self.buffer@;
        let ghost pos0 = self.pos;
        let ghost cap0 = self.capacity;
        let ghost have = start.len() as int;
        let ghost avail = self.inner.contents().len() - self.taken_before@.len();
        let ghost mut k: int = 0;
        proof {
            lemma_prefix_refl(start);
            self.inner.lemma_taken_in_contents();
            if have < need && cap0 > 0 {
                lemma_fill_goal(have, need as int, cap0 as int);
            }
        }
        while self.buffer.len() < need
            invariant
                self.pos == pos0,
                self.capacity == cap0,
                pos0 <= start.len(),
                start == old(self).buffer@,
                pos0 == old(self).pos,
                cap0 == old(self).capacity,
                is_prefix(start, self.buffer@),
                self.taken_before@ == old(self).taken_before@,
                self.inner.taken() == self.taken_before@ + self.buffer@,
                start.len() >= need ==> self.buffer@ == start,
                self.inner.contents() == old(self).inner.contents(),
                self.inner.infallible() == old(self).inner.infallible(),
                have == start.len(),
                avail == self.inner.contents().len() - self.taken_before@.len(),
                self.buffer@.len() <= avail,
                cap0 == 0 ==> self.buffer@ == start,
                have < need && cap0 > 0 ==> spec_fill_goal(have, need as int, cap0 as int) >= need,
                have < need && cap0 > 0 ==> spec_fill_goal(have, need as int, cap0 as int) - cap0
                    < need,
                have < need && cap0 > 0 ==> ((0 <= k && self.buffer@.len() == have + k * cap0
                    && self.buffer@.len() < need) || self.buffer@.len() == spec_fill_len(
                    have,
                    need as int,
                    cap0 as int,
                    avail,
                )),
            ensures
                self.pos == pos0,
                self.capacity == cap0,
                is_prefix(start, self.buffer@),
                self.taken_before@ == old(self).taken_before@,
                self.inner.taken() == self.taken_before@ + self.buffer@,
                start.len() >= need ==> self.buffer@ == start,
                self.inner.contents() == old(self).inner.contents(),
                self.inner.infallible() == old(self).inner.infallible(),
                self.buffer@.len() == spec_fill_len(have, need as int, cap0 as int, avail),
                self.buffer@.len() < need && cap0 > 0 ==> self.inner.taken() == self.inner.contents(),
            decreases need - (if self.buffer@.len() < need {
                self.buffer@.len() as int
            } else {
                need as int
            }),
        {
            let mut chunk = match self.inner.read_chunk(self.capacity) {
                Ok(c) => c,
                Err(m) => {
                    return Err(PrefixReadError::Inner(m));
                },
            };
            if chunk.len() == 0 {
                proof {
                    assert(self.taken_before@ + self.buffer@ + chunk@ =~= self.taken_before@ + self.buffer@);
                    self.inner.lemma_taken_in_contents();
                    if cap0 > 0 {
                        assert(self.inner.taken() =~= self.inner.contents());
                    }
                }
                break;
            }
            let ghost before = self.buffer@;
            let ghost got = chunk@;
            self.buffer.append(&mut chunk);
            proof {
                assert(self.buffer@ =~= before + got);
                assert(self.taken_before@ + before + got =~= self.taken_before@ + (before + got));
                assert(self.buffer@.subrange(0, start.len() as int) =~= before.subrange(
                    0,
                    start.len() as int,
                ));
                let len = before.len() as int;
                let c = cap0 as int;
                let g = spec_fill_goal(have, need as int, c);
                if (0 <= k && len == have + k * c && len < need) {
                    let q = (need - have + c - 1) / c;
                    assert(g == have + c * q);
                    assert(k < q) by (nonlinear_arith)
                        requires
                            have + k * c < need,
                            need <= have + c * q,
                            c > 0,
                    ;
                    assert((k + 1) * c == k * c + c) by (nonlinear_arith);
                    if got.len() == c {
                        if self.buffer@.len() >= need {
                            assert(k + 1 >= q) by (nonlinear_arith)
                                requires
                                    have + (k + 1) * c >= need,
                                    have + c * q - c < need,
                                    c > 0,
                            ;
                            assert(k + 1 == q);
                            assert(have + (k + 1) * c == have + c * q) by (nonlinear_arith)
                                requires
                                    k + 1 == q,
                            ;
                            assert(self.buffer@.len() == g);
                        } else {
                            k = k + 1;
                        }
                    } else {
                        assert(c * q >= c * (k + 1)) by (nonlinear_arith)
                            requires
                                k < q,
                                c > 0,
                        ;
                    }
                }
            }
        }
        Ok(self.buffer.len())
    }

    /// Reads into `buf` from the read position, filling the buffer from the
    /// stream as needed; returns how many bytes were copied.
    pub fn read(&mut self, buf: &mut [u8]) -> (r: Result<usize, PrefixReadError>)
        requires
            old(self).wf(),
            old(self).position() + old(buf)@.len() <= usize::MAX,
        ensures
            final(self).wf(),
            is_prefix(old(self).buffered(), final(self).buffered()),
            final(self).chunk_size() == old(self).chunk_size(),
            final(self).taken_before() == old(self).taken_before(),
            final(self).source().taken() == final(self).taken_before() + final(self).buffered(),
            final(self).source().contents() == old(self).source().contents(),
            final(self).source().infallible() == old(self).source().infallible(),
            final(buf)@.len() == old(buf)@.len(),
            old(self).position() + old(buf)@.len() <= old(self).buffered().len()
                || old(self).source().infallible() ==> r is Ok,
            r is Ok ==> final(self).buffered().len() == spec_fill_len(
                old(self).buffered().len() as int,
                old(self).position() + old(buf)@.len(),
                old(self).chunk_size() as int,
                old(self).source().contents().len() - old(self).taken_before().len(),
            ),
            match r {
                Ok(n) => {
                    &&& n <= old(buf)@.len()
                    &&& (n < old(buf)@.len() && final(self).chunk_size() > 0
                        ==> final(self).source().taken() == final(self).source().contents())
                    &&& final(self).position() == old(self).position() + n
                    &&& final(self).position() <= final(self).buffered().len()
                    &&& (n < old(buf)@.len() ==> final(self).position() == final(self).buffered().len())
                    &&& final(buf)@.subrange(0, n as int) == final(self).buffered().subrange(
                        old(self).position(),
                        old(self).position() + n,
                    )
                    &&& final(buf)@.subrange(n as int, old(buf)@.len() as int) == old(buf)@.subrange(
                        n as int,
                        old(buf)@.len() as int,
                    )
                },
                Err(e) => e is Inner && final(self).position() == old(self).position(),
            },
    {
        proof {
            lemma_prefix_refl(self.buffer@);
        }
        let need = self.pos + buf.len();
        let available = match self.fill_to(need) {
            Ok(a) => a,
            Err(e) => {
                return Err(e);
            },
        };
        if self.pos >= available {
            proof {
                assert(buf@.subrange(0, 0) =~= self.buffer@.subrange(self.pos as int, self.pos as int));
                assert(buf@.subrange(0, buf@.len() as int) =~= buf@);
            }
            return Ok(0);
        }
        let to_copy = if buf.len() < available - self.pos {
            buf.len()
        } else {
            available - self.pos
        };
        let ghost old_buf = buf@;
        let mut i: usize = 0;
        while i < to_copy
            invariant
                available == self.buffer@.len(),
                self.pos + to_copy <= available,
                to_copy <= buf@.len(),
                buf@.len() == old_buf.len(),
                i <= to_copy,
                forall|k: int| 0 <= k < i ==> buf@[k] == self.buffer@[self.pos + k],
                forall|k: int| i <= k < buf@.len() ==> buf@[k] == old_buf[k],
            decreases to_copy - i,
        {
            buf[i] = self.buffer[self.pos + i];
            i = i + 1;
        }
        proof {
            assert(buf@.subrange(0, to_copy as int) =~= self.buffer@.subrange(
                self.pos as int,
                self.pos + to_copy,
            ));
            assert(buf@.subrange(to_copy as int, buf@.len() as int) =~= old_buf.subrange(
                to_copy as int,
                old_buf.len() as int,
            ));
        }
        self.pos = self.pos + to_copy;
        Ok(to_copy)
    }

    /// Moves the read position; positions past what the stream holds fail.
    pub fn seek(&mut self, from: SeekFrom) -> (r: Result<u64, PrefixReadError>)
        requires
            old(self).wf(),
            from matches SeekFrom::Current(off) ==> old(self).position() + off <= i64::MAX,
            from matches SeekFrom::Current(off) ==> old(self).position() <= i64::MAX,
        ensures
            final(self).wf(),
            is_prefix(old(self).buffered(), final(self).buffered()),
            final(self).chunk_size() == old(self).chunk_size(),
            final(self).taken_before() == old(self).taken_before(),
            final(self).source().taken() == final(self).taken_before() + final(self).buffered(),
            final(self).source().contents() == old(self).source().contents(),
            final(self).source().infallible() == old(self).source().infallible(),
            ({
                let target: int = match from {
                    SeekFrom::Start(o) => if o <= i64::MAX {
                        o as int
                    } else {
                        o - 0x1_0000_0000_0000_0000
                    },
                    SeekFrom::Current(o) => old(self).position() + o,
                    SeekFrom::End(_) => 0,
                };
                &&& (!(from is End) && 0 <= target <= old(self).buffered().len() ==> r == Ok::<
                    u64,
                    PrefixReadError,
                >(target as u64) && final(self).buffered() == old(self).buffered())
                &&& match r {
                    Ok(p) => {
                        &&& !(from is End)
                        &&& target >= 0
                        &&& p == target
                        &&& final(self).position() == target
                        &&& target <= final(self).buffered().len()
                    },
                    Err(e) => {
                        &&& final(self).position() == old(self).position()
                        &&& (e is Inner ==> !(from is End) && target > old(self).buffered().len()
                            && !old(self).source().infallible())
                        &&& (e is EndUnsupported <==> from is End)
                        &&& (e is NegativePosition <==> (!(from is End) && target < 0))
                        &&& (e matches PrefixReadError::BeyondBuffered { target: t, available } ==> t
                            == target && available == final(self).buffered().len() && target
                            > available)
                    },
                }
            }),
    {
        proof {
            lemma_prefix_refl(self.buffer@);
        }
        let target: i64 = match from {
            SeekFrom::Start(offset) => {
                if offset <= 0x7fff_ffff_ffff_ffff {
                    offset as i64
                } else {
                    -1
                }
            },
            SeekFrom::End(_) => {
                return Err(PrefixReadError::EndUnsupported);
            },
            SeekFrom::Current(offset) => self.pos as i64 + offset,
        };
        if target < 0 {
            return Err(PrefixReadError::NegativePosition);
        }
        let t = target as u64;
        if t > self.buffer.len() as u64 {
            if t > usize::MAX as u64 {
                return Err(PrefixReadError::BeyondBuffered { target: t, available: self.buffer.len() });
            }
            let available = match self.fill_to(t as usize) {
                Ok(a) => a,
                Err(e) => {
                    return Err(e);
                },
            };
            if t > available as u64 {
                return Err(PrefixReadError::BeyondBuffered { target: t, available });
            }
        }
        self.pos = t as usize;
        Ok(t)
    }
}

/// Bytes read after a rewind agree with bytes read before it: both are cut
/// from the same growing buffer, starting at the same position.
pub proof fn law_rewind_replays(first: Seq<u8>, buf1: Seq<u8>, second: Seq<u8>, buf2: Seq<u8>, start: int)
    requires
        0 <= start,
        start + first.len() <= buf1.len(),
        start + second.len() <= buf2.len(),
        first == buf1.subrange(start, start + first.len()),
        second == buf2.subrange(start, start + second.len()),
        is_prefix(buf1, buf2),
    ensures
        forall|i: int| 0 <= i < first.len() && i < second.len() ==> first[i] == second[i],
{
    assert forall|i: int| 0 <= i < first.len() && i < second.len() implies first[i] == second[i] by {
        assert(buf2.subrange(0, buf1.len() as int)[start + i] == buf1[start + i]);
    }
}
} // verus!
