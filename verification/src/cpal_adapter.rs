//! Device identity and silence for the system audio output adapter.
use vstd::prelude::*;
use std::sync::atomic::AtomicU64;
use std::sync::Arc;
use crate::output_plan::OutputMode;
use crate::output_session::OutputError;
use crate::pcm::{host_is_little_endian, PcmEncoding, SampleSpec};
use crate::text::{push_decimal, push_hex_padded, spec_decimal, spec_hex_padded};

verus! {

/// The adapter for the system audio output: its priority among adapters and
/// a revision counter shared with its bindings.
#[derive(Debug, Clone)]
pub struct CpalOutputAdapter {
    priority: i16,
    revision: Arc<AtomicU64>,
}

impl CpalOutputAdapter {
    pub closed spec fn spec_priority(&self) -> i16 {
        self.priority
    }

    pub fn new(priority: i16) -> (r: Self)
        ensures
            r.spec_priority() == priority,
    {
        CpalOutputAdapter { priority, revision: Arc::new(AtomicU64::new(0)) }
    }

    pub fn priority(&self) -> (p: i16)
        ensures
            p == self.spec_priority(),
    {
        self.priority
    }

    /// The adapter's own revision counter, shared by its clones.
    pub closed spec fn spec_revision(&self) -> Arc<AtomicU64> {
        self.revision
    }

    /// The revision counter, bumped when a binding reports a device change:
    /// the adapter's own, the same one on every call.
    pub fn revision(&self) -> (r: &Arc<AtomicU64>)
        ensures
            *r == self.spec_revision(),
    {
        &self.revision
    }
}

impl Default for CpalOutputAdapter {
    fn default() -> (r: Self)
        ensures
            r.spec_priority() == 0,
    {
        CpalOutputAdapter::new(0)
    }
}

// ---------------------------------------------------------------------------
// Stable hash and device identity
// ---------------------------------------------------------------------------

pub open spec fn fnv_offset() -> u64 {
    0xcbf29ce484222325
}

pub open spec fn fnv_prime() -> u64 {
    0x100000001b3
}

/// 64-bit FNV-1a of `bytes`.
pub open spec fn spec_stable_hash(bytes: Seq<u8>) -> u64
    decreases bytes.len(),
{
    if bytes.len() == 0 {
        fnv_offset()
    } else {
        vstd::wrapping::u64_specs::wrapping_mul(
            spec_stable_hash(bytes.drop_last()) ^ (bytes.last() as u64),
            fnv_prime(),
        )
    }
}

/// The 64-bit FNV-1a hash of `bytes`, the same in every process.
pub fn stable_hash(bytes: &[u8]) -> (h: u64)
    ensures
        h == spec_stable_hash(bytes@),
{
    let mut hash: u64 = 0xcbf29ce484222325;
    let mut i: usize = 0;
    while i < bytes.len()
        invariant
            i <= bytes@.len(),
            hash == spec_stable_hash(bytes@.subrange(0, i as int)),
        decreases bytes@.len() - i,
    {
        proof {
            assert(bytes@.subrange(0, i + 1).drop_last() =~= bytes@.subrange(0, i as int));
        }
        hash = hash ^ (bytes[i] as u64);
        hash = hash.wrapping_mul(0x100000001b3);
        i = i + 1;
    }
    proof {
        assert(bytes@.subrange(0, bytes@.len() as int) =~= bytes@);
    }
    hash
}

/// `:channels:bits:min-max` for one mode.
pub open spec fn spec_mode_fingerprint(m: OutputMode) -> Seq<char> {
    seq![':'] + spec_decimal(m.channels as nat) + seq![':'] + spec_decimal(
        m.encoding.spec_bits() as nat,
    ) + seq![':'] + spec_decimal(m.rates.min as nat) + seq!['-'] + spec_decimal(
        m.rates.max as nat,
    )
}

/// The device name followed by the fingerprint of each mode.
pub open spec fn spec_fingerprint(name: Seq<char>, modes: Seq<OutputMode>) -> Seq<char>
    decreases modes.len(),
{
    if modes.len() == 0 {
        name
    } else {
        spec_fingerprint(name, modes.drop_last()) + spec_mode_fingerprint(modes.last())
    }
}

/// `cpal:` and sixteen hex digits of the hash of the fingerprint.
pub open spec fn spec_device_id(name: Seq<char>, modes: Seq<OutputMode>) -> Seq<char> {
    seq!['c', 'p', 'a', 'l', ':'] + spec_hex_padded(
        spec_stable_hash(vstd::utf8::encode_utf8(spec_fingerprint(name, modes))) as nat,
        16,
    )
}

/// The identity of a device, stable across runs as long as its name and
/// modes stay the same.
pub fn device_id(name: &str, modes: &[OutputMode]) -> (id: String)
    ensures
        id@ == spec_device_id(name@, modes@),
{
    let mut fingerprint = name.to_owned();
    let mut i: usize = 0;
    while i < modes.len()
        invariant
            i <= modes@.len(),
            fingerprint@ == spec_fingerprint(name@, modes@.subrange(0, i as int)),
        decreases modes@.len() - i,
    {
        let m = modes[i];
        let ghost before = fingerprint@;
        fingerprint.append(":");
        push_decimal(&mut fingerprint, m.channels as u64);
        fingerprint.append(":");
        push_decimal(&mut fingerprint, m.encoding.bits() as u64);
        fingerprint.append(":");
        push_decimal(&mut fingerprint, m.rates.min as u64);
        fingerprint.append("-");
        push_decimal(&mut fingerprint, m.rates.max as u64);
        proof {
            reveal_strlit(":");
            reveal_strlit("-");
            assert(modes@.subrange(0, i + 1).drop_last() =~= modes@.subrange(0, i as int));
            assert(fingerprint@ =~= before + spec_mode_fingerprint(m));
        }
        i = i + 1;
    }
    proof {
        assert(modes@.subrange(0, modes@.len() as int) =~= modes@);
    }
    let h = stable_hash(fingerprint.as_str().as_bytes());
    let mut id = String::from_str("cpal:");
    push_hex_padded(&mut id, h, 16);
    proof {
        reveal_strlit("cpal:");
    }
    id
}

// ---------------------------------------------------------------------------
// Silence
// ---------------------------------------------------------------------------

/// Byte `k` of the silence of one `width`-byte sample: zero for signed and
/// float encodings; for unsigned ones the midpoint `2^(bits-1)`, in the
/// host's byte order.
pub open spec fn silence_byte(encoding: PcmEncoding, width: int, k: int, host_little: bool) -> u8 {
    if encoding.spec_is_unsigned() {
        let top = if host_little {
            width - 1
        } else {
            0
        };
        if k == top {
            128u8
        } else {
            0u8
        }
    } else {
        0u8
    }
}

/// What [`fill_silence_on`] leaves in a buffer of `len` bytes: whole samples
/// of silence, then zeros for a trailing partial sample.
pub open spec fn spec_silence(encoding: PcmEncoding, len: int, host_little: bool) -> Seq<u8> {
    let width = encoding.spec_bytes_per_sample() as int;
    let whole = len - len % width;
    Seq::new(
        len as nat,
        |i: int|
            if i < whole {
                silence_byte(encoding, width, i % width, host_little)
            } else {
                0u8
            },
    )
}

/// Fills `bytes` with silence of `encoding` on a host of the given byte order.
pub fn fill_silence_on(encoding: PcmEncoding, bytes: &mut [u8], host_little: bool)
    ensures
        final(bytes)@ == spec_silence(encoding, old(bytes)@.len() as int, host_little),
{
    let width = encoding.bytes_per_sample();
    let unsigned = encoding.is_unsigned();
    let n = bytes.len();
    assert(1 <= width <= 8);
    assert(n % width <= n) by (nonlinear_arith)
        requires
            width >= 1,
    ;
    let whole = n - n % width;
    let top: usize = if host_little {
        width - 1
    } else {
        0
    };
    let mut i: usize = 0;
    while i < n
        invariant
            n == bytes@.len(),
            n == old(bytes)@.len(),
            1 <= width <= 8,
            width == encoding.spec_bytes_per_sample(),
            unsigned == encoding.spec_is_unsigned(),
            whole == n - n % width,
            top == (if host_little {
                width - 1
            } else {
                0
            }),
            i <= n,
            forall|j: int|
                0 <= j < i ==> #[trigger] bytes@[j] == spec_silence(encoding, n as int, host_little)[j],
        decreases n - i,
    {
        let b: u8 = if i < whole && unsigned && i % width == top {
            128
        } else {
            0
        };
        bytes[i] = b;
        i = i + 1;
    }
    assert(bytes@ =~= spec_silence(encoding, n as int, host_little));
}

/// Fills `bytes` with silence of `encoding` in this machine's byte order.
pub fn fill_silence(encoding: PcmEncoding, bytes: &mut [u8])
    ensures
        exists|host_little: bool|
            final(bytes)@ == spec_silence(encoding, old(bytes)@.len() as int, host_little),
{
    let host_little = host_is_little_endian();
    fill_silence_on(encoding, bytes, host_little);
}

/// Checks, before a device is opened, that the plan was made on the
/// adapter's current revision of its devices.
pub fn check_plan_revision(current: u64, planned: u64) -> (r: Result<(), OutputError>)
    ensures
        current == planned <==> r is Ok,
        r matches Err(e) ==> e matches OutputError::Binding(m) && m@
            == "output capabilities changed since planning"@,
{
    if current != planned {
        return Err(OutputError::Binding(String::from_str("output capabilities changed since planning")));
    }
    Ok(())
}

/// Checks the output range found again for a planned mode against the plan's
/// target: its sample format must be one the library represents (`encoding`),
/// with the target's encoding and channel count, and its rates must still
/// take the target's rate. The encoding to play comes back.
pub fn check_planned_range(
    target: SampleSpec,
    encoding: Option<PcmEncoding>,
    channels: u16,
    min_rate: u32,
    max_rate: u32,
) -> (r: Result<PcmEncoding, OutputError>)
    ensures
        match encoding {
            None => r matches Err(OutputError::Binding(m)) && m@
                == "planned CPAL format is not representable"@,
            Some(e) => if e != target.encoding || channels != target.channels as u16 {
                r matches Err(OutputError::Binding(m)) && m@
                    == "planned output encoding or channel count is stale"@
            } else if min_rate > target.sample_rate || max_rate < target.sample_rate {
                r matches Err(OutputError::Binding(m)) && m@ == "planned sample rate is stale"@
            } else {
                r == Ok::<PcmEncoding, OutputError>(e)
            },
        },
{
    let e = match encoding {
        Some(e) => e,
        None => {
            return Err(OutputError::Binding(String::from_str("planned CPAL format is not representable")));
        },
    };
    if e != target.encoding || channels != target.channels as u16 {
        return Err(
            OutputError::Binding(String::from_str("planned output encoding or channel count is stale")),
        );
    }
    if min_rate > target.sample_rate || max_rate < target.sample_rate {
        return Err(OutputError::Binding(String::from_str("planned sample rate is stale")));
    }
    Ok(e)
}

} // verus!
