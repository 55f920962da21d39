//! Output device capability modeling and output planning.
//!
//! Adapters turn their native capabilities into a [`DeviceSnapshot`]; the
//! planner selects one exact native mode for a stream. Format conversion is
//! the filter chain's responsibility.
use vstd::prelude::*;
use crate::pcm::{ByteOrder, PcmEncoding, SampleSpec};
use crate::text::{decimal, joined, seq_lt, compare_bytes, lemma_seq_lt_transitive,
    lemma_seq_lt_irreflexive, lemma_seq_lt_total};
use crate::types::Interleave;
use vstd::utf8::encode_utf8;

verus! {

pub type OutputDeviceId = String;

pub type OutputModeId = u32;

pub type SnapshotRevision = u64;

#[derive(Debug, Clone, Copy, PartialEq, Eq, Hash, Ord, PartialOrd, Structural)]
pub enum OutputCategory {
    Bluetooth,
    Usb,
    Onboard,
    Other,
}

/// Why planning, or one of its steps, failed.
#[derive(Debug, Clone, PartialEq, Eq)]
pub enum PlanError {
    NoDevice(String),
    NoMode(String),
    UnsupportedChannels { channels: u16 },
    InvalidPreference(String),
    InvalidCapabilities(String),
}

/// A [`PlanError`] without its message text.
#[derive(Debug, Clone, Copy, PartialEq, Eq, Structural)]
pub enum PlanErrorKind {
    NoDevice,
    NoMode,
    UnsupportedChannels { channels: u16 },
    InvalidPreference,
    InvalidCapabilities,
}

impl PlanError {
    pub open spec fn kind(self) -> PlanErrorKind {
        match self {
            PlanError::NoDevice(_) => PlanErrorKind::NoDevice,
            PlanError::NoMode(_) => PlanErrorKind::NoMode,
            PlanError::UnsupportedChannels { channels } => PlanErrorKind::UnsupportedChannels {
                channels,
            },
            PlanError::InvalidPreference(_) => PlanErrorKind::InvalidPreference,
            PlanError::InvalidCapabilities(_) => PlanErrorKind::InvalidCapabilities,
        }
    }

    /// The message shown for this error.
    pub open spec fn spec_message(self) -> Seq<char> {
        match self {
            PlanError::NoDevice(m) => "no output device: "@ + m@,
            PlanError::NoMode(m) => "no output mode: "@ + m@,
            PlanError::UnsupportedChannels { channels } => "unsupported channels: "@
                + crate::text::spec_decimal(channels as nat),
            PlanError::InvalidPreference(m) => "invalid output preference: "@ + m@,
            PlanError::InvalidCapabilities(m) => "invalid output capabilities: "@ + m@,
        }
    }

    pub fn to_string(&self) -> (r: String)
        ensures
            r@ == self.spec_message(),
    {
        match self {
            PlanError::NoDevice(m) => joined("no output device: ", m.as_str()),
            PlanError::NoMode(m) => joined("no output mode: ", m.as_str()),
            PlanError::UnsupportedChannels { channels } => {
                let mut s = String::from_str("unsupported channels: ");
                crate::text::push_decimal(&mut s, *channels as u64);
                s
            },
            PlanError::InvalidPreference(m) => joined("invalid output preference: ", m.as_str()),
            PlanError::InvalidCapabilities(m) => joined("invalid output capabilities: ", m.as_str()),
        }
    }
}

/// An inclusive range of sample rates.
#[derive(Debug, Clone, Copy, PartialEq, Eq, Hash, Structural)]
pub struct SampleRateRange {
    pub min: u32,
    pub max: u32,
}

impl SampleRateRange {
    pub open spec fn spec_contains(self, rate: u32) -> bool {
        self.min <= rate <= self.max
    }

    pub fn new(min: u32, max: u32) -> (r: Result<Self, PlanError>)
        ensures
            r is Ok <==> (min != 0 && min <= max),
            r matches Ok(range) ==> range == (SampleRateRange { min, max }),
            r matches Err(e) ==> e.kind() == PlanErrorKind::InvalidCapabilities,
    {
        if min == 0 || max < min {
            return Err(
                PlanError::InvalidCapabilities(
                    String::from_str("sample-rate range is empty or contains zero"),
                ),
            );
        }
        Ok(SampleRateRange { min, max })
    }

    pub fn contains(self, rate: u32) -> (r: bool)
        ensures
            r == self.spec_contains(rate),
    {
        rate >= self.min && rate <= self.max
    }

    /// Candidate rates in priority order: the source rate, the requested
    /// rate, the mode's default, then the range ends; each at most once and
    /// only when inside the range.
    pub fn candidates(self, source_rate: u32, requested: Option<u32>, default_rate: u32) -> (r:
        Vec<u32>)
        ensures
            r@ == spec_candidates(self, source_rate, requested, default_rate),
    {
        let mut rates: Vec<u32> = Vec::new();
        add_candidate(&mut rates, self, source_rate);
        if let Some(rate) = requested {
            add_candidate(&mut rates, self, rate);
        }
        add_candidate(&mut rates, self, default_rate);
        add_candidate(&mut rates, self, self.min);
        add_candidate(&mut rates, self, self.max);
        rates
    }
}

/// `acc` extended by `rate` when the range holds it and `acc` does not.
pub open spec fn spec_add_candidate(acc: Seq<u32>, range: SampleRateRange, rate: u32) -> Seq<u32> {
    if range.spec_contains(rate) && !acc.contains(rate) {
        acc.push(rate)
    } else {
        acc
    }
}

pub open spec fn spec_candidates(
    range: SampleRateRange,
    source_rate: u32,
    requested: Option<u32>,
    default_rate: u32,
) -> Seq<u32> {
    let a = spec_add_candidate(Seq::empty(), range, source_rate);
    let b = match requested {
        Some(rate) => spec_add_candidate(a, range, rate),
        None => a,
    };
    let c = spec_add_candidate(b, range, default_rate);
    let d = spec_add_candidate(c, range, range.min);
    spec_add_candidate(d, range, range.max)
}

fn add_candidate(rates: &mut Vec<u32>, range: SampleRateRange, rate: u32)
    ensures
        final(rates)@ == spec_add_candidate(old(rates)@, range, rate),
{
    if !range.contains(rate) {
        return;
    }
    let mut i: usize = 0;
    while i < rates.len()
        invariant
            i <= rates.len(),
            forall|j: int| 0 <= j < i ==> rates@[j] != rate,
        decreases rates.len() - i,
    {
        if rates[i] == rate {
            assert(rates@.contains(rate));
            return;
        }
        i = i + 1;
    }
    rates.push(rate);
}

/// One native mode of an output device.
#[derive(Debug, Clone, Copy, PartialEq, Eq, Structural)]
pub struct OutputMode {
    pub id: OutputModeId,
    pub channels: u16,
    pub encoding: PcmEncoding,
    pub rates: SampleRateRange,
    pub default_rate: u32,
    pub is_default: bool,
    pub quality_rank: u16,
}

/// What [`OutputMode::spec_at`] produces, with errors by kind.
pub open spec fn spec_mode_spec_at(mode: OutputMode, rate: u32) -> Result<SampleSpec, PlanErrorKind> {
    if !mode.rates.spec_contains(rate) {
        Err(PlanErrorKind::NoMode)
    } else if mode.channels > 255 {
        Err(PlanErrorKind::UnsupportedChannels { channels: mode.channels })
    } else if rate == 0 || mode.channels == 0 || mode.channels > 32 {
        Err(PlanErrorKind::InvalidCapabilities)
    } else {
        Ok(
            SampleSpec {
                sample_rate: rate,
                channels: mode.channels as u8,
                encoding: mode.encoding,
                interleave: Interleave::Interleaved,
                byte_order: ByteOrder::Native,
            },
        )
    }
}

/// Whether `mode` plays `spec` unchanged on a machine of the given byte order.
pub open spec fn spec_accepts_on(mode: OutputMode, spec: SampleSpec, host_little: bool) -> bool {
    mode.channels == spec.channels as u16 && mode.encoding == spec.encoding && spec.interleave
        == Interleave::Interleaved && spec.byte_order.spec_is_native_on(host_little)
        && mode.rates.spec_contains(spec.sample_rate)
}

impl OutputMode {
    /// The exact spec this mode plays at `rate`.
    pub fn spec_at(&self, rate: u32) -> (r: Result<SampleSpec, PlanError>)
        ensures
            r matches Ok(s) ==> spec_mode_spec_at(*self, rate) == Ok::<SampleSpec, PlanErrorKind>(
                s,
            ),
            r matches Err(e) ==> spec_mode_spec_at(*self, rate) == Err::<SampleSpec, PlanErrorKind>(
                e.kind(),
            ),
    {
        if !self.rates.contains(rate) {
            let mut m = String::from_str("mode ");
            crate::text::push_decimal(&mut m, self.id as u64);
            m.append(" does not accept ");
            crate::text::push_decimal(&mut m, rate as u64);
            m.append(" Hz");
            return Err(PlanError::NoMode(m));
        }
        if self.channels > 255 {
            return Err(PlanError::UnsupportedChannels { channels: self.channels });
        }
        let channels = self.channels as u8;
        match SampleSpec::new(
            rate,
            channels,
            self.encoding,
            Interleave::Interleaved,
            ByteOrder::Native,
        ) {
            Ok(s) => Ok(s),
            Err(message) => Err(PlanError::InvalidCapabilities(String::from_str(message))),
        }
    }

    pub fn accepts_on(&self, spec: SampleSpec, host_little: bool) -> (r: bool)
        ensures
            r == spec_accepts_on(*self, spec, host_little),
    {
        self.channels == spec.channels as u16 && self.encoding == spec.encoding && spec.interleave
            == Interleave::Interleaved && spec.byte_order.is_native_on(host_little)
            && self.rates.contains(spec.sample_rate)
    }

    /// Whether the mode plays `spec` unchanged on the running machine.
    pub fn accepts(&self, spec: SampleSpec) -> (r: bool)
        ensures
            exists|host_little: bool| r == spec_accepts_on(*self, spec, host_little),
            spec.byte_order is Native ==> r == spec_accepts_on(*self, spec, true),
    {
        let host = crate::pcm::host_is_little_endian();
        self.accepts_on(spec, host)
    }
}

#[derive(Debug, Clone, PartialEq, Eq)]
pub struct OutputCapabilities {
    pub modes: Vec<OutputMode>,
}

#[derive(Debug, Clone, PartialEq, Eq)]
pub struct OutputDevice {
    pub id: OutputDeviceId,
    pub name: String,
    pub category: OutputCategory,
    pub priority: i16,
    pub capabilities: OutputCapabilities,
}

#[derive(Debug, Clone, PartialEq, Eq)]
pub struct DeviceSnapshot {
    pub revision: SnapshotRevision,
    pub devices: Vec<OutputDevice>,
}

/// The bytes by which device ids are ordered.
pub open spec fn id_bytes(id: String) -> Seq<u8> {
    encode_utf8(id@)
}

pub open spec fn spec_mode_valid(mode: OutputMode) -> bool {
    mode.channels != 0 && mode.rates.min != 0 && mode.rates.max >= mode.rates.min
}

pub open spec fn spec_device_valid(device: OutputDevice) -> bool {
    device.id@.len() > 0 && forall|k: int|
        0 <= k < device.capabilities.modes@.len() ==> spec_mode_valid(
            #[trigger] device.capabilities.modes@[k],
        )
}

/// Device ids strictly increase and every device and mode is well formed.
pub open spec fn spec_snapshot_valid(snapshot: DeviceSnapshot) -> bool {
    &&& forall|i: int|
        0 <= i < snapshot.devices@.len() - 1 ==> seq_lt(
            id_bytes(#[trigger] snapshot.devices@[i].id),
            id_bytes(snapshot.devices@[i + 1].id),
        )
    &&& forall|i: int| 0 <= i < snapshot.devices@.len() ==> spec_device_valid(#[trigger] snapshot.devices@[i])
}

/// Device ids strictly increase.
pub open spec fn spec_ids_sorted(snapshot: DeviceSnapshot) -> bool {
    forall|i: int|
        0 <= i < snapshot.devices@.len() - 1 ==> seq_lt(
            id_bytes(#[trigger] snapshot.devices@[i].id),
            id_bytes(snapshot.devices@[i + 1].id),
        )
}

/// `m` is the message an ill-formed device is refused with: an empty id, or
/// else its first ill-formed mode.
pub open spec fn spec_device_refusal(device: OutputDevice, m: Seq<char>) -> bool {
    if device.id@.len() == 0 {
        m == "device id must not be empty"@
    } else {
        exists|j: int|
            #![trigger device.capabilities.modes@[j]]
            0 <= j < device.capabilities.modes@.len() && !spec_mode_valid(device.capabilities.modes@[j])
                && (forall|k: int|
                0 <= k < j ==> spec_mode_valid(#[trigger] device.capabilities.modes@[k])) && m
                == "device "@ + device.id@ + " has invalid mode "@ + crate::text::spec_decimal(
                device.capabilities.modes@[j].id as nat,
            )
    }
}

/// `m` is the message a snapshot that is not well formed is refused with:
/// unsorted ids first, then the first ill-formed device.
pub open spec fn spec_validate_refusal(snapshot: DeviceSnapshot, m: Seq<char>) -> bool {
    if !spec_ids_sorted(snapshot) {
        m == "device snapshot ids must be unique and sorted"@
    } else {
        exists|d: int|
            #![trigger snapshot.devices@[d]]
            0 <= d < snapshot.devices@.len() && !spec_device_valid(snapshot.devices@[d]) && (forall|
                k: int,
            | 0 <= k < d ==> spec_device_valid(#[trigger] snapshot.devices@[k])) && spec_device_refusal(
                snapshot.devices@[d],
                m,
            )
    }
}

/// A device is refused with one message only.
pub proof fn law_device_refusal_unique(device: OutputDevice, m1: Seq<char>, m2: Seq<char>)
    requires
        spec_device_refusal(device, m1),
        spec_device_refusal(device, m2),
    ensures
        m1 == m2,
{
    if device.id@.len() != 0 {
        let modes = device.capabilities.modes@;
        let j1 = choose|j: int|
            #![trigger modes[j]]
            0 <= j < modes.len() && !spec_mode_valid(modes[j]) && (forall|k: int|
                0 <= k < j ==> spec_mode_valid(#[trigger] modes[k])) && m1 == "device "@
                + device.id@ + " has invalid mode "@ + crate::text::spec_decimal(modes[j].id as nat);
        let j2 = choose|j: int|
            #![trigger modes[j]]
            0 <= j < modes.len() && !spec_mode_valid(modes[j]) && (forall|k: int|
                0 <= k < j ==> spec_mode_valid(#[trigger] modes[k])) && m2 == "device "@
                + device.id@ + " has invalid mode "@ + crate::text::spec_decimal(modes[j].id as nat);
        if j1 < j2 {
            assert(spec_mode_valid(modes[j1]));
        } else if j2 < j1 {
            assert(spec_mode_valid(modes[j2]));
        }
    }
}

/// A snapshot is refused with one message only, so whoever validates it
/// reports the same refusal.
pub proof fn law_validate_refusal_unique(snapshot: DeviceSnapshot, m1: Seq<char>, m2: Seq<char>)
    requires
        spec_validate_refusal(snapshot, m1),
        spec_validate_refusal(snapshot, m2),
    ensures
        m1 == m2,
{
    if spec_ids_sorted(snapshot) {
        let devs = snapshot.devices@;
        let d1 = choose|d: int|
            #![trigger devs[d]]
            0 <= d < devs.len() && !spec_device_valid(devs[d]) && (forall|k: int|
                0 <= k < d ==> spec_device_valid(#[trigger] devs[k])) && spec_device_refusal(
                devs[d],
                m1,
            );
        let d2 = choose|d: int|
            #![trigger devs[d]]
            0 <= d < devs.len() && !spec_device_valid(devs[d]) && (forall|k: int|
                0 <= k < d ==> spec_device_valid(#[trigger] devs[k])) && spec_device_refusal(
                devs[d],
                m2,
            );
        if d1 < d2 {
            assert(spec_device_valid(devs[d1]));
        } else if d2 < d1 {
            assert(spec_device_valid(devs[d2]));
        } else {
            law_device_refusal_unique(devs[d1], m1, m2);
        }
    }
}

fn string_bytes(s: &String) -> (r: &[u8])
    ensures
        r@ == id_bytes(*s),
{
    s.as_str().as_bytes()
}

impl DeviceSnapshot {
    pub fn validate(&self) -> (r: Result<(), PlanError>)
        ensures
            r is Ok <==> spec_snapshot_valid(*self),
            r matches Err(e) ==> e matches PlanError::InvalidCapabilities(m) && spec_validate_refusal(
                *self,
                m@,
            ),
    {
        let n = self.devices.len();
        let mut i: usize = 0;
        while n > 0 && i < n - 1
            invariant
                n == self.devices@.len(),
                i <= n,
                forall|k: int|
                    0 <= k < i && k < n - 1 ==> seq_lt(
                        id_bytes(#[trigger] self.devices@[k].id),
                        id_bytes(self.devices@[k + 1].id),
                    ),
            decreases n - i,
        {
            let c = compare_bytes(string_bytes(&self.devices[i].id), string_bytes(&self.devices[i + 1].id));
            if c >= 0 {
                proof {
                    assert(!seq_lt(
                        id_bytes(self.devices@[i as int].id),
                        id_bytes(self.devices@[i + 1].id),
                    ));
                }
                proof {
                    assert(!spec_ids_sorted(*self));
                }
                return Err(
                    PlanError::InvalidCapabilities(
                        String::from_str("device snapshot ids must be unique and sorted"),
                    ),
                );
            }
            i = i + 1;
        }
        let mut d: usize = 0;
        while d < n
            invariant
                n == self.devices@.len(),
                d <= n,
                forall|k: int|
                    0 <= k < n - 1 ==> seq_lt(
                        id_bytes(#[trigger] self.devices@[k].id),
                        id_bytes(self.devices@[k + 1].id),
                    ),
                forall|k: int| 0 <= k < d ==> spec_device_valid(#[trigger] self.devices@[k]),
            decreases n - d,
        {
            let device = &self.devices[d];
            if device.id.as_str().is_empty() {
                let msg = String::from_str("device id must not be empty");
                proof {
                    assert(!spec_device_valid(self.devices@[d as int]));
                    assert(spec_ids_sorted(*self));
                    assert(spec_device_refusal(self.devices@[d as int], msg@));
                }
                return Err(PlanError::InvalidCapabilities(msg));
            }
            let m = device.capabilities.modes.len();
            let mut j: usize = 0;
            while j < m
                invariant
                    m == device.capabilities.modes@.len(),
                    j <= m,
                    d < n,
                    n == self.devices@.len(),
                    *device == self.devices@[d as int],
                    device.id@.len() != 0,
                    forall|k: int|
                        0 <= k < j ==> spec_mode_valid(#[trigger] device.capabilities.modes@[k]),
                    forall|k: int|
                        0 <= k < n - 1 ==> seq_lt(
                            id_bytes(#[trigger] self.devices@[k].id),
                            id_bytes(self.devices@[k + 1].id),
                        ),
                    forall|k: int| 0 <= k < d ==> spec_device_valid(#[trigger] self.devices@[k]),
                decreases m - j,
            {
                let mode = &device.capabilities.modes[j];
                if mode.channels == 0 || mode.rates.min == 0 || mode.rates.max < mode.rates.min {
                    let mut msg = joined("device ", device.id.as_str());
                    msg.append(" has invalid mode ");
                    crate::text::push_decimal(&mut msg, mode.id as u64);
                    proof {
                        assert(!spec_mode_valid(device.capabilities.modes@[j as int]));
                        assert(!spec_device_valid(self.devices@[d as int]));
                        assert(spec_ids_sorted(*self));
                        assert(device.id@.len() != 0);
                        assert(spec_device_refusal(*device, msg@));
                    }
                    return Err(PlanError::InvalidCapabilities(msg));
                }
                j = j + 1;
            }
            d = d + 1;
        }
        Ok(())
    }
}

#[derive(Debug, Clone, PartialEq, Eq)]
pub enum DeviceSelector {
    Exact(OutputDeviceId),
    Name(String),
    Category(OutputCategory),
    Any,
}

impl DeviceSelector {
    pub open spec fn spec_matches(self, device: OutputDevice) -> bool {
        match self {
            DeviceSelector::Exact(id) => device.id@ == id@,
            DeviceSelector::Name(name) => device.name@ == name@,
            DeviceSelector::Category(category) => device.category == category,
            DeviceSelector::Any => true,
        }
    }

    pub fn matches(&self, device: &OutputDevice) -> (r: bool)
        ensures
            r == self.spec_matches(*device),
    {
        match self {
            DeviceSelector::Exact(id) => device.id == *id,
            DeviceSelector::Name(name) => device.name == *name,
            DeviceSelector::Category(category) => device.category == *category,
            DeviceSelector::Any => true,
        }
    }
}

#[derive(Debug, Clone, Copy, PartialEq, Eq, Structural)]
pub enum ModePreference {
    Any,
    Rate(u32),
    Encoding(PcmEncoding),
    Exact { rate: u32, encoding: PcmEncoding, channels: u8 },
}

#[derive(Debug, Clone, Copy, PartialEq, Eq, Structural)]
pub enum RecoveryPolicy {
    ContinueOnFallback,
    PauseOnFallback,
    Stop,
}

#[derive(Debug, Clone, PartialEq, Eq)]
pub struct OutputPreference {
    pub selector: DeviceSelector,
    pub mode: ModePreference,
    pub recovery: RecoveryPolicy,
}

/// Cost of converting one format into another, by aspect.
#[derive(Debug, Clone, Copy, PartialEq, Eq, Structural)]
pub struct ConversionLoss {
    pub rate: u32,
    pub channels: u32,
    pub interleave: u32,
    pub encoding: u32,
    pub byte_order: u32,
}

pub open spec fn sat_add(a: u32, b: u32) -> u32 {
    if a + b > u32::MAX {
        u32::MAX
    } else {
        (a + b) as u32
    }
}

impl ConversionLoss {
    pub open spec fn spec_total(self) -> u32 {
        sat_add(
            sat_add(sat_add(sat_add(self.rate, self.channels), self.interleave), self.encoding),
            self.byte_order,
        )
    }

    /// Sum of all aspects, saturating at `u32::MAX`.
    pub fn total(self) -> (r: u32)
        ensures
            r == self.spec_total(),
    {
        self.rate.saturating_add(self.channels).saturating_add(self.interleave).saturating_add(
            self.encoding,
        ).saturating_add(self.byte_order)
    }
}

pub open spec fn spec_encoding_loss(input: PcmEncoding, output: PcmEncoding) -> u32 {
    if input == output {
        0
    } else {
        let bits: u32 = if output.spec_bits() >= input.spec_bits() {
            (output.spec_bits() - input.spec_bits()) as u32
        } else {
            (input.spec_bits() - output.spec_bits()) as u32
        };
        if input.spec_is_float() != output.spec_is_float() || input.spec_is_signed()
            != output.spec_is_signed() {
            (20 + bits) as u32
        } else {
            bits
        }
    }
}

pub open spec fn spec_conversion_loss(input: SampleSpec, output: SampleSpec) -> ConversionLoss {
    ConversionLoss {
        rate: if input.sample_rate > output.sample_rate {
            ((input.sample_rate - output.sample_rate) * 100 / 1000) as u32
        } else {
            ((output.sample_rate - input.sample_rate) * 10 / 1000) as u32
        },
        channels: if input.channels > output.channels {
            ((input.channels - output.channels) * 80) as u32
        } else {
            ((output.channels - input.channels) * 5) as u32
        },
        interleave: if input.interleave != output.interleave {
            1
        } else {
            0
        },
        encoding: spec_encoding_loss(input.encoding, output.encoding),
        byte_order: if input.byte_order != output.byte_order {
            1
        } else {
            0
        },
    }
}

pub fn encoding_loss(input: PcmEncoding, output: PcmEncoding) -> (r: u32)
    ensures
        r == spec_encoding_loss(input, output),
{
    if input == output {
        return 0;
    }
    let ib = input.bits();
    let ob = output.bits();
    let bits: u32 = if ob >= ib {
        (ob - ib) as u32
    } else {
        (ib - ob) as u32
    };
    if input.is_float() != output.is_float() || input.is_signed() != output.is_signed() {
        return 20 + bits;
    }
    bits
}

/// Cost of converting `input` into `output`.
pub fn conversion_loss(input: SampleSpec, output: SampleSpec) -> (r: ConversionLoss)
    ensures
        r == spec_conversion_loss(input, output),
{
    let rate = if input.sample_rate > output.sample_rate {
        let d = (input.sample_rate - output.sample_rate) as u64;
        (d * 100 / 1000) as u32
    } else {
        let d = (output.sample_rate - input.sample_rate) as u64;
        (d * 10 / 1000) as u32
    };
    let channels = if input.channels > output.channels {
        (input.channels - output.channels) as u32 * 80
    } else {
        (output.channels - input.channels) as u32 * 5
    };
    let interleave: u32 = if input.interleave != output.interleave {
        1
    } else {
        0
    };
    let encoding = encoding_loss(input.encoding, output.encoding);
    let byte_order: u32 = if input.byte_order != output.byte_order {
        1
    } else {
        0
    };
    ConversionLoss { rate, channels, interleave, encoding, byte_order }
}

/// The output chosen for a stream.
#[derive(Debug, Clone)]
pub struct OutputPlan {
    pub snapshot_revision: SnapshotRevision,
    pub device_id: OutputDeviceId,
    pub mode_id: OutputModeId,
    pub target_spec: SampleSpec,
    pub preference_index: usize,
    pub device_priority: i16,
    pub quality_rank: u16,
    pub is_default: bool,
    pub conversion_loss: ConversionLoss,
    pub recovery: RecoveryPolicy,
}

/// Strict planner order: earlier preference, higher device priority, lower
/// conversion loss, higher quality rank, default mode, higher rate, smaller
/// device id, smaller mode id — each deciding only when all before tie.
pub open spec fn spec_precedes(l: OutputPlan, r: OutputPlan) -> bool {
    if l.preference_index != r.preference_index {
        l.preference_index < r.preference_index
    } else if l.device_priority != r.device_priority {
        l.device_priority > r.device_priority
    } else if l.conversion_loss.spec_total() != r.conversion_loss.spec_total() {
        l.conversion_loss.spec_total() < r.conversion_loss.spec_total()
    } else if l.quality_rank != r.quality_rank {
        l.quality_rank > r.quality_rank
    } else if l.is_default != r.is_default {
        l.is_default
    } else if l.target_spec.sample_rate != r.target_spec.sample_rate {
        l.target_spec.sample_rate > r.target_spec.sample_rate
    } else if id_bytes(l.device_id) != id_bytes(r.device_id) {
        seq_lt(id_bytes(l.device_id), id_bytes(r.device_id))
    } else {
        l.mode_id < r.mode_id
    }
}

pub proof fn lemma_precedes_irreflexive(p: OutputPlan)
    ensures
        !spec_precedes(p, p),
{
}

pub proof fn lemma_precedes_transitive(a: OutputPlan, b: OutputPlan, c: OutputPlan)
    requires
        spec_precedes(a, b),
        spec_precedes(b, c),
    ensures
        spec_precedes(a, c),
{
    let (x, y, z) = (id_bytes(a.device_id), id_bytes(b.device_id), id_bytes(c.device_id));
    lemma_seq_lt_total(x, y);
    lemma_seq_lt_total(y, z);
    lemma_seq_lt_total(x, z);
    if seq_lt(x, y) && seq_lt(y, z) {
        lemma_seq_lt_transitive(x, y, z);
    }
    lemma_seq_lt_irreflexive(x);
}

pub proof fn lemma_precedes_asymmetric(a: OutputPlan, b: OutputPlan)
    requires
        spec_precedes(a, b),
    ensures
        !spec_precedes(b, a),
{
    lemma_seq_lt_total(id_bytes(a.device_id), id_bytes(b.device_id));
}

fn plan_precedes(l: &OutputPlan, r: &OutputPlan) -> (res: bool)
    ensures
        res == spec_precedes(*l, *r),
{
    if l.preference_index != r.preference_index {
        return l.preference_index < r.preference_index;
    }
    if l.device_priority != r.device_priority {
        return l.device_priority > r.device_priority;
    }
    let lt = l.conversion_loss.total();
    let rt = r.conversion_loss.total();
    if lt != rt {
        return lt < rt;
    }
    if l.quality_rank != r.quality_rank {
        return l.quality_rank > r.quality_rank;
    }
    if l.is_default != r.is_default {
        return l.is_default;
    }
    if l.target_spec.sample_rate != r.target_spec.sample_rate {
        return l.target_spec.sample_rate > r.target_spec.sample_rate;
    }
    let c = compare_bytes(string_bytes(&l.device_id), string_bytes(&r.device_id));
    if c != 0 {
        return c < 0;
    }
    l.mode_id < r.mode_id
}

/// Three-way planner order: `Less` when `left` is the better plan.
pub fn compare_plan(left: &OutputPlan, right: &OutputPlan) -> (r: core::cmp::Ordering)
    ensures
        (r == core::cmp::Ordering::Less) <==> spec_precedes(*left, *right),
        (r == core::cmp::Ordering::Greater) <==> spec_precedes(*right, *left),
{
    if plan_precedes(left, right) {
        proof {
            lemma_precedes_asymmetric(*left, *right);
        }
        core::cmp::Ordering::Less
    } else if plan_precedes(right, left) {
        core::cmp::Ordering::Greater
    } else {
        core::cmp::Ordering::Equal
    }
}

// ---------------------------------------------------------------------------
// The planner as a function of its inputs
// ---------------------------------------------------------------------------

/// One candidate step of the planner: a plan, or the error that stops it.
pub type Attempt = Result<OutputPlan, PlanErrorKind>;

/// What the planner holds after a sequence of attempts.
pub type PlanState = Result<Option<OutputPlan>, PlanErrorKind>;

pub open spec fn flatten<A>(s: Seq<Seq<A>>) -> Seq<A>
    decreases s.len(),
{
    if s.len() == 0 {
        Seq::empty()
    } else {
        flatten(s.drop_last()) + s.last()
    }
}

pub open spec fn spec_better(best: Option<OutputPlan>, cand: OutputPlan) -> Option<OutputPlan> {
    match best {
        None => Some(cand),
        Some(b) => if spec_precedes(cand, b) {
            Some(cand)
        } else {
            Some(b)
        },
    }
}

pub open spec fn spec_step(state: PlanState, a: Attempt) -> PlanState {
    match state {
        Err(e) => Err(e),
        Ok(best) => match a {
            Err(e) => Err(e),
            Ok(cand) => Ok(spec_better(best, cand)),
        },
    }
}

pub open spec fn spec_fold(state: PlanState, attempts: Seq<Attempt>) -> PlanState
    decreases attempts.len(),
{
    if attempts.len() == 0 {
        state
    } else {
        spec_step(spec_fold(state, attempts.drop_last()), attempts.last())
    }
}

pub open spec fn spec_requested_rate(pref: ModePreference) -> Option<u32> {
    match pref {
        ModePreference::Rate(rate) => Some(rate),
        ModePreference::Exact { rate, .. } => Some(rate),
        _ => None,
    }
}

/// Whether a mode passes the preference's encoding and exact-mode filters.
pub open spec fn spec_mode_admitted(pref: ModePreference, mode: OutputMode) -> bool {
    match pref {
        ModePreference::Encoding(encoding) => mode.encoding == encoding,
        ModePreference::Exact { rate, encoding, channels } => mode.encoding == encoding
            && mode.channels == channels as u16 && mode.rates.spec_contains(rate),
        _ => true,
    }
}

pub open spec fn spec_mode_rates(pref: ModePreference, mode: OutputMode, source_rate: u32) -> Seq<u32> {
    match pref {
        ModePreference::Exact { rate, .. } => seq![rate],
        _ => spec_candidates(mode.rates, source_rate, spec_requested_rate(pref), mode.default_rate),
    }
}

pub open spec fn spec_attempt(
    revision: SnapshotRevision,
    source: SampleSpec,
    index: usize,
    pref: OutputPreference,
    device: OutputDevice,
    mode: OutputMode,
    rate: u32,
) -> Attempt {
    match spec_mode_spec_at(mode, rate) {
        Err(e) => Err(e),
        Ok(target_spec) => Ok(
            OutputPlan {
                snapshot_revision: revision,
                device_id: device.id,
                mode_id: mode.id,
                target_spec,
                preference_index: index,
                device_priority: device.priority,
                quality_rank: mode.quality_rank,
                is_default: mode.is_default,
                conversion_loss: spec_conversion_loss(source, target_spec),
                recovery: pref.recovery,
            },
        ),
    }
}

pub open spec fn spec_mode_attempts(
    revision: SnapshotRevision,
    source: SampleSpec,
    index: usize,
    pref: OutputPreference,
    device: OutputDevice,
    mode: OutputMode,
) -> Seq<Attempt> {
    if spec_mode_admitted(pref.mode, mode) {
        spec_mode_rates(pref.mode, mode, source.sample_rate).map_values(
            |rate: u32| spec_attempt(revision, source, index, pref, device, mode, rate),
        )
    } else {
        Seq::empty()
    }
}

pub open spec fn spec_device_attempts(
    revision: SnapshotRevision,
    source: SampleSpec,
    index: usize,
    pref: OutputPreference,
    device: OutputDevice,
) -> Seq<Attempt> {
    if pref.selector.spec_matches(device) {
        flatten(
            device.capabilities.modes@.map_values(
                |mode: OutputMode| spec_mode_attempts(revision, source, index, pref, device, mode),
            ),
        )
    } else {
        Seq::empty()
    }
}

pub open spec fn spec_preference_attempts(
    snapshot: DeviceSnapshot,
    source: SampleSpec,
    index: usize,
    pref: OutputPreference,
) -> Seq<Attempt> {
    flatten(
        snapshot.devices@.map_values(
            |device: OutputDevice|
                spec_device_attempts(snapshot.revision, source, index, pref, device),
        ),
    )
}

/// Every candidate the planner considers, in the order it considers them.
pub open spec fn spec_all_attempts(
    snapshot: DeviceSnapshot,
    source: SampleSpec,
    preferences: Seq<OutputPreference>,
) -> Seq<Attempt> {
    flatten(
        Seq::new(
            preferences.len(),
            |i: int| spec_preference_attempts(snapshot, source, i as usize, preferences[i]),
        ),
    )
}

/// The planner's answer, with errors by kind.
pub open spec fn spec_plan_output(
    snapshot: DeviceSnapshot,
    source: SampleSpec,
    preferences: Seq<OutputPreference>,
) -> Result<OutputPlan, PlanErrorKind> {
    if !spec_snapshot_valid(snapshot) {
        Err(PlanErrorKind::InvalidCapabilities)
    } else if preferences.len() == 0 {
        Err(PlanErrorKind::InvalidPreference)
    } else {
        match spec_fold(Ok(None), spec_all_attempts(snapshot, source, preferences)) {
            Err(e) => Err(e),
            Ok(None) => Err(PlanErrorKind::NoDevice),
            Ok(Some(plan)) => Ok(plan),
        }
    }
}

pub proof fn lemma_fold_err(e: PlanErrorKind, attempts: Seq<Attempt>)
    ensures
        spec_fold(Err(e), attempts) == Err::<Option<OutputPlan>, PlanErrorKind>(e),
    decreases attempts.len(),
{
    if attempts.len() > 0 {
        lemma_fold_err(e, attempts.drop_last());
    }
}

pub proof fn lemma_fold_append(state: PlanState, a: Seq<Attempt>, b: Seq<Attempt>)
    ensures
        spec_fold(state, a + b) == spec_fold(spec_fold(state, a), b),
    decreases b.len(),
{
    if b.len() == 0 {
        assert(a + b =~= a);
    } else {
        lemma_fold_append(state, a, b.drop_last());
        assert((a + b).drop_last() =~= a + b.drop_last());
        assert((a + b).last() == b.last());
    }
}

proof fn lemma_flatten_push<A>(s: Seq<Seq<A>>, k: int)
    requires
        0 <= k < s.len(),
    ensures
        flatten(s.take(k + 1)) == flatten(s.take(k)) + s[k],
{
    assert(s.take(k + 1).drop_last() =~= s.take(k));
    assert(s.take(k + 1).last() == s[k]);
}

proof fn lemma_fold_one(state: PlanState, a: Attempt)
    ensures
        spec_fold(state, seq![a]) == spec_step(state, a),
{
    assert(seq![a].drop_last() =~= Seq::<Attempt>::empty());
    assert(spec_fold(state, Seq::<Attempt>::empty()) == state);
}

fn better(best: &mut Option<OutputPlan>, cand: OutputPlan)
    ensures
        *final(best) == spec_better(*old(best), cand),
{
    let replace = match best {
        None => true,
        Some(b) => plan_precedes(&cand, b),
    };
    if replace {
        *best = Some(cand);
    }
}

/// Considers every rate of one mode.
fn plan_mode(
    best: &mut Option<OutputPlan>,
    revision: SnapshotRevision,
    source: SampleSpec,
    index: usize,
    pref: &OutputPreference,
    device: &OutputDevice,
    mode: &OutputMode,
) -> (r: Result<(), PlanError>)
    ensures
        ({
            let folded = spec_fold(
                Ok(*old(best)),
                spec_mode_attempts(revision, source, index, *pref, *device, *mode),
            );
            &&& r is Ok ==> folded == Ok::<Option<OutputPlan>, PlanErrorKind>(*final(best))
            &&& r matches Err(e) ==> folded == Err::<Option<OutputPlan>, PlanErrorKind>(e.kind())
        }),
{
    let ghost init = *best;
    let ghost attempts = spec_mode_attempts(revision, source, index, *pref, *device, *mode);
    let admitted = match pref.mode {
        ModePreference::Encoding(encoding) => mode.encoding == encoding,
        ModePreference::Exact { rate, encoding, channels } => mode.encoding == encoding
            && mode.channels == channels as u16 && mode.rates.contains(rate),
        _ => true,
    };
    if !admitted {
        return Ok(());
    }
    let requested = match pref.mode {
        ModePreference::Rate(rate) => Some(rate),
        ModePreference::Exact { rate, .. } => Some(rate),
        _ => None,
    };
    let rates: Vec<u32> = match pref.mode {
        ModePreference::Exact { rate, .. } => vec![rate],
        _ => mode.rates.candidates(source.sample_rate, requested, mode.default_rate),
    };
    proof {
        assert(rates@ =~= spec_mode_rates(pref.mode, *mode, source.sample_rate));
    }
    let mut k: usize = 0;
    while k < rates.len()
        invariant
            k <= rates.len(),
            init == *old(best),
            attempts.len() == rates.len(),
            attempts == spec_mode_attempts(revision, source, index, *pref, *device, *mode),
            spec_mode_admitted(pref.mode, *mode),
            forall|j: int|
                0 <= j < rates.len() ==> #[trigger] attempts[j] == spec_attempt(
                    revision,
                    source,
                    index,
                    *pref,
                    *device,
                    *mode,
                    rates@[j],
                ),
            spec_fold(Ok(init), attempts.take(k as int)) == Ok::<Option<OutputPlan>, PlanErrorKind>(
                *best,
            ),
        decreases rates.len() - k,
    {
        let rate = rates[k];
        proof {
            lemma_fold_append(Ok(init), attempts.take(k as int), seq![attempts[k as int]]);
            assert(attempts.take(k as int) + seq![attempts[k as int]] =~= attempts.take(k + 1));
            lemma_fold_one(Ok(*best), attempts[k as int]);
        }
        let target_spec = match mode.spec_at(rate) {
            Ok(s) => s,
            Err(e) => {
                proof {
                    assert(attempts[k as int] == Err::<OutputPlan, PlanErrorKind>(e.kind()));
                    assert(spec_step(Ok(*best), attempts[k as int]) == Err::<Option<OutputPlan>, PlanErrorKind>(e.kind()));
                    assert(spec_fold(Ok(init), attempts.take(k + 1)) == Err::<Option<OutputPlan>, PlanErrorKind>(e.kind()));
                    lemma_fold_append(
                        Ok(init),
                        attempts.take(k + 1),
                        attempts.skip(k + 1),
                    );
                    assert(attempts.take(k + 1) + attempts.skip(k + 1) =~= attempts);
                    lemma_fold_err(e.kind(), attempts.skip(k + 1));
                    assert(spec_fold(Ok(init), attempts) == Err::<Option<OutputPlan>, PlanErrorKind>(e.kind()));
                }
                return Err(e);
            },
        };
        let loss = conversion_loss(source, target_spec);
        let candidate = OutputPlan {
            snapshot_revision: revision,
            device_id: device.id.clone(),
            mode_id: mode.id,
            target_spec,
            preference_index: index,
            device_priority: device.priority,
            quality_rank: mode.quality_rank,
            is_default: mode.is_default,
            conversion_loss: loss,
            recovery: pref.recovery,
        };
        better(best, candidate);
        k = k + 1;
    }
    proof {
        assert(attempts.take(k as int) =~= attempts);
    }
    Ok(())
}

/// Considers every mode of one device.
fn plan_device(
    best: &mut Option<OutputPlan>,
    revision: SnapshotRevision,
    source: SampleSpec,
    index: usize,
    pref: &OutputPreference,
    device: &OutputDevice,
) -> (r: Result<(), PlanError>)
    ensures
        ({
            let folded = spec_fold(
                Ok(*old(best)),
                spec_device_attempts(revision, source, index, *pref, *device),
            );
            &&& r is Ok ==> folded == Ok::<Option<OutputPlan>, PlanErrorKind>(*final(best))
            &&& r matches Err(e) ==> folded == Err::<Option<OutputPlan>, PlanErrorKind>(e.kind())
        }),
{
    let ghost init = *best;
    if !pref.selector.matches(device) {
        return Ok(());
    }
    let ghost parts = device.capabilities.modes@.map_values(
        |mode: OutputMode| spec_mode_attempts(revision, source, index, *pref, *device, mode),
    );
    let m = device.capabilities.modes.len();
    let mut j: usize = 0;
    proof {
        assert(parts.take(0) =~= Seq::<Seq<Attempt>>::empty());
    }
    while j < m
        invariant
            m == device.capabilities.modes@.len(),
            init == *old(best),
            pref.selector.spec_matches(*device),
            parts.len() == m,
            j <= m,
            parts == device.capabilities.modes@.map_values(
                |mode: OutputMode| spec_mode_attempts(revision, source, index, *pref, *device, mode),
            ),
            spec_fold(Ok(init), flatten(parts.take(j as int))) == Ok::<
                Option<OutputPlan>,
                PlanErrorKind,
            >(*best),
        decreases m - j,
    {
        proof {
            lemma_flatten_push(parts, j as int);
            lemma_fold_append(Ok(init), flatten(parts.take(j as int)), parts[j as int]);
        }
        let ghost before = *best;
        let res = plan_mode(best, revision, source, index, pref, device, &device.capabilities.modes[j]);
        match res {
            Ok(()) => {},
            Err(e) => {
                proof {
                    assert(parts[j as int] == spec_mode_attempts(revision, source, index, *pref, *device, device.capabilities.modes@[j as int]));
                    assert(spec_fold(Ok(before), parts[j as int]) == Err::<Option<OutputPlan>, PlanErrorKind>(e.kind()));
                    assert(spec_fold(Ok(init), flatten(parts.take(j + 1))) == Err::<Option<OutputPlan>, PlanErrorKind>(e.kind()));
                    lemma_err_propagates(Ok(init), parts, j + 1, m - (j + 1), e.kind());
                    assert(parts.take(m as int) =~= parts);
                }
                return Err(e);
            },
        }
        j = j + 1;
    }
    proof {
        assert(parts.take(m as int) =~= parts);
    }
    Ok(())
}

/// Once the planner has stopped with an error, later parts keep it.
proof fn lemma_err_propagates(
    init: PlanState,
    parts: Seq<Seq<Attempt>>,
    start: int,
    q: int,
    e: PlanErrorKind,
)
    requires
        0 <= start <= parts.len(),
        0 <= q <= parts.len() - start,
        spec_fold(init, flatten(parts.take(start))) == Err::<Option<OutputPlan>, PlanErrorKind>(e),
    ensures
        spec_fold(init, flatten(parts.take(start + q))) == Err::<Option<OutputPlan>, PlanErrorKind>(
            e,
        ),
    decreases q,
{
    if q > 0 {
        lemma_err_propagates(init, parts, start, q - 1, e);
        lemma_flatten_push(parts, start + q - 1);
        lemma_fold_append(init, flatten(parts.take(start + q - 1)), parts[start + q - 1]);
        lemma_fold_err(e, parts[start + q - 1]);
    }
}

/// Considers every device for one preference.
fn plan_preference(
    best: &mut Option<OutputPlan>,
    snapshot: &DeviceSnapshot,
    source: SampleSpec,
    index: usize,
    pref: &OutputPreference,
) -> (r: Result<(), PlanError>)
    ensures
        ({
            let folded = spec_fold(
                Ok(*old(best)),
                spec_preference_attempts(*snapshot, source, index, *pref),
            );
            &&& r is Ok ==> folded == Ok::<Option<OutputPlan>, PlanErrorKind>(*final(best))
            &&& r matches Err(e) ==> folded == Err::<Option<OutputPlan>, PlanErrorKind>(e.kind())
        }),
{
    let ghost init = *best;
    let ghost parts = snapshot.devices@.map_values(
        |device: OutputDevice| spec_device_attempts(snapshot.revision, source, index, *pref, device),
    );
    let n = snapshot.devices.len();
    let mut d: usize = 0;
    proof {
        assert(parts.take(0) =~= Seq::<Seq<Attempt>>::empty());
    }
    while d < n
        invariant
            n == snapshot.devices@.len(),
            init == *old(best),
            parts.len() == n,
            d <= n,
            parts == snapshot.devices@.map_values(
                |device: OutputDevice|
                    spec_device_attempts(snapshot.revision, source, index, *pref, device),
            ),
            spec_fold(Ok(init), flatten(parts.take(d as int))) == Ok::<
                Option<OutputPlan>,
                PlanErrorKind,
            >(*best),
        decreases n - d,
    {
        proof {
            lemma_flatten_push(parts, d as int);
            lemma_fold_append(Ok(init), flatten(parts.take(d as int)), parts[d as int]);
        }
        let res = plan_device(best, snapshot.revision, source, index, pref, &snapshot.devices[d]);
        match res {
            Ok(()) => {},
            Err(e) => {
                proof {
                    lemma_err_propagates(Ok(init), parts, d + 1, n - (d + 1), e.kind());
                    assert(parts.take(n as int) =~= parts);
                }
                return Err(e);
            },
        }
        d = d + 1;
    }
    proof {
        assert(parts.take(n as int) =~= parts);
    }
    Ok(())
}

/// Chooses the best output for `source_spec` among the snapshot's devices
/// under the ordered `preferences`.
pub fn plan_output(
    snapshot: &DeviceSnapshot,
    source_spec: SampleSpec,
    preferences: &[OutputPreference],
) -> (r: Result<OutputPlan, PlanError>)
    ensures
        r matches Ok(plan) ==> spec_plan_output(*snapshot, source_spec, preferences@) == Ok::<
            OutputPlan,
            PlanErrorKind,
        >(plan),
        r matches Err(e) ==> spec_plan_output(*snapshot, source_spec, preferences@) == Err::<
            OutputPlan,
            PlanErrorKind,
        >(e.kind()),
        !spec_snapshot_valid(*snapshot) ==> (r matches Err(PlanError::InvalidCapabilities(m))
            && spec_validate_refusal(*snapshot, m@)),
{
    match snapshot.validate() {
        Ok(()) => {},
        Err(e) => return Err(e),
    }
    if preferences.len() == 0 {
        return Err(
            PlanError::InvalidPreference(
                String::from_str("at least one output preference is required"),
            ),
        );
    }
    let ghost parts = Seq::new(
        preferences@.len(),
        |i: int| spec_preference_attempts(*snapshot, source_spec, i as usize, preferences@[i]),
    );
    let mut best: Option<OutputPlan> = None;
    let n = preferences.len();
    let mut p: usize = 0;
    proof {
        assert(parts.take(0) =~= Seq::<Seq<Attempt>>::empty());
    }
    while p < n
        invariant
            n == preferences@.len(),
            n > 0,
            spec_snapshot_valid(*snapshot),
            parts.len() == n,
            p <= n,
            parts == Seq::new(
                preferences@.len(),
                |i: int| spec_preference_attempts(*snapshot, source_spec, i as usize, preferences@[i]),
            ),
            spec_fold(Ok(None), flatten(parts.take(p as int))) == Ok::<
                Option<OutputPlan>,
                PlanErrorKind,
            >(best),
        decreases n - p,
    {
        proof {
            lemma_flatten_push(parts, p as int);
            lemma_fold_append(Ok(None), flatten(parts.take(p as int)), parts[p as int]);
        }
        let ghost before = best;
        let res = plan_preference(&mut best, snapshot, source_spec, p, &preferences[p]);
        match res {
            Ok(()) => {},
            Err(e) => {
                proof {
                    assert(parts[p as int] == spec_preference_attempts(*snapshot, source_spec, p, preferences@[p as int]));
                    assert(spec_fold(Ok(before), parts[p as int]) == Err::<Option<OutputPlan>, PlanErrorKind>(e.kind()));
                    assert(spec_fold(Ok(None), flatten(parts.take(p + 1))) == Err::<Option<OutputPlan>, PlanErrorKind>(e.kind()));
                    lemma_err_propagates(Ok(None), parts, p + 1, n - (p + 1), e.kind());
                    assert(parts.take(n as int) =~= parts);
                }
                return Err(e);
            },
        }
        p = p + 1;
    }
    proof {
        assert(parts.take(n as int) =~= parts);
    }
    match best {
        Some(plan) => Ok(plan),
        None => Err(
            PlanError::NoDevice(String::from_str("no preference matched a supported mode")),
        ),
    }
}

// ---------------------------------------------------------------------------
// Laws of the planner
// ---------------------------------------------------------------------------

proof fn lemma_fold_none(a: Seq<Attempt>)
    requires
        spec_fold(Ok(None), a) == Ok::<Option<OutputPlan>, PlanErrorKind>(None),
    ensures
        a.len() == 0,
    decreases a.len(),
{
    if a.len() > 0 {
        let prev = spec_fold(Ok(None), a.drop_last());
        match prev {
            Err(e) => {},
            Ok(b) => {},
        }
    }
}

proof fn lemma_fold_best(a: Seq<Attempt>, p: OutputPlan)
    requires
        spec_fold(Ok(None), a) == Ok::<Option<OutputPlan>, PlanErrorKind>(Some(p)),
    ensures
        exists|k: int| 0 <= k < a.len() && a[k] == Ok::<OutputPlan, PlanErrorKind>(p),
        forall|k: int| 0 <= k < a.len() ==> (#[trigger] a[k]) is Ok,
        forall|k: int| 0 <= k < a.len() ==> !spec_precedes((#[trigger] a[k])->Ok_0, p),
    decreases a.len(),
{
    let a2 = a.drop_last();
    let x = a.last();
    let prev = spec_fold(Ok(None), a2);
    assert(a.len() > 0);
    match prev {
        Err(e) => {},
        Ok(None) => {
            lemma_fold_none(a2);
            assert(a[a.len() - 1] == x);
            assert forall|k: int| 0 <= k < a.len() implies !spec_precedes((#[trigger] a[k])->Ok_0, p) by {
                assert(k == a.len() - 1);
            }
        },
        Ok(Some(b)) => {
            lemma_fold_best(a2, b);
            let c = x->Ok_0;
            assert(a[a.len() - 1] == x);
            assert forall|k: int| 0 <= k < a.len() implies (#[trigger] a[k]) is Ok by {
                if k < a.len() - 1 {
                    assert(a[k] == a2[k]);
                }
            }
            if spec_precedes(c, b) {
                assert forall|k: int| 0 <= k < a.len() implies !spec_precedes((#[trigger] a[k])->Ok_0, p) by {
                    if k < a.len() - 1 {
                        assert(a[k] == a2[k]);
                        if spec_precedes(a2[k]->Ok_0, c) {
                            lemma_precedes_transitive(a2[k]->Ok_0, c, b);
                        }
                    } else {
                        lemma_precedes_irreflexive(c);
                    }
                }
            } else {
                let kb = choose|k: int| 0 <= k < a2.len() && a2[k] == Ok::<OutputPlan, PlanErrorKind>(b);
                assert(a[kb] == a2[kb]);
                assert forall|k: int| 0 <= k < a.len() implies !spec_precedes((#[trigger] a[k])->Ok_0, p) by {
                    if k < a.len() - 1 {
                        assert(a[k] == a2[k]);
                    }
                }
            }
        },
    }
}

/// Planning is optimal: the chosen plan is one of the candidates the planner
/// considers, no candidate is strictly better in planner order, and in
/// particular no candidate comes from an earlier preference.
pub proof fn law_plan_is_optimal(
    snapshot: DeviceSnapshot,
    source: SampleSpec,
    preferences: Seq<OutputPreference>,
    plan: OutputPlan,
)
    requires
        spec_plan_output(snapshot, source, preferences) == Ok::<OutputPlan, PlanErrorKind>(plan),
    ensures
        ({
            let cands = spec_all_attempts(snapshot, source, preferences);
            &&& exists|k: int|
                0 <= k < cands.len() && cands[k] == Ok::<OutputPlan, PlanErrorKind>(plan)
            &&& forall|k: int|
                0 <= k < cands.len() ==> !spec_precedes((#[trigger] cands[k])->Ok_0, plan)
            &&& forall|k: int|
                0 <= k < cands.len() ==> plan.preference_index
                    <= (#[trigger] cands[k])->Ok_0.preference_index
        }),
{
    let cands = spec_all_attempts(snapshot, source, preferences);
    lemma_fold_best(cands, plan);
    assert forall|k: int| 0 <= k < cands.len() implies plan.preference_index
        <= (#[trigger] cands[k])->Ok_0.preference_index by {
        assert(!spec_precedes(cands[k]->Ok_0, plan));
    }
}

proof fn lemma_flatten_member<A>(s: Seq<Seq<A>>, k: int)
    requires
        0 <= k < flatten(s).len(),
    ensures
        exists|i: int, j: int|
            0 <= i < s.len() && 0 <= j < s[i].len() && #[trigger] s[i][j] == flatten(s)[k],
    decreases s.len(),
{
    let prev = flatten(s.drop_last());
    if s.len() == 0 {
        assert(false);
    } else if k < prev.len() {
        lemma_flatten_member(s.drop_last(), k);
        let (i, j) = choose|i: int, j: int|
            0 <= i < s.drop_last().len() && 0 <= j < s.drop_last()[i].len()
                && #[trigger] s.drop_last()[i][j] == prev[k];
        assert(s.drop_last()[i] == s[i]);
        assert(s[i][j] == flatten(s)[k]);
    } else {
        let i = s.len() - 1;
        let j = k - prev.len();
        assert(s[i][j] == flatten(s)[k]);
    }
}

/// The chosen plan describes what it was chosen from: it carries the
/// snapshot's revision; its preference is one of those given and lends it its
/// recovery policy; its device and mode stand in the snapshot, the device
/// matches the preference's selector and the mode passes its filters; the
/// device's priority and the mode's rank and default flag are copied into it;
/// the mode plays its target format unchanged; and its conversion loss is the
/// loss from the source format to that target.
pub proof fn law_plan_describes_its_choice(
    snapshot: DeviceSnapshot,
    source: SampleSpec,
    preferences: Seq<OutputPreference>,
    plan: OutputPlan,
)
    requires
        preferences.len() <= usize::MAX,
        spec_plan_output(snapshot, source, preferences) == Ok::<OutputPlan, PlanErrorKind>(plan),
    ensures
        plan.snapshot_revision == snapshot.revision,
        plan.preference_index < preferences.len(),
        plan.recovery == preferences[plan.preference_index as int].recovery,
        plan.conversion_loss == spec_conversion_loss(source, plan.target_spec),
        exists|d: int, m: int|
            #![trigger snapshot.devices@[d].capabilities.modes@[m]]
            0 <= d < snapshot.devices@.len() && 0 <= m
                < snapshot.devices@[d].capabilities.modes@.len() && {
                let pref = preferences[plan.preference_index as int];
                let device = snapshot.devices@[d];
                let mode = device.capabilities.modes@[m];
                &&& pref.selector.spec_matches(device)
                &&& spec_mode_admitted(pref.mode, mode)
                &&& plan.device_id == device.id
                &&& plan.mode_id == mode.id
                &&& plan.device_priority == device.priority
                &&& plan.quality_rank == mode.quality_rank
                &&& plan.is_default == mode.is_default
                &&& spec_mode_spec_at(mode, plan.target_spec.sample_rate) == Ok::<
                    SampleSpec,
                    PlanErrorKind,
                >(plan.target_spec)
                &&& forall|host_little: bool|
                    spec_accepts_on(mode, plan.target_spec, host_little)
            },
{
    let cands = spec_all_attempts(snapshot, source, preferences);
    lemma_fold_best(cands, plan);
    let k = choose|k: int| 0 <= k < cands.len() && cands[k] == Ok::<OutputPlan, PlanErrorKind>(plan);
    let outer = Seq::new(
        preferences.len(),
        |i: int| spec_preference_attempts(snapshot, source, i as usize, preferences[i]),
    );
    lemma_flatten_member(outer, k);
    let (i, j) = choose|i: int, j: int|
        0 <= i < outer.len() && 0 <= j < outer[i].len() && #[trigger] outer[i][j] == cands[k];
    let pref = preferences[i];
    let devs = snapshot.devices@.map_values(
        |device: OutputDevice| spec_device_attempts(snapshot.revision, source, i as usize, pref, device),
    );
    assert(outer[i] == flatten(devs));
    lemma_flatten_member(devs, j);
    let (d, j2) = choose|d: int, j2: int|
        0 <= d < devs.len() && 0 <= j2 < devs[d].len() && #[trigger] devs[d][j2] == outer[i][j];
    let device = snapshot.devices@[d];
    assert(devs[d] == spec_device_attempts(snapshot.revision, source, i as usize, pref, device));
    assert(pref.selector.spec_matches(device));
    let modes = device.capabilities.modes@.map_values(
        |mode: OutputMode| spec_mode_attempts(snapshot.revision, source, i as usize, pref, device, mode),
    );
    assert(devs[d] == flatten(modes));
    lemma_flatten_member(modes, j2);
    let (m, j3) = choose|m: int, j3: int|
        0 <= m < modes.len() && 0 <= j3 < modes[m].len() && #[trigger] modes[m][j3] == devs[d][j2];
    let mode = device.capabilities.modes@[m];
    assert(modes[m] == spec_mode_attempts(snapshot.revision, source, i as usize, pref, device, mode));
    assert(spec_mode_admitted(pref.mode, mode));
    let rate = spec_mode_rates(pref.mode, mode, source.sample_rate)[j3];
    assert(modes[m][j3] == spec_attempt(snapshot.revision, source, i as usize, pref, device, mode, rate));
    assert(plan.preference_index == i);
    assert(plan.target_spec.sample_rate == rate);
    assert(snapshot.devices@[d].capabilities.modes@[m] == mode);
}

/// The kind of samples an encoding holds: 0 for signed integers, 1 for
/// unsigned integers, 2 for floating point.
pub open spec fn sample_kind(e: PcmEncoding) -> int {
    match e {
        PcmEncoding::I8 | PcmEncoding::I16 | PcmEncoding::I24 | PcmEncoding::I32 | PcmEncoding::I48
        | PcmEncoding::I64 => 0,
        PcmEncoding::U8 | PcmEncoding::U16 | PcmEncoding::U24 | PcmEncoding::U32 | PcmEncoding::U48
        | PcmEncoding::U64 => 1,
        PcmEncoding::F32 | PcmEncoding::F64 => 2,
    }
}

/// The distance between two sample widths, in bits.
pub open spec fn width_gap(a: PcmEncoding, b: PcmEncoding) -> int {
    let d = a.spec_bits() - b.spec_bits();
    if d < 0 {
        -d
    } else {
        d
    }
}

/// What a change of encoding costs: nothing to keep it; the gap between the
/// widths in bits to change width within a kind; and 20 more whenever the
/// kind changes, between signed and unsigned integers as between integers
/// and floating point. The cost is the same both ways.
pub proof fn law_encoding_loss(a: PcmEncoding, b: PcmEncoding)
    ensures
        a == b ==> spec_encoding_loss(a, b) == 0,
        a != b && sample_kind(a) == sample_kind(b) ==> spec_encoding_loss(a, b) == width_gap(a, b),
        sample_kind(a) != sample_kind(b) ==> spec_encoding_loss(a, b) == 20 + width_gap(a, b),
        spec_encoding_loss(a, b) == spec_encoding_loss(b, a),
{
}

/// A conversion's cost counts its change of encoding as
/// [`law_encoding_loss`] prices it: converting between signed and unsigned
/// integers of one width costs 20, more than widening within a kind.
pub proof fn law_conversion_prices_encoding(input: SampleSpec, output: SampleSpec)
    ensures
        spec_conversion_loss(input, output).encoding == spec_encoding_loss(
            input.encoding,
            output.encoding,
        ),
        spec_encoding_loss(PcmEncoding::I16, PcmEncoding::U16) == 20,
        spec_encoding_loss(PcmEncoding::I16, PcmEncoding::I24) == 8,
{
    law_encoding_loss(PcmEncoding::I16, PcmEncoding::U16);
    law_encoding_loss(PcmEncoding::I16, PcmEncoding::I24);
}

/// What each aspect of a conversion costs: lowering the rate by `g` Hz
/// costs `g / 10` and raising it `g / 100`; dropping `k` channels costs
/// `80 * k` and adding them `5 * k`; a change of interleaving or of byte
/// order costs 1 and keeping it nothing.
pub proof fn law_conversion_loss_aspects(input: SampleSpec, output: SampleSpec, g: int, k: int)
    ensures
        output.sample_rate + g == input.sample_rate && g >= 0 ==> spec_conversion_loss(input, output).rate
            == g / 10,
        input.sample_rate + g == output.sample_rate && g > 0 ==> spec_conversion_loss(input, output).rate
            == g / 100,
        output.channels + k == input.channels && k >= 0 ==> spec_conversion_loss(input, output).channels
            == 80 * k,
        input.channels + k == output.channels && k > 0 ==> spec_conversion_loss(input, output).channels
            == 5 * k,
        (spec_conversion_loss(input, output).interleave == 0) == (input.interleave == output.interleave),
        spec_conversion_loss(input, output).interleave <= 1,
        (spec_conversion_loss(input, output).byte_order == 0) == (input.byte_order == output.byte_order),
        spec_conversion_loss(input, output).byte_order <= 1,
{
    if g >= 0 {
        assert(g * 100 / 1000 == g / 10) by (nonlinear_arith)
            requires
                g >= 0,
        ;
        assert(g * 10 / 1000 == g / 100) by (nonlinear_arith)
            requires
                g >= 0,
        ;
    }
}

/// Converting a format into itself costs nothing.
pub proof fn law_identity_conversion_is_free(spec: SampleSpec)
    ensures
        spec_conversion_loss(spec, spec).spec_total() == 0,
{
}

} // verus!
