//! The checks an output session makes around planning, binding and writing,
//! and the snapshot of the silent output device.
use vstd::prelude::*;
use crate::audio_buffer::AudioBufferError;
use crate::filter_chain::FilterError;
use crate::output_plan::{
    spec_mode_spec_at, DeviceSnapshot, OutputCapabilities, OutputCategory, OutputDevice,
    OutputMode, OutputPlan, PlanError, PlanErrorKind, SampleRateRange,
};
use crate::pcm::{PcmEncoding, SampleSpec};
use crate::text::{joined, same_text};

verus! {

/// State of a binding to an output device.
#[derive(Debug, Clone, Copy, PartialEq, Eq, Structural)]
pub enum BindingStatus {
    Active,
    Lost,
    Closed,
}

#[derive(Debug, Clone, PartialEq, Eq)]
pub enum OutputError {
    Audio(AudioBufferError),
    Discovery(String),
    Planning(PlanError),
    Binding(String),
    Write(String),
    Closed,
    Lost,
}

impl OutputError {
    /// The message shown for this error.
    pub open spec fn spec_message(self) -> Seq<char> {
        match self {
            OutputError::Audio(e) => e.spec_message(),
            OutputError::Discovery(m) => "output discovery failed: "@ + m@,
            OutputError::Planning(e) => e.spec_message(),
            OutputError::Binding(m) => "output binding failed: "@ + m@,
            OutputError::Write(m) => "output write failed: "@ + m@,
            OutputError::Closed => "output binding is closed"@,
            OutputError::Lost => "output device is lost"@,
        }
    }

    pub fn to_string(&self) -> (r: String)
        ensures
            r@ == self.spec_message(),
    {
        match self {
            OutputError::Audio(e) => e.to_string(),
            OutputError::Discovery(m) => joined("output discovery failed: ", m.as_str()),
            OutputError::Planning(e) => e.to_string(),
            OutputError::Binding(m) => joined("output binding failed: ", m.as_str()),
            OutputError::Write(m) => joined("output write failed: ", m.as_str()),
            OutputError::Closed => String::from_str("output binding is closed"),
            OutputError::Lost => String::from_str("output device is lost"),
        }
    }
}

impl From<PlanError> for OutputError {
    fn from(error: PlanError) -> (r: OutputError) {
        OutputError::Planning(error)
    }
}

impl vstd::std_specs::convert::FromSpecImpl<PlanError> for OutputError {
    open spec fn obeys_from_spec() -> bool {
        true
    }

    open spec fn from_spec(v: PlanError) -> OutputError {
        OutputError::Planning(v)
    }
}

impl From<AudioBufferError> for OutputError {
    fn from(error: AudioBufferError) -> (r: OutputError) {
        OutputError::Audio(error)
    }
}

impl vstd::std_specs::convert::FromSpecImpl<AudioBufferError> for OutputError {
    open spec fn obeys_from_spec() -> bool {
        true
    }

    open spec fn from_spec(v: AudioBufferError) -> OutputError {
        OutputError::Audio(v)
    }
}

impl From<FilterError> for OutputError {
    fn from(error: FilterError) -> (r: OutputError) {
        OutputError::Write(error.to_string())
    }
}

impl vstd::std_specs::convert::FromSpecImpl<FilterError> for OutputError {
    open spec fn obeys_from_spec() -> bool {
        false
    }

    open spec fn from_spec(v: FilterError) -> OutputError {
        arbitrary()
    }
}

/// The outcome of writing to a binding in the given state: only an active
/// binding takes blocks.
pub fn binding_gate(status: BindingStatus) -> (r: Result<(), OutputError>)
    ensures
        status is Active ==> r is Ok,
        status is Lost ==> r == Err::<(), OutputError>(OutputError::Lost),
        status is Closed ==> r == Err::<(), OutputError>(OutputError::Closed),
{
    match status {
        BindingStatus::Active => Ok(()),
        BindingStatus::Lost => Err(OutputError::Lost),
        BindingStatus::Closed => Err(OutputError::Closed),
    }
}

/// The error carried when an adapter binds something other than its plan.
pub open spec fn binding_mismatch_message() -> Seq<char> {
    "adapter returned a binding different from its plan"@
}

/// Accepts a binding only when it has exactly the planned spec and device.
pub fn check_binding_matches_plan(binding_spec: SampleSpec, binding_device_id: &str, plan: &OutputPlan) -> (r:
    Result<(), OutputError>)
    ensures
        r is Ok <==> (binding_spec == plan.target_spec && binding_device_id@ == plan.device_id@),
        r matches Err(e) ==> e matches OutputError::Binding(m) && m@ == binding_mismatch_message(),
{
    if binding_spec != plan.target_spec || !same_text(binding_device_id, plan.device_id.as_str()) {
        return Err(OutputError::Binding(String::from_str("adapter returned a binding different from its plan")));
    }
    Ok(())
}

/// Index of the first device with id `id`.
pub open spec fn spec_find_device(devs: Seq<OutputDevice>, id: Seq<char>) -> Option<int>
    decreases devs.len(),
{
    if devs.len() == 0 {
        None
    } else {
        match spec_find_device(devs.drop_last(), id) {
            Some(i) => Some(i),
            None => if devs.last().id@ == id {
                Some(devs.len() - 1)
            } else {
                None
            },
        }
    }
}

/// Index of the first mode with id `id`.
pub open spec fn spec_find_mode(modes: Seq<OutputMode>, id: u32) -> Option<int>
    decreases modes.len(),
{
    if modes.len() == 0 {
        None
    } else {
        match spec_find_mode(modes.drop_last(), id) {
            Some(i) => Some(i),
            None => if modes.last().id == id {
                Some(modes.len() - 1)
            } else {
                None
            },
        }
    }
}

fn find_device(devs: &Vec<OutputDevice>, id: &str) -> (r: Option<usize>)
    ensures
        r matches Some(i) ==> i < devs@.len(),
        match (r, spec_find_device(devs@, id@)) {
            (Some(i), Some(j)) => i == j,
            (None, None) => true,
            _ => false,
        },
{
    let mut i: usize = 0;
    while i < devs.len()
        invariant
            i <= devs@.len(),
            spec_find_device(devs@.subrange(0, i as int), id@) is None,
        decreases devs@.len() - i,
    {
        proof {
            assert(devs@.subrange(0, i + 1).drop_last() =~= devs@.subrange(0, i as int));
        }
        if same_text(devs[i].id.as_str(), id) {
            proof {
                lemma_find_device_prefix(devs@, i + 1, id@);
            }
            return Some(i);
        }
        i = i + 1;
    }
    proof {
        assert(devs@.subrange(0, devs@.len() as int) =~= devs@);
    }
    None
}

proof fn lemma_find_device_prefix(devs: Seq<OutputDevice>, k: int, id: Seq<char>)
    requires
        0 <= k <= devs.len(),
        spec_find_device(devs.subrange(0, k), id) is Some,
    ensures
        spec_find_device(devs, id) == spec_find_device(devs.subrange(0, k), id),
    decreases devs.len() - k,
{
    if k == devs.len() {
        assert(devs.subrange(0, k) =~= devs);
    } else {
        assert(devs.subrange(0, k + 1).drop_last() =~= devs.subrange(0, k));
        lemma_find_device_prefix(devs, k + 1, id);
    }
}

fn find_mode(modes: &Vec<OutputMode>, id: u32) -> (r: Option<usize>)
    ensures
        r matches Some(i) ==> i < modes@.len(),
        match (r, spec_find_mode(modes@, id)) {
            (Some(i), Some(j)) => i == j,
            (None, None) => true,
            _ => false,
        },
{
    let mut i: usize = 0;
    while i < modes.len()
        invariant
            i <= modes@.len(),
            spec_find_mode(modes@.subrange(0, i as int), id) is None,
        decreases modes@.len() - i,
    {
        proof {
            assert(modes@.subrange(0, i + 1).drop_last() =~= modes@.subrange(0, i as int));
        }
        if modes[i].id == id {
            proof {
                lemma_find_mode_prefix(modes@, i + 1, id);
            }
            return Some(i);
        }
        i = i + 1;
    }
    proof {
        assert(modes@.subrange(0, modes@.len() as int) =~= modes@);
    }
    None
}

proof fn lemma_find_mode_prefix(modes: Seq<OutputMode>, k: int, id: u32)
    requires
        0 <= k <= modes.len(),
        spec_find_mode(modes.subrange(0, k), id) is Some,
    ensures
        spec_find_mode(modes, id) == spec_find_mode(modes.subrange(0, k), id),
    decreases modes.len() - k,
{
    if k == modes.len() {
        assert(modes.subrange(0, k) =~= modes);
    } else {
        assert(modes.subrange(0, k + 1).drop_last() =~= modes.subrange(0, k));
        lemma_find_mode_prefix(modes, k + 1, id);
    }
}

/// Why a plan cannot be bound against a snapshot, if it cannot: the
/// snapshot changed, the device or mode is gone, or the mode no longer gives
/// the planned spec.
pub enum PlanCheck {
    Bindable,
    RevisionChanged,
    DeviceGone,
    ModeGone,
    ModeRefused(PlanErrorKind),
    ModeChanged,
}

pub open spec fn spec_plan_check(snapshot: DeviceSnapshot, plan: OutputPlan) -> PlanCheck {
    if plan.snapshot_revision != snapshot.revision {
        PlanCheck::RevisionChanged
    } else {
        match spec_find_device(snapshot.devices@, plan.device_id@) {
            None => PlanCheck::DeviceGone,
            Some(d) => match spec_find_mode(snapshot.devices@[d].capabilities.modes@, plan.mode_id) {
                None => PlanCheck::ModeGone,
                Some(m) => match spec_mode_spec_at(
                    snapshot.devices@[d].capabilities.modes@[m],
                    plan.target_spec.sample_rate,
                ) {
                    Err(k) => PlanCheck::ModeRefused(k),
                    Ok(s) => if s == plan.target_spec {
                        PlanCheck::Bindable
                    } else {
                        PlanCheck::ModeChanged
                    },
                },
            },
        }
    }
}

/// Checks that `plan` can still be bound against `snapshot`, as an adapter
/// does before it opens the planned device.
pub fn check_plan_bindable(snapshot: &DeviceSnapshot, plan: &OutputPlan) -> (r: Result<(), OutputError>)
    ensures
        match spec_plan_check(*snapshot, *plan) {
            PlanCheck::Bindable => r is Ok,
            PlanCheck::RevisionChanged => r matches Err(OutputError::Binding(m)) && m@
                == "output capabilities changed since planning"@,
            PlanCheck::DeviceGone => r matches Err(OutputError::Binding(m)) && m@
                == "planned device disappeared"@,
            PlanCheck::ModeGone => r matches Err(OutputError::Binding(m)) && m@
                == "planned mode disappeared"@,
            PlanCheck::ModeRefused(_) => r matches Err(OutputError::Binding(_)),
            PlanCheck::ModeChanged => r matches Err(OutputError::Binding(m)) && m@
                == "planned output mode changed"@,
        },
{
    if plan.snapshot_revision != snapshot.revision {
        return Err(OutputError::Binding(String::from_str("output capabilities changed since planning")));
    }
    let d = match find_device(&snapshot.devices, plan.device_id.as_str()) {
        Some(d) => d,
        None => {
            return Err(OutputError::Binding(String::from_str("planned device disappeared")));
        },
    };
    let device = &snapshot.devices[d];
    let m = match find_mode(&device.capabilities.modes, plan.mode_id) {
        Some(m) => m,
        None => {
            return Err(OutputError::Binding(String::from_str("planned mode disappeared")));
        },
    };
    let mode = &device.capabilities.modes[m];
    match mode.spec_at(plan.target_spec.sample_rate) {
        Err(e) => Err(OutputError::Binding(e.to_string())),
        Ok(s) => {
            if s != plan.target_spec {
                Err(OutputError::Binding(String::from_str("planned output mode changed")))
            } else {
                Ok(())
            }
        },
    }
}

/// Checks a block written to a binding of `binding_spec` in state `status`:
/// the binding must be active and the block of its spec, in whole frames.
pub fn check_block(status: BindingStatus, binding_spec: SampleSpec, block_spec: SampleSpec, block_len: usize) -> (r:
    Result<(), OutputError>)
    requires
        binding_spec.channels >= 1,
    ensures
        status is Lost ==> r == Err::<(), OutputError>(OutputError::Lost),
        status is Closed ==> r == Err::<(), OutputError>(OutputError::Closed),
        status is Active ==> (r is Ok <==> (block_spec == binding_spec && (block_len as int)
            % binding_spec.spec_bytes_per_frame() == 0)),
        status is Active && r is Err ==> (r matches Err(OutputError::Write(m)) && m@
            == "output block does not match binding"@),
{
    match binding_gate(status) {
        Ok(()) => {},
        Err(e) => {
            return Err(e);
        },
    }
    let bpf = binding_spec.bytes_per_frame();
    assert(bpf >= 1) by (nonlinear_arith)
        requires
            bpf == binding_spec.channels * binding_spec.spec_bytes_per_sample(),
            binding_spec.spec_bytes_per_sample() >= 1,
            binding_spec.channels >= 1,
    ;
    if block_spec != binding_spec || block_len % bpf != 0 {
        return Err(OutputError::Write(String::from_str("output block does not match binding")));
    }
    Ok(())
}

/// The device list of the silent output: one device, `null`, with one F32
/// mode at exactly the source's rate and channel count.
pub fn null_snapshot(source: SampleSpec) -> (r: DeviceSnapshot)
    ensures
        r.revision == 1,
        r.devices@.len() == 1,
        r.devices@[0].id@ == "null"@,
        r.devices@[0].name@ == "Null Output"@,
        r.devices@[0].category == OutputCategory::Other,
        r.devices@[0].priority == i16::MAX,
        r.devices@[0].capabilities.modes@ == seq![
            OutputMode {
                id: 0,
                channels: source.channels as u16,
                encoding: PcmEncoding::F32,
                rates: SampleRateRange { min: source.sample_rate, max: source.sample_rate },
                default_rate: source.sample_rate,
                is_default: true,
                quality_rank: u16::MAX,
            },
        ],
{
    let mode = OutputMode {
        id: 0,
        channels: source.channels as u16,
        encoding: PcmEncoding::F32,
        rates: SampleRateRange { min: source.sample_rate, max: source.sample_rate },
        default_rate: source.sample_rate,
        is_default: true,
        quality_rank: u16::MAX,
    };
    let mut modes: Vec<OutputMode> = Vec::new();
    modes.push(mode);
    let device = OutputDevice {
        id: String::from_str("null"),
        name: String::from_str("Null Output"),
        category: OutputCategory::Other,
        priority: i16::MAX,
        capabilities: OutputCapabilities { modes },
    };
    let mut devices: Vec<OutputDevice> = Vec::new();
    devices.push(device);
    proof {
        assert(modes@ =~= seq![mode]);
    }
    DeviceSnapshot { revision: 1, devices }
}

} // verus!
