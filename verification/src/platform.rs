//! The platform audio output placeholder: it accepts any format and knows
//! no default device.
use vstd::prelude::*;
use crate::types::SampleSpec;

verus! {

pub struct AudioOutput {
    spec: SampleSpec,
}

impl AudioOutput {
    pub closed spec fn spec_format(&self) -> SampleSpec {
        self.spec
    }

    pub fn new(spec: SampleSpec) -> (r: Result<Self, String>)
        ensures
            r matches Ok(o) && o.spec_format() == spec,
    {
        Ok(AudioOutput { spec })
    }

    /// The name of the default output device; none is known.
    pub fn default_device() -> (r: Option<String>)
        ensures
            r is None,
    {
        None
    }
}

} // verus!
