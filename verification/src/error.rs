//! Errors of the audio engine.
use vstd::prelude::*;
use crate::text::{push_decimal, spec_decimal};

verus! {

#[allow(inconsistent_fields)]
#[derive(Debug, Clone, PartialEq, Eq)]
pub enum AroundError {
    FileNotFound { path: String },
    UnsupportedFormat { format: Option<String>, reason: String },
    DecodeError { message: String },
    SourceIncompatible { source: String, required: String },
    NoTrack,
    CodecLoadFailed { path: Option<String>, reason: String },
    Internal { message: String },
    SourceAlreadyConsumed { source: String },
    InvalidPosition { position_ms: u64, duration_ms: Option<u64> },
    CodecNotSupported { codec: String, reason: String },
}

impl AroundError {
    /// The message shown for this error.
    pub open spec fn spec_message(&self) -> Seq<char> {
        match self {
            AroundError::FileNotFound { path } => "file not found: "@ + path@,
            AroundError::UnsupportedFormat { format, reason } => match format {
                Some(f) => "unsupported format '"@ + f@ + "': "@ + reason@,
                None => "unsupported format: "@ + reason@,
            },
            AroundError::DecodeError { message } => "decode error: "@ + message@,
            AroundError::SourceIncompatible { source, required } => "source '"@ + source@
                + "' is incompatible: requires "@ + required@,
            AroundError::NoTrack => "no track loaded"@,
            AroundError::CodecLoadFailed { path, reason } => match path {
                Some(p) => "codec load failed for '"@ + p@ + "': "@ + reason@,
                None => "codec load failed: "@ + reason@,
            },
            AroundError::Internal { message } => "internal error: "@ + message@,
            AroundError::SourceAlreadyConsumed { source } => "source '"@ + source@
                + "' already consumed"@,
            AroundError::InvalidPosition { position_ms, duration_ms } => match duration_ms {
                Some(d) => "invalid position "@ + spec_decimal(*position_ms as nat) + "ms (duration: "@
                    + spec_decimal(*d as nat) + "ms)"@,
                None => "invalid position "@ + spec_decimal(*position_ms as nat)
                    + "ms (no duration available)"@,
            },
            AroundError::CodecNotSupported { codec, reason } => "codec '"@ + codec@
                + "' not supported: "@ + reason@,
        }
    }

    pub fn to_string(&self) -> (r: String)
        ensures
            r@ == self.spec_message(),
    {
        match self {
            AroundError::FileNotFound { path } => {
                let mut s = String::from_str("file not found: ");
                s.append(path.as_str());
                s
            },
            AroundError::UnsupportedFormat { format, reason } => match format {
                Some(f) => {
                    let mut s = String::from_str("unsupported format '");
                    s.append(f.as_str());
                    s.append("': ");
                    s.append(reason.as_str());
                    s
                },
                None => {
                    let mut s = String::from_str("unsupported format: ");
                    s.append(reason.as_str());
                    s
                },
            },
            AroundError::DecodeError { message } => {
                let mut s = String::from_str("decode error: ");
                s.append(message.as_str());
                s
            },
            AroundError::SourceIncompatible { source, required } => {
                let mut s = String::from_str("source '");
                s.append(source.as_str());
                s.append("' is incompatible: requires ");
                s.append(required.as_str());
                s
            },
            AroundError::NoTrack => String::from_str("no track loaded"),
            AroundError::CodecLoadFailed { path, reason } => match path {
                Some(p) => {
                    let mut s = String::from_str("codec load failed for '");
                    s.append(p.as_str());
                    s.append("': ");
                    s.append(reason.as_str());
                    s
                },
                None => {
                    let mut s = String::from_str("codec load failed: ");
                    s.append(reason.as_str());
                    s
                },
            },
            AroundError::Internal { message } => {
                let mut s = String::from_str("internal error: ");
                s.append(message.as_str());
                s
            },
            AroundError::SourceAlreadyConsumed { source } => {
                let mut s = String::from_str("source '");
                s.append(source.as_str());
                s.append("' already consumed");
                s
            },
            AroundError::InvalidPosition { position_ms, duration_ms } => match duration_ms {
                Some(d) => {
                    let mut s = String::from_str("invalid position ");
                    push_decimal(&mut s, *position_ms);
                    s.append("ms (duration: ");
                    push_decimal(&mut s, *d);
                    s.append("ms)");
                    s
                },
                None => {
                    let mut s = String::from_str("invalid position ");
                    push_decimal(&mut s, *position_ms);
                    s.append("ms (no duration available)");
                    s
                },
            },
            AroundError::CodecNotSupported { codec, reason } => {
                let mut s = String::from_str("codec '");
                s.append(codec.as_str());
                s.append("' not supported: ");
                s.append(reason.as_str());
                s
            },
        }
    }
}

impl From<String> for AroundError {
    fn from(s: String) -> (r: AroundError) {
        AroundError::Internal { message: s }
    }
}

impl vstd::std_specs::convert::FromSpecImpl<String> for AroundError {
    open spec fn obeys_from_spec() -> bool {
        true
    }

    open spec fn from_spec(v: String) -> AroundError {
        AroundError::Internal { message: v }
    }
}

impl From<&str> for AroundError {
    fn from(s: &str) -> (r: AroundError) {
        AroundError::Internal { message: s.to_owned() }
    }
}

impl vstd::std_specs::convert::FromSpecImpl<&str> for AroundError {
    open spec fn obeys_from_spec() -> bool {
        false
    }

    open spec fn from_spec(v: &str) -> AroundError {
        arbitrary()
    }
}

} // verus!
