//! around: verified core of a cross-platform audio player engine.
use vstd::prelude::*;

pub mod types;
pub mod pcm;
pub mod text;
pub mod output_plan;
pub mod audio_buffer;
pub mod metadata;
pub mod source;
pub mod wav;
pub mod pcm_codec;
pub mod codec;
pub mod sdk_filter;
pub mod filter_chain;
pub mod cpal_adapter;
pub mod state;
pub mod audio_sink;
pub mod error;
pub mod ipc_types;
pub mod ipc_proto;
pub mod slot;
pub mod config;
pub mod output_session;
pub mod stream_state;
pub mod pipeline;
pub mod extensions;
pub mod platform;
pub mod ipc_transport;
pub mod ipc_legacy;
pub mod handlers;
pub mod output;

verus! {

} // verus!
