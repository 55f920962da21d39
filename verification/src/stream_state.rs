//! Per-stream state shared between the decode loop and the control side.
use vstd::prelude::*;
use std::sync::atomic::{AtomicBool, AtomicU64, AtomicU8, Ordering};
use crate::state::PlaybackStatus;

verus! {

/// A playback status kept in one atomic byte.
pub struct AtomicPlaybackStatus {
    code: AtomicU8,
}

impl AtomicPlaybackStatus {
    pub fn new(s: PlaybackStatus) -> (r: Self) {
        AtomicPlaybackStatus { code: AtomicU8::new(s.code()) }
    }

    /// The status last stored, by any thread.
    pub fn load(&self) -> (r: PlaybackStatus)
        ensures
            exists|c: u8| r == PlaybackStatus::spec_from_code(c),
    {
        let c = self.code.load(Ordering::SeqCst);
        PlaybackStatus::from_code(c)
    }

    pub fn store(&self, s: PlaybackStatus) {
        self.code.store(s.code(), Ordering::SeqCst);
    }
}

/// Lock-free state of one stream. The control side and the decode loop
/// update it concurrently, so nothing is stated of what a load returns but
/// that it decodes to some status.
pub struct StreamState {
    pub active: AtomicBool,
    pub position_ms: AtomicU64,
    status: AtomicPlaybackStatus,
    pub device_lost: AtomicBool,
}

impl StreamState {
    /// A stream that is inactive, at position zero, stopped, with its device present.
    pub fn new() -> (r: Self) {
        StreamState {
            active: AtomicBool::new(false),
            position_ms: AtomicU64::new(0),
            status: AtomicPlaybackStatus::new(PlaybackStatus::Stopped),
            device_lost: AtomicBool::new(false),
        }
    }

    /// The current status: the last one stored, read back through its byte.
    pub fn status(&self) -> (r: PlaybackStatus)
        ensures
            exists|c: u8| r == PlaybackStatus::spec_from_code(c),
    {
        self.status.load()
    }

    /// Stores a new status.
    pub fn set_status(&self, s: PlaybackStatus) {
        self.status.store(s);
    }
}

impl Default for StreamState {
    fn default() -> (r: Self) {
        StreamState::new()
    }
}

} // verus!
