//! Playback status of a stream and its one-byte encoding.
use vstd::prelude::*;

verus! {

/// Playback status of a stream.
#[derive(Debug, Clone, Copy, PartialEq, Eq, Hash, Structural)]
pub enum PlaybackStatus {
    Playing,
    Paused,
    Stopped,
    Buffering,
    Error,
}

impl PlaybackStatus {
    pub open spec fn spec_code(self) -> u8 {
        match self {
            PlaybackStatus::Playing => 0,
            PlaybackStatus::Paused => 1,
            PlaybackStatus::Stopped => 2,
            PlaybackStatus::Buffering => 3,
            PlaybackStatus::Error => 4,
        }
    }

    /// The status a stored byte stands for; unknown bytes read as stopped.
    pub open spec fn spec_from_code(c: u8) -> PlaybackStatus {
        if c == 0 {
            PlaybackStatus::Playing
        } else if c == 1 {
            PlaybackStatus::Paused
        } else if c == 2 {
            PlaybackStatus::Stopped
        } else if c == 3 {
            PlaybackStatus::Buffering
        } else if c == 4 {
            PlaybackStatus::Error
        } else {
            PlaybackStatus::Stopped
        }
    }

    /// The byte this status is stored as.
    pub fn code(self) -> (c: u8)
        ensures
            c == self.spec_code(),
    {
        match self {
            PlaybackStatus::Playing => 0,
            PlaybackStatus::Paused => 1,
            PlaybackStatus::Stopped => 2,
            PlaybackStatus::Buffering => 3,
            PlaybackStatus::Error => 4,
        }
    }

    pub fn from_code(c: u8) -> (s: PlaybackStatus)
        ensures
            s == Self::spec_from_code(c),
    {
        match c {
            0 => PlaybackStatus::Playing,
            1 => PlaybackStatus::Paused,
            2 => PlaybackStatus::Stopped,
            3 => PlaybackStatus::Buffering,
            4 => PlaybackStatus::Error,
            _ => PlaybackStatus::Stopped,
        }
    }

    /// The lowercase name used on the wire.
    pub fn name(self) -> (r: &'static str)
        ensures
            r@ == (match self {
                PlaybackStatus::Playing => "playing"@,
                PlaybackStatus::Paused => "paused"@,
                PlaybackStatus::Stopped => "stopped"@,
                PlaybackStatus::Buffering => "buffering"@,
                PlaybackStatus::Error => "error"@,
            }),
    {
        match self {
            PlaybackStatus::Playing => "playing",
            PlaybackStatus::Paused => "paused",
            PlaybackStatus::Stopped => "stopped",
            PlaybackStatus::Buffering => "buffering",
            PlaybackStatus::Error => "error",
        }
    }
}

/// Reading back a stored status gives the status that was stored.
pub proof fn law_status_code_roundtrip(s: PlaybackStatus)
    ensures
        PlaybackStatus::spec_from_code(s.spec_code()) == s,
{
}

/// Different statuses are stored as different bytes.
pub proof fn law_status_code_injective(a: PlaybackStatus, b: PlaybackStatus)
    ensures
        a.spec_code() == b.spec_code() ==> a == b,
{
}

} // verus!
