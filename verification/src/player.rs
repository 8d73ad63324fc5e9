use vstd::prelude::*;

verus! {

/// What the audio player is doing.
#[derive(Debug, Clone, Copy, PartialEq, Eq, Structural)]
pub enum PlaybackStatus {
    Playing,
    Paused,
    Stopped,
}

impl Default for PlaybackStatus {
    fn default() -> (s: PlaybackStatus)
        ensures
            s == PlaybackStatus::Stopped,
    {
        PlaybackStatus::Stopped
    }
}

/// The status of a player: stopped when it has nothing left to play,
/// else paused when held, else playing.
pub open spec fn status_of(empty: bool, paused: bool) -> PlaybackStatus {
    if empty {
        PlaybackStatus::Stopped
    } else if paused {
        PlaybackStatus::Paused
    } else {
        PlaybackStatus::Playing
    }
}

impl PlaybackStatus {
    /// The status of a player that has nothing left to play (`empty`) or is
    /// held (`paused`): stopped when empty, else paused or playing.
    pub fn of_player(empty: bool, paused: bool) -> (s: PlaybackStatus)
        ensures
            s == status_of(empty, paused),
    {
        if empty {
            PlaybackStatus::Stopped
        } else if paused {
            PlaybackStatus::Paused
        } else {
            PlaybackStatus::Playing
        }
    }
}

/// Why playback was paused.
#[derive(Debug, Default, PartialEq)]
pub enum PauseReason {
    /// Playback is not held.
    #[default]
    NotPaused,
    User,
    Exhaustion,
}

/// A `u64` read as an `i64` bit for bit, as `as i64` does.
pub open spec fn as_signed(x: u64) -> int {
    if x <= i64::MAX {
        x as int
    } else {
        x - 0x1_0000_0000_0000_0000int
    }
}

/// `a + b` held to the range of `i64`.
pub open spec fn saturate_i64(v: int) -> int {
    if v > i64::MAX {
        i64::MAX as int
    } else if v < i64::MIN {
        i64::MIN as int
    } else {
        v
    }
}

/// The second to seek to from `position_secs` when moving by
/// `offset_seconds`: the position read as an `i64`, plus the offset with
/// saturation, and no earlier than 0.
pub open spec fn seek_target(position_secs: u64, offset_seconds: i64) -> u64 {
    let t = saturate_i64(as_signed(position_secs) + offset_seconds);
    if t < 0 {
        0
    } else {
        t as u64
    }
}

/// A seek by no offset stays where it is, for any position an `i64` holds;
/// a seek never lands past the position plus a positive offset.
pub proof fn lemma_seek_by_zero_stays(position_secs: u64, offset_seconds: i64)
    ensures
        position_secs <= i64::MAX ==> seek_target(position_secs, 0) == position_secs,
        position_secs <= i64::MAX && offset_seconds >= 0 ==> seek_target(position_secs, offset_seconds)
            <= position_secs + offset_seconds,
{
}

/// Where a relative seek lands, in whole seconds.
pub fn seek_target_secs(position_secs: u64, offset_seconds: i64) -> (t: u64)
    ensures
        t == seek_target(position_secs, offset_seconds),
{
    let pos: i64 = if position_secs <= 0x7fff_ffff_ffff_ffffu64 {
        position_secs as i64
    } else {
        (position_secs - 0x8000_0000_0000_0000u64) as i64 + i64::MIN
    };
    let sum: i64 = match pos.checked_add(offset_seconds) {
        Some(s) => s,
        None => if offset_seconds > 0 {
            i64::MAX
        } else {
            i64::MIN
        },
    };
    if sum < 0 {
        0
    } else {
        sum as u64
    }
}

} // verus!
