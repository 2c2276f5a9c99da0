//! Per-frame display durations for the loop artifact.
//!
//! Durations alternate between a short and a long value by the parity of the
//! frame's position in the encoded sequence; the two values come from one of
//! two fixed playback profiles.

use vstd::prelude::*;

verus! {

/// Playback profile for the loop artifact: the 60 fps-equivalent profile
/// alternates 10 ms / 20 ms frame durations, the 30 fps-equivalent profile
/// alternates 20 ms / 40 ms.
#[derive(Clone, Copy, Debug, PartialEq, Eq, Structural)]
pub enum FrameDuration {
    Fps30,
    Fps60,
}

/// The short duration of the profile, in milliseconds; used at even positions.
pub open spec fn spec_short_ms(fd: FrameDuration) -> u32 {
    match fd {
        FrameDuration::Fps30 => 20,
        FrameDuration::Fps60 => 10,
    }
}

/// The long duration of the profile, in milliseconds; used at odd positions.
pub open spec fn spec_long_ms(fd: FrameDuration) -> u32 {
    match fd {
        FrameDuration::Fps30 => 40,
        FrameDuration::Fps60 => 20,
    }
}

/// The duration, in milliseconds, of the frame at position `i` of the encoded
/// sequence: the profile's short value at even positions, its long value at
/// odd positions.
pub open spec fn spec_delay_ms(fd: FrameDuration, i: int) -> u32 {
    if i % 2 == 0 {
        spec_short_ms(fd)
    } else {
        spec_long_ms(fd)
    }
}

impl FrameDuration {
    /// The profile a configured frame rate selects: 30 picks the
    /// 30 fps-equivalent profile, anything else the 60 fps-equivalent one.
    pub fn from_fps(fps: u32) -> (r: FrameDuration)
        ensures
            r == (if fps == 30 {
                FrameDuration::Fps30
            } else {
                FrameDuration::Fps60
            }),
    {
        if fps == 30 {
            FrameDuration::Fps30
        } else {
            FrameDuration::Fps60
        }
    }

    pub fn short_ms(self) -> (r: u32)
        ensures
            r == spec_short_ms(self),
    {
        match self {
            FrameDuration::Fps30 => 20,
            FrameDuration::Fps60 => 10,
        }
    }

    pub fn long_ms(self) -> (r: u32)
        ensures
            r == spec_long_ms(self),
    {
        match self {
            FrameDuration::Fps30 => 40,
            FrameDuration::Fps60 => 20,
        }
    }
}

/// The duration of the frame at position `i`, chosen by position parity alone.
pub fn delay_ms(fd: FrameDuration, i: usize) -> (r: u32)
    ensures
        r == spec_delay_ms(fd, i as int),
{
    if i % 2 == 0 {
        fd.short_ms()
    } else {
        fd.long_ms()
    }
}

/// One duration per frame of an `n`-frame sequence, alternating by parity.
pub fn delays_for(fd: FrameDuration, n: usize) -> (r: Vec<u32>)
    ensures
        r@.len() == n,
        forall|i: int| 0 <= i < n ==> r@[i] == spec_delay_ms(fd, i),
{
    let mut r: Vec<u32> = Vec::new();
    let mut i: usize = 0;
    while i < n
        invariant
            i <= n,
            r@.len() == i,
            forall|j: int| 0 <= j < i ==> r@[j] == spec_delay_ms(fd, j),
        decreases n - i,
    {
        let d = delay_ms(fd, i);
        r.push(d);
        i = i + 1;
    }
    r
}

} // verus!
