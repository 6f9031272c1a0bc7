//! Shared playback state, modeled over plain microsecond timestamps.

use vstd::prelude::*;

verus! {

/// Playback state shared between the user interface and the audio path.
/// Timestamps are microseconds of the device stream clock.
#[derive(Debug, Clone)]
pub struct State {
    /// Whether playback is running.
    pub playing: bool,
    /// Stream time at which playback started, once known.
    pub play_time: Option<u64>,
    /// Stream time of the most recent device callback, once known.
    pub current_time: Option<u64>,
}

impl State {
    /// How long playback has been running, in microseconds: defined exactly
    /// when playing, both timestamps are known, and the current time is not
    /// before the start time.
    pub fn duration_played(&self) -> (r: Option<u64>)
        ensures
            r is Some <==> (self.playing && self.play_time is Some && self.current_time is Some
                && self.current_time->Some_0 >= self.play_time->Some_0),
            r is Some ==> r->Some_0 == self.current_time->Some_0 - self.play_time->Some_0,
    {
        if !self.playing {
            return None;
        }
        match (&self.play_time, &self.current_time) {
            (Some(start_time), Some(current_time)) => {
                if *current_time >= *start_time {
                    Some(*current_time - *start_time)
                } else {
                    None
                }
            },
            _ => None,
        }
    }
}

} // verus!
