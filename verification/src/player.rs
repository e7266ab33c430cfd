//! Audio cues.
//!
//! The two cue buffers are loaded once at startup and reused, unchanged, for
//! every occurrence of their action. The player picks the cue owed to an
//! action; decoding the bytes and driving the output device is the shell's
//! duty, spawned per trigger so overlapping cues never queue on each other.

use vstd::prelude::*;

verus! {

/// Holds the two pre-loaded cue buffers.
#[derive(Debug)]
pub struct Player {
    connected_sound: Vec<u8>,
    disconnected_sound: Vec<u8>,
}

impl Player {
    /// The cue bytes for a connect.
    pub closed spec fn spec_connected_cue(self) -> Seq<u8> {
        self.connected_sound@
    }

    /// The cue bytes for a disconnect.
    pub closed spec fn spec_disconnected_cue(self) -> Seq<u8> {
        self.disconnected_sound@
    }

    /// Creates a player over the two loaded cue buffers.
    pub fn new(plugged_sound: Vec<u8>, unplugged_sound: Vec<u8>) -> (p: Player)
        ensures
            p.spec_connected_cue() == plugged_sound@,
            p.spec_disconnected_cue() == unplugged_sound@,
    {
        Player { connected_sound: plugged_sound, disconnected_sound: unplugged_sound }
    }

    /// The cue to play for a plugged device: always the same connected
    /// buffer. The shell hands it to a freshly spawned playback.
    pub fn play_plugged(&self) -> (cue: &Vec<u8>)
        ensures
            cue@ == self.spec_connected_cue(),
    {
        &self.connected_sound
    }

    /// The cue to play for an unplugged device: always the same disconnected
    /// buffer. The shell hands it to a freshly spawned playback.
    pub fn play_unplugged(&self) -> (cue: &Vec<u8>)
        ensures
            cue@ == self.spec_disconnected_cue(),
    {
        &self.disconnected_sound
    }
}

} // verus!
