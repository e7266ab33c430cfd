//! Runtime configuration of the daemon.
//!
//! Paths are carried as plain strings; the process shell resolves them
//! against the filesystem and deals with the configuration file format.

use vstd::prelude::*;
use vstd::string::StringExecFns;

verus! {

/// Whole configuration: audio cues and desktop notifications.
pub struct Config {
    pub sounds: Sounds,
    pub notifications: Notifications,
}

/// Audio cue settings: whether cues play at all, and the paths of the two
/// cue files.
pub struct Sounds {
    pub enable: bool,
    pub connected: String,
    pub disconnected: String,
}

/// Desktop notification settings: whether notifications are shown, and the
/// body template with `{{device_name}}` and `{{action}}` placeholders.
pub struct Notifications {
    pub enable: bool,
    pub format: String,
}

/// Default value used by the configuration loader for fields that are
/// enabled unless explicitly switched off.
pub fn default_true() -> (b: bool)
    ensures
        b,
{
    true
}

impl Default for Sounds {
    /// Sounds start enabled, with no cue paths configured.
    fn default() -> (d: Self)
        ensures
            d.enable,
            d.connected@ == Seq::<char>::empty(),
            d.disconnected@ == Seq::<char>::empty(),
    {
        Sounds { enable: true, connected: String::new(), disconnected: String::new() }
    }
}

impl Default for Notifications {
    /// Notifications start enabled, with the standard body template.
    fn default() -> (d: Self)
        ensures
            d.enable,
            d.format@ == "Device {{device_name}} {{action}}."@,
    {
        Notifications {
            enable: true,
            format: String::from_str("Device {{device_name}} {{action}}."),
        }
    }
}

impl Default for Config {
    /// Every section takes its own default.
    fn default() -> (d: Self)
        ensures
            d.sounds.enable,
            d.sounds.connected@ == Seq::<char>::empty(),
            d.sounds.disconnected@ == Seq::<char>::empty(),
            d.notifications.enable,
            d.notifications.format@ == "Device {{device_name}} {{action}}."@,
    {
        Config { sounds: Sounds::default(), notifications: Notifications::default() }
    }
}

} // verus!
