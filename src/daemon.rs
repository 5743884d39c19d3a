//! Settings the rotation daemon reports.

use vstd::prelude::*;

verus! {

/// The daemon settings shown in its status.
pub struct DaemonConfig {
    /// Rotation interval in minutes.
    pub interval_minutes: u32,
    /// Randomization range (a duration text such as `5m`).
    pub randomize: String,
    /// Default wallpaper source.
    pub source: String,
}

} // verus!
