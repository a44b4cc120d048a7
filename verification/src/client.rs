//! Configuration for the renderer-spawning client that surrounds the codec.
//!
//! The client itself spawns a renderer process and exchanges encoded
//! messages with it over an inter-process channel; that plumbing lives
//! outside the verified core, which only defines the data it is driven by.

use vstd::prelude::*;

verus! {

/// Options for opening a connection to the renderer.
pub struct ServoVdomOptions {
    /// Path of the renderer binary to spawn.
    pub servo_bin_path: String,
}

} // verus!
