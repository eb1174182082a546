//! Core state of a tiling Wayland compositor driven by an embedded scripting
//! runtime: the input-modifier state machine, the keybind registry, the
//! dwindle layout tree, the workspace collection, the process-lifecycle
//! registries, and the scoped script-runtime bridge.
//!
//! Everything here works on plain values (window and output handles are
//! numeric ids, script callbacks are opaque numeric handles stashed by the
//! embedding layer); the display server, the interpreter, and all I/O live in
//! the surrounding, unverified driver.

use vstd::prelude::*;

pub mod api;
pub mod config;
pub mod geometry;
pub mod input;
pub mod layout;
pub mod process;
pub mod state;
pub mod util;
pub mod workspaces;

verus! {

/// Command-line arguments of the compositor binary: which display backend to
/// drive (a window under another compositor, or the native display stack).
pub struct Args {
    pub backend: String,
}

} // verus!
