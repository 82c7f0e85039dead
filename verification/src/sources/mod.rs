//! Where applications come from. A scanner reads a filesystem layout that
//! is handed to it (never a hard-coded path), so that it can be pointed at
//! fixtures; the library parses and decides, the application walks the
//! directories and reads the files.
pub mod desktop;
pub mod steam;
pub mod windows;

use vstd::prelude::*;

use crate::model::AppEntry;

verus! {

/// A source of applications, as the application assembles them from the
/// scanners of this module.
pub trait AppSource {
    /// Human-readable name, for logs and debugging only.
    fn name(&self) -> &'static str;

    /// Everything found. A broken entry is skipped, never fatal; only an
    /// entirely unreadable source gives nothing.
    fn scan(&self) -> Vec<AppEntry>;
}

} // verus!
