//! Coarse classification of the host operating system.
//!
//! The library itself never probes the platform: the embedding program decides
//! which family it runs on and passes the answer in. This keeps every
//! family-dependent rule (which system directory holds configuration, which
//! source supplies the login shell) in verified code.

use vstd::prelude::*;

verus! {

/// The operating-system families this library distinguishes.
///
/// `Linux` stands for every non-Apple, non-BSD Unix; the distinctions drawn
/// here are exactly the ones the resolution rules need: BSD systems keep
/// system-wide configuration under a different root, and macOS answers shell
/// queries through a directory service instead of a user-database file.
#[derive(Clone, Copy, Debug, PartialEq, Eq, Structural)]
pub enum HostFamily {
    Linux,
    MacOs,
    Bsd,
}

} // verus!
