//! Failures of loading a configuration and of starting a service.
use vstd::prelude::*;

verus! {

/// Why a configuration could not be loaded, or a watch could not be set up.
#[derive(Debug, PartialEq, Eq)]
pub enum LoadError {
    /// The file is missing, unreadable, or access was denied.
    IoFailure(String),
    /// The content is malformed or holds fields of the wrong type.
    ParseFailure(String),
    /// The change notification for the file could not be registered.
    WatchSetupFailure(String),
}

} // verus!
