//! The operating system's own audio output.

use super::AudioError;
use vstd::prelude::*;

verus! {

/// The operating system's own audio output, which is not implemented yet.
#[derive(Debug)]
pub struct SystemBackend;

impl SystemBackend {
    /// Always fails.
    pub fn new() -> (r: Result<Self, AudioError>)
        ensures
            r == Err::<SystemBackend, _>(AudioError::SystemMissing),
    {
        Err(AudioError::SystemMissing)
    }
}

} // verus!
