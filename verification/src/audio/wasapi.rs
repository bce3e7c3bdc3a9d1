//! The audio output of Windows.

use super::AudioError;
use vstd::prelude::*;

verus! {

/// The audio output of Windows, which is not implemented yet.
#[derive(Debug)]
pub struct WasapiBackend;

impl WasapiBackend {
    /// Always fails.
    pub fn new() -> (r: Result<Self, AudioError>)
        ensures
            r == Err::<WasapiBackend, _>(AudioError::WasapiMissing),
    {
        Err(AudioError::WasapiMissing)
    }
}

} // verus!
