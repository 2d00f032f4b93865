//! Errors of the engine.

use vstd::prelude::*;

verus! {

/// What can go wrong inside the engine.
#[derive(Debug, Clone, Copy, PartialEq, Eq, Structural)]
pub enum KhiinError {
    /// A section handed to the segmenter cannot be tiled by dictionary
    /// words.
    NotSegmentable,
    /// The engine could not be constructed.
    EngineNotReady,
}

impl KhiinError {
    /// A short description, in place of a `Display` implementation.
    pub fn message(&self) -> (r: &'static str)
        ensures
            *self == KhiinError::NotSegmentable ==> r@ == "not segmentable"@,
            *self == KhiinError::EngineNotReady ==> r@ == "engine not ready"@,
    {
        match self {
            KhiinError::NotSegmentable => "not segmentable",
            KhiinError::EngineNotReady => "engine not ready",
        }
    }
}

} // verus!
