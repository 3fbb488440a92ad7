use vstd::prelude::*;

verus! {

/// How the camera places the sub-pixel offsets of its samples.
#[derive(Debug, Clone, Copy, PartialEq, Eq, Structural)]
pub enum SamplingMethod {
    /// Uniformly over the square of half a pixel around the pixel's centre.
    Square,
}

} // verus!
