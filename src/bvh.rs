use vstd::prelude::*;

verus! {

/// A coordinate axis, along which a bounding volume hierarchy splits its
/// primitives.
#[derive(Debug, Clone, Copy, PartialEq, Eq, Structural)]
pub enum Axis {
    X,
    Y,
    Z,
}

} // verus!
