//! What can stop a step of the simulation.

use vstd::prelude::*;

verus! {

/// The reasons for which a step is refused. A refused step changes nothing.
#[derive(Clone, Copy, Debug, PartialEq, Eq, Structural)]
pub enum SimError {
    /// Coins were to be picked up, but there is no player cube.
    MissingPlayer,
    /// A coordinate or an angle would leave the range of its type.
    OutOfRange,
}

} // verus!
