//! Identities of the organisms that inhabit the map, and the kinds of
//! signal they deposit on tiles for others to react to.

use vstd::prelude::*;

verus! {

/// What kind of organism, if any, occupies or emitted something.
#[derive(Debug, Clone, Copy, PartialEq, Eq, Structural)]
pub enum ID {
    Empty,
    Ant,
    Plant,
    Fungus,
}

/// A signal deposited on a tile: a passive presence marker, a request to
/// push or pull an organism of a given kind, or a call for work.
#[derive(Debug, Clone, Copy, PartialEq, Eq, Structural)]
pub enum SignalType {
    Passive(ID),
    Push(ID),
    Pull(ID),
    Work,
}

} // verus!
