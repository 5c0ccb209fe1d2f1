//! Device state carried on the broadcast bus: the lock actuator state and the
//! reed-switch door state, and the tagged union of both.

use vstd::prelude::*;

verus! {

#[derive(Clone, Copy, Debug, PartialEq, Eq, Structural)]
pub enum LockState {
    Locked,
    Unlocked,
}

#[derive(Clone, Copy, Debug, PartialEq, Eq, Structural)]
pub enum DoorState {
    Open,
    Closed,
}

#[derive(Clone, Copy, Debug, PartialEq, Eq, Structural)]
pub enum AnyState {
    LockState(LockState),
    DoorState(DoorState),
}

} // verus!
