//! The door session's decisions: reed-switch edge debouncing and the
//! actuator level each lock command drives. The GPIO waiting and pin
//! driving sit with the hardware code; the state machine is here.

use vstd::prelude::*;

use crate::state::{AnyState, DoorState, LockState};

verus! {

/// A GPIO level.
#[derive(Clone, Copy, Debug, PartialEq, Eq, Structural)]
pub enum PinLevel {
    Low,
    High,
}

/// The door monitor: it remembers the last observed reed level so that only
/// an actual level change publishes a state, not every edge interrupt.
pub struct DoorMonitor {
    pub last_reed_state: PinLevel,
}

impl DoorMonitor {
    /// A monitor that assumes the reed starts low.
    pub fn new() -> (r: DoorMonitor)
        ensures
            r.last_reed_state == PinLevel::Low,
    {
        DoorMonitor { last_reed_state: PinLevel::Low }
    }

    /// Digests a reed level read after an edge: the door is closed when the
    /// reed grounds the pin (low), open when it releases it (high), and a
    /// state is published only when the level actually changed.
    pub fn on_reed_level(&mut self, level: PinLevel) -> (r: Option<DoorState>)
        ensures
            final(self).last_reed_state == level,
            r == (match level {
                PinLevel::Low => if old(self).last_reed_state == PinLevel::High {
                    Some(DoorState::Closed)
                } else {
                    None
                },
                PinLevel::High => if old(self).last_reed_state == PinLevel::Low {
                    Some(DoorState::Open)
                } else {
                    None
                },
            }),
    {
        match level {
            PinLevel::Low => {
                let r = if self.last_reed_state == PinLevel::High {
                    Some(DoorState::Closed)
                } else {
                    None
                };
                self.last_reed_state = PinLevel::Low;
                r
            },
            PinLevel::High => {
                let r = if self.last_reed_state == PinLevel::Low {
                    Some(DoorState::Open)
                } else {
                    None
                };
                self.last_reed_state = PinLevel::High;
                r
            },
        }
    }

    /// Decides a lock command: the actuator level to drive, and the state to
    /// publish once it is driven. Locking grounds the actuator pin.
    pub fn on_command(cmd: LockState) -> (r: (PinLevel, AnyState))
        ensures
            r == (match cmd {
                LockState::Locked => (PinLevel::Low, AnyState::LockState(LockState::Locked)),
                LockState::Unlocked => (PinLevel::High, AnyState::LockState(LockState::Unlocked)),
            }),
    {
        match cmd {
            LockState::Locked => (PinLevel::Low, AnyState::LockState(LockState::Locked)),
            LockState::Unlocked => (PinLevel::High, AnyState::LockState(LockState::Unlocked)),
        }
    }
}

} // verus!
