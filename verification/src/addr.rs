//! Named configuration of the control-point offsets.
//!
//! The controller and any peripheral backing it must agree on where the
//! enable coil, the running signal and the subroutine-index register
//! live; the offsets differ across deployment variants, so they are a
//! value, never a hardcoded assumption inside the state machine.

use vstd::prelude::*;

verus! {

/// Default enable-coil offset of the in-process shared peripheral.
pub const ENABLE_COIL_OFFSET: u16 = 8;

/// Default running-signal offset of the in-process shared peripheral.
pub const RUNNING_COIL_OFFSET: u16 = 9;

/// Default subroutine-index register offset of the in-process shared
/// peripheral.
pub const INDEX_HREG_OFFSET: u16 = 8;

/// Offsets of the three control points a deployment uses.
#[derive(Clone, Copy, Debug)]
pub struct AddressMap {
    /// Coil commanding the device to start or keep running.
    pub enable_coil: u16,
    /// Boolean observation reflecting whether the device is executing.
    pub running_coil: u16,
    /// Register holding the index of the subroutine to execute next.
    pub index_register: u16,
}

impl AddressMap {
    /// The enable and running signals must be distinct points.
    pub open spec fn wf(self) -> bool {
        self.enable_coil != self.running_coil
    }

    /// Offsets used by the in-process shared peripheral.
    pub fn shared_peripheral() -> (a: AddressMap)
        ensures
            a.enable_coil == ENABLE_COIL_OFFSET,
            a.running_coil == RUNNING_COIL_OFFSET,
            a.index_register == INDEX_HREG_OFFSET,
            a.wf(),
    {
        AddressMap {
            enable_coil: ENABLE_COIL_OFFSET,
            running_coil: RUNNING_COIL_OFFSET,
            index_register: INDEX_HREG_OFFSET,
        }
    }
}

} // verus!
