//! The decisions of the peripheral drivers.
//!
//! A driver reads the hardware, decides, and writes to the hardware. Only the
//! deciding is here. What was read comes in as plain values: the kind of device
//! that is plugged into a port, the raw number that a read returned. What is to
//! be written goes out as a plain value that names the port and the number to
//! send. No function of this module touches a device.
use vstd::prelude::*;

pub mod smart;
pub mod adi;

verus! {

/// Why a port cannot be used as the device that it was taken for.
#[derive(Debug, Clone, Copy, PartialEq, Eq, Structural)]
pub enum PortError {
    /// Nothing is plugged into the port.
    Disconnected,
    /// Another kind of device is plugged into the port.
    IncorrectDevice,
}

} // verus!
