//! Line trackers.
//!
//! A line tracker lights the surface below it with infrared light and measures
//! what comes back, as a 12-bit number: dark surfaces give high numbers, light
//! surfaces low ones.
use vstd::prelude::*;
use crate::devices::PortError;
use crate::devices::smart::{SmartDeviceType, port_check};
use crate::devices::adi::{AdiConfigure, AdiDevice, AdiDeviceType, AdiPort};
use crate::devices::adi::digital::adi_reading;

verus! {

/// The largest number that the 12-bit converter of a three-wire port gives.
pub const ADC_MAX_VALUE: u16 = 4095;

/// A line tracker.
#[derive(Debug, Eq, PartialEq)]
pub struct AdiLineTracker {
    port: AdiPort,
}

impl AdiLineTracker {
    /// The port of the line tracker.
    pub closed spec fn port(&self) -> AdiPort {
        self.port
    }

    /// Makes `port` a line tracker, if the device which has the port is there:
    /// `plugged` is what the brain reports of it. The port has then to be
    /// configured as [`configuration`](Self::configuration) says.
    pub fn new(port: AdiPort, plugged: Option<SmartDeviceType>) -> (created: Result<Self, PortError>)
        ensures
            created is Ok <==> plugged == Some(SmartDeviceType::Adi),
            created is Ok ==> created->Ok_0.port() == port,
            created is Err ==> Err::<(), PortError>(created->Err_0) == port_check(
                plugged,
                SmartDeviceType::Adi,
            ),
    {
        match port.configure(AdiDeviceType::LineTracker, plugged) {
            Ok(_) => Ok(Self { port }),
            Err(error) => Err(error),
        }
    }

    /// The request that configures the port as a line tracker.
    pub fn configuration(&self) -> (request: AdiConfigure)
        ensures
            request == (AdiConfigure {
                device_index: self.port().device_index(),
                port_index: (self.port().spec_index() - 1) as u8,
                config: AdiDeviceType::LineTracker,
            }),
    {
        AdiConfigure {
            device_index: self.port.internal_expander_index(),
            port_index: self.port.internal_index(),
            config: AdiDeviceType::LineTracker,
        }
    }

    /// The raw reflectivity, where `raw` is the value read from the port and
    /// `plugged` what the brain reports of the device which has the port. The
    /// converter gives numbers from 0 to 4095, which are returned as they are; of
    /// any other number the low 16 bits are kept.
    pub fn raw_reflectivity(&self, plugged: Option<SmartDeviceType>, raw: i32) -> (reading: Result<
        u16,
        PortError,
    >)
        ensures
            reading == adi_reading(plugged, raw as u16),
            0 <= raw <= u16::MAX && reading is Ok ==> reading->Ok_0 == raw,
    {
        match self.port.validate_expander(plugged) {
            Ok(_) => Ok(#[verifier::truncate] (raw as u16)),
            Err(error) => Err(error),
        }
    }
}

impl AdiDevice for AdiLineTracker {
    type PortIndexOutput = u8;

    fn port_index(&self) -> (index: Self::PortIndexOutput)
        ensures
            index == self.port().spec_index(),
    {
        self.port.index()
    }

    fn expander_port_index(&self) -> (number: Option<u8>)
        ensures
            number == self.port().spec_expander_index(),
    {
        self.port.expander_index()
    }

    fn device_type(&self) -> (kind: AdiDeviceType)
        ensures
            kind == AdiDeviceType::LineTracker,
    {
        AdiDeviceType::LineTracker
    }
}

} // verus!
