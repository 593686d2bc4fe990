//! Pneumatic solenoid valves.
use vstd::prelude::*;
use core::ops::Not;
use crate::devices::PortError;
use crate::devices::smart::{SmartDeviceType, port_check};
use crate::devices::adi::{AdiConfigure, AdiDevice, AdiDeviceType, AdiPort, AdiWrite};
use crate::devices::adi::digital::{LogicLevel, adi_reading};

verus! {

/// A solenoid valve on a digital output. A high level opens the valve, a low
/// level closes it.
#[derive(Debug, Eq, PartialEq)]
pub struct AdiSolenoid {
    port: AdiPort,
    level: LogicLevel,
}

impl AdiSolenoid {
    /// The port of the valve.
    pub closed spec fn port(&self) -> AdiPort {
        self.port
    }

    /// The level that the valve was made with.
    pub closed spec fn spec_level(&self) -> LogicLevel {
        self.level
    }

    /// The request that puts `level` on the port of the valve, if the device which
    /// has the port is there.
    pub open spec fn request(&self, level: LogicLevel, plugged: Option<SmartDeviceType>) -> Result<
        AdiWrite,
        PortError,
    > {
        adi_reading(
            plugged,
            AdiWrite {
                device_index: self.port().device_index(),
                port_index: (self.port().spec_index() - 1) as u8,
                value: level.raw_of(),
            },
        )
    }

    /// Makes `port` the output of a valve, if the device which has the port is
    /// there: `plugged` is what the brain reports of it. The valve starts at the
    /// low level. The port has then to be configured as
    /// [`configuration`](Self::configuration) says.
    pub fn new(port: AdiPort, plugged: Option<SmartDeviceType>) -> (created: Result<Self, PortError>)
        ensures
            created is Ok <==> plugged == Some(SmartDeviceType::Adi),
            created is Ok ==> created->Ok_0.port() == port && created->Ok_0.spec_level()
                == LogicLevel::Low,
            created is Err ==> Err::<(), PortError>(created->Err_0) == port_check(
                plugged,
                SmartDeviceType::Adi,
            ),
    {
        match port.configure(AdiDeviceType::DigitalOut, plugged) {
            Ok(_) => Ok(Self { port, level: LogicLevel::Low }),
            Err(error) => Err(error),
        }
    }

    /// The request that configures the port as a digital output.
    pub fn configuration(&self) -> (request: AdiConfigure)
        ensures
            request == (AdiConfigure {
                device_index: self.port().device_index(),
                port_index: (self.port().spec_index() - 1) as u8,
                config: AdiDeviceType::DigitalOut,
            }),
    {
        AdiConfigure {
            device_index: self.port.internal_expander_index(),
            port_index: self.port.internal_index(),
            config: AdiDeviceType::DigitalOut,
        }
    }

    /// The request that puts `level` on the output, if the device which has the
    /// port is there: high opens the valve, low closes it. The valve keeps no
    /// record of the request: [`level`](Self::level) goes on to answer the level
    /// that the valve was made with.
    pub fn set_level(&mut self, level: LogicLevel, plugged: Option<SmartDeviceType>) -> (request:
        Result<AdiWrite, PortError>)
        ensures
            *final(self) == *old(self),
            request == old(self).request(level, plugged),
    {
        match self.port.validate_expander(plugged) {
            Ok(_) => Ok(self.port.write(level.raw())),
            Err(error) => Err(error),
        }
    }

    /// The level that the valve keeps on record.
    #[verifier::when_used_as_spec(spec_level)]
    pub fn level(&self) -> (level: LogicLevel)
        ensures
            level == self.spec_level(),
    {
        self.level
    }

    /// The level that the valve keeps on record; a high level is an open valve.
    pub fn is_open(&self) -> (level: LogicLevel)
        ensures
            level == self.spec_level(),
    {
        self.level
    }

    /// The level that the valve keeps on record; a low level is a closed valve.
    pub fn is_closed(&self) -> (level: LogicLevel)
        ensures
            level == self.spec_level(),
    {
        self.level
    }

    /// The request that opens the valve.
    pub fn open(&mut self, plugged: Option<SmartDeviceType>) -> (request: Result<
        AdiWrite,
        PortError,
    >)
        ensures
            *final(self) == *old(self),
            request == old(self).request(LogicLevel::High, plugged),
    {
        self.set_level(LogicLevel::High, plugged)
    }

    /// The request that closes the valve. A single-acting valve then blocks the
    /// air; a double-acting valve lets it into its closing side.
    pub fn close(&mut self, plugged: Option<SmartDeviceType>) -> (request: Result<
        AdiWrite,
        PortError,
    >)
        ensures
            *final(self) == *old(self),
            request == old(self).request(LogicLevel::Low, plugged),
    {
        self.set_level(LogicLevel::Low, plugged)
    }

    /// The request that puts on the output the inverse of the level that the
    /// valve keeps on record.
    pub fn toggle(&mut self, plugged: Option<SmartDeviceType>) -> (request: Result<
        AdiWrite,
        PortError,
    >)
        ensures
            *final(self) == *old(self),
            request == old(self).request(old(self).spec_level().inverse(), plugged),
    {
        let level = self.level.not();
        self.set_level(level, plugged)
    }
}

impl AdiDevice for AdiSolenoid {
    type PortIndexOutput = u8;

    fn port_index(&self) -> (index: Self::PortIndexOutput)
        ensures
            index == self.port().spec_index(),
    {
        self.port.index()
    }

    fn expander_port_index(&self) -> (number: Option<u8>)
        ensures
            number == self.port().spec_expander_index(),
    {
        self.port.expander_index()
    }

    fn device_type(&self) -> (kind: AdiDeviceType)
        ensures
            kind == AdiDeviceType::DigitalOut,
    {
        AdiDeviceType::DigitalOut
    }
}

} // verus!
