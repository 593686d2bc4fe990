//! Digital inputs and outputs on three-wire ports.
use vstd::prelude::*;
use crate::devices::PortError;
use crate::devices::smart::{SmartDeviceType, port_check};
use crate::devices::adi::{AdiConfigure, AdiDevice, AdiDeviceType, AdiPort, AdiWrite};

verus! {

/// The logic level of a digital pin.
#[derive(Debug, Clone, Copy, PartialEq, Eq, Structural)]
pub enum LogicLevel {
    /// 3.3 V or above.
    High,
    /// Below 3.3 V.
    Low,
}

impl LogicLevel {
    /// The level that a pin has when its raw value is `raw`: low for zero, high
    /// for everything else.
    pub open spec fn of_raw(raw: i32) -> LogicLevel {
        if raw != 0 {
            LogicLevel::High
        } else {
            LogicLevel::Low
        }
    }

    /// The value that puts this level on a pin.
    pub open spec fn raw_of(self) -> i32 {
        if self == LogicLevel::High {
            1
        } else {
            0
        }
    }

    /// The other level.
    pub open spec fn inverse(self) -> LogicLevel {
        match self {
            LogicLevel::Low => LogicLevel::High,
            LogicLevel::High => LogicLevel::Low,
        }
    }

    /// Whether the level is high.
    pub fn is_high(&self) -> (high: bool)
        ensures
            high == (*self == LogicLevel::High),
    {
        match self {
            Self::High => true,
            Self::Low => false,
        }
    }

    /// Whether the level is low.
    pub fn is_low(&self) -> (low: bool)
        ensures
            low == (*self == LogicLevel::Low),
    {
        match self {
            Self::High => false,
            Self::Low => true,
        }
    }

    /// The level that a pin has when its raw value is `raw`.
    pub fn from_raw(raw: i32) -> (level: LogicLevel)
        ensures
            level == LogicLevel::of_raw(raw),
    {
        if raw != 0 {
            LogicLevel::High
        } else {
            LogicLevel::Low
        }
    }

    /// The value that puts this level on a pin: 1 for high, 0 for low.
    pub fn raw(self) -> (raw: i32)
        ensures
            raw == self.raw_of(),
            LogicLevel::of_raw(raw) == self,
    {
        match self {
            LogicLevel::High => 1,
            LogicLevel::Low => 0,
        }
    }
}

impl core::ops::Not for LogicLevel {
    type Output = Self;

    /// The other level.
    fn not(self) -> (inverse: Self::Output) {
        match self {
            Self::Low => Self::High,
            Self::High => Self::Low,
        }
    }
}

impl vstd::std_specs::ops::NotSpecImpl for LogicLevel {
    open spec fn obeys_not_spec() -> bool {
        true
    }

    open spec fn not_req(self) -> bool {
        true
    }

    open spec fn not_spec(self) -> LogicLevel {
        self.inverse()
    }
}

/// What a read of a three-wire port gives: the error of the port check, or the
/// raw value as `decode` reads it.
pub open spec fn adi_reading<T>(
    plugged: Option<SmartDeviceType>,
    decoded: T,
) -> Result<T, PortError> {
    match port_check(plugged, SmartDeviceType::Adi) {
        Ok(_) => Ok(decoded),
        Err(error) => Err(error),
    }
}

/// A digital input.
#[derive(Debug, Eq, PartialEq)]
pub struct AdiDigitalIn {
    port: AdiPort,
}

impl AdiDigitalIn {
    /// The port of the input.
    pub closed spec fn port(&self) -> AdiPort {
        self.port
    }

    /// Makes `port` a digital input, if the device which has the port is there:
    /// `plugged` is what the brain reports of it. The port has then to be
    /// configured as [`configuration`](Self::configuration) says.
    pub fn new(port: AdiPort, plugged: Option<SmartDeviceType>) -> (created: Result<Self, PortError>)
        ensures
            created is Ok <==> plugged == Some(SmartDeviceType::Adi),
            created is Ok ==> created->Ok_0.port() == port,
            created is Err ==> Err::<(), PortError>(created->Err_0) == port_check(
                plugged,
                SmartDeviceType::Adi,
            ),
    {
        match port.configure(AdiDeviceType::DigitalIn, plugged) {
            Ok(_) => Ok(Self { port }),
            Err(error) => Err(error),
        }
    }

    /// The request that configures the port as a digital input.
    pub fn configuration(&self) -> (request: AdiConfigure)
        ensures
            request == (AdiConfigure {
                device_index: self.port().device_index(),
                port_index: (self.port().spec_index() - 1) as u8,
                config: AdiDeviceType::DigitalIn,
            }),
    {
        AdiConfigure {
            device_index: self.port.internal_expander_index(),
            port_index: self.port.internal_index(),
            config: AdiDeviceType::DigitalIn,
        }
    }

    /// The logic level of the pin, where `raw` is the value read from the port and
    /// `plugged` what the brain reports of the device which has the port.
    pub fn level(&self, plugged: Option<SmartDeviceType>, raw: i32) -> (level: Result<
        LogicLevel,
        PortError,
    >)
        ensures
            level == adi_reading(plugged, LogicLevel::of_raw(raw)),
    {
        match self.port.validate_expander(plugged) {
            Ok(_) => Ok(LogicLevel::from_raw(raw)),
            Err(error) => Err(error),
        }
    }

    /// Whether the level of the pin is high.
    pub fn is_high(&self, plugged: Option<SmartDeviceType>, raw: i32) -> (high: Result<
        bool,
        PortError,
    >)
        ensures
            high == adi_reading(plugged, raw != 0),
    {
        match self.level(plugged, raw) {
            Ok(level) => Ok(level.is_high()),
            Err(error) => Err(error),
        }
    }

    /// Reads the pin as [`is_high`](Self::is_high) does and answers what that
    /// answers: `true` for a high level.
    pub fn is_low(&self, plugged: Option<SmartDeviceType>, raw: i32) -> (high: Result<
        bool,
        PortError,
    >)
        ensures
            high == adi_reading(plugged, raw != 0),
    {
        match self.level(plugged, raw) {
            Ok(level) => Ok(level.is_high()),
            Err(error) => Err(error),
        }
    }
}

impl AdiDevice for AdiDigitalIn {
    type PortIndexOutput = u8;

    fn port_index(&self) -> (index: Self::PortIndexOutput)
        ensures
            index == self.port().spec_index(),
    {
        self.port.index()
    }

    fn expander_port_index(&self) -> (number: Option<u8>)
        ensures
            number == self.port().spec_expander_index(),
    {
        self.port.expander_index()
    }

    fn device_type(&self) -> (kind: AdiDeviceType)
        ensures
            kind == AdiDeviceType::DigitalIn,
    {
        AdiDeviceType::DigitalIn
    }
}

/// A digital output.
#[derive(Debug, Eq, PartialEq)]
pub struct AdiDigitalOut {
    port: AdiPort,
}

impl AdiDigitalOut {
    /// The port of the output.
    pub closed spec fn port(&self) -> AdiPort {
        self.port
    }

    /// Makes `port` a digital output, if the device which has the port is there:
    /// `plugged` is what the brain reports of it. The port has then to be
    /// configured as [`configuration`](Self::configuration) says.
    pub fn new(port: AdiPort, plugged: Option<SmartDeviceType>) -> (created: Result<Self, PortError>)
        ensures
            created is Ok <==> plugged == Some(SmartDeviceType::Adi),
            created is Ok ==> created->Ok_0.port() == port,
            created is Err ==> Err::<(), PortError>(created->Err_0) == port_check(
                plugged,
                SmartDeviceType::Adi,
            ),
    {
        match port.configure(AdiDeviceType::DigitalOut, plugged) {
            Ok(_) => Ok(Self { port }),
            Err(error) => Err(error),
        }
    }

    /// The request that configures the port as a digital output.
    pub fn configuration(&self) -> (request: AdiConfigure)
        ensures
            request == (AdiConfigure {
                device_index: self.port().device_index(),
                port_index: (self.port().spec_index() - 1) as u8,
                config: AdiDeviceType::DigitalOut,
            }),
    {
        AdiConfigure {
            device_index: self.port.internal_expander_index(),
            port_index: self.port.internal_index(),
            config: AdiDeviceType::DigitalOut,
        }
    }

    /// The request that puts `level` on the pin: 1 for high, 0 for low. An output
    /// is written without a check of its port, so the request is always there.
    pub fn set_level(&mut self, level: LogicLevel) -> (request: Result<AdiWrite, PortError>)
        ensures
            final(self).port() == old(self).port(),
            request == Ok::<AdiWrite, PortError>(
                AdiWrite {
                    device_index: old(self).port().device_index(),
                    port_index: (old(self).port().spec_index() - 1) as u8,
                    value: level.raw_of(),
                },
            ),
    {
        Ok(self.port.write(level.raw()))
    }

    /// The request that puts a high level on the pin.
    pub fn set_high(&mut self) -> (request: Result<AdiWrite, PortError>)
        ensures
            final(self).port() == old(self).port(),
            request == Ok::<AdiWrite, PortError>(
                AdiWrite {
                    device_index: old(self).port().device_index(),
                    port_index: (old(self).port().spec_index() - 1) as u8,
                    value: 1,
                },
            ),
    {
        self.set_level(LogicLevel::High)
    }

    /// The request that puts a low level on the pin.
    pub fn set_low(&mut self) -> (request: Result<AdiWrite, PortError>)
        ensures
            final(self).port() == old(self).port(),
            request == Ok::<AdiWrite, PortError>(
                AdiWrite {
                    device_index: old(self).port().device_index(),
                    port_index: (old(self).port().spec_index() - 1) as u8,
                    value: 0,
                },
            ),
    {
        self.set_level(LogicLevel::Low)
    }
}

impl AdiDevice for AdiDigitalOut {
    type PortIndexOutput = u8;

    fn port_index(&self) -> (index: Self::PortIndexOutput)
        ensures
            index == self.port().spec_index(),
    {
        self.port.index()
    }

    fn expander_port_index(&self) -> (number: Option<u8>)
        ensures
            number == self.port().spec_expander_index(),
    {
        self.port.expander_index()
    }

    fn device_type(&self) -> (kind: AdiDeviceType)
        ensures
            kind == AdiDeviceType::DigitalOut,
    {
        AdiDeviceType::DigitalOut
    }
}

} // verus!
