//! Three-wire ports, on the brain itself or on an expander in a smart port.
use vstd::prelude::*;
use crate::devices::PortError;
use crate::devices::smart::{SmartDeviceType, validate_port, port_check, SMART_PORT_COUNT};

pub mod digital;
pub mod linetracker;
pub mod solenoid;

verus! {

/// What a three-wire port can be configured as.
#[derive(Debug, Clone, Copy, PartialEq, Eq, Structural)]
pub enum AdiDeviceType {
    /// Analog input.
    AnalogIn,
    /// Analog output.
    AnalogOut,
    /// Digital input.
    DigitalIn,
    /// Digital output.
    DigitalOut,
    /// Line tracker.
    LineTracker,
    /// Yaw-rate gyroscope of the older generation.
    LegacyGyro,
    /// Servo of the older generation.
    LegacyServo,
    /// Pulse-width output of the older generation.
    LegacyPwm,
    /// Quadrature encoder of the older generation.
    LegacyEncoder,
    /// Ultrasonic range finder of the older generation.
    LegacyUltrasonic,
}

impl AdiDeviceType {
    /// The code that configures a port as this kind of device.
    pub open spec fn code_of(self) -> u8 {
        match self {
            AdiDeviceType::AnalogIn => 0,
            AdiDeviceType::AnalogOut => 1,
            AdiDeviceType::DigitalIn => 2,
            AdiDeviceType::DigitalOut => 3,
            AdiDeviceType::LineTracker => 8,
            AdiDeviceType::LegacyGyro => 10,
            AdiDeviceType::LegacyServo => 12,
            AdiDeviceType::LegacyPwm => 13,
            AdiDeviceType::LegacyEncoder => 14,
            AdiDeviceType::LegacyUltrasonic => 15,
        }
    }

    /// The code that configures a port as this kind of device.
    pub fn code(self) -> (code: u8)
        ensures
            code == self.code_of(),
    {
        match self {
            AdiDeviceType::AnalogIn => 0,
            AdiDeviceType::AnalogOut => 1,
            AdiDeviceType::DigitalIn => 2,
            AdiDeviceType::DigitalOut => 3,
            AdiDeviceType::LineTracker => 8,
            AdiDeviceType::LegacyGyro => 10,
            AdiDeviceType::LegacyServo => 12,
            AdiDeviceType::LegacyPwm => 13,
            AdiDeviceType::LegacyEncoder => 14,
            AdiDeviceType::LegacyUltrasonic => 15,
        }
    }
}

/// Number of three-wire ports on the brain and on each expander.
pub const ADI_PORT_COUNT: u8 = 8;

/// Index, in the device table of the brain, of the three-wire ports of the brain
/// itself.
pub const INTERNAL_ADI_PORT_INDEX: u8 = 21;

/// The request to configure a three-wire port.
#[derive(Debug, Clone, Copy, PartialEq, Eq)]
pub struct AdiConfigure {
    /// Index, in the device table, of the device that has the port.
    pub device_index: u8,
    /// Index of the port on that device, from 0.
    pub port_index: u8,
    /// What the port is to be.
    pub config: AdiDeviceType,
}

/// The request to put a value on a three-wire port.
#[derive(Debug, Clone, Copy, PartialEq, Eq)]
pub struct AdiWrite {
    /// Index, in the device table, of the device that has the port.
    pub device_index: u8,
    /// Index of the port on that device, from 0.
    pub port_index: u8,
    /// The value to put on the port.
    pub value: i32,
}

/// One three-wire port: on the brain itself, or on an expander that is plugged
/// into a smart port.
#[derive(Debug, PartialEq, Eq)]
pub struct AdiPort {
    index: u8,
    expander_index: Option<u8>,
}

impl AdiPort {
    #[verifier::type_invariant]
    spec fn in_range(self) -> bool {
        &&& 1 <= self.index <= ADI_PORT_COUNT
        &&& (self.expander_index is Some ==> 1 <= self.expander_index->0 <= SMART_PORT_COUNT)
    }

    /// The number of the port, from 1 to 8.
    pub closed spec fn spec_index(&self) -> u8 {
        self.index
    }

    /// The number of the smart port that holds the expander, if the port is on one.
    pub closed spec fn spec_expander_index(&self) -> Option<u8> {
        self.expander_index
    }

    /// Index, in the device table, of the device that has the port.
    pub open spec fn device_index(&self) -> u8 {
        match self.spec_expander_index() {
            Some(number) => (number - 1) as u8,
            None => INTERNAL_ADI_PORT_INDEX,
        }
    }

    /// The port with the number `index`, from 1 to 8, on the expander in the smart
    /// port with the number `expander_index`, from 1 to 21, or on the brain itself.
    /// `None` where there is no such port.
    pub fn new(index: u8, expander_index: Option<u8>) -> (port: Option<AdiPort>)
        ensures
            port is Some <==> 1 <= index <= ADI_PORT_COUNT && (expander_index is Some ==> 1
                <= expander_index->0 <= SMART_PORT_COUNT),
            port is Some ==> port->0.spec_index() == index && port->0.spec_expander_index()
                == expander_index,
    {
        let expander_ok = match expander_index {
            Some(number) => 1 <= number && number <= SMART_PORT_COUNT,
            None => true,
        };
        if 1 <= index && index <= ADI_PORT_COUNT && expander_ok {
            Some(AdiPort { index, expander_index })
        } else {
            None
        }
    }

    /// The number of the port, from 1 to 8.
    #[verifier::when_used_as_spec(spec_index)]
    pub fn index(&self) -> (index: u8)
        ensures
            index == self.spec_index(),
            1 <= index <= ADI_PORT_COUNT,
    {
        proof {
            use_type_invariant(self);
        }
        self.index
    }

    /// The number of the smart port that holds the expander, if the port is on one.
    #[verifier::when_used_as_spec(spec_expander_index)]
    pub fn expander_index(&self) -> (number: Option<u8>)
        ensures
            number == self.spec_expander_index(),
            number is Some ==> 1 <= number->0 <= SMART_PORT_COUNT,
    {
        proof {
            use_type_invariant(self);
        }
        self.expander_index
    }

    /// Index of the port on its device, from 0 to 7.
    pub fn internal_index(&self) -> (index: u8)
        ensures
            index == self.spec_index() - 1,
    {
        proof {
            use_type_invariant(self);
        }
        self.index - 1
    }

    /// Index, in the device table, of the device that has the port: that of the
    /// expander, or that of the three-wire ports of the brain.
    pub fn internal_expander_index(&self) -> (index: u8)
        ensures
            index == self.device_index(),
            index <= INTERNAL_ADI_PORT_INDEX,
    {
        proof {
            use_type_invariant(self);
        }
        match self.expander_index {
            Some(number) => number - 1,
            None => INTERNAL_ADI_PORT_INDEX,
        }
    }

    /// Checks that the device which has the port is there: `plugged` is what the
    /// brain reports of it.
    pub fn validate_expander(&self, plugged: Option<SmartDeviceType>) -> (checked: Result<
        (),
        PortError,
    >)
        ensures
            checked == port_check(plugged, SmartDeviceType::Adi),
    {
        validate_port(plugged, SmartDeviceType::Adi)
    }

    /// The request that makes the port a `config`, if the device which has the
    /// port is there.
    pub fn configure(&self, config: AdiDeviceType, plugged: Option<SmartDeviceType>) -> (request:
        Result<AdiConfigure, PortError>)
        ensures
            request == match port_check(plugged, SmartDeviceType::Adi) {
                Ok(_) => Ok(
                    AdiConfigure {
                        device_index: self.device_index(),
                        port_index: (self.spec_index() - 1) as u8,
                        config,
                    },
                ),
                Err(error) => Err(error),
            },
    {
        match self.validate_expander(plugged) {
            Ok(_) => Ok(
                AdiConfigure {
                    device_index: self.internal_expander_index(),
                    port_index: self.internal_index(),
                    config,
                },
            ),
            Err(error) => Err(error),
        }
    }

    /// The request that puts `value` on the port.
    pub fn write(&self, value: i32) -> (request: AdiWrite)
        ensures
            request == (AdiWrite {
                device_index: self.device_index(),
                port_index: (self.spec_index() - 1) as u8,
                value,
            }),
    {
        AdiWrite {
            device_index: self.internal_expander_index(),
            port_index: self.internal_index(),
            value,
        }
    }
}

/// A device on a three-wire port.
pub trait AdiDevice {
    /// How the device names its port or ports.
    type PortIndexOutput;

    /// The number of the port, or the numbers of the ports, that the device is on.
    fn port_index(&self) -> Self::PortIndexOutput;

    /// The number of the smart port that holds the expander, if the device is on
    /// one.
    fn expander_port_index(&self) -> Option<u8>;

    /// What the port of the device is configured as.
    fn device_type(&self) -> AdiDeviceType;
}

} // verus!
