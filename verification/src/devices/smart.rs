//! Smart ports and what is plugged into them.
use vstd::prelude::*;
use crate::devices::PortError;

pub mod motor;
pub mod serial;

verus! {

/// The kinds of device that a smart port can hold.
#[derive(Debug, Clone, Copy, PartialEq, Eq, Structural)]
pub enum SmartDeviceType {
    /// Smart motor.
    Motor,
    /// Rotation sensor.
    Rotation,
    /// Inertial sensor.
    Imu,
    /// Distance sensor.
    Distance,
    /// Vision sensor.
    Vision,
    /// AI vision sensor.
    AiVision,
    /// Electromagnet.
    Electromagnet,
    /// Light tower.
    LightTower,
    /// Robotic arm.
    Arm,
    /// Optical sensor.
    Optical,
    /// GPS sensor.
    Gps,
    /// Radio.
    Radio,
    /// Expander of three-wire ports.
    Adi,
    /// A port that is used as a plain serial line.
    GenericSerial,
    /// A device of a kind that this library does not drive; its code is kept.
    Unknown(u8),
}

impl SmartDeviceType {
    /// The device kind that the brain reports as `code`, and `None` for the code
    /// of an empty port.
    pub open spec fn of_code(code: u8) -> Option<SmartDeviceType> {
        if code == 0 {
            None
        } else if code == 2 {
            Some(SmartDeviceType::Motor)
        } else if code == 4 {
            Some(SmartDeviceType::Rotation)
        } else if code == 6 {
            Some(SmartDeviceType::Imu)
        } else if code == 7 {
            Some(SmartDeviceType::Distance)
        } else if code == 8 {
            Some(SmartDeviceType::Radio)
        } else if code == 11 {
            Some(SmartDeviceType::Vision)
        } else if code == 12 {
            Some(SmartDeviceType::Adi)
        } else if code == 16 {
            Some(SmartDeviceType::Optical)
        } else if code == 17 {
            Some(SmartDeviceType::Electromagnet)
        } else if code == 20 {
            Some(SmartDeviceType::Gps)
        } else if code == 27 {
            Some(SmartDeviceType::LightTower)
        } else if code == 28 {
            Some(SmartDeviceType::Arm)
        } else if code == 29 {
            Some(SmartDeviceType::AiVision)
        } else if code == 129 {
            Some(SmartDeviceType::GenericSerial)
        } else {
            Some(SmartDeviceType::Unknown(code))
        }
    }

    /// The code under which the brain reports this kind of device.
    pub open spec fn code_of(self) -> u8 {
        match self {
            SmartDeviceType::Motor => 2,
            SmartDeviceType::Rotation => 4,
            SmartDeviceType::Imu => 6,
            SmartDeviceType::Distance => 7,
            SmartDeviceType::Radio => 8,
            SmartDeviceType::Vision => 11,
            SmartDeviceType::Adi => 12,
            SmartDeviceType::Optical => 16,
            SmartDeviceType::Electromagnet => 17,
            SmartDeviceType::Gps => 20,
            SmartDeviceType::LightTower => 27,
            SmartDeviceType::Arm => 28,
            SmartDeviceType::AiVision => 29,
            SmartDeviceType::GenericSerial => 129,
            SmartDeviceType::Unknown(code) => code,
        }
    }

    /// Reads a device code of the brain: `None` where the code says that the port
    /// is empty, else the kind of device.
    pub fn from_code(code: u8) -> (plugged: Option<SmartDeviceType>)
        ensures
            plugged == SmartDeviceType::of_code(code),
            plugged is None <==> code == 0,
            plugged is Some ==> plugged->0.code_of() == code,
    {
        if code == 0 {
            None
        } else if code == 2 {
            Some(SmartDeviceType::Motor)
        } else if code == 4 {
            Some(SmartDeviceType::Rotation)
        } else if code == 6 {
            Some(SmartDeviceType::Imu)
        } else if code == 7 {
            Some(SmartDeviceType::Distance)
        } else if code == 8 {
            Some(SmartDeviceType::Radio)
        } else if code == 11 {
            Some(SmartDeviceType::Vision)
        } else if code == 12 {
            Some(SmartDeviceType::Adi)
        } else if code == 16 {
            Some(SmartDeviceType::Optical)
        } else if code == 17 {
            Some(SmartDeviceType::Electromagnet)
        } else if code == 20 {
            Some(SmartDeviceType::Gps)
        } else if code == 27 {
            Some(SmartDeviceType::LightTower)
        } else if code == 28 {
            Some(SmartDeviceType::Arm)
        } else if code == 29 {
            Some(SmartDeviceType::AiVision)
        } else if code == 129 {
            Some(SmartDeviceType::GenericSerial)
        } else {
            Some(SmartDeviceType::Unknown(code))
        }
    }

    /// The code under which the brain reports this kind of device.
    pub fn code(self) -> (code: u8)
        ensures
            code == self.code_of(),
    {
        match self {
            SmartDeviceType::Motor => 2,
            SmartDeviceType::Rotation => 4,
            SmartDeviceType::Imu => 6,
            SmartDeviceType::Distance => 7,
            SmartDeviceType::Radio => 8,
            SmartDeviceType::Vision => 11,
            SmartDeviceType::Adi => 12,
            SmartDeviceType::Optical => 16,
            SmartDeviceType::Electromagnet => 17,
            SmartDeviceType::Gps => 20,
            SmartDeviceType::LightTower => 27,
            SmartDeviceType::Arm => 28,
            SmartDeviceType::AiVision => 29,
            SmartDeviceType::GenericSerial => 129,
            SmartDeviceType::Unknown(code) => code,
        }
    }
}

/// What the check of a port says, given what is plugged into it and what is
/// expected there.
pub open spec fn port_check(
    plugged: Option<SmartDeviceType>,
    expected: SmartDeviceType,
) -> Result<(), PortError> {
    match plugged {
        None => Err(PortError::Disconnected),
        Some(found) => if found == expected {
            Ok(())
        } else {
            Err(PortError::IncorrectDevice)
        },
    }
}

/// Checks that the device plugged into a port is of the kind `expected`. An empty
/// port is disconnected; a port with another kind of device holds an incorrect
/// device.
pub fn validate_port(plugged: Option<SmartDeviceType>, expected: SmartDeviceType) -> (checked:
    Result<(), PortError>)
    ensures
        checked == port_check(plugged, expected),
        checked is Ok <==> plugged == Some(expected),
        checked == Err::<(), PortError>(PortError::Disconnected) <==> plugged is None,
{
    match plugged {
        None => Err(PortError::Disconnected),
        Some(found) => {
            if found == expected {
                Ok(())
            } else {
                Err(PortError::IncorrectDevice)
            }
        },
    }
}

/// Number of smart ports on the brain.
pub const SMART_PORT_COUNT: u8 = 21;

/// One of the smart ports of the brain, numbered from 1 as on its case.
#[derive(Debug, PartialEq, Eq)]
pub struct SmartPort {
    number: u8,
}

impl SmartPort {
    #[verifier::type_invariant]
    spec fn in_range(self) -> bool {
        1 <= self.number <= SMART_PORT_COUNT
    }

    /// The number of the port.
    pub closed spec fn spec_number(&self) -> u8 {
        self.number
    }

    /// The port with the given number, if the brain has such a port.
    pub fn new(number: u8) -> (port: Option<SmartPort>)
        ensures
            port is Some <==> 1 <= number <= SMART_PORT_COUNT,
            port is Some ==> port->0.spec_number() == number,
    {
        if 1 <= number && number <= SMART_PORT_COUNT {
            Some(SmartPort { number })
        } else {
            None
        }
    }

    /// The number of the port, from 1 to 21.
    #[verifier::when_used_as_spec(spec_number)]
    pub fn number(&self) -> (number: u8)
        ensures
            number == self.spec_number(),
            1 <= number <= SMART_PORT_COUNT,
    {
        proof {
            use_type_invariant(self);
        }
        self.number
    }

    /// The index of the port in the device table of the brain, from 0 to 20.
    pub fn index(&self) -> (index: u8)
        ensures
            index == self.spec_number() - 1,
    {
        proof {
            use_type_invariant(self);
        }
        self.number - 1
    }
}

/// A device on a smart port.
pub trait SmartDevice {
    /// The port that the device is on.
    spec fn port_of(&self) -> u8;

    /// The kind of device that the port is used as.
    spec fn kind_of(&self) -> SmartDeviceType;

    /// The number of the port that the device is on, from 1 to 21.
    fn port_number(&self) -> (number: u8)
        ensures
            number == self.port_of(),
            1 <= number <= SMART_PORT_COUNT,
    ;

    /// The index of the port in the device table of the brain, from 0 to 20.
    fn port_index(&self) -> (index: u8)
        ensures
            index == self.port_of() - 1,
    ;

    /// The kind of device that the port is used as.
    fn device_type(&self) -> (kind: SmartDeviceType)
        ensures
            kind == self.kind_of(),
    ;

    /// Checks that what is plugged into the port is a device of this kind.
    fn validate_port(&self, plugged: Option<SmartDeviceType>) -> (checked: Result<(), PortError>)
        ensures
            checked == port_check(plugged, self.kind_of()),
    {
        validate_port(plugged, self.device_type())
    }
}

} // verus!
