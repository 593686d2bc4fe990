use vexide::devices::adi::digital::{AdiDigitalIn, AdiDigitalOut, LogicLevel};
use vexide::devices::adi::linetracker::{AdiLineTracker, ADC_MAX_VALUE};
use vexide::devices::adi::solenoid::AdiSolenoid;
use vexide::devices::adi::{AdiConfigure, AdiDevice, AdiDeviceType, AdiPort, AdiWrite};
use vexide::devices::smart::SmartDeviceType;
use vexide::devices::PortError;

const ADI: Option<SmartDeviceType> = Some(SmartDeviceType::Adi);

#[test]
fn logic_level_predicates() {
    assert!(LogicLevel::High.is_high());
    assert!(!LogicLevel::High.is_low());
    assert!(LogicLevel::Low.is_low());
    assert!(!LogicLevel::Low.is_high());
}

#[test]
fn logic_level_not_inverts() {
    assert_eq!(!LogicLevel::High, LogicLevel::Low);
    assert_eq!(!LogicLevel::Low, LogicLevel::High);
    assert_eq!(!!LogicLevel::High, LogicLevel::High);
}

#[test]
fn logic_level_raw_values() {
    assert_eq!(LogicLevel::from_raw(0), LogicLevel::Low);
    assert_eq!(LogicLevel::from_raw(1), LogicLevel::High);
    assert_eq!(LogicLevel::from_raw(-7), LogicLevel::High);
    assert_eq!(LogicLevel::High.raw(), 1);
    assert_eq!(LogicLevel::Low.raw(), 0);
}

#[test]
fn adi_port_accepts_only_existing_ports() {
    assert!(AdiPort::new(0, None).is_none());
    assert!(AdiPort::new(9, None).is_none());
    assert!(AdiPort::new(1, Some(0)).is_none());
    assert!(AdiPort::new(1, Some(22)).is_none());
    let port = AdiPort::new(8, Some(21)).unwrap();
    assert_eq!(port.index(), 8);
    assert_eq!(port.expander_index(), Some(21));
    assert_eq!(port.internal_index(), 7);
    assert_eq!(port.internal_expander_index(), 20);
    let onboard = AdiPort::new(1, None).unwrap();
    assert_eq!(onboard.internal_index(), 0);
    assert_eq!(onboard.internal_expander_index(), 21);
}

#[test]
fn adi_port_checks_its_expander() {
    let port = AdiPort::new(3, Some(5)).unwrap();
    assert_eq!(port.validate_expander(ADI), Ok(()));
    assert_eq!(port.validate_expander(None), Err(PortError::Disconnected));
    assert_eq!(
        port.validate_expander(Some(SmartDeviceType::Motor)),
        Err(PortError::IncorrectDevice)
    );
}

#[test]
fn adi_port_configure_names_port_and_kind() {
    let port = AdiPort::new(3, Some(5)).unwrap();
    assert_eq!(
        port.configure(AdiDeviceType::AnalogIn, ADI),
        Ok(AdiConfigure { device_index: 4, port_index: 2, config: AdiDeviceType::AnalogIn })
    );
    assert_eq!(port.configure(AdiDeviceType::AnalogIn, None), Err(PortError::Disconnected));
    assert_eq!(port.write(17), AdiWrite { device_index: 4, port_index: 2, value: 17 });
}

#[test]
fn adi_device_type_codes() {
    assert_eq!(AdiDeviceType::AnalogIn.code(), 0);
    assert_eq!(AdiDeviceType::AnalogOut.code(), 1);
    assert_eq!(AdiDeviceType::DigitalIn.code(), 2);
    assert_eq!(AdiDeviceType::DigitalOut.code(), 3);
    assert_eq!(AdiDeviceType::LineTracker.code(), 8);
    assert_eq!(AdiDeviceType::LegacyGyro.code(), 10);
    assert_eq!(AdiDeviceType::LegacyServo.code(), 12);
    assert_eq!(AdiDeviceType::LegacyPwm.code(), 13);
    assert_eq!(AdiDeviceType::LegacyEncoder.code(), 14);
    assert_eq!(AdiDeviceType::LegacyUltrasonic.code(), 15);
}

#[test]
fn digital_in_needs_its_expander() {
    let made = AdiDigitalIn::new(AdiPort::new(2, None).unwrap(), ADI);
    assert!(made.is_ok());
    assert_eq!(
        AdiDigitalIn::new(AdiPort::new(2, None).unwrap(), None),
        Err(PortError::Disconnected)
    );
    assert_eq!(
        AdiDigitalIn::new(AdiPort::new(2, None).unwrap(), Some(SmartDeviceType::Imu)),
        Err(PortError::IncorrectDevice)
    );
}

#[test]
fn digital_in_reads_levels() {
    let input = AdiDigitalIn::new(AdiPort::new(2, None).unwrap(), ADI).unwrap();
    assert_eq!(
        input.configuration(),
        AdiConfigure { device_index: 21, port_index: 1, config: AdiDeviceType::DigitalIn }
    );
    assert_eq!(input.level(ADI, 1), Ok(LogicLevel::High));
    assert_eq!(input.level(ADI, 0), Ok(LogicLevel::Low));
    assert_eq!(input.level(ADI, 4095), Ok(LogicLevel::High));
    assert_eq!(input.level(None, 1), Err(PortError::Disconnected));
    assert_eq!(input.is_high(ADI, 1), Ok(true));
    assert_eq!(input.is_high(ADI, 0), Ok(false));
    assert_eq!(input.is_high(Some(SmartDeviceType::Motor), 1), Err(PortError::IncorrectDevice));
    assert_eq!(input.port_index(), 2);
    assert_eq!(input.expander_port_index(), None);
    assert_eq!(input.device_type(), AdiDeviceType::DigitalIn);
}

#[test]
fn digital_in_is_low_answers_as_is_high() {
    let input = AdiDigitalIn::new(AdiPort::new(2, None).unwrap(), ADI).unwrap();
    assert_eq!(input.is_low(ADI, 1), Ok(true));
    assert_eq!(input.is_low(ADI, 0), Ok(false));
    assert_eq!(input.is_low(None, 0), Err(PortError::Disconnected));
}

#[test]
fn digital_out_requests_levels() {
    let mut output = AdiDigitalOut::new(AdiPort::new(4, Some(1)).unwrap(), ADI).unwrap();
    assert_eq!(
        output.configuration(),
        AdiConfigure { device_index: 0, port_index: 3, config: AdiDeviceType::DigitalOut }
    );
    assert_eq!(
        output.set_level(LogicLevel::High),
        Ok(AdiWrite { device_index: 0, port_index: 3, value: 1 })
    );
    assert_eq!(
        output.set_level(LogicLevel::Low),
        Ok(AdiWrite { device_index: 0, port_index: 3, value: 0 })
    );
    assert_eq!(output.set_high(), Ok(AdiWrite { device_index: 0, port_index: 3, value: 1 }));
    assert_eq!(output.set_low(), Ok(AdiWrite { device_index: 0, port_index: 3, value: 0 }));
    assert_eq!(output.port_index(), 4);
    assert_eq!(output.expander_port_index(), Some(1));
    assert_eq!(output.device_type(), AdiDeviceType::DigitalOut);
    assert_eq!(
        AdiDigitalOut::new(AdiPort::new(4, Some(1)).unwrap(), None),
        Err(PortError::Disconnected)
    );
}

#[test]
fn line_tracker_reads_raw_reflectivity() {
    let tracker = AdiLineTracker::new(AdiPort::new(1, None).unwrap(), ADI).unwrap();
    assert_eq!(
        tracker.configuration(),
        AdiConfigure { device_index: 21, port_index: 0, config: AdiDeviceType::LineTracker }
    );
    assert_eq!(tracker.raw_reflectivity(ADI, 0), Ok(0));
    assert_eq!(tracker.raw_reflectivity(ADI, 2048), Ok(2048));
    assert_eq!(tracker.raw_reflectivity(ADI, 4095), Ok(ADC_MAX_VALUE));
    assert_eq!(tracker.raw_reflectivity(ADI, 65536 + 5), Ok(5));
    assert_eq!(tracker.raw_reflectivity(ADI, -1), Ok(65535));
    assert_eq!(tracker.raw_reflectivity(None, 100), Err(PortError::Disconnected));
    assert_eq!(
        tracker.raw_reflectivity(Some(SmartDeviceType::Optical), 100),
        Err(PortError::IncorrectDevice)
    );
    assert_eq!(tracker.device_type(), AdiDeviceType::LineTracker);
    assert_eq!(tracker.port_index(), 1);
    assert!(AdiLineTracker::new(AdiPort::new(1, None).unwrap(), None).is_err());
}

#[test]
fn solenoid_starts_low_and_requests_levels() {
    let mut valve = AdiSolenoid::new(AdiPort::new(6, None).unwrap(), ADI).unwrap();
    assert_eq!(valve.level(), LogicLevel::Low);
    assert_eq!(valve.is_open(), LogicLevel::Low);
    assert_eq!(valve.is_closed(), LogicLevel::Low);
    assert_eq!(
        valve.configuration(),
        AdiConfigure { device_index: 21, port_index: 5, config: AdiDeviceType::DigitalOut }
    );
    assert_eq!(valve.open(ADI), Ok(AdiWrite { device_index: 21, port_index: 5, value: 1 }));
    assert_eq!(valve.close(ADI), Ok(AdiWrite { device_index: 21, port_index: 5, value: 0 }));
    assert_eq!(
        valve.set_level(LogicLevel::High, ADI),
        Ok(AdiWrite { device_index: 21, port_index: 5, value: 1 })
    );
    assert_eq!(valve.open(None), Err(PortError::Disconnected));
    assert_eq!(valve.close(Some(SmartDeviceType::Motor)), Err(PortError::IncorrectDevice));
    assert_eq!(valve.device_type(), AdiDeviceType::DigitalOut);
    assert_eq!(valve.port_index(), 6);
    assert_eq!(valve.expander_port_index(), None);
}

#[test]
fn solenoid_toggle_inverts_the_recorded_level() {
    let mut valve = AdiSolenoid::new(AdiPort::new(6, None).unwrap(), ADI).unwrap();
    // The record stays at the level that the valve was made with.
    assert_eq!(valve.toggle(ADI), Ok(AdiWrite { device_index: 21, port_index: 5, value: 1 }));
    assert_eq!(valve.level(), LogicLevel::Low);
    assert_eq!(valve.toggle(ADI), Ok(AdiWrite { device_index: 21, port_index: 5, value: 1 }));
    assert_eq!(valve.toggle(None), Err(PortError::Disconnected));
}

#[test]
fn solenoid_needs_its_expander() {
    assert_eq!(
        AdiSolenoid::new(AdiPort::new(6, Some(2)).unwrap(), None),
        Err(PortError::Disconnected)
    );
    assert_eq!(
        AdiSolenoid::new(AdiPort::new(6, Some(2)).unwrap(), Some(SmartDeviceType::Radio)),
        Err(PortError::IncorrectDevice)
    );
}
