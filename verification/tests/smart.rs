use vexide::devices::smart::motor::{
    BrakeMode, Direction, Gearset, Motor, MotorCommand, MotorControl, MotorError, MotorFaults,
    MotorStatus, SmartDeviceTimestamp, FAULT_DRIVER_FAULT, FAULT_DRIVER_OVER_CURRENT,
    FAULT_OVER_CURRENT, FAULT_OVER_TEMPERATURE, STATUS_BUSY, STATUS_ZERO_POSITION,
    STATUS_ZERO_VELOCITY,
};
use no_std_io::io::ErrorKind;
use vexide::devices::smart::serial::{SerialError, SerialOpen, SerialPort};
use vexide::devices::smart::{validate_port, SmartDevice, SmartDeviceType, SmartPort};
use vexide::devices::PortError;

const MOTOR: Option<SmartDeviceType> = Some(SmartDeviceType::Motor);
const SERIAL: Option<SmartDeviceType> = Some(SmartDeviceType::GenericSerial);

fn disconnected() -> MotorError {
    MotorError::Port { source: PortError::Disconnected }
}

fn incorrect() -> MotorError {
    MotorError::Port { source: PortError::IncorrectDevice }
}

#[test]
fn smart_port_numbers_run_from_1_to_21() {
    assert!(SmartPort::new(0).is_none());
    assert!(SmartPort::new(22).is_none());
    let first = SmartPort::new(1).unwrap();
    assert_eq!(first.number(), 1);
    assert_eq!(first.index(), 0);
    let last = SmartPort::new(21).unwrap();
    assert_eq!(last.number(), 21);
    assert_eq!(last.index(), 20);
}

#[test]
fn device_codes_round_trip() {
    assert_eq!(SmartDeviceType::from_code(0), None);
    let kinds = [
        (2, SmartDeviceType::Motor),
        (4, SmartDeviceType::Rotation),
        (6, SmartDeviceType::Imu),
        (7, SmartDeviceType::Distance),
        (8, SmartDeviceType::Radio),
        (11, SmartDeviceType::Vision),
        (12, SmartDeviceType::Adi),
        (16, SmartDeviceType::Optical),
        (17, SmartDeviceType::Electromagnet),
        (20, SmartDeviceType::Gps),
        (27, SmartDeviceType::LightTower),
        (28, SmartDeviceType::Arm),
        (29, SmartDeviceType::AiVision),
        (129, SmartDeviceType::GenericSerial),
        (255, SmartDeviceType::Unknown(255)),
    ];
    for (code, kind) in kinds {
        assert_eq!(SmartDeviceType::from_code(code), Some(kind));
        assert_eq!(kind.code(), code);
    }
    for code in 1..=255u8 {
        assert_eq!(SmartDeviceType::from_code(code).unwrap().code(), code);
    }
}

#[test]
fn validate_port_tells_disconnected_from_incorrect() {
    assert_eq!(validate_port(MOTOR, SmartDeviceType::Motor), Ok(()));
    assert_eq!(validate_port(None, SmartDeviceType::Motor), Err(PortError::Disconnected));
    assert_eq!(validate_port(SERIAL, SmartDeviceType::Motor), Err(PortError::IncorrectDevice));
    assert_eq!(
        validate_port(Some(SmartDeviceType::Unknown(3)), SmartDeviceType::Unknown(4)),
        Err(PortError::IncorrectDevice)
    );
    assert_eq!(
        validate_port(Some(SmartDeviceType::Unknown(3)), SmartDeviceType::Unknown(3)),
        Ok(())
    );
}

#[test]
fn direction_predicates_and_not() {
    assert!(Direction::Forward.is_forward());
    assert!(!Direction::Forward.is_reverse());
    assert!(Direction::Reverse.is_reverse());
    assert!(!Direction::Reverse.is_forward());
    assert_eq!(!Direction::Forward, Direction::Reverse);
    assert_eq!(!Direction::Reverse, Direction::Forward);
}

#[test]
fn gearset_ticks_per_revolution() {
    assert_eq!(Gearset::Red.ticks_per_revolution(), 1800);
    assert_eq!(Gearset::Green.ticks_per_revolution(), 900);
    assert_eq!(Gearset::Blue.ticks_per_revolution(), 300);
    assert_eq!(Gearset::RED_TICKS_PER_REVOLUTION, 1800);
    assert_eq!(Gearset::GREEN_TICKS_PER_REVOLUTION, 900);
    assert_eq!(Gearset::BLUE_TICKS_PER_REVOLUTION, 300);
}

#[test]
fn gearset_aliases() {
    assert_eq!(Gearset::RATIO_36, Gearset::Red);
    assert_eq!(Gearset::RATIO_18, Gearset::Green);
    assert_eq!(Gearset::RATIO_6, Gearset::Blue);
    assert_eq!(Gearset::RPM_100, Gearset::Red);
    assert_eq!(Gearset::RPM_200, Gearset::Green);
    assert_eq!(Gearset::RPM_600, Gearset::Blue);
}

#[test]
fn gearset_and_brake_mode_codes() {
    assert_eq!(Gearset::from_raw(0), Gearset::Red);
    assert_eq!(Gearset::from_raw(1), Gearset::Green);
    assert_eq!(Gearset::from_raw(2), Gearset::Blue);
    assert_eq!(Gearset::Red.raw(), 0);
    assert_eq!(Gearset::Green.raw(), 1);
    assert_eq!(Gearset::Blue.raw(), 2);
    assert_eq!(BrakeMode::from_raw(0), BrakeMode::Coast);
    assert_eq!(BrakeMode::from_raw(1), BrakeMode::Brake);
    assert_eq!(BrakeMode::from_raw(2), BrakeMode::Hold);
    assert_eq!(BrakeMode::Coast.raw(), 0);
    assert_eq!(BrakeMode::Brake.raw(), 1);
    assert_eq!(BrakeMode::Hold.raw(), 2);
}

#[test]
fn flags_keep_every_bit() {
    let faults = MotorFaults::from_bits_retain(0xF0F5);
    assert_eq!(faults.bits(), 0xF0F5);
    assert!(faults.contains(FAULT_OVER_TEMPERATURE));
    assert!(faults.contains(FAULT_OVER_CURRENT));
    assert!(!faults.contains(FAULT_DRIVER_FAULT));
    assert!(!faults.contains(FAULT_DRIVER_OVER_CURRENT));
    assert!(faults.contains(FAULT_OVER_TEMPERATURE | FAULT_OVER_CURRENT));
    assert!(!faults.contains(FAULT_OVER_TEMPERATURE | FAULT_DRIVER_FAULT));
    assert!(faults.contains(0));
    let status = MotorStatus::from_bits_retain(STATUS_ZERO_VELOCITY | STATUS_ZERO_POSITION);
    assert_eq!(status.bits(), 6);
    assert!(!status.contains(STATUS_BUSY));
    assert!(status.contains(STATUS_ZERO_POSITION));
}

#[test]
fn motor_new_sets_up_units_gearing_and_direction() {
    let (motor, commands) =
        Motor::new(SmartPort::new(3).unwrap(), Gearset::Blue, Direction::Reverse);
    assert_eq!(
        commands,
        vec![
            MotorCommand::CountInTicks,
            MotorCommand::SetGearing(Gearset::Blue),
            MotorCommand::SetReversed(true),
        ]
    );
    assert_eq!(motor.target(MOTOR), Ok(MotorControl::Voltage(0)));
    assert_eq!(motor.port_number(), 3);
    assert_eq!(motor.port_index(), 2);
    assert_eq!(motor.device_type(), SmartDeviceType::Motor);
    assert_eq!(motor.validate_port(MOTOR), Ok(()));
    assert_eq!(motor.validate_port(None), Err(PortError::Disconnected));
    let (_, commands) = Motor::new(SmartPort::new(3).unwrap(), Gearset::Red, Direction::Forward);
    assert_eq!(commands[2], MotorCommand::SetReversed(false));
}

fn motor() -> Motor {
    Motor::new(SmartPort::new(1).unwrap(), Gearset::Green, Direction::Forward).0
}

#[test]
fn set_target_brake_holds_zero_velocity_in_the_mode() {
    let mut motor = motor();
    assert_eq!(
        motor.set_target(MotorControl::Brake(BrakeMode::Hold), MOTOR, 1),
        Ok(vec![MotorCommand::SetBrakeMode(BrakeMode::Hold), MotorCommand::SetVelocity(0)])
    );
    assert_eq!(motor.target(MOTOR), Ok(MotorControl::Brake(BrakeMode::Hold)));
    assert_eq!(
        motor.brake(BrakeMode::Brake, MOTOR, 1),
        Ok(vec![MotorCommand::SetBrakeMode(BrakeMode::Brake), MotorCommand::SetVelocity(0)])
    );
}

#[test]
fn set_target_velocity_and_voltage_coast() {
    let mut motor = motor();
    assert_eq!(
        motor.set_velocity(150, MOTOR, 1),
        Ok(vec![MotorCommand::SetBrakeMode(BrakeMode::Coast), MotorCommand::SetVelocity(150)])
    );
    assert_eq!(motor.target(MOTOR), Ok(MotorControl::Velocity(150)));
    assert_eq!(
        motor.set_voltage(-12000, MOTOR, 1),
        Ok(vec![MotorCommand::SetBrakeMode(BrakeMode::Coast), MotorCommand::SetVoltage(-12000)])
    );
    assert_eq!(motor.target(MOTOR), Ok(MotorControl::Voltage(-12000)));
    assert_eq!(Motor::MAX_VOLTAGE_MILLIVOLTS, 12000);
}

#[test]
fn set_target_state_scales_by_the_gearset_of_the_motor() {
    let mut motor = motor();
    for (gearing, ticks) in [(0u8, 1800u32), (1, 900), (2, 300)] {
        assert_eq!(
            motor.set_position_target(80, MOTOR, gearing),
            Ok(vec![
                MotorCommand::SetBrakeMode(BrakeMode::Coast),
                MotorCommand::SetAbsoluteTarget { ticks_per_revolution: ticks, velocity: 80 },
            ])
        );
    }
    assert_eq!(motor.target(MOTOR), Ok(MotorControl::State(80)));
}

#[test]
fn set_target_on_a_bad_port_takes_nothing() {
    let mut motor = motor();
    assert_eq!(motor.set_target(MotorControl::Velocity(10), None, 0), Err(disconnected()));
    assert_eq!(motor.set_target(MotorControl::Velocity(10), SERIAL, 0), Err(incorrect()));
    assert_eq!(motor.target(MOTOR), Ok(MotorControl::Voltage(0)));
    assert_eq!(motor.target(None), Err(disconnected()));
}

#[test]
fn update_profiled_velocity_changes_only_a_position_target() {
    let mut motor = motor();
    motor.set_position_target(50, MOTOR, 1).unwrap();
    assert_eq!(motor.update_profiled_velocity(70, MOTOR), Ok(MotorCommand::UpdateVelocity(70)));
    assert_eq!(motor.target(MOTOR), Ok(MotorControl::State(70)));
    motor.set_velocity(50, MOTOR, 1).unwrap();
    assert_eq!(motor.update_profiled_velocity(90, MOTOR), Ok(MotorCommand::UpdateVelocity(90)));
    assert_eq!(motor.target(MOTOR), Ok(MotorControl::Velocity(50)));
    motor.set_position_target(50, MOTOR, 1).unwrap();
    assert_eq!(motor.update_profiled_velocity(90, None), Err(disconnected()));
    assert_eq!(motor.target(MOTOR), Ok(MotorControl::State(50)));
}

#[test]
fn motor_readings() {
    let mut motor = motor();
    assert_eq!(motor.gearset(MOTOR, 0), Ok(Gearset::Red));
    assert_eq!(motor.gearset(MOTOR, 2), Ok(Gearset::Blue));
    assert_eq!(motor.gearset(None, 7), Err(disconnected()));
    assert_eq!(motor.direction(MOTOR, false), Ok(Direction::Forward));
    assert_eq!(motor.direction(MOTOR, true), Ok(Direction::Reverse));
    assert_eq!(motor.direction(SERIAL, true), Err(incorrect()));
    assert_eq!(motor.raw_position(MOTOR, -42, 1000), Ok((-42, SmartDeviceTimestamp(1000))));
    assert_eq!(motor.raw_position(None, -42, 1000), Err(disconnected()));
    assert_eq!(motor.set_gearset(Gearset::Red, MOTOR), Ok(MotorCommand::SetGearing(Gearset::Red)));
    assert_eq!(motor.set_gearset(Gearset::Red, None), Err(disconnected()));
    assert_eq!(
        motor.set_direction(Direction::Reverse, MOTOR),
        Ok(MotorCommand::SetReversed(true))
    );
    assert_eq!(
        motor.set_direction(Direction::Forward, MOTOR),
        Ok(MotorCommand::SetReversed(false))
    );
    assert_eq!(motor.set_direction(Direction::Forward, None), Err(disconnected()));
    assert_eq!(motor.reset_position(MOTOR), Ok(MotorCommand::ResetPosition));
    assert_eq!(motor.reset_position(SERIAL), Err(incorrect()));
}

#[test]
fn motor_status_reports_busy_as_an_error() {
    let motor = motor();
    assert_eq!(motor.status(MOTOR, 0), Ok(MotorStatus::from_bits_retain(0)));
    assert_eq!(motor.status(MOTOR, 6), Ok(MotorStatus::from_bits_retain(6)));
    assert_eq!(motor.status(MOTOR, 1), Err(MotorError::Busy));
    assert_eq!(motor.status(MOTOR, 7), Err(MotorError::Busy));
    assert_eq!(motor.status(None, 1), Err(disconnected()));
}

#[test]
fn motor_fault_predicates() {
    let motor = motor();
    assert_eq!(motor.faults(MOTOR, 5), Ok(MotorFaults::from_bits_retain(5)));
    assert_eq!(motor.faults(None, 5), Err(disconnected()));
    assert_eq!(motor.is_over_temperature(MOTOR, 0x01), Ok(true));
    assert_eq!(motor.is_over_temperature(MOTOR, 0x0E), Ok(false));
    assert_eq!(motor.is_over_current(MOTOR, 0x04), Ok(true));
    assert_eq!(motor.is_over_current(MOTOR, 0x0B), Ok(false));
    assert_eq!(motor.is_driver_fault(MOTOR, 0x02), Ok(true));
    assert_eq!(motor.is_driver_fault(MOTOR, 0x0D), Ok(false));
    assert_eq!(motor.is_over_temperature(SERIAL, 0x01), Err(incorrect()));
}

#[test]
fn is_driver_over_current_reads_the_over_current_bit() {
    let motor = motor();
    assert_eq!(motor.is_driver_over_current(MOTOR, 0x04), Ok(true));
    assert_eq!(motor.is_driver_over_current(MOTOR, 0x08), Ok(false));
    assert_eq!(motor.is_driver_over_current(None, 0x04), Err(disconnected()));
}

fn serial() -> SerialPort {
    SerialPort::open(SmartPort::new(9).unwrap(), 115200).0
}

fn port_error(source: PortError) -> SerialError {
    SerialError::Port { source }
}

#[test]
fn serial_open_enables_the_line_at_the_rate() {
    let (line, request) = SerialPort::open(SmartPort::new(9).unwrap(), 115200);
    assert_eq!(request, SerialOpen { options: 0, baud_rate: 115200 });
    assert_eq!(line.port_number(), 9);
    assert_eq!(line.port_index(), 8);
    assert_eq!(line.device_type(), SmartDeviceType::GenericSerial);
    assert_eq!(SerialPort::MAX_BAUD_RATE, 921600);
    assert_eq!(SerialPort::INTERNAL_BUFFER_SIZE, 1024);
    let (_, request) = SerialPort::open(SmartPort::new(9).unwrap(), u32::MAX);
    assert_eq!(request.baud_rate, -1);
}

#[test]
fn serial_read_byte_and_peek_byte() {
    let line = serial();
    assert_eq!(line.read_byte(SERIAL, -1), Ok(None));
    assert_eq!(line.read_byte(SERIAL, 0), Ok(Some(0)));
    assert_eq!(line.read_byte(SERIAL, 0x80), Ok(Some(0x80)));
    assert_eq!(line.read_byte(SERIAL, 0x1FF), Ok(Some(0xFF)));
    assert_eq!(line.read_byte(None, 5), Err(port_error(PortError::Disconnected)));
    assert_eq!(line.peek_byte(SERIAL, -1), Ok(None));
    assert_eq!(line.peek_byte(SERIAL, 65), Ok(Some(65)));
    assert_eq!(line.peek_byte(MOTOR, 65), Err(port_error(PortError::IncorrectDevice)));
}

#[test]
fn serial_write_byte_and_counts() {
    let mut line = serial();
    assert_eq!(line.write_byte(SERIAL, 1), Ok(()));
    assert_eq!(line.write_byte(SERIAL, -1), Err(SerialError::WriteFailed));
    assert_eq!(line.write_byte(None, 1), Err(port_error(PortError::Disconnected)));
    assert_eq!(line.unread_bytes(SERIAL, 0), Ok(0));
    assert_eq!(line.unread_bytes(SERIAL, 1024), Ok(1024));
    assert_eq!(line.unread_bytes(SERIAL, -1), Err(SerialError::ReadFailed));
    assert_eq!(line.unread_bytes(MOTOR, 3), Err(port_error(PortError::IncorrectDevice)));
    assert_eq!(line.available_write_bytes(SERIAL, 512), Ok(512));
    assert_eq!(line.available_write_bytes(SERIAL, -1), Err(SerialError::ReadFailed));
    assert_eq!(line.available_write_bytes(None, 512), Err(port_error(PortError::Disconnected)));
    assert_eq!(line.clear_buffers(SERIAL), Ok(()));
    assert_eq!(line.clear_buffers(None), Err(port_error(PortError::Disconnected)));
}

#[test]
fn serial_read_reports_io_failures() {
    let mut line = serial();
    assert_eq!(line.read(SERIAL, 12).unwrap(), 12);
    assert_eq!(line.read(SERIAL, 0).unwrap(), 0);
    let failure = line.read(SERIAL, -1).unwrap_err();
    assert_eq!(failure.kind(), ErrorKind::Other);
    assert_eq!(failure.to_string(), "Internal read error occurred.");
    let failure = line.read(None, 12).unwrap_err();
    assert_eq!(failure.kind(), ErrorKind::AddrNotAvailable);
    assert_eq!(failure.to_string(), "Port does not exist.");
    let failure = line.read(MOTOR, 12).unwrap_err();
    assert_eq!(failure.kind(), ErrorKind::AddrInUse);
    assert_eq!(failure.to_string(), "Port is in use as another device.");
}

#[test]
fn serial_write_is_admitted_only_if_it_fits() {
    let mut line = serial();
    assert!(line.admit_write(SERIAL, 10, 10).is_ok());
    assert!(line.admit_write(SERIAL, 10, 0).is_ok());
    let failure = line.admit_write(SERIAL, 10, 11).unwrap_err();
    assert_eq!(failure.kind(), ErrorKind::Other);
    assert_eq!(failure.to_string(), "Buffer length exceeded available bytes in write buffer.");
    let failure = line.admit_write(None, 10, 1).unwrap_err();
    assert_eq!(failure.kind(), ErrorKind::AddrNotAvailable);
    assert_eq!(failure.to_string(), "Port does not exist.");
    let failure = line.admit_write(MOTOR, -1, 1).unwrap_err();
    assert_eq!(failure.kind(), ErrorKind::AddrInUse);
    assert_eq!(failure.to_string(), "Port is in use as another device.");
    assert_eq!(line.write(10).unwrap(), 10);
    let failure = line.write(-1).unwrap_err();
    assert_eq!(failure.kind(), ErrorKind::Other);
    assert_eq!(failure.to_string(), "Internal write error occurred.");
    assert!(line.flush().is_ok());
}
