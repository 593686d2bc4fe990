//! Smart motors.
//!
//! A motor is driven in revolutions per minute and millivolts, which are whole
//! numbers on the wire. The position that a motor is to reach is an angle and is
//! kept by the caller; this module decides which requests a target turns into and
//! in which order they are sent.
use vstd::prelude::*;
use crate::devices::PortError;
use crate::devices::smart::{
    SmartDevice,
    SmartDeviceType,
    SmartPort,
    port_check,
    validate_port,
};

verus! {

/// The direction in which a motor counts as turning forward.
#[derive(Debug, Clone, Copy, PartialEq, Eq, Structural)]
pub enum Direction {
    /// The motor turns as built.
    Forward,
    /// The motor turns the other way round.
    Reverse,
}

impl Direction {
    /// The other direction.
    pub open spec fn inverse(self) -> Direction {
        match self {
            Direction::Forward => Direction::Reverse,
            Direction::Reverse => Direction::Forward,
        }
    }

    /// The direction that the reverse flag of a motor stands for.
    pub open spec fn of_flag(reversed: bool) -> Direction {
        if reversed {
            Direction::Reverse
        } else {
            Direction::Forward
        }
    }

    /// Whether the direction is forward.
    pub fn is_forward(&self) -> (forward: bool)
        ensures
            forward == (*self == Direction::Forward),
    {
        match self {
            Self::Forward => true,
            Self::Reverse => false,
        }
    }

    /// Whether the direction is reverse.
    pub fn is_reverse(&self) -> (reverse: bool)
        ensures
            reverse == (*self == Direction::Reverse),
            Direction::of_flag(reverse) == *self,
    {
        match self {
            Self::Forward => false,
            Self::Reverse => true,
        }
    }
}

impl core::ops::Not for Direction {
    type Output = Self;

    /// The other direction.
    fn not(self) -> (inverse: Self::Output) {
        match self {
            Self::Forward => Self::Reverse,
            Self::Reverse => Self::Forward,
        }
    }
}

impl vstd::std_specs::ops::NotSpecImpl for Direction {
    open spec fn obeys_not_spec() -> bool {
        true
    }

    open spec fn not_req(self) -> bool {
        true
    }

    open spec fn not_spec(self) -> Direction {
        self.inverse()
    }
}

/// How a motor behaves when it brakes.
#[derive(Debug, Clone, Copy, PartialEq, Eq, Structural)]
pub enum BrakeMode {
    /// The motor runs out.
    Coast,
    /// The motor brakes by feeding current back.
    Brake,
    /// The motor holds its position by force.
    Hold,
}

impl BrakeMode {
    /// The code of the brake mode on the wire.
    pub open spec fn raw_of(self) -> u8 {
        match self {
            BrakeMode::Coast => 0,
            BrakeMode::Brake => 1,
            BrakeMode::Hold => 2,
        }
    }

    /// The brake mode that `raw` is the code of.
    pub open spec fn of_raw(raw: u8) -> BrakeMode
        recommends
            raw <= 2,
    {
        if raw == 0 {
            BrakeMode::Coast
        } else if raw == 1 {
            BrakeMode::Brake
        } else {
            BrakeMode::Hold
        }
    }

    /// The brake mode that `raw` is the code of. There are three codes.
    pub fn from_raw(raw: u8) -> (mode: BrakeMode)
        requires
            raw <= 2,
        ensures
            mode == BrakeMode::of_raw(raw),
            mode.raw_of() == raw,
    {
        if raw == 0 {
            BrakeMode::Coast
        } else if raw == 1 {
            BrakeMode::Brake
        } else {
            BrakeMode::Hold
        }
    }

    /// The code of the brake mode on the wire.
    pub fn raw(self) -> (raw: u8)
        ensures
            raw == self.raw_of(),
            raw <= 2,
            BrakeMode::of_raw(raw) == self,
    {
        match self {
            BrakeMode::Coast => 0,
            BrakeMode::Brake => 1,
            BrakeMode::Hold => 2,
        }
    }
}

/// The gear cartridge of a motor.
#[derive(Debug, Clone, Copy, PartialEq, Eq, Structural)]
pub enum Gearset {
    /// Ratio 36:1, 100 revolutions per minute.
    Red,
    /// Ratio 18:1, 200 revolutions per minute.
    Green,
    /// Ratio 6:1, 600 revolutions per minute.
    Blue,
}

impl Gearset {
    /// Ratio 36:1.
    pub const RATIO_36: Gearset = Gearset::Red;

    /// Ratio 18:1.
    pub const RATIO_18: Gearset = Gearset::Green;

    /// Ratio 6:1.
    pub const RATIO_6: Gearset = Gearset::Blue;

    /// 100 revolutions per minute.
    pub const RPM_100: Gearset = Gearset::Red;

    /// 200 revolutions per minute.
    pub const RPM_200: Gearset = Gearset::Green;

    /// 600 revolutions per minute.
    pub const RPM_600: Gearset = Gearset::Blue;

    /// Encoder ticks in one revolution with the red cartridge.
    pub const RED_TICKS_PER_REVOLUTION: u32 = 1800;

    /// Encoder ticks in one revolution with the green cartridge.
    pub const GREEN_TICKS_PER_REVOLUTION: u32 = 900;

    /// Encoder ticks in one revolution with the blue cartridge.
    pub const BLUE_TICKS_PER_REVOLUTION: u32 = 300;

    /// Encoder ticks in one revolution of the output shaft.
    pub open spec fn ticks_of(self) -> u32 {
        match self {
            Gearset::Red => 1800,
            Gearset::Green => 900,
            Gearset::Blue => 300,
        }
    }

    /// The code of the cartridge on the wire.
    pub open spec fn raw_of(self) -> u8 {
        match self {
            Gearset::Red => 0,
            Gearset::Green => 1,
            Gearset::Blue => 2,
        }
    }

    /// The cartridge that `raw` is the code of.
    pub open spec fn of_raw(raw: u8) -> Gearset
        recommends
            raw <= 2,
    {
        if raw == 0 {
            Gearset::Red
        } else if raw == 1 {
            Gearset::Green
        } else {
            Gearset::Blue
        }
    }

    /// Encoder ticks in one revolution of the output shaft: 1800 with the red
    /// cartridge, 900 with the green one, 300 with the blue one.
    pub fn ticks_per_revolution(&self) -> (ticks: u32)
        ensures
            ticks == self.ticks_of(),
    {
        match self {
            Self::Red => Self::RED_TICKS_PER_REVOLUTION,
            Self::Green => Self::GREEN_TICKS_PER_REVOLUTION,
            Self::Blue => Self::BLUE_TICKS_PER_REVOLUTION,
        }
    }

    /// The cartridge that `raw` is the code of. There are three codes.
    pub fn from_raw(raw: u8) -> (gearset: Gearset)
        requires
            raw <= 2,
        ensures
            gearset == Gearset::of_raw(raw),
            gearset.raw_of() == raw,
    {
        if raw == 0 {
            Gearset::Red
        } else if raw == 1 {
            Gearset::Green
        } else {
            Gearset::Blue
        }
    }

    /// The code of the cartridge on the wire.
    pub fn raw(self) -> (raw: u8)
        ensures
            raw == self.raw_of(),
            raw <= 2,
            Gearset::of_raw(raw) == self,
    {
        match self {
            Gearset::Red => 0,
            Gearset::Green => 1,
            Gearset::Blue => 2,
        }
    }
}

/// What can go wrong with a motor.
#[derive(Debug, Clone, Copy, PartialEq, Eq, Structural)]
pub enum MotorError {
    /// The motor did not answer when its flags were read.
    Busy,
    /// The port cannot be used as a motor.
    Port {
        /// What is wrong with the port.
        source: PortError,
    },
}

/// What the check of a motor port says.
pub open spec fn motor_check(plugged: Option<SmartDeviceType>) -> Result<(), MotorError> {
    match port_check(plugged, SmartDeviceType::Motor) {
        Ok(_) => Ok(()),
        Err(source) => Err(MotorError::Port { source }),
    }
}

/// What a request to a motor or a read of a motor gives: the error of the port
/// check, or `value`.
pub open spec fn motor_answer<T>(plugged: Option<SmartDeviceType>, value: T) -> Result<
    T,
    MotorError,
> {
    match motor_check(plugged) {
        Ok(_) => Ok(value),
        Err(error) => Err(error),
    }
}

/// Bit of the fault flags: the motor is too hot.
pub const FAULT_OVER_TEMPERATURE: u32 = 0x01;

/// Bit of the fault flags: the bridge that drives the motor has a fault.
pub const FAULT_DRIVER_FAULT: u32 = 0x02;

/// Bit of the fault flags: the motor draws too much current.
pub const FAULT_OVER_CURRENT: u32 = 0x04;

/// Bit of the fault flags: the bridge that drives the motor draws too much
/// current.
pub const FAULT_DRIVER_OVER_CURRENT: u32 = 0x08;

/// The fault flags of a motor. Bits without a name are kept.
#[derive(Debug, Clone, Copy, PartialEq, Eq, Structural)]
pub struct MotorFaults {
    bits: u32,
}

impl MotorFaults {
    /// The flags as a number.
    pub closed spec fn spec_bits(&self) -> u32 {
        self.bits
    }

    /// The flags that `bits` stands for.
    pub closed spec fn of_bits(bits: u32) -> MotorFaults {
        MotorFaults { bits }
    }

    /// The flags that `bits` stands for, every bit kept.
    pub fn from_bits_retain(bits: u32) -> (flags: MotorFaults)
        ensures
            flags == MotorFaults::of_bits(bits),
            flags.spec_bits() == bits,
    {
        MotorFaults { bits }
    }

    /// The flags as a number.
    #[verifier::when_used_as_spec(spec_bits)]
    pub fn bits(&self) -> (bits: u32)
        ensures
            bits == self.spec_bits(),
    {
        self.bits
    }

    /// Whether every bit of `mask` is set.
    pub fn contains(&self, mask: u32) -> (set: bool)
        ensures
            set == (self.spec_bits() & mask == mask),
    {
        self.bits & mask == mask
    }
}

/// Bit of the status flags: the motor did not answer.
pub const STATUS_BUSY: u32 = 0x01;

/// Bit of the status flags: the motor stands almost still. The motor never sets
/// it.
pub const STATUS_ZERO_VELOCITY: u32 = 0x02;

/// Bit of the status flags: the motor is at its zero position. The motor never
/// sets it.
pub const STATUS_ZERO_POSITION: u32 = 0x04;

/// The status flags of a motor. Bits without a name are kept.
#[derive(Debug, Clone, Copy, PartialEq, Eq, Structural)]
pub struct MotorStatus {
    bits: u32,
}

impl MotorStatus {
    /// The flags as a number.
    pub closed spec fn spec_bits(&self) -> u32 {
        self.bits
    }

    /// The flags that `bits` stands for.
    pub closed spec fn of_bits(bits: u32) -> MotorStatus {
        MotorStatus { bits }
    }

    /// The flags that `bits` stands for, every bit kept.
    pub fn from_bits_retain(bits: u32) -> (flags: MotorStatus)
        ensures
            flags == MotorStatus::of_bits(bits),
            flags.spec_bits() == bits,
    {
        MotorStatus { bits }
    }

    /// The flags as a number.
    #[verifier::when_used_as_spec(spec_bits)]
    pub fn bits(&self) -> (bits: u32)
        ensures
            bits == self.spec_bits(),
    {
        self.bits
    }

    /// Whether every bit of `mask` is set.
    pub fn contains(&self, mask: u32) -> (set: bool)
        ensures
            set == (self.spec_bits() & mask == mask),
    {
        self.bits & mask == mask
    }
}

/// What a motor is told to do.
#[derive(Debug, Clone, Copy, PartialEq, Eq, Structural)]
pub enum MotorControl {
    /// Brake in the given mode.
    Brake(BrakeMode),
    /// Put out a voltage, in millivolts.
    Voltage(i32),
    /// Hold a velocity, in revolutions per minute.
    Velocity(i32),
    /// Go to a position at a velocity, in revolutions per minute. The position is
    /// an angle that the caller keeps.
    State(i32),
}

/// One request to a motor.
#[derive(Debug, Clone, Copy, PartialEq, Eq, Structural)]
pub enum MotorCommand {
    /// Count the position in encoder ticks.
    CountInTicks,
    /// Tell the motor which cartridge it has.
    SetGearing(Gearset),
    /// Set or clear the reverse flag.
    SetReversed(bool),
    /// Set the brake mode.
    SetBrakeMode(BrakeMode),
    /// Hold a velocity, in revolutions per minute.
    SetVelocity(i32),
    /// Put out a voltage, in millivolts.
    SetVoltage(i32),
    /// Go to the position that the caller keeps.
    SetAbsoluteTarget {
        /// Encoder ticks in one revolution, by which the caller turns its angle
        /// into ticks.
        ticks_per_revolution: u32,
        /// The velocity on the way, in revolutions per minute.
        velocity: i32,
    },
    /// Change the velocity of the movement that is under way.
    UpdateVelocity(i32),
    /// Call the present position zero.
    ResetPosition,
}

/// The requests that make a motor with the cartridge `gearset` follow `target`:
/// the brake mode first, then the drive. A motor brakes by holding zero velocity
/// in its brake mode; every other target is driven in coast mode.
pub open spec fn target_commands(target: MotorControl, gearset: Gearset) -> Seq<MotorCommand> {
    match target {
        MotorControl::Brake(mode) => seq![
            MotorCommand::SetBrakeMode(mode),
            MotorCommand::SetVelocity(0),
        ],
        MotorControl::Velocity(velocity) => seq![
            MotorCommand::SetBrakeMode(BrakeMode::Coast),
            MotorCommand::SetVelocity(velocity),
        ],
        MotorControl::Voltage(millivolts) => seq![
            MotorCommand::SetBrakeMode(BrakeMode::Coast),
            MotorCommand::SetVoltage(millivolts),
        ],
        MotorControl::State(velocity) => seq![
            MotorCommand::SetBrakeMode(BrakeMode::Coast),
            MotorCommand::SetAbsoluteTarget {
                ticks_per_revolution: gearset.ticks_of(),
                velocity,
            },
        ],
    }
}

/// The target after the velocity of the movement under way is changed to
/// `velocity`: a movement to a position takes the new velocity, every other
/// target stays.
pub open spec fn with_profiled_velocity(target: MotorControl, velocity: i32) -> MotorControl {
    match target {
        MotorControl::State(_) => MotorControl::State(velocity),
        _ => target,
    }
}

/// Time of the clock of a smart device at which a value was taken.
#[derive(Debug, Clone, Copy, PartialEq, Eq, Structural)]
pub struct SmartDeviceTimestamp(pub u32);

/// A smart motor.
#[derive(Debug, PartialEq, Eq)]
pub struct Motor {
    port: SmartPort,
    target: MotorControl,
}

impl Motor {
    /// Milliseconds between two values that a motor gives.
    pub const DATA_READ_INTERVAL_MS: u64 = 10;

    /// Milliseconds between two requests that a motor takes.
    pub const DATA_WRITE_INTERVAL_MS: u64 = 5;

    /// The highest voltage that a motor takes, in millivolts.
    pub const MAX_VOLTAGE_MILLIVOLTS: i32 = 12000;

    /// The port of the motor.
    pub closed spec fn port(&self) -> SmartPort {
        self.port
    }

    /// What the motor was last told to do.
    pub closed spec fn spec_target(&self) -> MotorControl {
        self.target
    }

    /// A motor on `port`, with the requests that set it up: count in ticks, the
    /// cartridge, the direction. They are sent whether or not a motor is plugged
    /// in, since the brain keeps them for the port. The motor starts with a target
    /// of zero volts.
    pub fn new(port: SmartPort, gearset: Gearset, direction: Direction) -> (created: (
        Motor,
        Vec<MotorCommand>,
    ))
        ensures
            created.0.port() == port,
            created.0.spec_target() == MotorControl::Voltage(0),
            created.1@ == seq![
                MotorCommand::CountInTicks,
                MotorCommand::SetGearing(gearset),
                MotorCommand::SetReversed(direction == Direction::Reverse),
            ],
    {
        let mut commands: Vec<MotorCommand> = Vec::new();
        commands.push(MotorCommand::CountInTicks);
        commands.push(MotorCommand::SetGearing(gearset));
        commands.push(MotorCommand::SetReversed(direction.is_reverse()));
        proof {
            assert(commands@ =~= seq![
                MotorCommand::CountInTicks,
                MotorCommand::SetGearing(gearset),
                MotorCommand::SetReversed(direction == Direction::Reverse),
            ]);
        }
        (Motor { port, target: MotorControl::Voltage(0) }, commands)
    }

    fn check(&self, plugged: Option<SmartDeviceType>) -> (checked: Result<(), MotorError>)
        ensures
            checked == motor_check(plugged),
    {
        match validate_port(plugged, SmartDeviceType::Motor) {
            Ok(_) => Ok(()),
            Err(source) => Err(MotorError::Port { source }),
        }
    }

    /// The cartridge of the motor, where `raw` is the code read from the motor
    /// and `plugged` what the brain reports of the port. A motor gives one of
    /// three codes.
    pub fn gearset(&self, plugged: Option<SmartDeviceType>, raw: u8) -> (gearset: Result<
        Gearset,
        MotorError,
    >)
        requires
            plugged == Some(SmartDeviceType::Motor) ==> raw <= 2,
        ensures
            gearset == motor_answer(plugged, Gearset::of_raw(raw)),
    {
        match self.check(plugged) {
            Ok(_) => Ok(Gearset::from_raw(raw)),
            Err(error) => Err(error),
        }
    }

    /// Tells the motor what to do. Returns the requests that make the motor
    /// follow `target`, in the order in which they are sent, where `gearing` is
    /// the code of the cartridge read from the motor. Where the port cannot be
    /// used as a motor, the target is not taken and nothing is to be sent.
    pub fn set_target(
        &mut self,
        target: MotorControl,
        plugged: Option<SmartDeviceType>,
        gearing: u8,
    ) -> (commands: Result<Vec<MotorCommand>, MotorError>)
        requires
            plugged == Some(SmartDeviceType::Motor) ==> gearing <= 2,
        ensures
            final(self).port() == old(self).port(),
            commands is Ok <==> plugged == Some(SmartDeviceType::Motor),
            commands is Ok ==> final(self).spec_target() == target && commands->Ok_0@
                == target_commands(target, Gearset::of_raw(gearing)),
            commands is Err ==> final(self).spec_target() == old(self).spec_target() && Err::<
                (),
                MotorError,
            >(commands->Err_0) == motor_check(plugged),
    {
        let gearset = match self.gearset(plugged, gearing) {
            Ok(gearset) => gearset,
            Err(error) => {
                return Err(error);
            },
        };
        self.target = target;
        let mut commands: Vec<MotorCommand> = Vec::new();
        match target {
            MotorControl::Brake(mode) => {
                commands.push(MotorCommand::SetBrakeMode(mode));
                commands.push(MotorCommand::SetVelocity(0));
            },
            MotorControl::Velocity(velocity) => {
                commands.push(MotorCommand::SetBrakeMode(BrakeMode::Coast));
                commands.push(MotorCommand::SetVelocity(velocity));
            },
            MotorControl::Voltage(millivolts) => {
                commands.push(MotorCommand::SetBrakeMode(BrakeMode::Coast));
                commands.push(MotorCommand::SetVoltage(millivolts));
            },
            MotorControl::State(velocity) => {
                commands.push(MotorCommand::SetBrakeMode(BrakeMode::Coast));
                commands.push(
                    MotorCommand::SetAbsoluteTarget {
                        ticks_per_revolution: gearset.ticks_per_revolution(),
                        velocity,
                    },
                );
            },
        }
        proof {
            assert(commands@ =~= target_commands(target, Gearset::of_raw(gearing)));
        }
        Ok(commands)
    }

    /// Tells the motor to brake in `mode`. See [`set_target`](Self::set_target).
    pub fn brake(&mut self, mode: BrakeMode, plugged: Option<SmartDeviceType>, gearing: u8) -> (commands:
        Result<Vec<MotorCommand>, MotorError>)
        requires
            plugged == Some(SmartDeviceType::Motor) ==> gearing <= 2,
        ensures
            final(self).port() == old(self).port(),
            commands is Ok <==> plugged == Some(SmartDeviceType::Motor),
            commands is Ok ==> final(self).spec_target() == MotorControl::Brake(mode)
                && commands->Ok_0@ == seq![
                MotorCommand::SetBrakeMode(mode),
                MotorCommand::SetVelocity(0),
            ],
            commands is Err ==> final(self).spec_target() == old(self).spec_target() && Err::<
                (),
                MotorError,
            >(commands->Err_0) == motor_check(plugged),
    {
        self.set_target(MotorControl::Brake(mode), plugged, gearing)
    }

    /// Tells the motor to hold `velocity`, in revolutions per minute. See
    /// [`set_target`](Self::set_target).
    pub fn set_velocity(&mut self, velocity: i32, plugged: Option<SmartDeviceType>, gearing: u8) -> (commands:
        Result<Vec<MotorCommand>, MotorError>)
        requires
            plugged == Some(SmartDeviceType::Motor) ==> gearing <= 2,
        ensures
            final(self).port() == old(self).port(),
            commands is Ok <==> plugged == Some(SmartDeviceType::Motor),
            commands is Ok ==> final(self).spec_target() == MotorControl::Velocity(velocity)
                && commands->Ok_0@ == seq![
                MotorCommand::SetBrakeMode(BrakeMode::Coast),
                MotorCommand::SetVelocity(velocity),
            ],
            commands is Err ==> final(self).spec_target() == old(self).spec_target() && Err::<
                (),
                MotorError,
            >(commands->Err_0) == motor_check(plugged),
    {
        self.set_target(MotorControl::Velocity(velocity), plugged, gearing)
    }

    /// Tells the motor to put out `millivolts`, from -12000 for full speed
    /// backward to 12000 for full speed forward. See
    /// [`set_target`](Self::set_target).
    pub fn set_voltage(&mut self, millivolts: i32, plugged: Option<SmartDeviceType>, gearing: u8) -> (commands:
        Result<Vec<MotorCommand>, MotorError>)
        requires
            plugged == Some(SmartDeviceType::Motor) ==> gearing <= 2,
        ensures
            final(self).port() == old(self).port(),
            commands is Ok <==> plugged == Some(SmartDeviceType::Motor),
            commands is Ok ==> final(self).spec_target() == MotorControl::Voltage(millivolts)
                && commands->Ok_0@ == seq![
                MotorCommand::SetBrakeMode(BrakeMode::Coast),
                MotorCommand::SetVoltage(millivolts),
            ],
            commands is Err ==> final(self).spec_target() == old(self).spec_target() && Err::<
                (),
                MotorError,
            >(commands->Err_0) == motor_check(plugged),
    {
        self.set_target(MotorControl::Voltage(millivolts), plugged, gearing)
    }

    /// Tells the motor to go to the position that the caller keeps, at
    /// `velocity` revolutions per minute. See [`set_target`](Self::set_target).
    pub fn set_position_target(
        &mut self,
        velocity: i32,
        plugged: Option<SmartDeviceType>,
        gearing: u8,
    ) -> (commands: Result<Vec<MotorCommand>, MotorError>)
        requires
            plugged == Some(SmartDeviceType::Motor) ==> gearing <= 2,
        ensures
            final(self).port() == old(self).port(),
            commands is Ok <==> plugged == Some(SmartDeviceType::Motor),
            commands is Ok ==> final(self).spec_target() == MotorControl::State(velocity)
                && commands->Ok_0@ == seq![
                MotorCommand::SetBrakeMode(BrakeMode::Coast),
                MotorCommand::SetAbsoluteTarget {
                    ticks_per_revolution: Gearset::of_raw(gearing).ticks_of(),
                    velocity,
                },
            ],
            commands is Err ==> final(self).spec_target() == old(self).spec_target() && Err::<
                (),
                MotorError,
            >(commands->Err_0) == motor_check(plugged),
    {
        self.set_target(MotorControl::State(velocity), plugged, gearing)
    }

    /// Changes the velocity of the movement under way to `velocity` revolutions
    /// per minute. The request is sent whatever the target is; only a movement to
    /// a position takes the new velocity into its target.
    pub fn update_profiled_velocity(&mut self, velocity: i32, plugged: Option<SmartDeviceType>) -> (command:
        Result<MotorCommand, MotorError>)
        ensures
            final(self).port() == old(self).port(),
            command == motor_answer(plugged, MotorCommand::UpdateVelocity(velocity)),
            final(self).spec_target() == if command is Ok {
                with_profiled_velocity(old(self).spec_target(), velocity)
            } else {
                old(self).spec_target()
            },
    {
        match self.check(plugged) {
            Ok(_) => {
                match self.target {
                    MotorControl::State(_) => {
                        self.target = MotorControl::State(velocity);
                    },
                    _ => {},
                }
                Ok(MotorCommand::UpdateVelocity(velocity))
            },
            Err(error) => Err(error),
        }
    }

    /// What the motor was last told to do.
    pub fn target(&self, plugged: Option<SmartDeviceType>) -> (target: Result<
        MotorControl,
        MotorError,
    >)
        ensures
            target == motor_answer(plugged, self.spec_target()),
    {
        match self.check(plugged) {
            Ok(_) => Ok(self.target),
            Err(error) => Err(error),
        }
    }

    /// The request that tells the motor which cartridge it has.
    pub fn set_gearset(&mut self, gearset: Gearset, plugged: Option<SmartDeviceType>) -> (command:
        Result<MotorCommand, MotorError>)
        ensures
            *final(self) == *old(self),
            command == motor_answer(plugged, MotorCommand::SetGearing(gearset)),
    {
        match self.check(plugged) {
            Ok(_) => Ok(MotorCommand::SetGearing(gearset)),
            Err(error) => Err(error),
        }
    }

    /// The encoder ticks and the time at which they were counted, as read from
    /// the motor.
    pub fn raw_position(&self, plugged: Option<SmartDeviceType>, ticks: i32, timestamp: u32) -> (position:
        Result<(i32, SmartDeviceTimestamp), MotorError>)
        ensures
            position == motor_answer(plugged, (ticks, SmartDeviceTimestamp(timestamp))),
    {
        match self.check(plugged) {
            Ok(_) => Ok((ticks, SmartDeviceTimestamp(timestamp))),
            Err(error) => Err(error),
        }
    }

    /// The request that calls the present position zero. The motor does not move.
    pub fn reset_position(&mut self, plugged: Option<SmartDeviceType>) -> (command: Result<
        MotorCommand,
        MotorError,
    >)
        ensures
            *final(self) == *old(self),
            command == motor_answer(plugged, MotorCommand::ResetPosition),
    {
        match self.check(plugged) {
            Ok(_) => Ok(MotorCommand::ResetPosition),
            Err(error) => Err(error),
        }
    }

    /// The status flags of the motor, where `flags` is the number read from the
    /// motor. A set busy bit says that the read itself failed, and is an error.
    pub fn status(&self, plugged: Option<SmartDeviceType>, flags: u32) -> (status: Result<
        MotorStatus,
        MotorError,
    >)
        ensures
            status == match motor_check(plugged) {
                Ok(_) => if flags & STATUS_BUSY == STATUS_BUSY {
                    Err(MotorError::Busy)
                } else {
                    Ok(MotorStatus::of_bits(flags))
                },
                Err(error) => Err(error),
            },
            status is Ok ==> status->Ok_0.spec_bits() == flags,
    {
        match self.check(plugged) {
            Ok(_) => {
                let status = MotorStatus::from_bits_retain(flags);
                if status.contains(STATUS_BUSY) {
                    Err(MotorError::Busy)
                } else {
                    Ok(status)
                }
            },
            Err(error) => Err(error),
        }
    }

    /// The fault flags of the motor, where `flags` is the number read from the
    /// motor.
    pub fn faults(&self, plugged: Option<SmartDeviceType>, flags: u32) -> (faults: Result<
        MotorFaults,
        MotorError,
    >)
        ensures
            faults == motor_answer(plugged, MotorFaults::of_bits(flags)),
            faults is Ok ==> faults->Ok_0.spec_bits() == flags,
    {
        match self.check(plugged) {
            Ok(_) => Ok(MotorFaults::from_bits_retain(flags)),
            Err(error) => Err(error),
        }
    }

    fn has_fault(&self, plugged: Option<SmartDeviceType>, flags: u32, mask: u32) -> (set: Result<
        bool,
        MotorError,
    >)
        ensures
            set == motor_answer(plugged, flags & mask == mask),
    {
        match self.faults(plugged, flags) {
            Ok(faults) => Ok(faults.contains(mask)),
            Err(error) => Err(error),
        }
    }

    /// Whether the fault flags say that the motor is too hot.
    pub fn is_over_temperature(&self, plugged: Option<SmartDeviceType>, flags: u32) -> (set: Result<
        bool,
        MotorError,
    >)
        ensures
            set == motor_answer(
                plugged,
                flags & FAULT_OVER_TEMPERATURE == FAULT_OVER_TEMPERATURE,
            ),
    {
        self.has_fault(plugged, flags, FAULT_OVER_TEMPERATURE)
    }

    /// Whether the fault flags say that the motor draws too much current.
    pub fn is_over_current(&self, plugged: Option<SmartDeviceType>, flags: u32) -> (set: Result<
        bool,
        MotorError,
    >)
        ensures
            set == motor_answer(plugged, flags & FAULT_OVER_CURRENT == FAULT_OVER_CURRENT),
    {
        self.has_fault(plugged, flags, FAULT_OVER_CURRENT)
    }

    /// Whether the fault flags say that the bridge which drives the motor has a
    /// fault.
    pub fn is_driver_fault(&self, plugged: Option<SmartDeviceType>, flags: u32) -> (set: Result<
        bool,
        MotorError,
    >)
        ensures
            set == motor_answer(plugged, flags & FAULT_DRIVER_FAULT == FAULT_DRIVER_FAULT),
    {
        self.has_fault(plugged, flags, FAULT_DRIVER_FAULT)
    }

    /// Answers as [`is_over_current`](Self::is_over_current) does: it reads the
    /// over-current bit of the motor, not that of the bridge.
    pub fn is_driver_over_current(&self, plugged: Option<SmartDeviceType>, flags: u32) -> (set:
        Result<bool, MotorError>)
        ensures
            set == motor_answer(plugged, flags & FAULT_OVER_CURRENT == FAULT_OVER_CURRENT),
    {
        self.has_fault(plugged, flags, FAULT_OVER_CURRENT)
    }

    /// The request that sets the direction of the motor.
    pub fn set_direction(&mut self, direction: Direction, plugged: Option<SmartDeviceType>) -> (command:
        Result<MotorCommand, MotorError>)
        ensures
            *final(self) == *old(self),
            command == motor_answer(
                plugged,
                MotorCommand::SetReversed(direction == Direction::Reverse),
            ),
    {
        match self.check(plugged) {
            Ok(_) => Ok(MotorCommand::SetReversed(direction.is_reverse())),
            Err(error) => Err(error),
        }
    }

    /// The direction of the motor, where `reversed` is the reverse flag read from
    /// the motor.
    pub fn direction(&self, plugged: Option<SmartDeviceType>, reversed: bool) -> (direction: Result<
        Direction,
        MotorError,
    >)
        ensures
            direction == motor_answer(plugged, Direction::of_flag(reversed)),
    {
        match self.check(plugged) {
            Ok(_) => Ok(
                match reversed {
                    false => Direction::Forward,
                    true => Direction::Reverse,
                },
            ),
            Err(error) => Err(error),
        }
    }
}

impl SmartDevice for Motor {
    open spec fn port_of(&self) -> u8 {
        self.port().spec_number()
    }

    open spec fn kind_of(&self) -> SmartDeviceType {
        SmartDeviceType::Motor
    }

    fn port_number(&self) -> (number: u8) {
        self.port.number()
    }

    fn port_index(&self) -> (index: u8) {
        self.port.index()
    }

    fn device_type(&self) -> (kind: SmartDeviceType) {
        SmartDeviceType::Motor
    }
}

} // verus!
