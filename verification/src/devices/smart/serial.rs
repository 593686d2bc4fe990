//! Smart ports used as plain serial lines.
//!
//! The line has a buffer of 1024 bytes in each direction. A read or a write of
//! the brain answers with a count or with -1 for failure; this module reads those
//! answers, and decides whether a block of bytes may be handed to the line at
//! all.
use vstd::prelude::*;
use crate::devices::PortError;
use crate::devices::smart::{
    SmartDevice,
    SmartDeviceType,
    SmartPort,
    port_check,
    validate_port,
};

verus! {

/// What can go wrong with a serial line.
#[derive(Debug, Clone, Copy, PartialEq, Eq, Structural)]
pub enum SerialError {
    /// The line did not take what was written.
    WriteFailed,
    /// The line did not give what was asked of it.
    ReadFailed,
    /// The port cannot be used as a serial line.
    Port {
        /// What is wrong with the port.
        source: PortError,
    },
}

/// The kinds of failure that a reader or writer of bytes reports.
#[derive(Debug, Clone, Copy, PartialEq, Eq, Structural)]
pub enum IoErrorKind {
    /// There is nothing at the address.
    AddrNotAvailable,
    /// The address is taken by something else.
    AddrInUse,
    /// Any other failure.
    Other,
}

/// The error type of the readers and writers of bytes.
#[verifier::external_type_specification]
#[verifier::external_body]
pub struct ExIoError(no_std_io::io::Error);

/// What an error of a reader or writer says: the kind of failure that it stands
/// for, and the words that it carries.
pub uninterp spec fn failure_of(error: no_std_io::io::Error) -> (IoErrorKind, Seq<char>);

/// Makes the error of a reader or writer with `no_std_io::io::Error::new`, which
/// keeps the kind and the words that it is given: the error answers `kind` when
/// it is asked for its kind, and is written as `message`.
#[verifier::external_body]
fn io_error(kind: IoErrorKind, message: &'static str) -> (error: no_std_io::io::Error)
    ensures
        failure_of(error) == (kind, message@),
{
    no_std_io::io::Error::new(
        match kind {
            IoErrorKind::AddrNotAvailable => no_std_io::io::ErrorKind::AddrNotAvailable,
            IoErrorKind::AddrInUse => no_std_io::io::ErrorKind::AddrInUse,
            IoErrorKind::Other => no_std_io::io::ErrorKind::Other,
        },
        message,
    )
}

/// The failure that a reader or writer reports for a port that cannot be used.
pub open spec fn port_failure(source: PortError) -> (IoErrorKind, Seq<char>) {
    match source {
        PortError::Disconnected => (IoErrorKind::AddrNotAvailable, "Port does not exist."@),
        PortError::IncorrectDevice => (
            IoErrorKind::AddrInUse,
            "Port is in use as another device."@,
        ),
    }
}

/// What the check of a serial port says.
pub open spec fn serial_check(plugged: Option<SmartDeviceType>) -> Result<(), SerialError> {
    match port_check(plugged, SmartDeviceType::GenericSerial) {
        Ok(_) => Ok(()),
        Err(source) => Err(SerialError::Port { source }),
    }
}

/// What a request to a serial line or a read of it gives: the error of the port
/// check, or `answer`.
pub open spec fn serial_answer<T>(
    plugged: Option<SmartDeviceType>,
    answer: Result<T, SerialError>,
) -> Result<T, SerialError> {
    match serial_check(plugged) {
        Ok(_) => answer,
        Err(error) => Err(error),
    }
}

/// The byte that a read of one byte returned, if it returned one: -1 says that
/// the buffer is empty.
pub open spec fn byte_of(raw: i32) -> Option<u8> {
    if raw == -1 {
        None
    } else {
        Some(raw as u8)
    }
}

/// The count that the line answered, where -1 is the failure `error`.
pub open spec fn count_of(raw: i32, error: SerialError) -> Result<usize, SerialError> {
    if raw == -1 {
        Err(error)
    } else {
        Ok(raw as usize)
    }
}

/// The request that opens a serial line.
#[derive(Debug, Clone, Copy, PartialEq, Eq, Structural)]
pub struct SerialOpen {
    /// The options with which the line is enabled.
    pub options: i32,
    /// The rate of the line in bits per second, as the brain takes it.
    pub baud_rate: i32,
}

/// A smart port used as a serial line.
#[derive(Debug, Eq, PartialEq)]
pub struct SerialPort {
    port: SmartPort,
}

impl SerialPort {
    /// The highest rate that a program may ask for, in bits per second.
    pub const MAX_BAUD_RATE: u32 = 921600;

    /// Bytes that the line buffers in each direction.
    pub const INTERNAL_BUFFER_SIZE: usize = 1024;

    /// The port of the line.
    pub closed spec fn port(&self) -> SmartPort {
        self.port
    }

    /// A serial line on `port` at `baud_rate` bits per second, with the request
    /// that opens it. The request cannot fail and needs no device in the port, so
    /// the port is not checked. The brain takes the rate as a signed number of 32
    /// bits; a rate above the highest such number is passed with the same bits.
    pub fn open(port: SmartPort, baud_rate: u32) -> (opened: (SerialPort, SerialOpen))
        ensures
            opened.0.port() == port,
            opened.1 == (SerialOpen { options: 0, baud_rate: baud_rate as i32 }),
            baud_rate <= i32::MAX ==> opened.1.baud_rate == baud_rate,
    {
        (
            SerialPort { port },
            SerialOpen { options: 0, baud_rate: #[verifier::truncate] (baud_rate as i32) },
        )
    }

    fn check(&self, plugged: Option<SmartDeviceType>) -> (checked: Result<(), SerialError>)
        ensures
            checked == serial_check(plugged),
    {
        match validate_port(plugged, SmartDeviceType::GenericSerial) {
            Ok(_) => Ok(()),
            Err(source) => Err(SerialError::Port { source }),
        }
    }

    /// Whether the buffers of the line may be cleared: they may where the port
    /// can be used as a serial line. Clearing drops what waits in both buffers;
    /// it sends nothing.
    pub fn clear_buffers(&mut self, plugged: Option<SmartDeviceType>) -> (cleared: Result<
        (),
        SerialError,
    >)
        ensures
            *final(self) == *old(self),
            cleared == serial_check(plugged),
    {
        self.check(plugged)
    }

    /// The next byte of the input buffer, where `raw` is what the read of one
    /// byte returned: -1 for an empty buffer, else the byte.
    pub fn read_byte(&self, plugged: Option<SmartDeviceType>, raw: i32) -> (byte: Result<
        Option<u8>,
        SerialError,
    >)
        ensures
            byte == serial_answer(plugged, Ok(byte_of(raw))),
            0 <= raw <= u8::MAX && byte is Ok ==> byte->Ok_0 == Some(raw as u8) && byte->Ok_0->0
                == raw,
    {
        match self.check(plugged) {
            Ok(_) => Ok(
                if raw == -1 {
                    None
                } else {
                    Some(#[verifier::truncate] (raw as u8))
                },
            ),
            Err(error) => Err(error),
        }
    }

    /// The next byte of the input buffer, which stays there, where `raw` is what
    /// the look at one byte returned: -1 for an empty buffer, else the byte.
    pub fn peek_byte(&self, plugged: Option<SmartDeviceType>, raw: i32) -> (byte: Result<
        Option<u8>,
        SerialError,
    >)
        ensures
            byte == serial_answer(plugged, Ok(byte_of(raw))),
            0 <= raw <= u8::MAX && byte is Ok ==> byte->Ok_0 == Some(raw as u8) && byte->Ok_0->0
                == raw,
    {
        match self.check(plugged) {
            Ok(_) => Ok(
                if raw == -1 {
                    None
                } else {
                    Some(#[verifier::truncate] (raw as u8))
                },
            ),
            Err(error) => Err(error),
        }
    }

    /// Whether a byte was written, where `raw` is what the write of one byte
    /// returned: -1 says that the line did not take it.
    pub fn write_byte(&mut self, plugged: Option<SmartDeviceType>, raw: i32) -> (written: Result<
        (),
        SerialError,
    >)
        ensures
            *final(self) == *old(self),
            written == serial_answer(
                plugged,
                if raw == -1 {
                    Err(SerialError::WriteFailed)
                } else {
                    Ok(())
                },
            ),
    {
        match self.check(plugged) {
            Ok(_) => {
                if raw == -1 {
                    Err(SerialError::WriteFailed)
                } else {
                    Ok(())
                }
            },
            Err(error) => Err(error),
        }
    }

    /// Number of bytes that wait in the input buffer, where `raw` is what the
    /// line answered: -1 says that it could not tell.
    pub fn unread_bytes(&self, plugged: Option<SmartDeviceType>, raw: i32) -> (count: Result<
        usize,
        SerialError,
    >)
        ensures
            count == serial_answer(plugged, count_of(raw, SerialError::ReadFailed)),
            0 <= raw && count is Ok ==> count->Ok_0 == raw,
    {
        match self.check(plugged) {
            Ok(_) => {
                if raw == -1 {
                    Err(SerialError::ReadFailed)
                } else {
                    Ok(#[verifier::truncate] (raw as usize))
                }
            },
            Err(error) => Err(error),
        }
    }

    /// Number of bytes that the output buffer has room for, where `raw` is what
    /// the line answered: -1 says that it could not tell.
    pub fn available_write_bytes(&self, plugged: Option<SmartDeviceType>, raw: i32) -> (count:
        Result<usize, SerialError>)
        ensures
            count == serial_answer(plugged, count_of(raw, SerialError::ReadFailed)),
            0 <= raw && count is Ok ==> count->Ok_0 == raw,
    {
        match self.check(plugged) {
            Ok(_) => {
                if raw == -1 {
                    Err(SerialError::ReadFailed)
                } else {
                    Ok(#[verifier::truncate] (raw as usize))
                }
            },
            Err(error) => Err(error),
        }
    }

    fn port_io_error(source: PortError) -> (error: no_std_io::io::Error)
        ensures
            failure_of(error) == port_failure(source),
    {
        match source {
            PortError::Disconnected => io_error(
                IoErrorKind::AddrNotAvailable,
                "Port does not exist.",
            ),
            PortError::IncorrectDevice => io_error(
                IoErrorKind::AddrInUse,
                "Port is in use as another device.",
            ),
        }
    }

    /// Number of bytes that a read into a buffer delivered, where `received` is
    /// what the line answered: -1 for failure, else the count. A port that cannot
    /// be used fails as an address that is not there or is taken.
    pub fn read(&mut self, plugged: Option<SmartDeviceType>, received: i32) -> (count: Result<
        usize,
        no_std_io::io::Error,
    >)
        ensures
            *final(self) == *old(self),
            match port_check(plugged, SmartDeviceType::GenericSerial) {
                Err(source) => count is Err && failure_of(count->Err_0) == port_failure(source),
                Ok(_) => if received == -1 {
                    count is Err && failure_of(count->Err_0) == (
                        IoErrorKind::Other,
                        "Internal read error occurred."@,
                    )
                } else {
                    count == Ok::<usize, no_std_io::io::Error>(received as usize)
                },
            },
            0 <= received && count is Ok ==> count->Ok_0 == received,
    {
        match validate_port(plugged, SmartDeviceType::GenericSerial) {
            Err(source) => Err(Self::port_io_error(source)),
            Ok(_) => {
                if received == -1 {
                    Err(io_error(IoErrorKind::Other, "Internal read error occurred."))
                } else {
                    Ok(#[verifier::truncate] (received as usize))
                }
            },
        }
    }

    /// Whether a block of `length` bytes may be handed to the line, where `free`
    /// is what the line answered when asked for the room in its output buffer.
    /// A block that is longer than the room is refused as a whole: nothing of it
    /// is to be sent. The line must have stated its room: there is no answer to
    /// a line that could not tell.
    pub fn admit_write(&self, plugged: Option<SmartDeviceType>, free: i32, length: usize) -> (admitted:
        Result<(), no_std_io::io::Error>)
        requires
            plugged == Some(SmartDeviceType::GenericSerial) ==> free != -1,
        ensures
            match port_check(plugged, SmartDeviceType::GenericSerial) {
                Err(source) => admitted is Err && failure_of(admitted->Err_0) == port_failure(
                    source,
                ),
                Ok(_) => if length > free as usize {
                    admitted is Err && failure_of(admitted->Err_0) == (
                        IoErrorKind::Other,
                        "Buffer length exceeded available bytes in write buffer."@,
                    )
                } else {
                    admitted is Ok
                },
            },
    {
        match validate_port(plugged, SmartDeviceType::GenericSerial) {
            Err(source) => Err(Self::port_io_error(source)),
            Ok(_) => {
                let available = #[verifier::truncate] (free as usize);
                if length > available {
                    Err(
                        io_error(
                            IoErrorKind::Other,
                            "Buffer length exceeded available bytes in write buffer.",
                        ),
                    )
                } else {
                    Ok(())
                }
            },
        }
    }

    /// Number of bytes that the line took of a block that was admitted, where
    /// `written` is what the line answered: -1 for failure, else the count.
    pub fn write(&mut self, written: i32) -> (count: Result<usize, no_std_io::io::Error>)
        ensures
            *final(self) == *old(self),
            if written == -1 {
                count is Err && failure_of(count->Err_0) == (
                    IoErrorKind::Other,
                    "Internal write error occurred."@,
                )
            } else {
                count == Ok::<usize, no_std_io::io::Error>(written as usize)
            },
            0 <= written ==> count is Ok && count->Ok_0 == written,
    {
        if written == -1 {
            Err(io_error(IoErrorKind::Other, "Internal write error occurred."))
        } else {
            Ok(#[verifier::truncate] (written as usize))
        }
    }

    /// Does nothing: the line sends what is written to it as soon as it can, so
    /// there is nothing to flush.
    pub fn flush(&mut self) -> (flushed: Result<(), no_std_io::io::Error>)
        ensures
            *final(self) == *old(self),
            flushed is Ok,
    {
        Ok(())
    }
}

impl SmartDevice for SerialPort {
    open spec fn port_of(&self) -> u8 {
        self.port().spec_number()
    }

    open spec fn kind_of(&self) -> SmartDeviceType {
        SmartDeviceType::GenericSerial
    }

    fn port_number(&self) -> (number: u8) {
        self.port.number()
    }

    fn port_index(&self) -> (index: u8) {
        self.port.index()
    }

    fn device_type(&self) -> (kind: SmartDeviceType) {
        SmartDeviceType::GenericSerial
    }
}

} // verus!
