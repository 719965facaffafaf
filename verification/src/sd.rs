//! What the SD card controller's answers mean.
//!
//! The controller is driven from outside this library. It answers an
//! initialization with a status code, and a read with the number of bytes
//! read or, when the read failed, with 0 and an error code that it keeps
//! beside. The functions here turn a request into what the controller is
//! asked, and its answer into the result of the request.

use vstd::prelude::*;
use crate::device::IoError;

verus! {

/// Why the SD card controller could not be initialized.
#[derive(Clone, Copy, Debug, PartialEq, Eq, Structural)]
pub enum Error {
    Timeout,
    CommandError,
    UnknownReturnCode,
}

/// A handle to an SD card controller that was initialized.
#[derive(Clone, Copy, Debug, PartialEq, Eq, Structural)]
pub struct Sd;

/// What the status code `status` of an initialization means: 0 is success,
/// -1 a timeout, -2 a failure to send commands to the controller.
pub open spec fn spec_new(status: i32) -> Result<Sd, Error> {
    if status == 0 {
        Ok(Sd)
    } else if status == -1 {
        Err(Error::Timeout)
    } else if status == -2 {
        Err(Error::CommandError)
    } else {
        Err(Error::UnknownReturnCode)
    }
}

/// The sector number handed to the controller for a read of sector `n` into
/// a buffer of `len` bytes, or `InvalidInput` if the buffer is shorter than a
/// sector or `n` is above `2^31 - 1`.
pub open spec fn spec_sector_request(n: u64, len: usize) -> Result<i32, IoError> {
    if len < 512 || n > 0x7FFF_FFFF {
        Err(IoError::InvalidInput)
    } else {
        Ok(n as i32)
    }
}

/// What the answer of the controller to a read means, where `returned` is
/// the value that the read returned and `error_code` the error code that the
/// controller holds after it.
///
/// A positive value is the number of bytes read. Any other value is a
/// failure: a timeout if the error code is -1, or if the value returned is
/// itself -1, and some other failure if not.
pub open spec fn spec_read_outcome(returned: i32, error_code: i64) -> Result<usize, IoError> {
    if returned > 0 {
        Ok(returned as usize)
    } else if error_code == -1 || returned == -1 {
        Err(IoError::TimedOut)
    } else {
        Err(IoError::Other)
    }
}

impl Sd {
    /// Returns a handle to the SD card controller, given the status code with
    /// which its initialization ended.
    pub fn new(status: i32) -> (r: Result<Sd, Error>)
        ensures
            r == spec_new(status),
    {
        match status {
            0 => Ok(Sd),
            -1 => Err(Error::Timeout),
            -2 => Err(Error::CommandError),
            _ => Err(Error::UnknownReturnCode),
        }
    }

    /// Checks a request to read sector `n` into a buffer of `len` bytes and
    /// returns the sector number to hand to the controller.
    ///
    /// An I/O error of kind `InvalidInput` is returned if `len < 512` or
    /// `n > 2^31 - 1` (the maximum value for an `i32`).
    pub fn sector_request(&self, n: u64, len: usize) -> (r: Result<i32, IoError>)
        ensures
            r == spec_sector_request(n, len),
    {
        if len < 512 || n > 0x7FFF_FFFF {
            return Err(IoError::InvalidInput);
        }
        Ok(n as i32)
    }

    /// Turns the answer of the controller to a read into the result of the
    /// read, where `returned` is the value that the read returned and
    /// `error_code` the error code that the controller holds after it. On
    /// success, the result is the number of bytes read.
    ///
    /// An error of kind `TimedOut` is returned if a timeout occurred while
    /// reading from the SD card. An error of kind `Other` is returned for all
    /// other errors.
    pub fn read_outcome(&self, returned: i32, error_code: i64) -> (r: Result<usize, IoError>)
        ensures
            r == spec_read_outcome(returned, error_code),
    {
        if returned > 0 {
            Ok(returned as usize)
        } else if error_code == -1 || returned == -1 {
            Err(IoError::TimedOut)
        } else {
            Err(IoError::Other)
        }
    }

    /// Refuses to write a sector: the SD card and the file system are read
    /// only.
    pub fn write_sector(&self, n: u64, buf: &[u8]) -> (r: Result<usize, IoError>)
        ensures
            r == Err::<usize, IoError>(IoError::Unsupported),
    {
        Err(IoError::Unsupported)
    }
}

} // verus!
