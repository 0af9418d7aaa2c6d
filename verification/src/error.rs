//! Status codes returned by the radio driver library, and the
//! configuration errors of the signal pipeline itself.

use vstd::prelude::*;

verus! {

/// An error code reported by the radio hardware driver.
#[derive(Clone, Copy, Debug, PartialEq, Eq, Structural)]
pub enum HackrfError {
    InvalidParam,
    NotFound,
    Busy,
    NoMem,
    Libusb,
    Thread,
    StreamingThreadErr,
    StreamingStopped,
    StreamingExitCalled,
    Other,
}

/// The meaning of a raw driver status id: zero and one report success,
/// every other id maps to an error, unknown ids to `Other`.
pub open spec fn spec_from_id(id: i32) -> Result<(), HackrfError> {
    if id == 0 || id == 1 {
        Ok(())
    } else if id == -2 {
        Err(HackrfError::InvalidParam)
    } else if id == -5 {
        Err(HackrfError::NotFound)
    } else if id == -6 {
        Err(HackrfError::Busy)
    } else if id == -11 {
        Err(HackrfError::NoMem)
    } else if id == -1000 {
        Err(HackrfError::Libusb)
    } else if id == -1001 {
        Err(HackrfError::Thread)
    } else if id == -1002 {
        Err(HackrfError::StreamingThreadErr)
    } else if id == -1003 {
        Err(HackrfError::StreamingStopped)
    } else if id == -1004 {
        Err(HackrfError::StreamingExitCalled)
    } else {
        Err(HackrfError::Other)
    }
}

impl HackrfError {
    /// Decodes a raw status id from the driver.
    pub fn from_id(id: i32) -> (r: Result<(), HackrfError>)
        ensures
            r == spec_from_id(id),
    {
        Err(match id {
            0 | 1 => return Ok(()),
            -2 => HackrfError::InvalidParam,
            -5 => HackrfError::NotFound,
            -6 => HackrfError::Busy,
            -11 => HackrfError::NoMem,
            -1000 => HackrfError::Libusb,
            -1001 => HackrfError::Thread,
            -1002 => HackrfError::StreamingThreadErr,
            -1003 => HackrfError::StreamingStopped,
            -1004 => HackrfError::StreamingExitCalled,
            _ => HackrfError::Other,
        })
    }
}

/// A fatal configuration error of the signal pipeline, detected at
/// construction time, before any streaming begins.
#[derive(Clone, Copy, Debug, PartialEq, Eq, Structural)]
pub enum ConfigError {
    /// The audio sample rate is zero, so no rate ratio exists.
    ZeroAudioRate,
    /// The RF sample rate is below the audio sample rate.
    RateBelowAudio,
    /// The decimation or interpolation ratio came out as zero.
    ZeroRatio,
    /// The deviation bandwidth is zero.
    ZeroBandwidth,
    /// A filter cutoff frequency or sample rate is zero.
    ZeroCutoff,
}

} // verus!
