//! Identification of the radio board variant reported by the hardware.

use vstd::prelude::*;

verus! {

/// The board variant of a connected radio device.
#[derive(Clone, Copy, Debug, PartialEq, Eq, Structural)]
pub enum DeviceType {
    Jellybean,
    Jawbreaker,
    /// HackRF One prior to r9
    Hackrf1Og,
    Rad1O,
    Hackrf1R9,
    /// Tried detection but did not recognize board
    Unrecognized,
    /// detection not yet attempted
    Undetected,
}

/// The board variant a raw id stands for; ids with no assigned board
/// decode to `Undetected`.
pub open spec fn spec_device_from_id(id: u8) -> DeviceType {
    if id == 0 {
        DeviceType::Jellybean
    } else if id == 1 {
        DeviceType::Jawbreaker
    } else if id == 2 {
        DeviceType::Hackrf1Og
    } else if id == 3 {
        DeviceType::Rad1O
    } else if id == 4 {
        DeviceType::Hackrf1R9
    } else if id == 0xFE {
        DeviceType::Unrecognized
    } else {
        DeviceType::Undetected
    }
}

impl DeviceType {
    /// Decodes the raw board id read from the device.
    pub fn from_id(id: u8) -> (r: Self)
        ensures
            r == spec_device_from_id(id),
    {
        match id {
            0 => DeviceType::Jellybean,
            1 => DeviceType::Jawbreaker,
            2 => DeviceType::Hackrf1Og,
            3 => DeviceType::Rad1O,
            4 => DeviceType::Hackrf1R9,
            0xFE => DeviceType::Unrecognized,
            0xFF => DeviceType::Undetected,
            _ => DeviceType::Undetected,
        }
    }
}

} // verus!
