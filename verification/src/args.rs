//! The tool's command-line options, as plain data: transmit an audio
//! file, or receive into one.  Parsing lives in the binary around this
//! crate; the defaults are fixed here.

use vstd::prelude::*;

verus! {

/// Options for transmitting a mono audio file over FM.
pub struct TransmitArgs {
    /// The center frequency to transmit on, in Hz.
    pub frequency: u64,
    /// The transmit variable gain amplifier power setting, in dB.
    pub gain: u32,
    /// Path to a .wav file to transmit.  Only the first channel is
    /// processed.
    pub audio: String,
}

impl TransmitArgs {
    /// Transmit options for `audio` with the default frequency of
    /// 100 MHz and the default transmit gain of 30 dB.
    pub fn new(audio: String) -> (r: TransmitArgs)
        ensures
            r.frequency == 100_000_000u64,
            r.gain == 30u32,
            r.audio == audio,
    {
        TransmitArgs { frequency: 100_000_000, gain: 30, audio }
    }
}

/// Options for receiving a mono FM transmission.
pub struct ReceiveArgs {
    /// The center frequency to receive, in Hz.
    pub frequency: u64,
    /// The receive variable gain amplifier power setting, in dB.
    pub gain: u32,
    /// The receive low noise amplifier power setting, in dB.
    pub lna_gain: u32,
    /// Path of a .wav file that will be created and written to.
    pub audio: String,
}

impl ReceiveArgs {
    /// Receive options for `audio` with the default frequency of
    /// 100 MHz, no variable gain, and the default LNA gain of 30 dB.
    pub fn new(audio: String) -> (r: ReceiveArgs)
        ensures
            r.frequency == 100_000_000u64,
            r.gain == 0u32,
            r.lna_gain == 30u32,
            r.audio == audio,
    {
        ReceiveArgs { frequency: 100_000_000, gain: 0, lna_gain: 30, audio }
    }
}

/// Which of the two operations was asked for.
pub enum Command {
    /// Transmit a mono audio file over FM.
    Transmit(TransmitArgs),
    /// Receive a mono FM transmission.
    Receive(ReceiveArgs),
}

/// The parsed command line.
pub struct Args {
    /// The selected subcommand with its options.
    pub command: Command,
}

} // verus!
