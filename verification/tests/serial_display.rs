use fm_transmit::args::{Args, Command, ReceiveArgs, TransmitArgs};
use fm_transmit::serial::SerialNumber;

#[test]
fn serial_number_formats_as_dashed_hex() {
    let sn = SerialNumber {
        part_id: [0, 0],
        serial_no: [0x0123_ABCD, 0, 0xFFFF_FFFF, 7],
    };
    assert_eq!(sn.serial_string(), "0123ABCD-00000000-FFFFFFFF-00000007");
}

#[test]
fn default_serial_number_is_all_zero() {
    let sn = SerialNumber::default();
    assert_eq!(sn.part_id, [0, 0]);
    assert_eq!(sn.serial_no, [0, 0, 0, 0]);
    assert_eq!(sn.serial_string(), "00000000-00000000-00000000-00000000");
}

#[test]
fn serial_number_covers_every_digit() {
    let sn = SerialNumber {
        part_id: [1, 2],
        serial_no: [0x0123_4567, 0x89AB_CDEF, 0xDEAD_BEEF, 0x0000_0001],
    };
    assert_eq!(sn.serial_string(), "01234567-89ABCDEF-DEADBEEF-00000001");
}

#[test]
fn transmit_args_defaults() {
    let args = TransmitArgs::new("tone.wav".to_string());
    assert_eq!(args.frequency, 100_000_000);
    assert_eq!(args.gain, 30);
    assert_eq!(args.audio, "tone.wav");
}

#[test]
fn receive_args_defaults() {
    let args = ReceiveArgs::new("capture.wav".to_string());
    assert_eq!(args.frequency, 100_000_000);
    assert_eq!(args.gain, 0);
    assert_eq!(args.lna_gain, 30);
    assert_eq!(args.audio, "capture.wav");
}

#[test]
fn command_carries_its_options() {
    let args = Args {
        command: Command::Transmit(TransmitArgs::new("a.wav".to_string())),
    };
    match args.command {
        Command::Transmit(t) => assert_eq!(t.gain, 30),
        Command::Receive(_) => panic!("wrong variant"),
    }
}
