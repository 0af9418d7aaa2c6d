use fm_transmit::device::DeviceType;
use fm_transmit::error::{ConfigError, HackrfError};

#[test]
fn hackrf_error_success_ids() {
    assert!(HackrfError::from_id(0).is_ok());
    assert!(HackrfError::from_id(1).is_ok());
}

#[test]
fn hackrf_error_known_ids() {
    assert_eq!(HackrfError::from_id(-2), Err(HackrfError::InvalidParam));
    assert_eq!(HackrfError::from_id(-5), Err(HackrfError::NotFound));
    assert_eq!(HackrfError::from_id(-6), Err(HackrfError::Busy));
    assert_eq!(HackrfError::from_id(-11), Err(HackrfError::NoMem));
    assert_eq!(HackrfError::from_id(-1000), Err(HackrfError::Libusb));
    assert_eq!(HackrfError::from_id(-1001), Err(HackrfError::Thread));
    assert_eq!(
        HackrfError::from_id(-1002),
        Err(HackrfError::StreamingThreadErr)
    );
    assert_eq!(
        HackrfError::from_id(-1003),
        Err(HackrfError::StreamingStopped)
    );
    assert_eq!(
        HackrfError::from_id(-1004),
        Err(HackrfError::StreamingExitCalled)
    );
    assert_eq!(HackrfError::from_id(-9999), Err(HackrfError::Other));
}

#[test]
fn hackrf_error_unknown_ids_are_other() {
    assert_eq!(HackrfError::from_id(-42), Err(HackrfError::Other));
    assert_eq!(HackrfError::from_id(17), Err(HackrfError::Other));
}

#[test]
fn device_type_known_ids() {
    assert_eq!(DeviceType::from_id(0), DeviceType::Jellybean);
    assert_eq!(DeviceType::from_id(1), DeviceType::Jawbreaker);
    assert_eq!(DeviceType::from_id(2), DeviceType::Hackrf1Og);
    assert_eq!(DeviceType::from_id(3), DeviceType::Rad1O);
    assert_eq!(DeviceType::from_id(4), DeviceType::Hackrf1R9);
    assert_eq!(DeviceType::from_id(0xFE), DeviceType::Unrecognized);
    assert_eq!(DeviceType::from_id(0xFF), DeviceType::Undetected);
}

#[test]
fn device_type_unknown_ids_are_undetected() {
    assert_eq!(DeviceType::from_id(5), DeviceType::Undetected);
    assert_eq!(DeviceType::from_id(100), DeviceType::Undetected);
}

#[test]
fn config_errors_are_distinct() {
    let all = [
        ConfigError::ZeroAudioRate,
        ConfigError::RateBelowAudio,
        ConfigError::ZeroRatio,
        ConfigError::ZeroBandwidth,
        ConfigError::ZeroCutoff,
    ];
    for (i, a) in all.iter().enumerate() {
        for (j, b) in all.iter().enumerate() {
            assert_eq!(i == j, a == b);
        }
    }
}
