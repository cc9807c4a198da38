use ups_manager::modbus::msg::{
    crc, into_8_bit, new, parse, send_outcome, ParseError, SendOutcome,
};

#[test]
fn bits_conv() {
    let x: u16 = 0x17;
    assert_eq!(into_8_bit(x), (0x00 as u8, 0x17 as u8))
}

#[test]
fn check_reverse() {
    let get_current = new(&[0x11, 0x03, 0x12, 0x01]);
    let handshake = new(&[0x01, 0x06, 0x50, 0x00]);

    println!("get_current: {get_current:?}");
    println!("handshake:   {handshake:?}");
    assert_eq!(get_current, [0x11, 0x03, 0x00, 0x12, 0x00, 0x01, 0x26, 0x9F]);
    assert_eq!(handshake, [0x01, 0x06, 0x00, 0x50, 0x00, 0x00, 0x89, 0xDB]);
    assert_ne!(handshake, get_current);
}

#[test]
fn into_8_bit_splits_high_and_low() {
    assert_eq!(into_8_bit(0x1234), (0x12, 0x34));
    assert_eq!(into_8_bit(0xAA55), (0xAA, 0x55));
    assert_eq!(into_8_bit(0xFFFF), (0xFF, 0xFF));
    assert_eq!(into_8_bit(0), (0, 0));
    for v in [0u16, 1, 0x00FF, 0x0100, 0x7FFF, 0xFFFF] {
        let (h, l) = into_8_bit(v);
        assert_eq!(h as u16 * 256 + l as u16, v);
    }
}

#[test]
fn crc_matches_modbus_check_value() {
    assert_eq!(crc(b"123456789"), 0x4B37);
    assert_eq!(crc(&[]), 0xFFFF);
    assert_eq!(crc(&[0x01, 0x03, 0x00, 0x00, 0x00, 0x01]), 0x0A84);
}

#[test]
fn frame_checksum_checks_out() {
    for d in [
        [0x11u16, 0x03, 0x17, 0x01],
        [0x01, 0x06, 0x1F, 0xAA55],
        [0x01, 0x03, 0x00, 0x01],
        [0x1234, 0xFF06, 0xFFFF, 0x0000],
    ] {
        let f = new(&d);
        assert_eq!(crc(&f), 0);
        let c = crc(&f[..6]);
        assert_eq!(f[6], (c & 0xFF) as u8);
        assert_eq!(f[7], (c >> 8) as u8);
    }
}

#[test]
fn new_keeps_low_bytes_of_address_and_code() {
    let f = new(&[0x1234, 0xFF06, 0xAA55, 0x0102]);
    assert_eq!(&f[..6], &[0x34, 0x06, 0xAA, 0x55, 0x01, 0x02]);
}

#[test]
fn new_ignores_extra_words() {
    assert_eq!(new(&[0x01, 0x03, 0x00, 0x01, 0x99]), new(&[0x01, 0x03, 0x00, 0x01]));
}

#[test]
fn parse_names_known_messages() {
    assert_eq!(parse(&[0x11, 0x03, 2, 1, 231, 56, 93, 0], 7), Ok("battery_info_registers"));
    assert_eq!(parse(&[0x01, 0x03, 2, 0, 6, 0, 0, 0], 8), Ok("firmware_version"));
    assert_eq!(parse(&[0x01, 0x06, 128, 34, 0, 0, 0, 0], 4), Ok("hartbeat_response"));
    assert_eq!(parse(&[0x00, 0x64, 0, 0, 0, 0, 0, 0], 8), Ok("event_msg"));
}

#[test]
fn parse_rejects_short_reads() {
    assert_eq!(
        parse(&[0x11, 0x03, 2, 1, 0, 0, 0, 0], 3),
        Err(ParseError::TooShort(vec![0x11, 0x03, 2, 1, 0, 0, 0, 0]))
    );
    assert_eq!(parse(&[], 0), Err(ParseError::TooShort(vec![])));
    assert_eq!(
        parse(&[17, 3, 2], 3).unwrap_err().to_string(),
        "Message [17, 3, 2] len is less than 4. Message error."
    );
}

#[test]
fn parse_rejects_unknown_headers() {
    assert_eq!(
        parse(&[0x11, 0x06, 0, 0, 0, 0, 0, 0], 8),
        Err(ParseError::IncorrectMsg(vec![0x11, 0x06, 0, 0, 0, 0, 0, 0]))
    );
    assert_eq!(parse(&[0x02, 0x03, 0, 0], 4), Err(ParseError::IncorrectMsg(vec![2, 3, 0, 0])));
    assert_eq!(
        parse(&[0x02, 0x03, 0x00, 0x00], 4).unwrap_err().to_string(),
        "incorrect_msg: [2, 3, 0, 0]"
    );
}

#[test]
fn parse_recognises_built_frames() {
    assert_eq!(parse(&new(&[0x11, 0x03, 0x12, 0x01]), 8), Ok("battery_info_registers"));
    assert_eq!(parse(&new(&[0x01, 0x03, 0x00, 0x01]), 8), Ok("firmware_version"));
    assert_eq!(parse(&new(&[0x01, 0x06, 0x50, 0x00]), 8), Ok("hartbeat_response"));
    assert!(matches!(
        parse(&new(&[0x01, 0x04, 0x50, 0x00]), 8),
        Err(ParseError::IncorrectMsg(_))
    ));
}

#[test]
fn send_outcome_compares_counts() {
    assert_eq!(send_outcome(8, 8), SendOutcome::Complete);
    assert_eq!(send_outcome(0, 8), SendOutcome::Short);
    assert_eq!(send_outcome(7, 8), SendOutcome::Short);
    assert_eq!(send_outcome(9, 8), SendOutcome::Excess);
    assert_eq!(send_outcome(0, 0), SendOutcome::Complete);
}
