use cameleon_genapi::codec::{bytes_from_int, int_from_slice, Endianness, Sign};
use cameleon_genapi::error::GenApiError;

#[test]
fn one_byte_signed_and_unsigned() {
    assert_eq!(int_from_slice(&[0xFF], Endianness::LE, Sign::Signed), Ok(-1));
    assert_eq!(int_from_slice(&[0xFF], Endianness::LE, Sign::Unsigned), Ok(255));
}

#[test]
fn byte_order_of_two_bytes() {
    assert_eq!(int_from_slice(&[0x12, 0x34], Endianness::BE, Sign::Unsigned), Ok(0x1234));
    assert_eq!(int_from_slice(&[0x12, 0x34], Endianness::LE, Sign::Unsigned), Ok(0x3412));
    assert_eq!(int_from_slice(&[0x80, 0x00], Endianness::BE, Sign::Signed), Ok(-32768));
}

#[test]
fn eight_unsigned_bytes_wrap_to_i64() {
    assert_eq!(int_from_slice(&[0xFF; 8], Endianness::LE, Sign::Unsigned), Ok(-1));
    assert_eq!(
        int_from_slice(&[0, 0, 0, 0, 0, 0, 0, 0x80], Endianness::LE, Sign::Unsigned),
        Ok(i64::MIN)
    );
}

#[test]
fn unsupported_widths_are_invalid_buffer() {
    assert_eq!(int_from_slice(&[1, 2, 3], Endianness::LE, Sign::Signed), Err(GenApiError::InvalidBuffer));
    assert_eq!(int_from_slice(&[], Endianness::BE, Sign::Unsigned), Err(GenApiError::InvalidBuffer));
    let mut buf = [7u8; 3];
    assert_eq!(bytes_from_int(1, &mut buf, Endianness::LE, Sign::Signed), Err(GenApiError::InvalidBuffer));
    assert_eq!(buf, [7, 7, 7]);
}

#[test]
fn encode_writes_low_bytes() {
    let mut buf = [0u8; 2];
    bytes_from_int(0x1234, &mut buf, Endianness::BE, Sign::Unsigned).unwrap();
    assert_eq!(buf, [0x12, 0x34]);
    bytes_from_int(0x1234, &mut buf, Endianness::LE, Sign::Unsigned).unwrap();
    assert_eq!(buf, [0x34, 0x12]);
    let mut four = [0u8; 4];
    bytes_from_int(-1, &mut four, Endianness::LE, Sign::Signed).unwrap();
    assert_eq!(four, [0xFF; 4]);
    let mut one = [0u8; 1];
    bytes_from_int(0x1FF, &mut one, Endianness::BE, Sign::Unsigned).unwrap();
    assert_eq!(one, [0xFF]);
}

#[test]
fn round_trip_every_width() {
    let cases: [(i64, usize, Sign); 8] = [
        (-128, 1, Sign::Signed),
        (255, 1, Sign::Unsigned),
        (-30000, 2, Sign::Signed),
        (65535, 2, Sign::Unsigned),
        (-2_000_000_000, 4, Sign::Signed),
        (4_000_000_000, 4, Sign::Unsigned),
        (i64::MIN, 8, Sign::Signed),
        (-5, 8, Sign::Unsigned),
    ];
    for (v, w, s) in cases {
        for e in [Endianness::LE, Endianness::BE] {
            let mut buf = vec![0u8; w];
            bytes_from_int(v, &mut buf, e, s).unwrap();
            assert_eq!(int_from_slice(&buf, e, s), Ok(v));
        }
    }
}

#[test]
fn byte_order_and_sign_text() {
    assert_eq!(Endianness::from_text("BigEndian"), Some(Endianness::BE));
    assert_eq!(Endianness::from_text("LittleEndian"), Some(Endianness::LE));
    assert_eq!(Endianness::from_text("Big"), None);
    assert_eq!(Sign::from_text("Signed"), Some(Sign::Signed));
    assert_eq!(Sign::default(), Sign::Unsigned);
    assert_eq!(Endianness::default(), Endianness::LE);
}
