use witmotion_modbus::crc16::checksum;
use witmotion_modbus::error::WitError;
use witmotion_modbus::modbus::{create_read_request, encode_read_response, parse_response, ModbusProtocol};
use witmotion_modbus::registers::{AX, GX, HX, ROLL, TEMP};

fn valid_response() -> Vec<u8> {
    vec![0x50, 0x03, 0x06, 0x7f, 0xff, 0x80, 0x00, 0x00, 0x00, 0xe6, 0xfd]
}

fn is_invalid(r: &Result<Vec<u16>, WitError>, msg: &str) -> bool {
    matches!(r, Err(WitError::InvalidParameter(m)) if m == msg)
}

#[test]
fn checksum_of_check_string() {
    assert_eq!(checksum(b"123456789"), 0x4b37);
    assert_eq!(checksum(&[]), 0xffff);
}

#[test]
fn read_request_bytes() {
    assert_eq!(create_read_request(0x50, AX, 12), vec![0x50, 0x03, 0x00, 0x34, 0x00, 0x0c, 0x09, 0x80]);
}

#[test]
fn write_request_bytes() {
    let p = ModbusProtocol::new(0x50);
    assert_eq!(p.generate_write_request(0x04, 0x06), vec![0x50, 0x06, 0x00, 0x04, 0x00, 0x06, 0x45, 0x88]);
}

#[test]
fn parse_valid_response_unsigned() {
    assert_eq!(parse_response(&valid_response()).unwrap(), vec![0x7fff, 0x8000, 0x0000]);
}

#[test]
fn parse_errors() {
    assert!(is_invalid(&parse_response(&[0x50, 0x03, 0x00, 0x00]), "Frame too short"));
    let mut f = valid_response();
    f[1] = 0x04;
    assert!(is_invalid(&parse_response(&f), "Invalid function code"));
    let mut f = valid_response();
    f.push(0);
    assert!(is_invalid(&parse_response(&f), "Invalid frame length"));
    let mut f = valid_response();
    f[10] ^= 0x01;
    assert!(matches!(parse_response(&f), Err(WitError::CrcMismatch)));
}

#[test]
fn response_round_trip() {
    for count in [0usize, 1, 3, 12, 127] {
        let values: Vec<u16> = (0..count).map(|i| (i as u16).wrapping_mul(4099) ^ 0xa5c3).collect();
        let frame = encode_read_response(0x50, &values);
        assert_eq!(frame.len(), 2 * count + 5);
        assert_eq!(parse_response(&frame).unwrap(), values);
    }
    assert_eq!(encode_read_response(0x50, &[0x7fff, 0x8000, 0x0000]), valid_response());
}

#[test]
fn crc_append_validates_and_single_bit_flips_fail() {
    let frame = encode_read_response(0x01, &[0x1234, 0xabcd, 0x0001, 0xffff]);
    assert!(parse_response(&frame).is_ok());
    for byte in 3..frame.len() {
        for bit in 0..8 {
            let mut f = frame.clone();
            f[byte] ^= 1 << bit;
            assert!(matches!(parse_response(&f), Err(WitError::CrcMismatch)), "byte {} bit {}", byte, bit);
        }
    }
}

#[test]
fn feed_byte_by_byte_matches_whole_frame() {
    let mut p = ModbusProtocol::new(0x50);
    let _ = p.generate_read_request(AX, 3);
    let frame = valid_response();
    for (i, &b) in frame.iter().enumerate() {
        let r = p.process_byte(b).unwrap();
        if i + 1 < frame.len() {
            assert!(r.is_none());
        } else {
            let (start, values) = r.unwrap();
            assert_eq!(start, AX);
            assert_eq!(values, vec![32767, -32768, 0]);
            let unsigned = parse_response(&frame).unwrap();
            let signed: Vec<i16> = unsigned.iter().map(|&v| v as i16).collect();
            assert_eq!(values, signed);
        }
    }
    assert!(!p.should_reset_buffer());
}

#[test]
fn garbled_frame_then_valid_frame() {
    let mut p = ModbusProtocol::new(0x50);
    let _ = p.generate_read_request(GX, 3);
    let mut garbled = valid_response();
    garbled[5] ^= 0x40;
    let mut errors = 0;
    for &b in &garbled {
        if p.process_byte(b).is_err() {
            errors += 1;
        }
    }
    assert_eq!(errors, 1);
    let mut decoded = None;
    for &b in &valid_response() {
        if let Some(x) = p.process_byte(b).unwrap() {
            decoded = Some(x);
        }
    }
    assert_eq!(decoded, Some((GX, vec![32767, -32768, 0])));
}

#[test]
fn wrong_function_code_frame_is_reported() {
    let mut p = ModbusProtocol::new(0x50);
    let frame = [0x50u8, 0x83, 0x00, 0x00, 0x00];
    for &b in &frame[..4] {
        assert!(p.process_byte(b).unwrap().is_none());
    }
    assert!(matches!(p.process_byte(frame[4]), Err(WitError::InvalidParameter(m)) if m == "Invalid function code"));
}

#[test]
fn clear_buffer_drops_partial_frame() {
    let mut p = ModbusProtocol::new(0x50);
    for &b in &[0x50u8, 0x03, 0x06, 0x00] {
        assert!(p.process_byte(b).unwrap().is_none());
    }
    p.clear_buffer();
    let mut decoded = None;
    for &b in &valid_response() {
        decoded = p.process_byte(b).unwrap().or(decoded);
    }
    assert_eq!(decoded.unwrap().1, vec![32767, -32768, 0]);
    let _ = (HX, ROLL, TEMP);
}
