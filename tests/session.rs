use witmotion_modbus::error::WitError;
use witmotion_modbus::modbus::encode_read_response;
use witmotion_modbus::registers::{AX, AZ, GX, HX, ROLL, TEMP, YAW};
use witmotion_modbus::sensor::{
    extract_sensor_data, scale_micro, DataUpdateFlags, SensorData, ACC_RANGE, ANGLE_RANGE, GYRO_RANGE,
};
use witmotion_modbus::session::SensorSession;

fn feed(session: &mut SensorSession, bytes: &[u8]) -> Vec<Result<Option<SensorData>, WitError>> {
    bytes.iter().map(|&b| session.handle_byte(b)).collect()
}

fn last_sample(results: Vec<Result<Option<SensorData>, WitError>>) -> Option<SensorData> {
    let mut out = None;
    for r in results {
        if let Ok(Some(d)) = r {
            out = Some(d);
        }
    }
    out
}

#[test]
fn acceleration_scaling() {
    let d = extract_sensor_data(AX, &[32767, -32768, 0]);
    assert_eq!(d.accelerometer, [32767, -32768, 0]);
    let x = scale_micro(d.accelerometer[0], ACC_RANGE);
    let y = scale_micro(d.accelerometer[1], ACC_RANGE);
    assert_eq!(x, 15_999_511);
    assert_eq!(y, -16_000_000);
    assert!(((x as f64) / 1e6 - 16.0 * 32767.0 / 32768.0).abs() < 1e-5);
    assert!(((y as f64) / 1e6 + 16.0).abs() < 1e-9);
    assert!(d.has_accelerometer_update());
}

#[test]
fn gyroscope_and_angle_scaling() {
    assert_eq!(scale_micro(32767, GYRO_RANGE), 1_999_938_964);
    assert_eq!(scale_micro(-32768, GYRO_RANGE), -2_000_000_000);
    assert_eq!(scale_micro(32767, ANGLE_RANGE), 179_994_506);
    assert_eq!(scale_micro(-32768, ANGLE_RANGE), -180_000_000);
    assert_eq!(scale_micro(-1, ACC_RANGE), -488);
    assert_eq!(scale_micro(0, GYRO_RANGE), 0);
}

#[test]
fn gyroscope_only_sets_gyroscope_flag() {
    let d = extract_sensor_data(GX, &[100, -200, 300]);
    assert_eq!(d.gyroscope, [100, -200, 300]);
    assert!(d.has_gyroscope_update());
    assert!(!d.has_accelerometer_update());
    assert!(!d.has_angle_update());
    assert!(!d.has_magnetometer_update());
    assert!(!d.update_flags.contains(DataUpdateFlags::READ));
    assert_eq!(d.update_flags.bits(), DataUpdateFlags::GYRO);
}

#[test]
fn partial_group_sets_no_flag() {
    let d = extract_sensor_data(GX, &[1, 2]);
    assert!(d.update_flags.is_empty());
    assert_eq!(d.gyroscope, [1, 2, 0]);
}

#[test]
fn full_block_decode() {
    let values: Vec<i16> = (1..=14).collect();
    let d = extract_sensor_data(AX - 1, &values);
    assert_eq!(d.accelerometer, [2, 3, 4]);
    assert_eq!(d.gyroscope, [5, 6, 7]);
    assert_eq!(d.magnetometer, [8, 9, 10]);
    assert_eq!(d.angles, [11, 12, 13]);
    assert_eq!(d.temperature, 14);
    assert_eq!(
        d.update_flags.bits(),
        DataUpdateFlags::ACC | DataUpdateFlags::GYRO | DataUpdateFlags::MAG | DataUpdateFlags::ANGLE | DataUpdateFlags::READ
    );
    let _ = (HX, ROLL, TEMP, YAW, AZ);
}

#[test]
fn addresses_wrap_around() {
    let d = extract_sensor_data(0xffff, &[5, 6]);
    assert!(d.update_flags.contains(DataUpdateFlags::READ));
    assert!(SensorData::new().update_flags.is_empty());
    assert_eq!(SensorData::default().temperature, 0);
}

#[test]
fn session_records_registers_and_decodes() {
    let mut s = SensorSession::new(0x50);
    assert_eq!(s.current_baud_rate(), 9600);
    let req = s.read_request(GX, 3);
    assert_eq!(req[0], 0x50);
    assert_eq!(req[1], 0x03);
    let resp = encode_read_response(0x50, &[10, 0xffff, 30]);
    let d = last_sample(feed(&mut s, &resp)).unwrap();
    assert_eq!(d.gyroscope, [10, -1, 30]);
    assert!(d.has_gyroscope_update());
    assert_eq!(s.get_register(GX + 1), Some(-1));
    assert_eq!(s.get_register(AX), None);
    assert_eq!(s.get_all_registers().len(), 3);
    let w = s.write_request(0x00, 0x0000);
    assert_eq!(w[1], 0x06);
    s.set_baud_rate(115200);
    assert_eq!(s.current_baud_rate(), 115200);
}

#[test]
fn session_failed_frame_leaves_bank_alone() {
    let mut s = SensorSession::new(0x50);
    let _ = s.read_request(AX, 2);
    let mut resp = encode_read_response(0x50, &[1, 2]);
    let n = resp.len();
    resp[n - 1] ^= 0xff;
    let results = feed(&mut s, &resp);
    assert!(matches!(results.last(), Some(Err(WitError::CrcMismatch))));
    assert!(s.get_all_registers().is_empty());
}

#[test]
fn safety_valve_resets_long_buffer() {
    let mut s = SensorSession::new(0x50);
    let _ = s.read_request(AX, 3);
    // Declares 255 payload bytes: 260 in all, never completed.
    let mut junk = vec![0x50u8, 0x03, 0xff];
    junk.extend(std::iter::repeat(0x11u8).take(254));
    assert_eq!(junk.len(), 257);
    for r in feed(&mut s, &junk) {
        assert!(matches!(r, Ok(None)));
    }
    let resp = encode_read_response(0x50, &[32767, -32768i16 as u16, 0]);
    let d = last_sample(feed(&mut s, &resp)).unwrap();
    assert_eq!(d.accelerometer, [32767, -32768, 0]);
}

#[test]
fn truncated_frame_cleared_then_valid_frame() {
    let mut s = SensorSession::new(0x50);
    let _ = s.read_request(AX, 3);
    let resp = encode_read_response(0x50, &[1, 2, 3]);
    feed(&mut s, &resp[..6]);
    s.clear_buffer();
    let d = last_sample(feed(&mut s, &resp)).unwrap();
    assert_eq!(d.accelerometer, [1, 2, 3]);
}
