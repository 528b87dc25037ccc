//! Register addresses and function codes of WitMotion sensors.
use vstd::prelude::*;

verus! {

pub const SAVE: u16 = 0x00;
pub const CALSW: u16 = 0x01;
pub const RSW: u16 = 0x02;
pub const RRATE: u16 = 0x03;
pub const BAUD: u16 = 0x04;

/// Accelerometer X, Y, Z.
pub const AX: u16 = 0x34;
pub const AY: u16 = 0x35;
pub const AZ: u16 = 0x36;
/// Gyroscope X, Y, Z.
pub const GX: u16 = 0x37;
pub const GY: u16 = 0x38;
pub const GZ: u16 = 0x39;
/// Magnetometer X, Y, Z.
pub const HX: u16 = 0x3A;
pub const HY: u16 = 0x3B;
pub const HZ: u16 = 0x3C;
/// Roll, pitch, yaw.
pub const ROLL: u16 = 0x3D;
pub const PITCH: u16 = 0x3E;
pub const YAW: u16 = 0x3F;
/// Temperature.
pub const TEMP: u16 = 0x40;

/// Modbus function code: read holding registers.
pub const FUNC_READ: u8 = 0x03;
/// Modbus function code: write single register.
pub const FUNC_WRITE: u8 = 0x06;

} // verus!
