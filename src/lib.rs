//! Protocol engine for WitMotion inertial sensors speaking Modbus-RTU.
//!
//! The library builds request frames, reassembles and validates response
//! frames byte by byte, decodes register values into sensor samples, keeps
//! the register bank of a session and decides the steps of a link-speed scan.
//! Serial I/O is left to the caller.

use vstd::prelude::*;

pub mod address;
pub mod crc16;
pub mod error;
pub mod registers;
pub mod modbus;
pub mod sensor;
pub mod session;
pub mod scan;

verus! {

/// Default polling interval in milliseconds.
pub const DEFAULT_POLL_INTERVAL_MS: u64 = 500;

/// Default number of registers to read (accelerometer, gyroscope, magnetometer and angles).
pub const DEFAULT_READ_COUNT: u16 = 12;

} // verus!
