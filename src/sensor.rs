//! Register decoding: raw register values at known addresses become a sensor
//! sample with per-group update flags.
use vstd::prelude::*;
use crate::registers::{AX, AZ, GX, GZ, HX, HZ, ROLL, TEMP, YAW};

verus! {

/// Full-scale range of the accelerometer, in g.
pub const ACC_RANGE: u32 = 16;
/// Full-scale range of the gyroscope, in degrees per second.
pub const GYRO_RANGE: u32 = 2000;
/// Full-scale range of the angle registers, in degrees.
pub const ANGLE_RANGE: u32 = 180;
/// Raw count that corresponds to the full-scale range.
pub const FULL_SCALE: u32 = 32768;

/// Flags marking which groups of sensor data a decode step refreshed.
#[derive(Debug, Clone, Copy, PartialEq, Eq, Structural)]
pub struct DataUpdateFlags {
    bits: u8,
}

impl View for DataUpdateFlags {
    type V = u8;

    closed spec fn view(&self) -> u8 {
        self.bits
    }
}

/// The flag bits for the five groups.
pub open spec fn flag_bits(acc: bool, gyro: bool, angle: bool, mag: bool, read: bool) -> u8 {
    (if acc { 1u8 } else { 0u8 }) | (if gyro { 2u8 } else { 0u8 }) | (if angle { 4u8 } else { 0u8 })
        | (if mag { 8u8 } else { 0u8 }) | (if read { 0x80u8 } else { 0u8 })
}

/// Whether every bit of `flag` is set in `bits`.
pub open spec fn has_flag(bits: u8, flag: u8) -> bool {
    bits & flag == flag
}

/// Each group's bit of `flag_bits` is set exactly when that group is.
pub proof fn lemma_flag_bits(acc: bool, gyro: bool, angle: bool, mag: bool, read: bool)
    ensures
        has_flag(flag_bits(acc, gyro, angle, mag, read), DataUpdateFlags::ACC) == acc,
        has_flag(flag_bits(acc, gyro, angle, mag, read), DataUpdateFlags::GYRO) == gyro,
        has_flag(flag_bits(acc, gyro, angle, mag, read), DataUpdateFlags::ANGLE) == angle,
        has_flag(flag_bits(acc, gyro, angle, mag, read), DataUpdateFlags::MAG) == mag,
        has_flag(flag_bits(acc, gyro, angle, mag, read), DataUpdateFlags::READ) == read,
        (flag_bits(acc, gyro, angle, mag, read) == 0) == (!acc && !gyro && !angle && !mag && !read),
{
    let a: u8 = if acc { 1u8 } else { 0u8 };
    let g: u8 = if gyro { 2u8 } else { 0u8 };
    let n: u8 = if angle { 4u8 } else { 0u8 };
    let m: u8 = if mag { 8u8 } else { 0u8 };
    let r: u8 = if read { 0x80u8 } else { 0u8 };
    assert(((a == 0 || a == 1) && (g == 0 || g == 2) && (n == 0 || n == 4) && (m == 0 || m == 8)
        && (r == 0 || r == 0x80)) ==> ({
        let x = a | g | n | m | r;
        &&& (x & 1 == 1) == (a == 1)
        &&& (x & 2 == 2) == (g == 2)
        &&& (x & 4 == 4) == (n == 4)
        &&& (x & 8 == 8) == (m == 8)
        &&& (x & 0x80 == 0x80) == (r == 0x80)
        &&& (x == 0) == (a == 0 && g == 0 && n == 0 && m == 0 && r == 0)
    })) by (bit_vector);
}

impl DataUpdateFlags {
    /// Accelerometer data updated.
    pub const ACC: u8 = 0x01;
    /// Gyroscope data updated.
    pub const GYRO: u8 = 0x02;
    /// Angle data updated.
    pub const ANGLE: u8 = 0x04;
    /// Magnetometer data updated.
    pub const MAG: u8 = 0x08;
    /// Some other register was read.
    pub const READ: u8 = 0x80;

    /// No flag set.
    pub fn empty() -> (r: Self)
        ensures
            r@ == 0,
    {
        DataUpdateFlags { bits: 0 }
    }

    /// The flags of the five groups.
    pub fn from_groups(acc: bool, gyro: bool, angle: bool, mag: bool, read: bool) -> (r: Self)
        ensures
            r@ == flag_bits(acc, gyro, angle, mag, read),
    {
        let a: u8 = if acc { 1 } else { 0 };
        let g: u8 = if gyro { 2 } else { 0 };
        let n: u8 = if angle { 4 } else { 0 };
        let m: u8 = if mag { 8 } else { 0 };
        let r: u8 = if read { 0x80 } else { 0 };
        DataUpdateFlags { bits: a | g | n | m | r }
    }

    /// The raw flag bits.
    pub fn bits(&self) -> (r: u8)
        ensures
            r == self@,
    {
        self.bits
    }

    /// Whether every bit of `flag` is set.
    pub fn contains(&self, flag: u8) -> (r: bool)
        ensures
            r == has_flag(self@, flag),
    {
        self.bits & flag == flag
    }

    /// Whether no flag is set.
    pub fn is_empty(&self) -> (r: bool)
        ensures
            r == (self@ == 0),
    {
        self.bits == 0
    }
}

/// One decoded sample. Values are raw register counts: acceleration in
/// units of 16/32768 g, angular rate in 2000/32768 degrees per second, angles
/// in 180/32768 degrees, magnetic field unscaled, temperature in hundredths
/// of a degree Celsius. `scale_micro` converts to millionths of a unit.
#[derive(Debug, Clone, Copy)]
pub struct SensorData {
    /// X, Y, Z.
    pub accelerometer: [i16; 3],
    /// X, Y, Z.
    pub gyroscope: [i16; 3],
    /// Roll, pitch, yaw.
    pub angles: [i16; 3],
    /// X, Y, Z.
    pub magnetometer: [i16; 3],
    pub temperature: i16,
    /// Which groups the decode step refreshed.
    pub update_flags: DataUpdateFlags,
}

/// Address of the `i`-th value of a read that started at `start`; the
/// 16-bit address space wraps.
pub open spec fn reg_addr(start: u16, i: int) -> u16 {
    ((start as int + i) % 0x10000) as u16
}

/// The value a decode of `values` leaves for register `reg`: the last one at that address.
pub open spec fn last_write(start: u16, values: Seq<i16>, reg: u16) -> Option<i16>
    decreases values.len(),
{
    if values.len() == 0 {
        None
    } else if reg_addr(start, values.len() - 1) == reg {
        Some(values.last())
    } else {
        last_write(start, values.drop_last(), reg)
    }
}

/// The decoded value of register `reg`, zero where the read did not cover it.
pub open spec fn reg_value(start: u16, values: Seq<i16>, reg: u16) -> i16 {
    match last_write(start, values, reg) {
        Some(v) => v,
        None => 0,
    }
}

/// Whether the read covered register `reg`.
pub open spec fn touched(start: u16, values: Seq<i16>, reg: u16) -> bool {
    last_write(start, values, reg) is Some
}

/// Whether an address decodes into a field of the sample.
pub open spec fn is_sample_addr(reg: u16) -> bool {
    AX <= reg <= TEMP
}

/// Whether the read covered a register outside the sample's fields.
pub open spec fn touches_other(start: u16, values: Seq<i16>) -> bool {
    exists|i: int| 0 <= i < values.len() && !is_sample_addr(#[trigger] reg_addr(start, i))
}

/// The update flags that decoding `values` from `start` produces.
pub open spec fn decoded_flags(start: u16, values: Seq<i16>) -> u8 {
    flag_bits(
        touched(start, values, AZ),
        touched(start, values, GZ),
        touched(start, values, YAW),
        touched(start, values, HZ),
        touches_other(start, values),
    )
}

/// `d` is the sample that decoding `values` read from `start` produces.
pub open spec fn decodes_to(d: SensorData, start: u16, values: Seq<i16>) -> bool {
    &&& forall|k: int|
        0 <= k < 3 ==> #[trigger] d.accelerometer@[k] == reg_value(start, values, (AX + k) as u16)
    &&& forall|k: int|
        0 <= k < 3 ==> #[trigger] d.gyroscope@[k] == reg_value(start, values, (GX + k) as u16)
    &&& forall|k: int|
        0 <= k < 3 ==> #[trigger] d.magnetometer@[k] == reg_value(start, values, (HX + k) as u16)
    &&& forall|k: int|
        0 <= k < 3 ==> #[trigger] d.angles@[k] == reg_value(start, values, (ROLL + k) as u16)
    &&& d.temperature == reg_value(start, values, TEMP)
    &&& d.update_flags@ == decoded_flags(start, values)
}

impl SensorData {
    /// A sample with every value zero and no flag set.
    pub fn new() -> (r: Self)
        ensures
            r.accelerometer@ == seq![0i16, 0, 0],
            r.gyroscope@ == seq![0i16, 0, 0],
            r.angles@ == seq![0i16, 0, 0],
            r.magnetometer@ == seq![0i16, 0, 0],
            r.temperature == 0,
            r.update_flags@ == 0,
    {
        let r = SensorData {
            accelerometer: [0, 0, 0],
            gyroscope: [0, 0, 0],
            angles: [0, 0, 0],
            magnetometer: [0, 0, 0],
            temperature: 0,
            update_flags: DataUpdateFlags::empty(),
        };
        assert(r.accelerometer@ =~= seq![0i16, 0, 0]);
        assert(r.gyroscope@ =~= seq![0i16, 0, 0]);
        assert(r.angles@ =~= seq![0i16, 0, 0]);
        assert(r.magnetometer@ =~= seq![0i16, 0, 0]);
        r
    }

    /// Whether the accelerometer group was refreshed.
    pub fn has_accelerometer_update(&self) -> (r: bool)
        ensures
            r == has_flag(self.update_flags@, DataUpdateFlags::ACC),
    {
        self.update_flags.contains(DataUpdateFlags::ACC)
    }

    /// Whether the gyroscope group was refreshed.
    pub fn has_gyroscope_update(&self) -> (r: bool)
        ensures
            r == has_flag(self.update_flags@, DataUpdateFlags::GYRO),
    {
        self.update_flags.contains(DataUpdateFlags::GYRO)
    }

    /// Whether the angle group was refreshed.
    pub fn has_angle_update(&self) -> (r: bool)
        ensures
            r == has_flag(self.update_flags@, DataUpdateFlags::ANGLE),
    {
        self.update_flags.contains(DataUpdateFlags::ANGLE)
    }

    /// Whether the magnetometer group was refreshed.
    pub fn has_magnetometer_update(&self) -> (r: bool)
        ensures
            r == has_flag(self.update_flags@, DataUpdateFlags::MAG),
    {
        self.update_flags.contains(DataUpdateFlags::MAG)
    }
}

proof fn lemma_decode_step(start: u16, values: Seq<i16>, i: int)
    requires
        0 <= i < values.len(),
    ensures
        forall|reg: u16|
            #[trigger] last_write(start, values.take(i + 1), reg) == if reg_addr(start, i) == reg {
                Some(values[i])
            } else {
                last_write(start, values.take(i), reg)
            },
        touches_other(start, values.take(i + 1)) == (touches_other(start, values.take(i))
            || !is_sample_addr(reg_addr(start, i))),
{
    assert(values.take(i + 1).drop_last() =~= values.take(i));
    if touches_other(start, values.take(i)) {
        let j = choose|j: int|
            0 <= j < i && !is_sample_addr(#[trigger] reg_addr(start, j));
        assert(values.take(i + 1).len() == i + 1);
        assert(!is_sample_addr(reg_addr(start, j)));
    }
}

/// Decodes raw register values read from `start_register` into a sample.
/// Accelerometer, gyroscope, magnetometer and angle registers fill their axis;
/// the Z axis (yaw for angles) sets the group's flag. The temperature register
/// fills the temperature; any other address sets the generic read flag.
pub fn extract_sensor_data(start_register: u16, values: &[i16]) -> (r: SensorData)
    ensures
        decodes_to(r, start_register, values@),
{
    let mut data = SensorData::new();
    let mut acc = false;
    let mut gyro = false;
    let mut angle = false;
    let mut mag = false;
    let mut read = false;
    let mut reg: u16 = start_register;
    let n = values.len();
    let mut i: usize = 0;
    while i < n
        invariant
            n == values@.len(),
            i <= n,
            reg == reg_addr(start_register, i as int),
            forall|k: int|
                0 <= k < 3 ==> #[trigger] data.accelerometer@[k] == reg_value(
                    start_register,
                    values@.take(i as int),
                    (AX + k) as u16,
                ),
            forall|k: int|
                0 <= k < 3 ==> #[trigger] data.gyroscope@[k] == reg_value(
                    start_register,
                    values@.take(i as int),
                    (GX + k) as u16,
                ),
            forall|k: int|
                0 <= k < 3 ==> #[trigger] data.magnetometer@[k] == reg_value(
                    start_register,
                    values@.take(i as int),
                    (HX + k) as u16,
                ),
            forall|k: int|
                0 <= k < 3 ==> #[trigger] data.angles@[k] == reg_value(
                    start_register,
                    values@.take(i as int),
                    (ROLL + k) as u16,
                ),
            data.temperature == reg_value(start_register, values@.take(i as int), TEMP),
            acc == touched(start_register, values@.take(i as int), AZ),
            gyro == touched(start_register, values@.take(i as int), GZ),
            angle == touched(start_register, values@.take(i as int), YAW),
            mag == touched(start_register, values@.take(i as int), HZ),
            read == touches_other(start_register, values@.take(i as int)),
        decreases n - i,
    {
        let value = values[i];
        proof {
            lemma_decode_step(start_register, values@, i as int);
        }
        if AX <= reg && reg <= AZ {
            data.accelerometer[(reg - AX) as usize] = value;
            if reg == AZ {
                acc = true;
            }
        } else if GX <= reg && reg <= GZ {
            data.gyroscope[(reg - GX) as usize] = value;
            if reg == GZ {
                gyro = true;
            }
        } else if HX <= reg && reg <= HZ {
            data.magnetometer[(reg - HX) as usize] = value;
            if reg == HZ {
                mag = true;
            }
        } else if ROLL <= reg && reg <= YAW {
            data.angles[(reg - ROLL) as usize] = value;
            if reg == YAW {
                angle = true;
            }
        } else if reg == TEMP {
            data.temperature = value;
        } else {
            read = true;
        }
        reg = reg.wrapping_add(1);
        i = i + 1;
        proof {
            assert(reg == reg_addr(start_register, i as int)) by (nonlinear_arith)
                requires
                    reg == (reg_addr(start_register, i - 1) + 1) % 0x10000,
                    reg_addr(start_register, i - 1) == ((start_register + (i - 1)) % 0x10000) as u16,
                    reg_addr(start_register, i as int) == ((start_register + i) % 0x10000) as u16,
            ;
        }
    }
    assert(values@.take(n as int) =~= values@);
    data.update_flags = DataUpdateFlags::from_groups(acc, gyro, angle, mag, read);
    data
}

/// `raw * full_range / 32768`, in millionths of a unit, rounded toward zero.
pub open spec fn scaled_micro(raw: i16, full_range: u32) -> int {
    let m = raw as int * full_range as int * 1_000_000;
    if m >= 0 {
        m / 32768
    } else {
        -((-m) / 32768)
    }
}

/// Converts a raw count of a register whose full scale (32768 counts) is
/// `full_range` units into millionths of a unit, rounded toward zero.
pub fn scale_micro(raw: i16, full_range: u32) -> (r: i64)
    requires
        full_range <= 100_000,
    ensures
        r == scaled_micro(raw, full_range),
{
    let a: i64 = raw as i64;
    let b: i64 = full_range as i64;
    assert(-32768 * 100_000 <= a * b <= 32767 * 100_000) by (nonlinear_arith)
        requires
            -32768 <= a <= 32767,
            0 <= b <= 100_000,
    ;
    let p: i64 = a * b;
    let m: i64 = p * 1_000_000;
    if m >= 0 {
        m / 32768
    } else {
        -((-m) / 32768)
    }
}

/// A read that covers gyroscope addresses only sets no flag but the
/// gyroscope's, and sets that one exactly when it covers the Z axis.
pub proof fn lemma_gyroscope_only_flags(start: u16, values: Seq<i16>)
    requires
        forall|i: int| 0 <= i < values.len() ==> GX <= #[trigger] reg_addr(start, i) <= GZ,
    ensures
        !has_flag(decoded_flags(start, values), DataUpdateFlags::ACC),
        !has_flag(decoded_flags(start, values), DataUpdateFlags::ANGLE),
        !has_flag(decoded_flags(start, values), DataUpdateFlags::MAG),
        !has_flag(decoded_flags(start, values), DataUpdateFlags::READ),
        has_flag(decoded_flags(start, values), DataUpdateFlags::GYRO) == touched(start, values, GZ),
        touched(start, values, GZ) == exists|i: int|
            0 <= i < values.len() && #[trigger] reg_addr(start, i) == GZ,
{
    lemma_last_write_outside(start, values, AZ);
    lemma_last_write_outside(start, values, YAW);
    lemma_last_write_outside(start, values, HZ);
    lemma_last_write_hit(start, values, GZ);
    lemma_flag_bits(
        touched(start, values, AZ),
        touched(start, values, GZ),
        touched(start, values, YAW),
        touched(start, values, HZ),
        touches_other(start, values),
    );
}

/// A register is touched exactly when some value of the read lands on it.
proof fn lemma_last_write_hit(start: u16, values: Seq<i16>, reg: u16)
    ensures
        touched(start, values, reg) == exists|i: int|
            0 <= i < values.len() && #[trigger] reg_addr(start, i) == reg,
    decreases values.len(),
{
    if values.len() > 0 {
        lemma_last_write_hit(start, values.drop_last(), reg);
        if touched(start, values.drop_last(), reg) {
            let i = choose|i: int|
                0 <= i < values.drop_last().len() && #[trigger] reg_addr(start, i) == reg;
            assert(0 <= i < values.len() && reg_addr(start, i) == reg);
        }
        if exists|i: int| 0 <= i < values.len() && #[trigger] reg_addr(start, i) == reg {
            let i = choose|i: int| 0 <= i < values.len() && #[trigger] reg_addr(start, i) == reg;
            if i < values.len() - 1 {
                assert(0 <= i < values.drop_last().len() && reg_addr(start, i) == reg);
            }
        }
    }
}

proof fn lemma_last_write_outside(start: u16, values: Seq<i16>, reg: u16)
    requires
        forall|i: int| 0 <= i < values.len() ==> #[trigger] reg_addr(start, i) != reg,
    ensures
        !touched(start, values, reg),
{
    lemma_last_write_hit(start, values, reg);
}

impl Default for SensorData {
    fn default() -> (r: Self)
        ensures
            r.accelerometer@ == seq![0i16, 0, 0],
            r.gyroscope@ == seq![0i16, 0, 0],
            r.angles@ == seq![0i16, 0, 0],
            r.magnetometer@ == seq![0i16, 0, 0],
            r.temperature == 0,
            r.update_flags@ == 0,
    {
        SensorData::new()
    }
}

} // verus!
