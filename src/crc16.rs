//! Modbus-RTU CRC-16 (initial value 0xFFFF, reflected polynomial 0xA001).
use vstd::prelude::*;

verus! {

/// The Modbus CRC-16 of a byte sequence, as computed by the `crc` crate.
pub uninterp spec fn modbus_crc(bytes: Seq<u8>) -> u16;

/// Relies on `crc::Crc::<u16>::checksum` with the `CRC_16_MODBUS` algorithm:
/// the result depends on the bytes alone.
#[verifier::external_body]
fn crc_of(bytes: &[u8]) -> (r: u16)
    ensures
        r == modbus_crc(bytes@),
{
    crc::Crc::<u16>::new(&crc::CRC_16_MODBUS).checksum(bytes)
}

/// The Modbus CRC-16 of `bytes`.
pub fn checksum(bytes: &[u8]) -> (r: u16)
    ensures
        r == modbus_crc(bytes@),
{
    crc_of(bytes)
}

/// High byte of a 16-bit value.
pub open spec fn hi_byte(x: u16) -> u8 {
    (x / 256) as u8
}

/// Low byte of a 16-bit value.
pub open spec fn lo_byte(x: u16) -> u8 {
    (x % 256) as u8
}

/// The 16-bit value of two bytes, high byte first.
pub open spec fn be_u16(hi: u8, lo: u8) -> u16 {
    (hi as int * 256 + lo as int) as u16
}

/// A CRC as it stands on the wire: low byte first.
pub open spec fn crc_bytes(c: u16) -> Seq<u8> {
    seq![lo_byte(c), hi_byte(c)]
}

/// A byte sequence whose last two bytes are the little-endian CRC of the rest.
pub open spec fn crc_valid(frame: Seq<u8>) -> bool {
    &&& frame.len() >= 2
    &&& modbus_crc(frame.subrange(0, frame.len() - 2)) == be_u16(
        frame[frame.len() - 1],
        frame[frame.len() - 2],
    )
}

/// High byte of a 16-bit value.
pub fn hi_of(x: u16) -> (r: u8)
    ensures
        r == hi_byte(x),
{
    (x / 256) as u8
}

/// Low byte of a 16-bit value.
pub fn lo_of(x: u16) -> (r: u8)
    ensures
        r == lo_byte(x),
{
    (x % 256) as u8
}

/// The 16-bit value of two bytes, high byte first.
pub fn u16_of(hi: u8, lo: u8) -> (r: u16)
    ensures
        r == be_u16(hi, lo),
{
    (hi as u16) * 256 + (lo as u16)
}

/// Whether the last two bytes of `frame` hold the little-endian CRC of the bytes before them.
pub fn crc_matches(frame: &[u8]) -> (r: bool)
    requires
        frame@.len() >= 2,
    ensures
        r == crc_valid(frame@),
{
    let n = frame.len();
    let received = u16_of(frame[n - 1], frame[n - 2]);
    let computed = crc_of(&frame[0..n - 2]);
    received == computed
}

/// Appending the little-endian CRC of any byte sequence gives a sequence whose
/// CRC check succeeds.
pub proof fn lemma_crc_append_valid(span: Seq<u8>)
    ensures
        crc_valid(span + crc_bytes(modbus_crc(span))),
{
    let f = span + crc_bytes(modbus_crc(span));
    assert(f.subrange(0, f.len() - 2) =~= span);
    let c = modbus_crc(span);
    assert(be_u16(hi_byte(c), lo_byte(c)) == c);
}

} // verus!
