//! The protocol state of one sensor session: the response reassembler, the
//! register bank and the current link speed. The caller moves the bytes.
use vstd::prelude::*;
use std::collections::HashMap;
use crate::error::WitResult;
use crate::modbus::{as_signed, fault_error, feed, request_frame, FeedOutcome, ModbusProtocol, BUFFER_LIMIT};
use crate::registers::{FUNC_READ, FUNC_WRITE};
use crate::sensor::{decodes_to, extract_sensor_data, reg_addr, SensorData};

verus! {

broadcast use vstd::std_specs::hash::group_hash_axioms;

/// Link speed a session starts with.
pub const DEFAULT_BAUD: u32 = 9600;

/// The register bank after recording `values` read from `start`, in address order.
pub open spec fn bank_after(bank: Map<u16, i16>, start: u16, values: Seq<i16>) -> Map<u16, i16>
    decreases values.len(),
{
    if values.len() == 0 {
        bank
    } else {
        bank_after(bank, start, values.drop_last()).insert(
            reg_addr(start, values.len() - 1),
            values.last(),
        )
    }
}

/// Microseconds to wait after sending `frame_len` bytes at `baud_rate`:
/// ten bit times per byte, plus a 300 microsecond turnaround.
pub fn transmission_delay_us(frame_len: usize, baud_rate: u32) -> (r: u64)
    requires
        baud_rate > 0,
        frame_len <= 1_000_000,
    ensures
        r == (1_000_000 * frame_len * 10) / (baud_rate as int) + 300,
{
    let bits: u64 = 1_000_000 * (frame_len as u64) * 10;
    assert(bits / (baud_rate as u64) <= bits) by (nonlinear_arith)
        requires
            baud_rate > 0,
            bits >= 0,
    ;
    bits / (baud_rate as u64) + 300
}

/// Protocol state of one sensor session.
pub struct SensorSession {
    modbus: ModbusProtocol,
    registers: HashMap<u16, i16>,
    current_baud: u32,
}

impl SensorSession {
    /// The reassembler.
    pub closed spec fn protocol(&self) -> ModbusProtocol {
        self.modbus
    }

    /// The register bank: last-seen value of each register address.
    pub closed spec fn bank(&self) -> Map<u16, i16> {
        self.registers@
    }

    /// The link speed in use.
    pub closed spec fn baud(&self) -> u32 {
        self.current_baud
    }

    /// A session for `slave_address`, at the default link speed, with an empty bank.
    pub fn new(slave_address: u8) -> (r: Self)
        ensures
            r.protocol().slave() == slave_address,
            r.protocol().buffer() == Seq::<u8>::empty(),
            r.protocol().read_start() == 0,
            r.bank() == Map::<u16, i16>::empty(),
            r.baud() == DEFAULT_BAUD,
    {
        SensorSession {
            modbus: ModbusProtocol::new(slave_address),
            registers: HashMap::new(),
            current_baud: DEFAULT_BAUD,
        }
    }

    /// The request that reads `count` registers from `start_register`; the
    /// next response is labelled with `start_register`.
    pub fn read_request(&mut self, start_register: u16, count: u16) -> (r: Vec<u8>)
        ensures
            r@ == request_frame(old(self).protocol().slave(), FUNC_READ, start_register, count),
            final(self).protocol().read_start() == start_register,
            final(self).protocol().slave() == old(self).protocol().slave(),
            final(self).protocol().buffer() == old(self).protocol().buffer(),
            final(self).bank() == old(self).bank(),
            final(self).baud() == old(self).baud(),
    {
        self.modbus.generate_read_request(start_register, count)
    }

    /// The request that writes `value` to `register`.
    pub fn write_request(&self, register: u16, value: u16) -> (r: Vec<u8>)
        ensures
            r@ == request_frame(self.protocol().slave(), FUNC_WRITE, register, value),
    {
        self.modbus.generate_write_request(register, value)
    }

    /// Takes one incoming byte. When it completes a valid frame, records its
    /// values in the bank and returns the decoded sample; a complete but
    /// invalid frame gives its error and leaves the bank as it was. A buffer
    /// left holding more than 256 bytes is emptied.
    pub fn handle_byte(&mut self, byte: u8) -> (r: WitResult<Option<SensorData>>)
        ensures
            ({
                let (nb, outcome) = feed(old(self).protocol().buffer(), byte);
                let start = old(self).protocol().read_start();
                &&& final(self).protocol().buffer() == if nb.len() > BUFFER_LIMIT {
                    Seq::<u8>::empty()
                } else {
                    nb
                }
                &&& match outcome {
                    FeedOutcome::Pending => r is Ok && r->Ok_0 is None && final(self).bank()
                        == old(self).bank(),
                    FeedOutcome::Frame(values) => r is Ok && r->Ok_0 is Some && decodes_to(
                        r->Ok_0->Some_0,
                        start,
                        as_signed(values),
                    ) && final(self).bank() == bank_after(old(self).bank(), start, as_signed(values)),
                    FeedOutcome::Fault(f) => r is Err && fault_error(f, r->Err_0)
                        && final(self).bank() == old(self).bank(),
                }
            }),
            final(self).protocol().buffer().len() <= BUFFER_LIMIT,
            final(self).protocol().slave() == old(self).protocol().slave(),
            final(self).protocol().read_start() == old(self).protocol().read_start(),
            final(self).baud() == old(self).baud(),
    {
        let mut sample = None;
        match self.modbus.process_byte(byte) {
            Err(e) => {
                return Err(e);
            },
            Ok(None) => {},
            Ok(Some((start, values))) => {
                let n = values.len();
                let mut i: usize = 0;
                let mut reg: u16 = start;
                let ghost modbus = self.modbus;
                while i < n
                    invariant
                        self.modbus == modbus,
                        self.current_baud == old(self).current_baud,
                        n == values@.len(),
                        i <= n,
                        reg == reg_addr(start, i as int),
                        self.registers@ == bank_after(
                            old(self).registers@,
                            start,
                            values@.take(i as int),
                        ),
                    decreases n - i,
                {
                    proof {
                        assert(values@.take(i + 1).drop_last() =~= values@.take(i as int));
                    }
                    self.registers.insert(reg, values[i]);
                    reg = reg.wrapping_add(1);
                    i = i + 1;
                    proof {
                        assert(reg == reg_addr(start, i as int)) by (nonlinear_arith)
                            requires
                                reg == (reg_addr(start, i - 1) + 1) % 0x10000,
                                reg_addr(start, i - 1) == ((start + (i - 1)) % 0x10000) as u16,
                                reg_addr(start, i as int) == ((start + i) % 0x10000) as u16,
                        ;
                    }
                }
                assert(values@.take(n as int) =~= values@);
                sample = Some(extract_sensor_data(start, values.as_slice()));
            },
        }
        if self.modbus.should_reset_buffer() {
            self.modbus.clear_buffer();
        }
        Ok(sample)
    }

    /// Records the link speed the transport now uses.
    pub fn set_baud_rate(&mut self, baud_rate: u32)
        ensures
            final(self).baud() == baud_rate,
            final(self).protocol() == old(self).protocol(),
            final(self).bank() == old(self).bank(),
    {
        self.current_baud = baud_rate;
    }

    /// The link speed in use.
    pub fn current_baud_rate(&self) -> (r: u32)
        ensures
            r == self.baud(),
    {
        self.current_baud
    }

    /// The last-seen value of `register`, if it was ever read.
    pub fn get_register(&self, register: u16) -> (r: Option<i16>)
        ensures
            r == (if self.bank().contains_key(register) {
                Some(self.bank()[register])
            } else {
                None
            }),
    {
        match self.registers.get(&register) {
            Some(v) => Some(*v),
            None => None,
        }
    }

    /// The whole register bank.
    pub fn get_all_registers(&self) -> (r: &HashMap<u16, i16>)
        ensures
            r@ == self.bank(),
    {
        &self.registers
    }

    /// Empties the reassembly buffer, abandoning a partial response.
    pub fn clear_buffer(&mut self)
        ensures
            final(self).protocol().buffer() == Seq::<u8>::empty(),
            final(self).protocol().slave() == old(self).protocol().slave(),
            final(self).protocol().read_start() == old(self).protocol().read_start(),
            final(self).bank() == old(self).bank(),
            final(self).baud() == old(self).baud(),
    {
        self.modbus.clear_buffer();
    }
}

} // verus!
