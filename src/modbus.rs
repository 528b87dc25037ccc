//! Modbus-RTU framing: request builders, response validation and the
//! byte-at-a-time response reassembler.
use vstd::prelude::*;
use crate::crc16::{
    be_u16, checksum, crc_bytes, crc_matches, crc_valid, hi_byte, hi_of, lemma_crc_append_valid,
    lo_byte, lo_of, modbus_crc, u16_of,
};
use crate::error::{WitError, WitResult};
use crate::registers::{FUNC_READ, FUNC_WRITE};

verus! {

/// Largest number of bytes the reassembly buffer may hold before the owner resets it.
pub const BUFFER_LIMIT: usize = 256;

/// Why a complete response frame was rejected.
#[derive(PartialEq, Eq, Structural, Debug, Clone, Copy)]
pub enum FrameFault {
    TooShort,
    BadFunction,
    BadLength,
    BadChecksum,
}

/// A request frame: address, function code, two big-endian 16-bit words, CRC.
pub open spec fn request_frame(slave: u8, function: u8, a: u16, b: u16) -> Seq<u8> {
    let body = seq![slave, function, hi_byte(a), lo_byte(a), hi_byte(b), lo_byte(b)];
    body + crc_bytes(modbus_crc(body))
}

/// The big-endian bytes of a sequence of 16-bit values.
pub open spec fn be_bytes(values: Seq<u16>) -> Seq<u8> {
    Seq::new(
        2 * values.len(),
        |i: int| if i % 2 == 0 { hi_byte(values[i / 2]) } else { lo_byte(values[i / 2]) },
    )
}

/// The read response that a slave sends for `values`.
pub open spec fn response_frame(slave: u8, values: Seq<u16>) -> Seq<u8> {
    let body = seq![slave, FUNC_READ, (2 * values.len()) as u8] + be_bytes(values);
    body + crc_bytes(modbus_crc(body))
}

/// What is wrong with a response frame, if anything.
pub open spec fn frame_fault(frame: Seq<u8>) -> Option<FrameFault> {
    if frame.len() < 5 {
        Some(FrameFault::TooShort)
    } else if frame[1] != FUNC_READ {
        Some(FrameFault::BadFunction)
    } else if frame.len() != frame[2] + 5 {
        Some(FrameFault::BadLength)
    } else if !crc_valid(frame) {
        Some(FrameFault::BadChecksum)
    } else {
        None
    }
}

/// The register values a response frame carries, big-endian, in address order.
pub open spec fn frame_registers(frame: Seq<u8>) -> Seq<u16> {
    Seq::new((frame[2] / 2) as nat, |i: int| be_u16(frame[3 + 2 * i], frame[4 + 2 * i]))
}

/// Register values read as signed 16-bit integers.
pub open spec fn as_signed(values: Seq<u16>) -> Seq<i16> {
    values.map_values(|v: u16| v as i16)
}

/// The error that reports a fault.
pub open spec fn fault_error(fault: FrameFault, e: WitError) -> bool {
    match fault {
        FrameFault::TooShort => e is InvalidParameter && e->InvalidParameter_0@ == "Frame too short"@,
        FrameFault::BadFunction => e is InvalidParameter && e->InvalidParameter_0@
            == "Invalid function code"@,
        FrameFault::BadLength => e is InvalidParameter && e->InvalidParameter_0@
            == "Invalid frame length"@,
        FrameFault::BadChecksum => e is CrcMismatch,
    }
}

/// Whether the reassembly buffer holds enough bytes for the frame it declares.
pub open spec fn frame_complete(buf: Seq<u8>) -> bool {
    buf.len() >= 5 && buf.len() >= buf[2] + 5
}

/// Outcome of one step of the reassembler, in terms of plain values.
pub enum FeedOutcome {
    Pending,
    Frame(Seq<u16>),
    Fault(FrameFault),
}

/// One reassembler step: the buffer after taking `byte`, and the outcome.
pub open spec fn feed(buf: Seq<u8>, byte: u8) -> (Seq<u8>, FeedOutcome) {
    let nb = buf.push(byte);
    if !frame_complete(nb) {
        (nb, FeedOutcome::Pending)
    } else {
        (
            Seq::empty(),
            match frame_fault(nb) {
                Some(f) => FeedOutcome::Fault(f),
                None => FeedOutcome::Frame(frame_registers(nb)),
            },
        )
    }
}

/// Feeding a sequence of bytes one at a time: the final buffer and the last outcome.
pub open spec fn feed_all(buf: Seq<u8>, bytes: Seq<u8>) -> (Seq<u8>, FeedOutcome)
    decreases bytes.len(),
{
    if bytes.len() == 0 {
        (buf, FeedOutcome::Pending)
    } else {
        let prev = feed_all(buf, bytes.drop_last());
        feed(prev.0, bytes.last())
    }
}

/// Whether a result of `process_byte` reports `outcome` for a read that started at `start`.
pub open spec fn reports(r: WitResult<Option<(u16, Vec<i16>)>>, outcome: FeedOutcome, start: u16) -> bool {
    match outcome {
        FeedOutcome::Pending => r is Ok && r->Ok_0 is None,
        FeedOutcome::Frame(values) => r is Ok && r->Ok_0 is Some && r->Ok_0->Some_0.0 == start
            && r->Ok_0->Some_0.1@ == as_signed(values),
        FeedOutcome::Fault(f) => r is Err && fault_error(f, r->Err_0),
    }
}

/// Modbus protocol handler: request builder and response reassembler of one slave.
pub struct ModbusProtocol {
    slave_address: u8,
    data_buffer: Vec<u8>,
    read_register_index: u16,
}

/// Modbus command types.
#[derive(Debug, Clone, Copy)]
pub enum ModbusCommand {
    ReadHoldingRegisters,
    WriteMultipleRegisters,
}

fn too_short() -> (e: WitError)
    ensures
        fault_error(FrameFault::TooShort, e),
{
    WitError::InvalidParameter("Frame too short".to_owned())
}

fn bad_function() -> (e: WitError)
    ensures
        fault_error(FrameFault::BadFunction, e),
{
    WitError::InvalidParameter("Invalid function code".to_owned())
}

fn bad_length() -> (e: WitError)
    ensures
        fault_error(FrameFault::BadLength, e),
{
    WitError::InvalidParameter("Invalid frame length".to_owned())
}

/// Checks the structure and CRC of a response frame.
fn check_frame(frame: &[u8]) -> (r: Result<(), WitError>)
    ensures
        match frame_fault(frame@) {
            Some(f) => r is Err && fault_error(f, r->Err_0),
            None => r is Ok,
        },
{
    if frame.len() < 5 {
        return Err(too_short());
    }
    if frame[1] != FUNC_READ {
        return Err(bad_function());
    }
    let expected = frame[2] as usize + 5;
    if frame.len() != expected {
        return Err(bad_length());
    }
    if !crc_matches(frame) {
        return Err(WitError::CrcMismatch);
    }
    Ok(())
}

/// Builds a request frame: address, function code, two big-endian words, CRC low byte first.
fn request(slave: u8, function: u8, a: u16, b: u16) -> (r: Vec<u8>)
    ensures
        r@ == request_frame(slave, function, a, b),
{
    let mut frame: Vec<u8> = Vec::with_capacity(8);
    frame.push(slave);
    frame.push(function);
    frame.push(hi_of(a));
    frame.push(lo_of(a));
    frame.push(hi_of(b));
    frame.push(lo_of(b));
    let ghost body = seq![slave, function, hi_byte(a), lo_byte(a), hi_byte(b), lo_byte(b)];
    assert(frame@ =~= body);
    let crc = checksum(frame.as_slice());
    frame.push(lo_of(crc));
    frame.push(hi_of(crc));
    assert(frame@ =~= body + crc_bytes(modbus_crc(body)));
    frame
}

impl ModbusProtocol {
    /// The slave address that requests are sent to.
    pub closed spec fn slave(&self) -> u8 {
        self.slave_address
    }

    /// The bytes of the response received so far.
    pub closed spec fn buffer(&self) -> Seq<u8> {
        self.data_buffer@
    }

    /// The starting register of the last read request.
    pub closed spec fn read_start(&self) -> u16 {
        self.read_register_index
    }

    /// Creates a handler for `slave_address` with an empty buffer.
    pub fn new(slave_address: u8) -> (r: Self)
        ensures
            r.slave() == slave_address,
            r.buffer() == Seq::<u8>::empty(),
            r.read_start() == 0,
    {
        Self { slave_address, data_buffer: Vec::with_capacity(256), read_register_index: 0 }
    }

    /// Builds a read-holding-registers request and remembers its start register.
    pub fn generate_read_request(&mut self, start_register: u16, num_registers: u16) -> (r: Vec<u8>)
        ensures
            r@ == request_frame(old(self).slave(), FUNC_READ, start_register, num_registers),
            final(self).slave() == old(self).slave(),
            final(self).buffer() == old(self).buffer(),
            final(self).read_start() == start_register,
    {
        let frame = request(self.slave_address, FUNC_READ, start_register, num_registers);
        self.read_register_index = start_register;
        frame
    }

    /// Builds a write-single-register request.
    pub fn generate_write_request(&self, register: u16, value: u16) -> (r: Vec<u8>)
        ensures
            r@ == request_frame(self.slave(), FUNC_WRITE, register, value),
    {
        request(self.slave_address, FUNC_WRITE, register, value)
    }

    /// Takes one incoming byte; yields the start register and the signed values
    /// once a complete frame has arrived, or the error of a complete but invalid frame.
    pub fn process_byte(&mut self, byte: u8) -> (r: WitResult<Option<(u16, Vec<i16>)>>)
        ensures
            final(self).buffer() == feed(old(self).buffer(), byte).0,
            reports(r, feed(old(self).buffer(), byte).1, old(self).read_start()),
            final(self).slave() == old(self).slave(),
            final(self).read_start() == old(self).read_start(),
    {
        self.data_buffer.push(byte);
        let len = self.data_buffer.len();
        if len < 5 {
            return Ok(None);
        }
        let expected = self.data_buffer[2] as usize + 5;
        if len < expected {
            return Ok(None);
        }
        let result = self.parse_response();
        self.data_buffer.clear();
        match result {
            Ok(frame) => Ok(Some(frame)),
            Err(e) => Err(e),
        }
    }

    /// Parses the buffer as a complete response frame, with signed values.
    fn parse_response(&self) -> (r: WitResult<(u16, Vec<i16>)>)
        ensures
            match frame_fault(self.buffer()) {
                Some(f) => r is Err && fault_error(f, r->Err_0),
                None => r is Ok && r->Ok_0.0 == self.read_start() && r->Ok_0.1@ == as_signed(
                    frame_registers(self.buffer()),
                ),
            },
    {
        let frame = self.data_buffer.as_slice();
        match check_frame(frame) {
            Err(e) => Err(e),
            Ok(()) => {
                let n = (frame[2] / 2) as usize;
                let mut registers: Vec<i16> = Vec::new();
                let mut i: usize = 0;
                while i < n
                    invariant
                        frame@ == self.buffer(),
                        frame_fault(frame@) is None,
                        n == frame@[2] / 2,
                        i <= n,
                        registers@ =~= as_signed(frame_registers(frame@)).take(i as int),
                    decreases n - i,
                {
                    let v = u16_of(frame[3 + 2 * i], frame[4 + 2 * i]);
                    registers.push(v as i16);
                    i = i + 1;
                }
                assert(registers@ =~= as_signed(frame_registers(frame@)));
                Ok((self.read_register_index, registers))
            },
        }
    }

    /// Empties the reassembly buffer.
    pub fn clear_buffer(&mut self)
        ensures
            final(self).buffer() == Seq::<u8>::empty(),
            final(self).slave() == old(self).slave(),
            final(self).read_start() == old(self).read_start(),
    {
        self.data_buffer.clear();
    }

    /// Whether the buffer holds more than the safety bound and should be reset.
    pub fn should_reset_buffer(&self) -> (r: bool)
        ensures
            r == (self.buffer().len() > BUFFER_LIMIT),
    {
        self.data_buffer.len() > BUFFER_LIMIT
    }
}

/// Builds a read request for `num_registers` registers from `start_register`.
pub fn create_read_request(slave_address: u8, start_register: u16, num_registers: u16) -> (r: Vec<u8>)
    ensures
        r@ == request_frame(slave_address, FUNC_READ, start_register, num_registers),
{
    let mut protocol = ModbusProtocol::new(slave_address);
    protocol.generate_read_request(start_register, num_registers)
}

/// Parses a complete response frame, with unsigned values.
pub fn parse_response(frame: &[u8]) -> (r: WitResult<Vec<u16>>)
    ensures
        match frame_fault(frame@) {
            Some(f) => r is Err && fault_error(f, r->Err_0),
            None => r is Ok && r->Ok_0@ == frame_registers(frame@),
        },
{
    match check_frame(frame) {
        Err(e) => Err(e),
        Ok(()) => {
            let n = (frame[2] / 2) as usize;
            let mut registers: Vec<u16> = Vec::new();
            let mut i: usize = 0;
            while i < n
                invariant
                    frame_fault(frame@) is None,
                    n == frame@[2] / 2,
                    i <= n,
                    registers@ =~= frame_registers(frame@).take(i as int),
                decreases n - i,
            {
                let v = u16_of(frame[3 + 2 * i], frame[4 + 2 * i]);
                registers.push(v);
                i = i + 1;
            }
            assert(registers@ =~= frame_registers(frame@));
            Ok(registers)
        },
    }
}

/// Builds the read response a slave sends for `values`: address, function
/// code, byte count, big-endian values, CRC low byte first.
pub fn encode_read_response(slave_address: u8, values: &[u16]) -> (r: Vec<u8>)
    requires
        values@.len() <= 127,
    ensures
        r@ == response_frame(slave_address, values@),
{
    let n = values.len();
    let mut frame: Vec<u8> = Vec::with_capacity(2 * n + 5);
    frame.push(slave_address);
    frame.push(FUNC_READ);
    frame.push((2 * n) as u8);
    let ghost head = seq![slave_address, FUNC_READ, (2 * n) as u8];
    let mut i: usize = 0;
    while i < n
        invariant
            n == values@.len(),
            n <= 127,
            i <= n,
            frame@ =~= head + be_bytes(values@.take(i as int)),
        decreases n - i,
    {
        frame.push(hi_of(values[i]));
        frame.push(lo_of(values[i]));
        i = i + 1;
        assert(be_bytes(values@.take(i as int)) =~= be_bytes(values@.take(i - 1)).push(
            hi_byte(values@[i - 1]),
        ).push(lo_byte(values@[i - 1])));
    }
    assert(values@.take(n as int) =~= values@);
    let ghost body = frame@;
    let crc = checksum(frame.as_slice());
    frame.push(lo_of(crc));
    frame.push(hi_of(crc));
    assert(frame@ =~= body + crc_bytes(modbus_crc(body)));
    frame
}

/// A response built for up to 127 register values passes every check, and
/// parsing it gives back exactly those values, in address order.
pub proof fn lemma_response_round_trip(slave_address: u8, values: Seq<u16>)
    requires
        values.len() <= 127,
    ensures
        frame_fault(response_frame(slave_address, values)) is None,
        frame_registers(response_frame(slave_address, values)) == values,
{
    let n = values.len();
    let body = seq![slave_address, FUNC_READ, (2 * n) as u8] + be_bytes(values);
    let f = response_frame(slave_address, values);
    lemma_crc_append_valid(body);
    assert(f[2] == 2 * n);
    let regs = frame_registers(f);
    assert forall|i: int| 0 <= i < n implies regs[i] == values[i] by {
        assert(f[3 + 2 * i] == be_bytes(values)[2 * i]);
        assert(f[4 + 2 * i] == be_bytes(values)[2 * i + 1]);
    }
    assert(regs =~= values);
}

/// What parsing a complete frame reports, as a reassembler outcome.
pub open spec fn parse_outcome(frame: Seq<u8>) -> FeedOutcome {
    match frame_fault(frame) {
        Some(f) => FeedOutcome::Fault(f),
        None => FeedOutcome::Frame(frame_registers(frame)),
    }
}

/// A frame whose length is the one its byte-count field declares.
pub open spec fn whole_frame(frame: Seq<u8>) -> bool {
    frame.len() >= 5 && frame.len() == frame[2] + 5
}

/// Feeding `a` and then `b` is feeding `a + b`.
pub proof fn lemma_feed_all_append(buf: Seq<u8>, a: Seq<u8>, b: Seq<u8>)
    requires
        b.len() > 0,
    ensures
        feed_all(buf, a + b) == feed_all(feed_all(buf, a).0, b),
    decreases b.len(),
{
    assert((a + b).drop_last() =~= a + b.drop_last());
    assert((a + b).last() == b.last());
    if b.len() == 1 {
        assert(a + b.drop_last() =~= a);
        assert(b.drop_last() =~= Seq::<u8>::empty());
        let x = feed_all(buf, a).0;
        assert(feed_all(x, b.drop_last()) == (x, FeedOutcome::Pending));
    } else {
        lemma_feed_all_append(buf, a, b.drop_last());
    }
}

/// Fed byte by byte from an empty buffer, a whole frame stays pending until
/// its last byte, which yields what parsing the frame in one piece yields and
/// leaves the buffer empty.
pub proof fn lemma_feed_bytewise(frame: Seq<u8>)
    requires
        whole_frame(frame),
    ensures
        forall|k: int|
            0 <= k < frame.len() ==> #[trigger] feed_all(Seq::empty(), frame.take(k)) == (
            frame.take(k),
            FeedOutcome::Pending,
        ),
        feed_all(Seq::empty(), frame) == (Seq::<u8>::empty(), parse_outcome(frame)),
{
    assert forall|k: int| 0 <= k <= frame.len() implies #[trigger] feed_all(
        Seq::empty(),
        frame.take(k),
    ) == (if k < frame.len() {
        (frame.take(k), FeedOutcome::Pending)
    } else {
        (Seq::<u8>::empty(), parse_outcome(frame))
    }) by {
        lemma_feed_prefix(frame, k);
    }
    assert(frame.take(frame.len() as int) =~= frame);
}

proof fn lemma_feed_prefix(frame: Seq<u8>, k: int)
    requires
        whole_frame(frame),
        0 <= k <= frame.len(),
    ensures
        feed_all(Seq::empty(), frame.take(k)) == (if k < frame.len() {
            (frame.take(k), FeedOutcome::Pending)
        } else {
            (Seq::<u8>::empty(), parse_outcome(frame))
        }),
    decreases k,
{
    if k == 0 {
        assert(frame.take(0) =~= Seq::<u8>::empty());
    } else {
        lemma_feed_prefix(frame, k - 1);
        assert(frame.take(k).drop_last() =~= frame.take(k - 1));
        assert(frame.take(k - 1).push(frame[k - 1]) =~= frame.take(k));
        if k == frame.len() {
            assert(frame.take(k) =~= frame);
        }
    }
}

/// After any whole frame, valid or garbled, a valid frame fed byte by byte is
/// decoded: a rejected frame leaves nothing behind in the buffer.
pub proof fn lemma_resynchronizes(garbled: Seq<u8>, slave_address: u8, values: Seq<u16>)
    requires
        whole_frame(garbled),
        values.len() <= 127,
    ensures
        feed_all(Seq::empty(), garbled + response_frame(slave_address, values)) == (
            Seq::<u8>::empty(),
            FeedOutcome::Frame(values),
        ),
{
    let f = response_frame(slave_address, values);
    lemma_response_round_trip(slave_address, values);
    lemma_feed_bytewise(garbled);
    lemma_feed_bytewise(f);
    lemma_feed_all_append(Seq::empty(), garbled, f);
}

} // verus!
