//! Reading the LSM303DLHC magnetometer over I2C, and decoding its output bytes.
use vstd::prelude::*;

verus! {

/// Signed value of a 16-bit two's complement word.
pub open spec fn signed16(word: int) -> int {
    if word < 0x8000 { word } else { word - 0x10000 }
}

/// Value of one magnetometer axis from its high and low register bytes.
pub open spec fn axis_value(high: u8, low: u8) -> int {
    signed16(high * 256 + low)
}

/// Joins the high and low register bytes of one axis into a signed reading.
pub fn join_axis(high: u8, low: u8) -> (value: i16)
    ensures
        value == axis_value(high, low),
{
    let h = high as u16;
    let l = low as u16;
    assert(((h << 8u16) + l) as int == h * 256 + l) by (bit_vector)
        requires h < 256, l < 256;
    let word: u16 = (h << 8u16) + l;
    let value = word as i16;
    assert(value as int == if word < 0x8000 { word as int } else { word as int - 0x10000 }) by (bit_vector)
        requires value == word as i16;
    value
}

} // verus!

verus! {

/// I2C address of the magnetometer of the LSM303DLHC.
pub const MAGNETOMETER: u8 = 0b001_1110;

/// Register of the magnetometer that holds the high byte of the X axis,
/// the first of the six output registers.
pub const OUT_X_H_M: u8 = 0x03;

/// Register of the magnetometer that configures its data rate.
pub const IRA_REG_M: u8 = 0x0A;

/// Number of output bytes of the magnetometer: high and low byte of X, Z, Y.
pub const READING_BYTES: u8 = 6;

/// A register operation of the I2C1 controller.
#[derive(Clone, Copy, Debug, PartialEq, Eq, Structural)]
pub enum I2cOp {
    /// Write CR2: generate START towards `address`, for a read or a
    /// write of `nbytes` bytes, with or without automatic STOP.
    Start { address: u8, read: bool, nbytes: u8, autoend: bool },
    /// Modify CR2, keeping the address: generate a repeated START for a
    /// read or a write of `nbytes` bytes, with or without automatic STOP.
    Restart { read: bool, nbytes: u8, autoend: bool },
    /// Wait until the transmit register is ready (TXIS).
    WaitTransmitReady,
    /// Write a byte to the transmit data register (TXDR).
    Transmit(u8),
    /// Wait until the transfer is complete (TC).
    WaitTransferComplete,
    /// Wait until a byte was received (RXNE).
    WaitReceived,
    /// Read the receive data register (RXDR) into the next byte of the reading.
    Receive,
}

/// Waiting for, then reading, each of `n` received bytes.
pub open spec fn receive_ops(n: nat) -> Seq<I2cOp> {
    Seq::new(2 * n, |i: int| if i % 2 == 0 { I2cOp::WaitReceived } else { I2cOp::Receive })
}

/// The transaction that reads the six output registers: write the
/// address of the first one, then restart and read six bytes.
pub open spec fn reading_ops() -> Seq<I2cOp> {
    seq![
        I2cOp::Start { address: MAGNETOMETER, read: false, nbytes: 1, autoend: false },
        I2cOp::WaitTransmitReady,
        I2cOp::Transmit(OUT_X_H_M),
        I2cOp::WaitTransferComplete,
        I2cOp::Restart { read: true, nbytes: READING_BYTES, autoend: true },
    ] + receive_ops(READING_BYTES as nat)
}

/// The I2C operations that read one magnetometer sample, in order.
pub fn read_reading_ops() -> (ops: Vec<I2cOp>)
    ensures
        ops@ == reading_ops(),
        ops@.len() == 17,
        ops@[0] == (I2cOp::Start { address: 0x1e, read: false, nbytes: 1, autoend: false }),
        ops@[1] == I2cOp::WaitTransmitReady,
        ops@[2] == I2cOp::Transmit(0x03),
        ops@[3] == I2cOp::WaitTransferComplete,
        ops@[4] == (I2cOp::Restart { read: true, nbytes: 6, autoend: true }),
        forall|i: int|
            5 <= i < 17 ==> #[trigger] ops@[i] == if (i - 5) % 2 == 0 {
                I2cOp::WaitReceived
            } else {
                I2cOp::Receive
            },
{
    let mut ops = Vec::new();
    ops.push(I2cOp::Start { address: MAGNETOMETER, read: false, nbytes: 1, autoend: false });
    ops.push(I2cOp::WaitTransmitReady);
    ops.push(I2cOp::Transmit(OUT_X_H_M));
    ops.push(I2cOp::WaitTransferComplete);
    ops.push(I2cOp::Restart { read: true, nbytes: READING_BYTES, autoend: true });
    let ghost head = ops@;
    let mut k: u8 = 0;
    while k < READING_BYTES
        invariant
            k <= READING_BYTES,
            head.len() == 5,
            ops@ == head + receive_ops(k as nat),
        decreases READING_BYTES - k,
    {
        ops.push(I2cOp::WaitReceived);
        ops.push(I2cOp::Receive);
        assert(ops@ =~= head + receive_ops((k + 1) as nat));
        k = k + 1;
    }
    assert(ops@ =~= reading_ops());
    ops
}

/// One sample of the magnetometer, one signed value per axis.
#[derive(Clone, Copy, Debug, PartialEq, Eq, Structural)]
pub struct Reading {
    pub x: i16,
    pub y: i16,
    pub z: i16,
}

/// Decodes the six output bytes, in register order: X high, X low,
/// Z high, Z low, Y high, Y low.
pub fn decode_reading(buffer: &[u8; 6]) -> (r: Reading)
    ensures
        r.x == axis_value(buffer@[0], buffer@[1]),
        r.z == axis_value(buffer@[2], buffer@[3]),
        r.y == axis_value(buffer@[4], buffer@[5]),
{
    let x = join_axis(buffer[0], buffer[1]);
    let z = join_axis(buffer[2], buffer[3]);
    let y = join_axis(buffer[4], buffer[5]);
    Reading { x, y, z }
}

/// High byte of a signed axis value, as the sensor holds it.
pub open spec fn high_byte(v: i16) -> u8 {
    ((v as u16) >> 8u16) as u8
}

/// Low byte of a signed axis value, as the sensor holds it.
pub open spec fn low_byte(v: i16) -> u8 {
    (v as u16) as u8
}

/// The six output bytes hold X, then Z, then Y, each high byte first:
/// decoding the registers of any sample gives that sample back.
pub proof fn lemma_decode_register_layout(x: i16, y: i16, z: i16, buffer: [u8; 6])
    requires
        buffer@ == seq![high_byte(x), low_byte(x), high_byte(z), low_byte(z), high_byte(y), low_byte(y)],
    ensures
        forall|r: Reading|
            r.x == axis_value(buffer@[0], buffer@[1]) && r.z == axis_value(buffer@[2], buffer@[3])
                && r.y == axis_value(buffer@[4], buffer@[5]) ==> r == (Reading { x, y, z }),
{
    lemma_axis_bytes_round_trip(x);
    lemma_axis_bytes_round_trip(y);
    lemma_axis_bytes_round_trip(z);
}

/// Every signed axis value has its register bytes: the high and low
/// byte of its two's complement word join back into it.
pub proof fn lemma_axis_bytes_round_trip(v: i16)
    ensures
        axis_value(((v as u16) >> 8u16) as u8, (v as u16) as u8) == v,
{
    let w = v as u16;
    let h = (w >> 8u16) as u8;
    let l = w as u8;
    assert(h * 256 + l == w as int) by (bit_vector)
        requires h == (w >> 8u16) as u8, l == w as u8;
    assert((if (w as int) < 0x8000 { w as int } else { w as int - 0x10000 }) == v as int) by (bit_vector)
        requires w == v as u16;
}

/// The transaction reads as many bytes as the restart announces, and as
/// the reading is made of.
pub proof fn lemma_reading_reads_announced_bytes()
    ensures
        reading_ops()[4] == (I2cOp::Restart { read: true, nbytes: READING_BYTES, autoend: true }),
        reading_ops().filter(|op: I2cOp| op == I2cOp::Receive).len() == READING_BYTES,
{
    let ops = reading_ops();
    let f = |op: I2cOp| op == I2cOp::Receive;
    reveal_with_fuel(Seq::<_>::filter, 18);
    assert(ops.filter(f) =~= seq![I2cOp::Receive, I2cOp::Receive, I2cOp::Receive, I2cOp::Receive, I2cOp::Receive, I2cOp::Receive]);
}

} // verus!
