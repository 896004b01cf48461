//! TWSI8 master sequences: a 7-bit write with START on the address byte and STOP on the
//! last data byte, and the soft reset into fast master mode.
use vstd::prelude::*;
use crate::mmio::RegOp;
use crate::soc::SocStep;
use crate::i2c::register::{
    CR_ACKNAK, CR_ARBITRATION_INTERRUPT_ENABLE, CR_BUS_ERROR_INTS_ENABLE, CR_ENABLE,
    CR_GENERAL_CALL_DISABLE, CR_MASTER_CLOCK_ENABLE, CR_MODE_FAST, CR_RESET, CR_RX_INTERRUPT_ENABLE,
    CR_START, CR_STOP, CR_TRANSFER_BYTE, CR_TX_INTERRUPT_ENABLE, I2C_CONTROL, I2C_DATA_BUFFER,
    I2C_SLAVE_ADDRESS, I2C_STATUS, SR_ACK_NAK_STATUS, SR_ALL, SR_BUS_BUSY, SR_TX_BUFFER_EMPTY,
};

verus! {

/// The sequence that sends byte `b` at position `index` of a transfer whose last index is
/// `last`: wait for the bus, load the byte, START on the first byte, STOP on the last one,
/// ACK and no arbitration interrupt, kick the transfer, then wait for TX empty (and clear
/// it) and for the ACK.
pub open spec fn byte_ops(index: int, b: u8, last: int) -> Seq<RegOp> {
    seq![
        RegOp::WaitUntil { addr: I2C_STATUS, mask: SR_BUS_BUSY, value: 0 },
        RegOp::Modify { addr: I2C_CONTROL, clear: CR_START | CR_STOP, set: 0 },
        RegOp::Write { addr: I2C_DATA_BUFFER, value: b as u32 },
    ] + (if index == 0 { seq![RegOp::Modify { addr: I2C_CONTROL, clear: CR_START, set: CR_START }] } else { Seq::empty() })
      + (if index == last { seq![RegOp::Modify { addr: I2C_CONTROL, clear: CR_STOP, set: CR_STOP }] } else { Seq::empty() })
      + seq![
        RegOp::Modify { addr: I2C_CONTROL, clear: CR_ACKNAK | CR_ARBITRATION_INTERRUPT_ENABLE, set: 0 },
        RegOp::Modify { addr: I2C_CONTROL, clear: CR_TRANSFER_BYTE, set: CR_TRANSFER_BYTE },
        RegOp::WaitUntil { addr: I2C_STATUS, mask: SR_TX_BUFFER_EMPTY, value: SR_TX_BUFFER_EMPTY },
        RegOp::Modify { addr: I2C_STATUS, clear: SR_TX_BUFFER_EMPTY, set: SR_TX_BUFFER_EMPTY },
        RegOp::WaitUntil { addr: I2C_STATUS, mask: SR_ACK_NAK_STATUS, value: 0 },
    ]
}

/// The bytes on the wire for a write to 7-bit address `addr`: the address shifted left with
/// the write bit (0), then the data.
pub open spec fn wire_bytes(addr: u8, data: Seq<u8>) -> Seq<u8> {
    seq![((addr as int * 2) % 256) as u8] + data
}

/// The sequences of the first `n` bytes of `bytes`, whose last index is `last`.
pub open spec fn bytes_ops(bytes: Seq<u8>, n: int, last: int) -> Seq<RegOp>
    decreases n,
{
    if n <= 0 {
        Seq::empty()
    } else {
        bytes_ops(bytes, n - 1, last) + byte_ops(n - 1, bytes[n - 1], last)
    }
}

/// The whole master write of `data` to `addr`.
pub open spec fn spec_write_ops(addr: u8, data: Seq<u8>) -> Seq<RegOp> {
    bytes_ops(wire_bytes(addr, data), data.len() + 1int, data.len() as int)
}

fn send_byte(plan: &mut Vec<RegOp>, index: usize, b: u8, last: usize)
    ensures
        final(plan)@ == old(plan)@ + byte_ops(index as int, b, last as int),
{
    let ghost start = plan@;
    plan.push(RegOp::WaitUntil { addr: I2C_STATUS, mask: SR_BUS_BUSY, value: 0 });
    plan.push(RegOp::Modify { addr: I2C_CONTROL, clear: CR_START | CR_STOP, set: 0 });
    plan.push(RegOp::Write { addr: I2C_DATA_BUFFER, value: b as u32 });
    if index == 0 {
        plan.push(RegOp::Modify { addr: I2C_CONTROL, clear: CR_START, set: CR_START });
    }
    if index == last {
        plan.push(RegOp::Modify { addr: I2C_CONTROL, clear: CR_STOP, set: CR_STOP });
    }
    plan.push(RegOp::Modify { addr: I2C_CONTROL, clear: CR_ACKNAK | CR_ARBITRATION_INTERRUPT_ENABLE, set: 0 });
    plan.push(RegOp::Modify { addr: I2C_CONTROL, clear: CR_TRANSFER_BYTE, set: CR_TRANSFER_BYTE });
    plan.push(RegOp::WaitUntil { addr: I2C_STATUS, mask: SR_TX_BUFFER_EMPTY, value: SR_TX_BUFFER_EMPTY });
    plan.push(RegOp::Modify { addr: I2C_STATUS, clear: SR_TX_BUFFER_EMPTY, set: SR_TX_BUFFER_EMPTY });
    plan.push(RegOp::WaitUntil { addr: I2C_STATUS, mask: SR_ACK_NAK_STATUS, value: 0 });
    assert(plan@ =~= start + byte_ops(index as int, b, last as int));
}

/// Master write of `data` to the 7-bit address `addr`.
pub fn write(plan: &mut Vec<RegOp>, addr: u8, data: &[u8])
    requires
        data.len() < usize::MAX,
    ensures
        final(plan)@ == old(plan)@ + spec_write_ops(addr, data@),
{
    let ghost start = plan@;
    let ghost bytes = wire_bytes(addr, data@);
    let first: u8 = addr << 1u8;
    assert((addr << 1u8) == ((addr as int * 2) % 256) as u8) by (bit_vector);
    send_byte(plan, 0, first, data.len());
    assert(bytes[0] == first);
    assert(bytes_ops(bytes, 0, data.len() as int) =~= Seq::<RegOp>::empty());
    assert(bytes_ops(bytes, 1, data.len() as int) =~= byte_ops(0, first, data.len() as int));
    assert(plan@ =~= start + bytes_ops(bytes, 1, data.len() as int));
    let mut i: usize = 0;
    while i < data.len()
        invariant
            i <= data.len(),
            data.len() < usize::MAX,
            bytes == wire_bytes(addr, data@),
            plan@ == start + bytes_ops(bytes, i + 1, data.len() as int),
        decreases data.len() - i,
    {
        let b = data[i];
        assert(bytes[i + 1] == b);
        send_byte(plan, i + 1, b, data.len());
        i = i + 1;
        assert(plan@ =~= start + bytes_ops(bytes, i + 1, data.len() as int));
    }
}

/// The soft reset: disable, pulse reset (100 µs), disable, clear the own address, fast
/// master mode with bus-error, RX and TX interrupts and general call ignored, clear every
/// status bit, enable, and wait 2 µs.
pub open spec fn spec_reset_ops() -> Seq<RegOp> {
    seq![
        RegOp::Modify { addr: I2C_CONTROL, clear: CR_ENABLE, set: 0 },
        RegOp::Modify { addr: I2C_CONTROL, clear: CR_RESET, set: CR_RESET },
        RegOp::Sleep { micros: 100 },
        RegOp::Modify { addr: I2C_CONTROL, clear: CR_ENABLE, set: 0 },
        RegOp::Write { addr: I2C_SLAVE_ADDRESS, value: 0 },
        RegOp::Write { addr: I2C_CONTROL, value: 0x0078_2100u32 },
        RegOp::Write { addr: I2C_STATUS, value: SR_ALL },
        RegOp::Modify { addr: I2C_CONTROL, clear: CR_ENABLE, set: CR_ENABLE },
        RegOp::Sleep { micros: 2 },
    ]
}

/// Soft-reset the unit into fast master mode with status cleared.
pub fn reset(plan: &mut Vec<RegOp>)
    ensures
        final(plan)@ == old(plan)@ + spec_reset_ops(),
{
    let ghost start = plan@;
    let control = CR_MODE_FAST | CR_BUS_ERROR_INTS_ENABLE | CR_RX_INTERRUPT_ENABLE | CR_TX_INTERRUPT_ENABLE
        | CR_GENERAL_CALL_DISABLE | CR_MASTER_CLOCK_ENABLE;
    proof { crate::bits::shift_constants(); }
    plan.push(RegOp::Modify { addr: I2C_CONTROL, clear: CR_ENABLE, set: 0 });
    plan.push(RegOp::Modify { addr: I2C_CONTROL, clear: CR_RESET, set: CR_RESET });
    plan.push(RegOp::Sleep { micros: 100 });
    plan.push(RegOp::Modify { addr: I2C_CONTROL, clear: CR_ENABLE, set: 0 });
    plan.push(RegOp::Write { addr: I2C_SLAVE_ADDRESS, value: 0 });
    plan.push(RegOp::Write { addr: I2C_CONTROL, value: control });
    plan.push(RegOp::Write { addr: I2C_STATUS, value: SR_ALL });
    plan.push(RegOp::Modify { addr: I2C_CONTROL, clear: CR_ENABLE, set: CR_ENABLE });
    plan.push(RegOp::Sleep { micros: 2 });
    assert(plan@ =~= start + spec_reset_ops());
}

/// The unit's clocks and pins: the 204.8 MHz clock, PLL1 divide-by-5, GPIO 118 and 119 to
/// I2C, then TWSI8 reset, reset with clocks on, clocks on out of reset, and 10 µs.
pub open spec fn spec_init_ops() -> Seq<RegOp> {
    seq![
        RegOp::Soc(SocStep::Clock204p8Enable),
        RegOp::Soc(SocStep::Pll1Div5Enable),
        RegOp::Soc(SocStep::PinmuxI2c(118)),
        RegOp::Soc(SocStep::PinmuxI2c(119)),
        RegOp::Soc(SocStep::Twsi8Reset),
        RegOp::Soc(SocStep::Twsi8ResetClocksOn),
        RegOp::Soc(SocStep::Twsi8ClocksOn),
        RegOp::Sleep { micros: 10 },
    ]
}

/// Clock, pin and reset set-up of TWSI8.
pub fn init(plan: &mut Vec<RegOp>)
    ensures
        final(plan)@ == old(plan)@ + spec_init_ops(),
{
    plan.push(RegOp::Soc(SocStep::Clock204p8Enable));
    plan.push(RegOp::Soc(SocStep::Pll1Div5Enable));
    plan.push(RegOp::Soc(SocStep::PinmuxI2c(118)));
    plan.push(RegOp::Soc(SocStep::PinmuxI2c(119)));
    plan.push(RegOp::Soc(SocStep::Twsi8Reset));
    plan.push(RegOp::Soc(SocStep::Twsi8ResetClocksOn));
    plan.push(RegOp::Soc(SocStep::Twsi8ClocksOn));
    plan.push(RegOp::Sleep { micros: 10 });
    assert(plan@ =~= old(plan)@ + spec_init_ops());
}

} // verus!
