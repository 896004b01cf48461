//! TWSI8 register block at 0xD401_D800.
use vstd::prelude::*;

verus! {

/// Base of the TWSI8 register block.
pub const I2C_BASE: u32 = 0xD401_D800;
/// Control register.
pub const I2C_CONTROL: u32 = 0xD401_D800;
/// Status register.
pub const I2C_STATUS: u32 = 0xD401_D804;
/// Own slave address.
pub const I2C_SLAVE_ADDRESS: u32 = 0xD401_D808;
/// Data buffer (next byte to send).
pub const I2C_DATA_BUFFER: u32 = 0xD401_D80C;

/// Control: enable bus-error interrupts.
pub const CR_BUS_ERROR_INTS_ENABLE: u32 = 1 << 22;
/// Control: ignore general-call addresses.
pub const CR_GENERAL_CALL_DISABLE: u32 = 1 << 21;
/// Control: enable the RX interrupt.
pub const CR_RX_INTERRUPT_ENABLE: u32 = 1 << 20;
/// Control: enable the TX interrupt.
pub const CR_TX_INTERRUPT_ENABLE: u32 = 1 << 19;
/// Control: enable the arbitration-loss interrupt.
pub const CR_ARBITRATION_INTERRUPT_ENABLE: u32 = 1 << 18;
/// Control: unit enable.
pub const CR_ENABLE: u32 = 1 << 14;
/// Control: master clock enable.
pub const CR_MASTER_CLOCK_ENABLE: u32 = 1 << 13;
/// Control: soft reset.
pub const CR_RESET: u32 = 1 << 10;
/// Control: fast mode (field bits 9..8 = 0b01).
pub const CR_MODE_FAST: u32 = 1 << 8;
/// Control: start a one-byte transfer.
pub const CR_TRANSFER_BYTE: u32 = 1 << 3;
/// Control: NAK the current byte.
pub const CR_ACKNAK: u32 = 1 << 2;
/// Control: STOP after this byte.
pub const CR_STOP: u32 = 1 << 1;
/// Control: START before this byte.
pub const CR_START: u32 = 1;

/// Status: the TX buffer is empty.
pub const SR_TX_BUFFER_EMPTY: u32 = 1 << 19;
/// Status: the bus is busy.
pub const SR_BUS_BUSY: u32 = 1 << 16;
/// Status: the last byte was NAKed.
pub const SR_ACK_NAK_STATUS: u32 = 1 << 14;
/// Status: every sticky status bit (24, 23, 22, 21, 20, 19, 18, 16, 15, 14, 13).
pub const SR_ALL: u32 = 0x01FD_E000;

} // verus!
