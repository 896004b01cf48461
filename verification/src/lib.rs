//! Verified core of the SpacemiT K1 MUSE Book boot chain: the partition layout,
//! the GPT on-disk format, the NVMe and QSPI NOR command logic, the flashing
//! protocol and its framing, and the register values the loader programs.

pub mod layout;
pub mod handoff;
pub mod utf16;
pub mod gpt;
pub mod protocol;
pub mod nor;
pub mod nvme;
pub mod mmio;
pub mod ddr;
pub mod i2c;
pub mod cpu;
pub mod client;
pub mod usb;
pub mod wire;
pub mod soc;
pub mod log;
pub mod bits;
