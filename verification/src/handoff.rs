//! OpenSBI-compatible `fw_dynamic_info` version 2.
use vstd::prelude::*;
use crate::layout::{kernel, spec_kernel};

verus! {

/// `OSBI` read as a little-endian word: `'O'`, `'S'`, `'B'`, `'I'`.
pub const FW_DYNAMIC_MAGIC: usize = 0x4942_534F;
/// `fw_dynamic_info` structure version.
pub const FW_DYNAMIC_VERSION: usize = 2;
/// Next-stage privilege: S-mode.
pub const FW_DYNAMIC_NEXT_MODE_S: usize = 1;
/// OpenSBI option flags (none).
pub const FW_DYNAMIC_OPTIONS: usize = 0;
/// Boot hart recorded in the handoff.
pub const FW_DYNAMIC_BOOT_HART: usize = 0;

/// The OpenSBI `fw_dynamic_info` passed to SBI in `a2`.
#[derive(Clone, Copy)]
pub struct FwDynamicInfo {
    /// `OSBI` magic.
    pub magic: usize,
    /// Structure version (2).
    pub version: usize,
    /// Next-stage entry (the kernel load address).
    pub next_addr: usize,
    /// Next-stage privilege (`1` = S-mode).
    pub next_mode: usize,
    /// OpenSBI option flags.
    pub options: usize,
    /// Preferred boot hart.
    pub boot_hart: usize,
}

impl FwDynamicInfo {
    /// The version-2 handoff whose next stage is the kernel's load address, entered in S-mode.
    pub fn new() -> (info: Self)
        ensures
            info.magic == FW_DYNAMIC_MAGIC,
            info.version == 2,
            info.next_addr == spec_kernel().load_base,
            info.next_mode == 1,
            info.options == 0,
            info.boot_hart == 0,
    {
        let k = kernel();
        FwDynamicInfo {
            magic: FW_DYNAMIC_MAGIC,
            version: FW_DYNAMIC_VERSION,
            next_addr: k.load_base as usize,
            next_mode: FW_DYNAMIC_NEXT_MODE_S,
            options: FW_DYNAMIC_OPTIONS,
            boot_hart: FW_DYNAMIC_BOOT_HART,
        }
    }
}

} // verus!
