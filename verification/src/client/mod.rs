//! The host flashing tool's decisions: how transfers are cut into requests, what the NOR
//! erase window of a file is, how NVMe payloads are padded, and how the tool recognises
//! the board's boot stages on USB.
pub mod rpc;
pub mod usb;
pub mod args;
