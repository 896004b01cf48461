//! The TWSI8 I2C master: register layout and the write and reset sequences.
pub mod register;
pub mod operate;
