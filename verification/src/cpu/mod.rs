//! CPU bring-up of the two X60 clusters: cache and performance CSRs, cache maintenance over
//! DMA buffers, the core voltage, and the handover to the secondary harts.
pub mod csr;
pub mod cache;
pub mod perf;
pub mod voltage;
pub mod freq;
pub mod multicore;
