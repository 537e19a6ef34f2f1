//! Storage core of a small kernel: an AHCI port engine that plans and
//! schedules DMA reads, and a read-only ext2 reader that works over any
//! block device.
use vstd::prelude::*;

pub mod bytes;
pub mod block;
pub mod ondisk;
pub mod ext2;
pub mod dma;
pub mod hba;
pub mod port;
