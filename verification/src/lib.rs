//! Byte streams over block devices, and an SD card driver for SPI buses.
//!
//! - [`block_device_driver`] has the [`BlockDevice`] trait: storage that is read and
//!   written in whole blocks, with the contract that its users rely on.
//! - [`buf_stream`] has [`BufStream`], which reads and writes any bytes of a block device
//!   through a write-back cache of one block; [`buf_stream::laws`] has what holds of it
//!   over several calls.
//! - [`stream_slice`] has [`StreamSlice`], a window on a stream with a cursor of its own.
//! - [`sdspi`] has [`sdspi::SdSpi`], the SD protocol on an SPI bus: the driver says what
//!   goes over the bus, and takes what came back.
//! - [`ram_disk`] has a block device in memory.
//!
//! Nothing here waits or transfers: devices are called as plain functions, and the SD
//! driver and the stream slice leave the transfers to their caller.

pub mod block_device_driver;
pub mod buf_stream;
pub mod io;
pub mod ram_disk;
pub mod sdspi;
pub mod stream_slice;

pub use block_device_driver::BlockDevice;
pub use buf_stream::{BufStream, BufStreamError};
pub use stream_slice::{StreamSlice, StreamSliceError};
