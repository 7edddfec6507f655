//! A fixed-size-page store: the lowest layer of a disk-based key-value storage
//! engine. The library decides what each page operation reads or writes, and at
//! which byte offset of the backing file; the caller carries out the file I/O.

mod disk_manager;
mod error;

pub use disk_manager::{
    DiskManager, PageId, PageRead, PageWrite, PAGE_SIZE_BYTES,
};
pub use error::{Error, Result};
