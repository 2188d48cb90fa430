//! The block layer.

use vstd::prelude::*;

pub mod bio;
pub mod device;
pub mod mq;

verus! {

/// The base-two logarithm of the number of bytes in a sector.
pub const SECTOR_SHIFT: u32 = 9;

/// The base-two logarithm of the number of sectors in a page.
pub const PAGE_SECTORS_SHIFT: u32 = 3;

/// Selects the bits of a sector number that give its place within a page.
pub const SECTOR_MASK: u32 = 7;

/// The number of bytes in a sector.
pub const SECTOR_SIZE: usize = 512;

} // verus!
