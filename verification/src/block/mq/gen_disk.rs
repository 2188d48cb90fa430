//! Generic disks.

use super::tag_set::TagSet;
use super::Operations;
use crate::block::SECTOR_SIZE;
use crate::error::{Error, Result, EINVAL};
use crate::grants::Grants;
use crate::page::PAGE_SIZE;
use vstd::prelude::*;

verus! {

/// A block size can be used: it is a power of two, at least a sector and at most a page.
pub open spec fn valid_block_size(size: int) -> bool {
    size == 512 || size == 1024 || size == 2048 || size == 4096
}

/// A disk.
pub struct GenDisk<T: Operations> {
    pub name: Vec<u8>,
    pub rotational: bool,
    pub logical_block_size: u32,
    pub physical_block_size: u32,
    pub capacity_sectors: u64,
    pub tagset: TagSet,
    pub queue_data: T::QueueData,
}

/// Builds a [`GenDisk`].
#[derive(Clone, Copy, Debug, PartialEq, Eq, Structural)]
pub struct GenDiskBuilder {
    pub rotational: bool,
    pub logical_block_size: u32,
    pub physical_block_size: u32,
    pub capacity_sectors: u64,
}

impl GenDiskBuilder {
    /// A builder for a disk without capacity, with blocks of one sector.
    pub fn new() -> (r: GenDiskBuilder)
        ensures
            r == (GenDiskBuilder {
                rotational: false,
                logical_block_size: SECTOR_SIZE as u32,
                physical_block_size: SECTOR_SIZE as u32,
                capacity_sectors: 0,
            }),
    {
        GenDiskBuilder {
            rotational: false,
            logical_block_size: SECTOR_SIZE as u32,
            physical_block_size: SECTOR_SIZE as u32,
            capacity_sectors: 0,
        }
    }

    /// Says whether the disk rotates.
    pub fn rotational(self, rotational: bool) -> (r: GenDiskBuilder)
        ensures
            r == (GenDiskBuilder { rotational, ..self }),
    {
        let mut this = self;
        this.rotational = rotational;
        this
    }

    /// Checks that a block size can be used: a power of two, at least a sector and at most a page.
    pub fn validate_block_size(size: u32) -> (r: Result<()>)
        ensures
            r == (if valid_block_size(size as int) {
                Ok::<(), Error>(())
            } else {
                Err::<(), Error>(Error(EINVAL))
            }),
    {
        assert(512 <= size <= 4096 && size & ((size - 1) as u32) == 0 <==> size == 512 || size == 1024
            || size == 2048 || size == 4096) by (bit_vector);
        if size < SECTOR_SIZE as u32 || size > PAGE_SIZE as u32 || size & (size - 1) != 0 {
            Err(Error(EINVAL))
        } else {
            Ok(())
        }
    }

    /// Sets the logical block size.
    pub fn logical_block_size(self, block_size: u32) -> (r: Result<GenDiskBuilder>)
        ensures
            r == (if valid_block_size(block_size as int) {
                Ok::<GenDiskBuilder, Error>(
                    GenDiskBuilder { logical_block_size: block_size, ..self },
                )
            } else {
                Err::<GenDiskBuilder, Error>(Error(EINVAL))
            }),
    {
        match Self::validate_block_size(block_size) {
            Ok(()) => {
                let mut this = self;
                this.logical_block_size = block_size;
                Ok(this)
            },
            Err(e) => Err(e),
        }
    }

    /// Sets the physical block size.
    pub fn physical_block_size(self, block_size: u32) -> (r: Result<GenDiskBuilder>)
        ensures
            r == (if valid_block_size(block_size as int) {
                Ok::<GenDiskBuilder, Error>(
                    GenDiskBuilder { physical_block_size: block_size, ..self },
                )
            } else {
                Err::<GenDiskBuilder, Error>(Error(EINVAL))
            }),
    {
        match Self::validate_block_size(block_size) {
            Ok(()) => {
                let mut this = self;
                this.physical_block_size = block_size;
                Ok(this)
            },
            Err(e) => Err(e),
        }
    }

    /// Sets the capacity, in sectors.
    pub fn capacity_sectors(self, capacity: u64) -> (r: GenDiskBuilder)
        ensures
            r == (GenDiskBuilder { capacity_sectors: capacity, ..self }),
    {
        let mut this = self;
        this.capacity_sectors = capacity;
        this
    }

    /// Registers the disk.
    pub fn build<T: Operations>(
        self,
        name: Vec<u8>,
        tagset: TagSet,
        queue_data: T::QueueData,
        grants: &mut Grants,
    ) -> (r: Result<GenDisk<T>>)
        ensures
            final(grants).refusal == old(grants).refusal,
            old(grants).left == 0 ==> r == Err::<GenDisk<T>, Error>(old(grants).refusal)
                && final(grants).left == 0,
            old(grants).left > 0 ==> {
                &&& r == Ok::<GenDisk<T>, Error>(
                    GenDisk {
                        name,
                        rotational: self.rotational,
                        logical_block_size: self.logical_block_size,
                        physical_block_size: self.physical_block_size,
                        capacity_sectors: self.capacity_sectors,
                        tagset,
                        queue_data,
                    },
                )
                &&& final(grants).left == old(grants).left - 1
            },
    {
        match grants.take() {
            Ok(()) => Ok(
                GenDisk {
                    name,
                    rotational: self.rotational,
                    logical_block_size: self.logical_block_size,
                    physical_block_size: self.physical_block_size,
                    capacity_sectors: self.capacity_sectors,
                    tagset,
                    queue_data,
                },
            ),
            Err(e) => Err(e),
        }
    }
}

} // verus!
