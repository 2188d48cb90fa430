//! Block devices.

use crate::device::{Device, DeviceKey, DeviceType, TypedDevice};
use crate::error::{Error, Result};
use crate::subsys::ClassKset;
use crate::text::same_bytes;
use crate::types::ARef;
use vstd::prelude::*;
use vstd::utf8::encode_utf8;

verus! {

/// The limits of a request queue.
#[derive(Clone, Copy, Debug, PartialEq, Eq, Structural)]
pub struct QueueLimits {
    pub logical_block_size: u32,
    pub physical_block_size: u32,
}

/// A request queue.
pub struct RequestQueue {
    pub limits: QueueLimits,
}

/// The struct of a block device.
pub struct RawBlockDevice {
    pub bd_device: Device,
    pub bd_nr_sectors: u64,
    pub bd_queue: RequestQueue,
}

/// The type of block devices. `BD_DEVICE` is the offset of the device within the struct, in bytes.
pub struct BlockDeviceType<const BD_DEVICE: usize>;

impl<const BD_DEVICE: usize> DeviceType for BlockDeviceType<BD_DEVICE> {
    type RawType = RawBlockDevice;

    open spec fn offset() -> usize {
        BD_DEVICE
    }

    open spec fn embedded(raw: RawBlockDevice) -> Device {
        raw.bd_device
    }

    open spec fn with_embedded(raw: RawBlockDevice, device: Device) -> RawBlockDevice {
        RawBlockDevice { bd_device: device, ..raw }
    }

    /// A block device is one whose class is named `block`.
    open spec fn has_type(device: Device) -> bool {
        device.class@ == encode_utf8("block"@)
    }

    fn as_generic(device: usize) -> (r: usize) {
        device.wrapping_add(BD_DEVICE)
    }

    fn as_typed(device: usize) -> (r: usize) {
        device.wrapping_sub(BD_DEVICE)
    }

    fn is_type(device: &Device) -> (r: bool) {
        same_bytes(device.class.as_slice(), "block".as_bytes())
    }

    fn generic_ref(raw: &RawBlockDevice) -> (r: &Device) {
        &raw.bd_device
    }

    fn generic_mut(raw: &mut RawBlockDevice) -> (r: &mut Device) {
        &mut raw.bd_device
    }
}

/// A block device.
pub type BlockDevice<const BD_DEVICE: usize> = TypedDevice<BlockDeviceType<BD_DEVICE>>;

impl<const BD_DEVICE: usize> BlockDevice<BD_DEVICE> {
    /// Finds the block device that a lookup of a path leads to. `status` is what the lookup
    /// returned, and `device` the device number that it found if that is 0.
    pub fn from_path(classes: &mut Option<ClassKset>, status: i32, device: u32) -> (r: Result<
        ARef<Self>,
    >)
        ensures
            status != 0 ==> {
                &&& r == Err::<ARef<Self>, Error>(Error::of_errno(status))
                &&& *final(classes) == *old(classes)
            },
            status == 0 ==> Self::found(
                *old(classes),
                *final(classes),
                encode_utf8("block"@),
                DeviceKey::Devt(device),
                r,
            ),
    {
        if status != 0 {
            return Err(Error::from_errno(status));
        }
        Self::from_devt(classes, "block".as_bytes(), device)
    }

    /// The capacity in sectors.
    pub fn capacity_sectors(&self) -> (r: u64)
        ensures
            r == self.raw.bd_nr_sectors,
    {
        self.as_raw_ref().bd_nr_sectors
    }

    /// The size of a logical block in bytes.
    pub fn logical_block_size(&self) -> (r: u32)
        ensures
            r == self.raw.bd_queue.limits.logical_block_size,
    {
        self.as_raw_ref().bd_queue.limits.logical_block_size
    }

    /// The size of a physical block in bytes.
    pub fn physical_block_size(&self) -> (r: u32)
        ensures
            r == self.raw.bd_queue.limits.physical_block_size,
    {
        self.as_raw_ref().bd_queue.limits.physical_block_size
    }
}

} // verus!
