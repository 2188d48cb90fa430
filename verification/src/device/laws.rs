//! What holds of devices, their numbers and names, and of searches for them.

use super::{device_number, has_device, is_place, same_name};
use super::{law_place_is_unique, Device, DeviceKey, DeviceType, LogRecord, TypedDevice};
use super::{KERN_ALERT, KERN_CRIT, KERN_DEBUG, KERN_EMERG, KERN_ERR, KERN_INFO, KERN_NOTICE};
use super::KERN_WARNING;
use crate::block::device::{BlockDeviceType, RawBlockDevice};
use crate::error::{Error, Result, EBUSY, EINVAL, EIO, ENODEV, ENOENT, ENOMEM};
use crate::subsys::{has_subsys, is_subsys, subsystems, ClassKset, SubsysPrivate};
use crate::types::{ARef, RefCounted};
use vstd::prelude::*;
use vstd::utf8::{encode_utf8, is_ascii_chars, is_ascii_chars_encode_utf8};

verus! {

/// The numbers of the error codes.
pub proof fn law_error_codes()
    ensures
        ENOENT == -2,
        EIO == -5,
        ENOMEM == -12,
        EBUSY == -16,
        ENODEV == -19,
        EINVAL == -22,
{
}

/// A return value from -4095 to -1 is the error itself, and any other is the one for an invalid
/// argument.
pub proof fn law_errno(errno: i32)
    ensures
        -4095 <= errno <= -1 ==> Error::of_errno(errno).0 == errno,
        errno < -4095 || 0 <= errno ==> Error::of_errno(errno).0 == -22,
{
}

/// The log levels, from the most to the least urgent.
pub proof fn law_log_levels()
    ensures
        KERN_EMERG == 0,
        KERN_ALERT == 1,
        KERN_CRIT == 2,
        KERN_ERR == 3,
        KERN_WARNING == 4,
        KERN_NOTICE == 5,
        KERN_INFO == 6,
        KERN_DEBUG == 7,
{
}

/// The record of a message has its level, its text and the address of its device.
pub proof fn law_log_record(record: LogRecord, device: Device, klevel: u8, message: Seq<u8>)
    requires
        record.is_from(device, klevel, message),
    ensures
        record.klevel == klevel,
        record.device == device.addr,
        record.message@ == message,
{
}

/// Two names are the same where they are equal, or where one is the other with a newline behind it, and
/// otherwise not.
pub proof fn law_same_name(a: Seq<u8>, b: Seq<u8>)
    ensures
        same_name(a, b) == same_name(b, a),
        a.len() == b.len() ==> (same_name(a, b) <==> a == b),
        a.len() + 1 == b.len() ==> (same_name(a, b) <==> b == a.push(10)),
        a.len() + 1 < b.len() ==> !same_name(a, b),
{
    if a.len() == b.len() && same_name(a, b) {
        assert(a.len() != b.push(10).len());
        assert(a.push(10).len() != b.len());
    }
    if a.len() + 1 == b.len() && same_name(a, b) {
        assert(a.len() != b.push(10).len());
    }
    if a.len() + 1 < b.len() {
        assert(a.len() != b.push(10).len());
        assert(a.push(10).len() != b.len());
    }
}

/// A device fits a number that is its own, and a name that is the same as its own.
pub proof fn law_key_fits(device: Device, devt: u32, name: &[u8])
    ensures
        DeviceKey::Devt(devt).fits(device) <==> device.devt == devt,
        DeviceKey::Name(name).fits(device) <==> same_name(device.name@, name@),
{
}

/// The low twenty bits of a device number are those of the minor number, and the bits above them are
/// those of the major number, with what the minor number has there.
pub proof fn law_device_number_bits(major: u32, minor: u32)
    ensures
        device_number(major, minor) % 0x10_0000 == minor % 0x10_0000,
        minor < 0x10_0000 ==> device_number(major, minor) / 0x10_0000 == major % 0x1000,
        device_number(major, minor) >> 20u32 == (major & 0xfff) | (minor >> 20u32),
{
    assert((major << 20u32 | minor) % 0x10_0000 == minor % 0x10_0000) by (bit_vector);
    assert(minor < 0x10_0000 ==> (major << 20u32 | minor) / 0x10_0000 == major % 0x1000)
        by (bit_vector);
    assert((major << 20u32 | minor) >> 20u32 == (major & 0xfff) | (minor >> 20u32))
        by (bit_vector);
}

/// The count of a device, of a subsystem or of a typed device can be changed by itself.
pub proof fn law_counts<T: DeviceType>(
    device: Device,
    sp: SubsysPrivate,
    typed: TypedDevice<T>,
    count: i32,
)
    ensures
        device.count() == device.refcount,
        ({
            let d = device.with_count(count);
            &&& d.refcount == count
            &&& (d.addr, d.class, d.devt, d.name, d.properties) == (
                device.addr,
                device.class,
                device.devt,
                device.name,
                device.properties,
            )
        }),
        sp.count() == sp.refcount,
        ({
            let s = sp.with_count(count);
            s.refcount == count && (s.addr, s.class, s.devices) == (sp.addr, sp.class, sp.devices)
        }),
        typed.count() == T::embedded(typed.raw).refcount,
        typed.with_count(count).ptr == typed.ptr,
        typed.with_count(count).raw == T::with_embedded(
            typed.raw,
            Device { refcount: count, ..T::embedded(typed.raw) },
        ),
{
}

/// All subsystems are those of the set of classes, if there is one.
pub proof fn law_subsystems(kset: ClassKset)
    ensures
        subsystems(Some(kset)) == kset.subsystems@,
        subsystems(None).len() == 0,
{
}

/// A place is the first that there is: the class is the first with its name, and the device the first
/// in it that fits.
pub proof fn law_place_is_first(
    classes: Option<ClassKset>,
    class: Seq<u8>,
    key: DeviceKey<'_>,
    i: int,
    j: int,
)
    ensures
        ({
            let all = subsystems(classes);
            is_place(classes, class, key, (i, j)) <==> {
                &&& 0 <= i < all.len()
                &&& all[i].class.name@ == class
                &&& forall|k: int| 0 <= k < i ==> (#[trigger] all[k]).class.name@ != class
                &&& 0 <= j < all[i].devices@.len()
                &&& key.fits(all[i].devices@[j])
                &&& forall|k: int| 0 <= k < j ==> !key.fits(#[trigger] all[i].devices@[k])
            }
        }),
        has_subsys(classes, class) <==> exists|k: int|
            0 <= k < subsystems(classes).len() && (#[trigger] subsystems(
                classes,
            )[k]).class.name@ == class,
{
    let all = subsystems(classes);
    if exists|k: int| 0 <= k < all.len() && (#[trigger] all[k]).class.name@ == class {
        let k = choose|k: int| 0 <= k < all.len() && (#[trigger] all[k]).class.name@ == class;
        lemma_first_subsys(all, class, k);
    }
    if has_subsys(classes, class) {
        let k = choose|k: int| is_subsys(all, class, k);
        assert(all[k].class.name@ == class);
    }
}

/// Where a class has a name, there is a first class that has it.
proof fn lemma_first_subsys(all: Seq<SubsysPrivate>, class: Seq<u8>, k: int)
    requires
        0 <= k < all.len(),
        all[k].class.name@ == class,
    ensures
        exists|i: int| is_subsys(all, class, i),
    decreases k,
{
    if is_subsys(all, class, k) {
    } else {
        let j = choose|j: int| 0 <= j < k && (#[trigger] all[j]).class.name@ == class;
        lemma_first_subsys(all, class, j);
    }
}

/// What a search leaves behind but for one device: all other classes and devices are as they were.
pub open spec fn only_changed(
    before: Option<ClassKset>,
    after: Option<ClassKset>,
    i: int,
    j: int,
    device: Device,
) -> bool {
    let a = subsystems(after);
    let b = subsystems(before);
    &&& a.len() == b.len()
    &&& forall|k: int| 0 <= k < b.len() && k != i ==> #[trigger] a[k] == b[k]
    &&& (a[i].addr, a[i].refcount, a[i].class) == (b[i].addr, b[i].refcount, b[i].class)
    &&& a[i].devices@.len() == b[i].devices@.len()
    &&& forall|k: int|
        0 <= k < b[i].devices@.len() && k != j ==> #[trigger] a[i].devices@[k] == b[i].devices@[k]
    &&& a[i].devices@[j] == device
}

/// A search that finds a device returns its address and adds two references to it, and changes nothing
/// else. One that finds none is an error, and changes nothing.
pub proof fn law_device_search(
    before: Option<ClassKset>,
    after: Option<ClassKset>,
    class: Seq<u8>,
    key: DeviceKey<'_>,
    r: Result<ARef<Device>>,
    i: int,
    j: int,
)
    requires
        Device::found(before, after, class, key, r),
    ensures
        !has_subsys(before, class) ==> r is Err && r->Err_0.0 == -2 && after == before,
        has_subsys(before, class) && !has_device(before, class, key) ==> r is Err && r->Err_0.0
            == -22 && subsystems(after) == subsystems(before),
        is_place(before, class, key, (i, j)) ==> {
            let device = subsystems(before)[i].devices@[j];
            &&& r is Ok && r->Ok_0.ptr == device.addr
            &&& device.refcount <= i32::MAX - 2 ==> only_changed(
                before,
                after,
                i,
                j,
                Device { refcount: (device.refcount + 2) as i32, ..device },
            )
        },
{
    if is_place(before, class, key, (i, j)) {
        let p = choose|place: (int, int)| is_place(before, class, key, place);
        law_place_is_unique(before, class, key, p, (i, j));
    }
}

/// A search for a typed device returns the address of the struct that embeds the device and adds two
/// references to the device. If the device is not of the type it is an error, and one reference is
/// added. If there is no device it is an error, and nothing changes.
pub proof fn law_typed_device_search<T: DeviceType>(
    before: Option<ClassKset>,
    after: Option<ClassKset>,
    class: Seq<u8>,
    key: DeviceKey<'_>,
    r: Result<ARef<TypedDevice<T>>>,
    i: int,
    j: int,
)
    requires
        TypedDevice::<T>::found(before, after, class, key, r),
    ensures
        !has_subsys(before, class) ==> r is Err && r->Err_0.0 == -2 && after == before,
        has_subsys(before, class) && !has_device(before, class, key) ==> r is Err && r->Err_0.0
            == -22 && subsystems(after) == subsystems(before),
        is_place(before, class, key, (i, j)) ==> {
            let device = subsystems(before)[i].devices@[j];
            let held = Device { refcount: (device.refcount + 2) as i32, ..device };
            &&& device.refcount <= i32::MAX - 2 && T::has_type(held) ==> {
                &&& r is Ok
                &&& T::offset() <= device.addr ==> r->Ok_0.ptr + T::offset() == device.addr
                &&& only_changed(before, after, i, j, held)
            }
            &&& device.refcount <= i32::MAX - 2 && !T::has_type(held) ==> {
                &&& r is Err && r->Err_0.0 == -22
                &&& only_changed(
                    before,
                    after,
                    i,
                    j,
                    Device { refcount: (device.refcount + 1) as i32, ..device },
                )
            }
        },
{
    if is_place(before, class, key, (i, j)) {
        let p = choose|place: (int, int)| is_place(before, class, key, place);
        law_place_is_unique(before, class, key, p, (i, j));
    }
}

/// A device is a block device exactly where its class has the name `block`. Its struct embeds it at the
/// offset that the type says.
pub proof fn law_block_device_type<const BD_DEVICE: usize>(
    device: Device,
    raw: RawBlockDevice,
)
    ensures
        BlockDeviceType::<BD_DEVICE>::has_type(device) <==> device.class@ == seq![
            98u8,
            108u8,
            111u8,
            99u8,
            107u8,
        ],
        encode_utf8("block"@) == seq![98u8, 108u8, 111u8, 99u8, 107u8],
        BlockDeviceType::<BD_DEVICE>::offset() == BD_DEVICE,
        BlockDeviceType::<BD_DEVICE>::embedded(raw) == raw.bd_device,
        ({
            let r = BlockDeviceType::<BD_DEVICE>::with_embedded(raw, device);
            &&& r.bd_device == device
            &&& r.bd_nr_sectors == raw.bd_nr_sectors
            &&& r.bd_queue == raw.bd_queue
        }),
{
    reveal_strlit("block");
    assert(is_ascii_chars("block"@));
    is_ascii_chars_encode_utf8("block"@);
    assert(encode_utf8("block"@) =~= seq![98u8, 108u8, 111u8, 99u8, 107u8]);
}

} // verus!
