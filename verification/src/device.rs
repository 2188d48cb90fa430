//! Generic devices that are part of the kernel's driver model.

use crate::error::{Error, Result, EINVAL, ENODEV, ENOENT};
use crate::subsys::{find_subsys, get_subsys_by_class_name, has_subsys, is_subsys, subsystems};
use crate::subsys::{ClassKset, SubsysPrivate};
use crate::text::same_bytes;
use crate::types::{ARef, RefCounted};
use vstd::prelude::*;
use vstd::slice::slice_to_vec;

pub mod laws;

verus! {

/// The number of bits of a device number that hold the minor number.
pub const MINORBITS: u32 = 20;

/// The system is unusable.
pub const KERN_EMERG: u8 = 0;

/// Action must be taken immediately.
pub const KERN_ALERT: u8 = 1;

/// Critical conditions.
pub const KERN_CRIT: u8 = 2;

/// Error conditions.
pub const KERN_ERR: u8 = 3;

/// Warning conditions.
pub const KERN_WARNING: u8 = 4;

/// Normal but significant conditions.
pub const KERN_NOTICE: u8 = 5;

/// Informational messages.
pub const KERN_INFO: u8 = 6;

/// Debug messages.
pub const KERN_DEBUG: u8 = 7;

/// A message for the console.
pub struct LogRecord {
    /// The log level.
    pub klevel: u8,
    /// The address of the device that the message is prefixed with.
    pub device: usize,
    /// The message.
    pub message: Vec<u8>,
}

impl LogRecord {
    /// This is the record of a message of a device at a level.
    pub open spec fn is_from(self, device: Device, klevel: u8, message: Seq<u8>) -> bool {
        self.klevel == klevel && self.device == device.addr && self.message@ == message
    }
}

/// A reference-counted device.
pub struct Device {
    /// The address of the device.
    pub addr: usize,
    /// The number of references to the device.
    pub refcount: i32,
    /// The name of the class of the device.
    pub class: Vec<u8>,
    /// The device number.
    pub devt: u32,
    /// The name of the device.
    pub name: Vec<u8>,
    /// The names of the properties of the device.
    pub properties: Vec<Vec<u8>>,
}

impl RefCounted for Device {
    open spec fn count(self) -> i32 {
        self.refcount
    }

    open spec fn with_count(self, count: i32) -> Device {
        Device { refcount: count, ..self }
    }

    fn inc_ref(&mut self) {
        self.refcount = self.refcount.wrapping_add(1);
    }

    fn dec_ref(&mut self) {
        self.refcount = self.refcount.wrapping_sub(1);
    }
}

/// What a device is looked for by.
#[derive(Clone, Copy)]
pub enum DeviceKey<'a> {
    /// Its number.
    Devt(u32),
    /// Its name.
    Name(&'a [u8]),
}

/// Two names are the same, but for a newline that one of them may end with.
pub open spec fn same_name(a: Seq<u8>, b: Seq<u8>) -> bool {
    a == b || a == b.push(10) || a.push(10) == b
}

/// Whether two names are the same, but for a newline that one of them may end with.
fn sysfs_streq(a: &[u8], b: &[u8]) -> (r: bool)
    ensures
        r == same_name(a@, b@),
{
    let mut long = slice_to_vec(a);
    long.push(10);
    if same_bytes(long.as_slice(), b) {
        return true;
    }
    let mut long = slice_to_vec(b);
    long.push(10);
    same_bytes(a, b) || same_bytes(a, long.as_slice())
}

impl<'a> DeviceKey<'a> {
    /// A device is one that is looked for.
    pub open spec fn fits(self, device: Device) -> bool {
        match self {
            DeviceKey::Devt(devt) => device.devt == devt,
            DeviceKey::Name(name) => same_name(device.name@, name@),
        }
    }

    /// Whether a device is one that is looked for.
    fn matches(self, device: &Device) -> (r: bool)
        ensures
            r == self.fits(*device),
    {
        match self {
            DeviceKey::Devt(devt) => device.devt == devt,
            DeviceKey::Name(name) => sysfs_streq(device.name.as_slice(), name),
        }
    }
}

/// `j` is the first device that fits.
pub open spec fn is_device(devices: Seq<Device>, key: DeviceKey<'_>, j: int) -> bool {
    &&& 0 <= j < devices.len()
    &&& key.fits(devices[j])
    &&& forall|k: int| 0 <= k < j ==> !key.fits(#[trigger] devices[k])
}

/// The place of the first device that fits in the class with this name: the number of the class and
/// the number of the device in it.
pub open spec fn is_place(
    classes: Option<ClassKset>,
    class: Seq<u8>,
    key: DeviceKey<'_>,
    place: (int, int),
) -> bool {
    &&& is_subsys(subsystems(classes), class, place.0)
    &&& is_device(subsystems(classes)[place.0].devices@, key, place.1)
}

/// There is a device that fits in the class with this name.
pub open spec fn has_device(
    classes: Option<ClassKset>,
    class: Seq<u8>,
    key: DeviceKey<'_>,
) -> bool {
    exists|place: (int, int)| is_place(classes, class, key, place)
}

/// The first device that fits in the class with this name.
pub open spec fn the_device(
    classes: Option<ClassKset>,
    class: Seq<u8>,
    key: DeviceKey<'_>,
) -> Device {
    let place = choose|place: (int, int)| is_place(classes, class, key, place);
    subsystems(classes)[place.0].devices@[place.1]
}

/// `after` is `before` with `device` in the place of the first device that fits in the class with
/// this name.
pub open spec fn replaced(
    before: Option<ClassKset>,
    after: Option<ClassKset>,
    class: Seq<u8>,
    key: DeviceKey<'_>,
    device: Device,
) -> bool {
    let (i, j) = choose|place: (int, int)| is_place(before, class, key, place);
    let sp = subsystems(before)[i];
    let devices = subsystems(after)[i].devices;
    &&& subsystems(after) == subsystems(before).update(i, SubsysPrivate { devices, ..sp })
    &&& devices@ == sp.devices@.update(j, device)
}

/// The device number with these parts.
pub open spec fn device_number(major: u32, minor: u32) -> u32 {
    major << MINORBITS | minor
}

/// The number of the first device of a class that fits.
fn class_find_device(devices: &Vec<Device>, key: DeviceKey<'_>) -> (r: Option<usize>)
    ensures
        r is None ==> forall|j: int| !is_device(devices@, key, j),
        r matches Some(j) ==> is_device(devices@, key, j as int),
{
    let mut j: usize = 0;
    while j < devices.len()
        invariant
            j <= devices@.len(),
            forall|k: int| 0 <= k < j ==> !key.fits(#[trigger] devices@[k]),
        decreases devices.len() - j,
    {
        if key.matches(&devices[j]) {
            return Some(j);
        }
        j = j + 1;
    }
    None
}

/// Finds the first device that fits in the class with this name, and takes a reference to it.
fn find_device<'a>(classes: &'a mut Option<ClassKset>, class: &[u8], key: DeviceKey<'_>) -> (r:
    Result<Option<&'a mut Device>>)
    ensures
        !has_subsys(*old(classes), class@) ==> {
            &&& r == Err::<Option<&'a mut Device>, Error>(Error(ENOENT))
            &&& *final(classes) == *old(classes)
        },
        has_subsys(*old(classes), class@) ==> r is Ok,
        r matches Ok(found) ==> {
            &&& found is Some <==> has_device(*old(classes), class@, key)
            &&& found is None ==> subsystems(*final(classes)) == subsystems(*old(classes))
        },
        r matches Ok(Some(device)) ==> {
            let before = the_device(*old(classes), class@, key);
            &&& *device == before.with_count(before.count().wrapping_add(1))
            &&& replaced(*old(classes), *final(classes), class@, key, *final(device))
        },
{
    match get_subsys_by_class_name(classes, class) {
        Ok(_) => {},
        Err(e) => {
            return Err(e);
        },
    }
    let ghost before = subsystems(*old(classes));
    proof {
        let i = choose|i: int| is_subsys(before, class@, i);
        assert(is_subsys(subsystems(*classes), class@, i));
    }
    match classes {
        None => Err(Error(ENOENT)),
        Some(kset) => match find_subsys(&kset.subsystems, class) {
            None => Err(Error(ENOENT)),
            Some(i) => {
                assert(is_subsys(before, class@, i as int));
                let sp = &mut kset.subsystems[i];
                let found = class_find_device(&sp.devices, key);
                sp.dec_ref();
                match found {
                    Some(j) => {
                        let device = &mut sp.devices[j];
                        device.inc_ref();
                        proof {
                            assert(is_place(*old(classes), class@, key, (i as int, j as int)));
                            let after = subsystems(*after_borrow(classes));
                            assert(after =~= before.update(
                                i as int,
                                SubsysPrivate {
                                    devices: after[i as int].devices,
                                    ..before[i as int]
                                },
                            ));
                        }
                        Ok(Some(device))
                    },
                    None => {
                        proof {
                            assert(subsystems(*after_borrow(classes)) =~= before);
                        }
                        Ok(None)
                    },
                }
            },
        },
    }
}

impl Device {
    /// Creates a new reference to a device.
    pub fn get_device(device: &mut Device) -> (r: ARef<Device>)
        ensures
            r.ptr == old(device).addr,
            *final(device) == old(device).with_count(old(device).count().wrapping_add(1)),
    {
        device.inc_ref();
        ARef::from_raw(device.as_raw())
    }

    /// What finding a device returns, and what it does to the classes. A device that is not there is
    /// invalid. The search takes a reference to the device, and the result another.
    pub open spec fn found(
        before: Option<ClassKset>,
        after: Option<ClassKset>,
        class: Seq<u8>,
        key: DeviceKey<'_>,
        r: Result<ARef<Device>>,
    ) -> bool {
        let device = the_device(before, class, key);
        if !has_subsys(before, class) {
            &&& r == Err::<ARef<Device>, Error>(Error(ENOENT))
            &&& after == before
        } else if !has_device(before, class, key) {
            &&& r == Err::<ARef<Device>, Error>(Error(EINVAL))
            &&& subsystems(after) == subsystems(before)
        } else {
            &&& r is Ok
            &&& r->Ok_0.ptr == device.addr
            &&& replaced(
                before,
                after,
                class,
                key,
                device.with_count(device.count().wrapping_add(2)),
            )
        }
    }

    /// Finds a device of the class with this name.
    fn find(classes: &mut Option<ClassKset>, class: &[u8], key: DeviceKey<'_>) -> (r: Result<
        ARef<Device>,
    >)
        ensures
            Device::found(*old(classes), *final(classes), class@, key, r),
    {
        match find_device(classes, class, key) {
            Ok(Some(device)) => Ok(Device::get_device(device)),
            Ok(None) => Err(Error(EINVAL)),
            Err(e) => Err(e),
        }
    }

    /// Finds the device of a class that has these numbers.
    pub fn from_major_minor(
        classes: &mut Option<ClassKset>,
        class: &[u8],
        major: u32,
        minor: u32,
    ) -> (r: Result<ARef<Device>>)
        ensures
            Device::found(
                *old(classes),
                *final(classes),
                class@,
                DeviceKey::Devt(device_number(major, minor)),
                r,
            ),
    {
        let device = major << MINORBITS | minor;
        Self::from_devt(classes, class, device)
    }

    /// Finds the device of a class that has this number.
    pub fn from_devt(
        classes: &mut Option<ClassKset>,
        class: &[u8],
        device: u32,
    ) -> (r: Result<ARef<Device>>)
        ensures
            Device::found(
                *old(classes),
                *final(classes),
                class@,
                DeviceKey::Devt(device),
                r,
            ),
    {
        Self::find(classes, class, DeviceKey::Devt(device))
    }

    /// Finds the device of a class that has this name.
    pub fn from_name(
        classes: &mut Option<ClassKset>,
        class: &[u8],
        name: &[u8],
    ) -> (r: Result<ARef<Device>>)
        ensures
            Device::found(
                *old(classes),
                *final(classes),
                class@,
                DeviceKey::Name(name),
                r,
            ),
    {
        Self::find(classes, class, DeviceKey::Name(name))
    }

    /// Obtain the address of the device.
    pub fn as_raw(&self) -> (r: usize)
        ensures
            r == self.addr,
    {
        self.addr
    }

    /// The record of an emergency-level message (level 0) prefixed with device information.
    pub fn pr_emerg(&self, args: &[u8]) -> (r: LogRecord)
        ensures
            r.is_from(*self, KERN_EMERG, args@),
    {
        self.printk(KERN_EMERG, args)
    }

    /// The record of an alert-level message (level 1) prefixed with device information.
    pub fn pr_alert(&self, args: &[u8]) -> (r: LogRecord)
        ensures
            r.is_from(*self, KERN_ALERT, args@),
    {
        self.printk(KERN_ALERT, args)
    }

    /// The record of a critical-level message (level 2) prefixed with device information.
    pub fn pr_crit(&self, args: &[u8]) -> (r: LogRecord)
        ensures
            r.is_from(*self, KERN_CRIT, args@),
    {
        self.printk(KERN_CRIT, args)
    }

    /// The record of an error-level message (level 3) prefixed with device information.
    pub fn pr_err(&self, args: &[u8]) -> (r: LogRecord)
        ensures
            r.is_from(*self, KERN_ERR, args@),
    {
        self.printk(KERN_ERR, args)
    }

    /// The record of a warning-level message (level 4) prefixed with device information.
    pub fn pr_warn(&self, args: &[u8]) -> (r: LogRecord)
        ensures
            r.is_from(*self, KERN_WARNING, args@),
    {
        self.printk(KERN_WARNING, args)
    }

    /// The record of a notice-level message (level 5) prefixed with device information.
    pub fn pr_notice(&self, args: &[u8]) -> (r: LogRecord)
        ensures
            r.is_from(*self, KERN_NOTICE, args@),
    {
        self.printk(KERN_NOTICE, args)
    }

    /// The record of an info-level message (level 6) prefixed with device information.
    pub fn pr_info(&self, args: &[u8]) -> (r: LogRecord)
        ensures
            r.is_from(*self, KERN_INFO, args@),
    {
        self.printk(KERN_INFO, args)
    }

    /// The record of a debug-level message (level 7) prefixed with device information. There is one
    /// only where debugging is on.
    pub fn pr_dbg(&self, args: &[u8], debug_assertions: bool) -> (r: Option<LogRecord>)
        ensures
            r is Some <==> debug_assertions,
            r matches Some(record) ==> record.is_from(*self, KERN_DEBUG, args@),
    {
        if debug_assertions {
            Some(self.printk(KERN_DEBUG, args))
        } else {
            None
        }
    }

    /// The record of the provided message.
    fn printk(&self, klevel: u8, msg: &[u8]) -> (r: LogRecord)
        ensures
            r.is_from(*self, klevel, msg@),
    {
        LogRecord { klevel, device: self.as_raw(), message: slice_to_vec(msg) }
    }

    /// Checks if property is present or not.
    pub fn property_present(&self, name: &[u8]) -> (r: bool)
        ensures
            r == exists|i: int|
                0 <= i < self.properties@.len() && #[trigger] self.properties@[i]@ == name@,
    {
        let mut i: usize = 0;
        while i < self.properties.len()
            invariant
                i <= self.properties@.len(),
                forall|j: int| 0 <= j < i ==> #[trigger] self.properties@[j]@ != name@,
            decreases self.properties.len() - i,
        {
            if same_bytes(self.properties[i].as_slice(), name) {
                assert(self.properties@[i as int]@ == name@);
                return true;
            }
            i = i + 1;
        }
        false
    }
}

/// A type of devices: a struct that embeds a [`Device`].
pub trait DeviceType: Sized {
    /// The struct.
    type RawType;

    /// Offset of the device within the struct, in bytes.
    spec fn offset() -> usize;

    /// The device within the struct.
    spec fn embedded(raw: Self::RawType) -> Device;

    /// The struct with another device in it.
    spec fn with_embedded(raw: Self::RawType, device: Device) -> Self::RawType;

    /// A device is one that is embedded in such a struct.
    spec fn has_type(device: Device) -> bool;

    /// The address of the device within the struct at address `device`.
    fn as_generic(device: usize) -> (r: usize)
        ensures
            r == device.wrapping_add(Self::offset()),
    ;

    /// The address of the struct that embeds the device at address `device`.
    fn as_typed(device: usize) -> (r: usize)
        ensures
            r == device.wrapping_sub(Self::offset()),
    ;

    /// Whether a device is one that is embedded in such a struct.
    fn is_type(device: &Device) -> (r: bool)
        ensures
            r == Self::has_type(*device),
    ;

    /// The device within the struct.
    fn generic_ref(raw: &Self::RawType) -> (r: &Device)
        ensures
            *r == Self::embedded(*raw),
    ;

    /// The device within the struct, to be changed.
    fn generic_mut(raw: &mut Self::RawType) -> (r: &mut Device)
        ensures
            *r == Self::embedded(*old(raw)),
            *final(raw) == Self::with_embedded(*old(raw), *final(r)),
    ;
}

/// A typed device.
pub struct TypedDevice<T: DeviceType> {
    /// The address of the struct.
    pub ptr: usize,
    /// The struct.
    pub raw: T::RawType,
}

impl<T: DeviceType> RefCounted for TypedDevice<T> {
    open spec fn count(self) -> i32 {
        T::embedded(self.raw).count()
    }

    open spec fn with_count(self, count: i32) -> TypedDevice<T> {
        TypedDevice {
            raw: T::with_embedded(self.raw, T::embedded(self.raw).with_count(count)),
            ..self
        }
    }

    fn inc_ref(&mut self) {
        let device = T::generic_mut(&mut self.raw);
        device.inc_ref();
    }

    fn dec_ref(&mut self) {
        let device = T::generic_mut(&mut self.raw);
        device.dec_ref();
    }
}

impl<T: DeviceType> TypedDevice<T> {
    /// What finding a typed device returns, and what it does to the classes. A device that is not
    /// there, or is not of the type, is invalid. The search takes a reference to the device, and the
    /// result another.
    pub open spec fn found(
        before: Option<ClassKset>,
        after: Option<ClassKset>,
        class: Seq<u8>,
        key: DeviceKey<'_>,
        r: Result<ARef<TypedDevice<T>>>,
    ) -> bool {
        let device = the_device(before, class, key);
        let held = device.with_count(device.count().wrapping_add(2));
        if !has_subsys(before, class) {
            &&& r == Err::<ARef<TypedDevice<T>>, Error>(Error(ENOENT))
            &&& after == before
        } else if !has_device(before, class, key) {
            &&& r == Err::<ARef<TypedDevice<T>>, Error>(Error(EINVAL))
            &&& subsystems(after) == subsystems(before)
        } else if !T::has_type(held) {
            &&& r == Err::<ARef<TypedDevice<T>>, Error>(Error(EINVAL))
            &&& replaced(
                before,
                after,
                class,
                key,
                device.with_count(device.count().wrapping_add(1)),
            )
        } else {
            &&& r is Ok
            &&& r->Ok_0.ptr == device.addr.wrapping_sub(T::offset())
            &&& replaced(before, after, class, key, held)
        }
    }

    /// Finds a device of the class with this name.
    fn find(classes: &mut Option<ClassKset>, class: &[u8], key: DeviceKey<'_>) -> (r: Result<
        ARef<TypedDevice<T>>,
    >)
        ensures
            Self::found(*old(classes), *final(classes), class@, key, r),
    {
        match find_device(classes, class, key) {
            Ok(Some(device)) => {
                let generic = Device::get_device(device);
                match Self::try_from(generic, device) {
                    Ok(typed) => Ok(typed),
                    Err(_) => {
                        device.dec_ref();
                        Err(Error(EINVAL))
                    },
                }
            },
            Ok(None) => Err(Error(EINVAL)),
            Err(e) => Err(e),
        }
    }

    /// Finds the device of a class that has these numbers.
    pub fn from_major_minor(
        classes: &mut Option<ClassKset>,
        class: &[u8],
        major: u32,
        minor: u32,
    ) -> (r: Result<ARef<TypedDevice<T>>>)
        ensures
            Self::found(
                *old(classes),
                *final(classes),
                class@,
                DeviceKey::Devt(device_number(major, minor)),
                r,
            ),
    {
        Self::find(classes, class, DeviceKey::Devt(major << MINORBITS | minor))
    }

    /// Finds the device of a class that has this number.
    pub fn from_devt(classes: &mut Option<ClassKset>, class: &[u8], device: u32) -> (r: Result<
        ARef<TypedDevice<T>>,
    >)
        ensures
            Self::found(*old(classes), *final(classes), class@, DeviceKey::Devt(device), r),
    {
        Self::find(classes, class, DeviceKey::Devt(device))
    }

    /// Finds the device of a class that has this name.
    pub fn from_name(classes: &mut Option<ClassKset>, class: &[u8], name: &[u8]) -> (r: Result<
        ARef<TypedDevice<T>>,
    >)
        ensures
            Self::found(*old(classes), *final(classes), class@, DeviceKey::Name(name), r),
    {
        Self::find(classes, class, DeviceKey::Name(name))
    }

    /// Creates a new reference to the struct that embeds a device. It is an error if there is no
    /// device, or if it is not of the type.
    pub fn from_generic_ptr(device: Option<&mut Device>) -> (r: Result<ARef<TypedDevice<T>>>)
        ensures
            device is None ==> r == Err::<ARef<TypedDevice<T>>, Error>(Error(ENODEV)),
            device matches Some(d) ==> {
                if T::has_type(*d) {
                    &&& r is Ok
                    &&& r->Ok_0.ptr == d.addr.wrapping_sub(T::offset())
                    &&& *final(d) == d.with_count(d.count().wrapping_add(1))
                } else {
                    &&& r == Err::<ARef<TypedDevice<T>>, Error>(Error(EINVAL))
                    &&& *final(d) == *d
                }
            },
    {
        match device {
            None => Err(Error(ENODEV)),
            Some(device) => if T::is_type(device) {
                let ptr = T::as_typed(device.as_raw());
                device.inc_ref();
                Ok(ARef::from_raw(ptr))
            } else {
                Err(Error(EINVAL))
            },
        }
    }

    /// Turns a reference to a device into one to the struct that embeds it. If the device is not of
    /// the type, the reference is handed back.
    pub fn try_from(this: ARef<Device>, device: &mut Device) -> (r: core::result::Result<
        ARef<TypedDevice<T>>,
        ARef<Device>,
    >)
        requires
            this.ptr == old(device).addr,
        ensures
            r is Ok <==> T::has_type(*old(device)),
            r matches Ok(typed) ==> typed.ptr == old(device).addr.wrapping_sub(T::offset()),
            r matches Err(generic) ==> generic.ptr == this.ptr,
            *final(device) == *old(device),
    {
        let r = match Self::from_generic_ptr(Some(&mut *device)) {
            Ok(typed) => Ok(typed),
            Err(_) => Err(Device::get_device(device)),
        };
        device.dec_ref();
        r
    }

    /// Turns a reference to a typed device into one to the device within it, and takes another
    /// reference to that device.
    pub fn into_generic(this: ARef<TypedDevice<T>>, device: &mut Device) -> (r: ARef<Device>)
        requires
            old(device).addr == this.ptr.wrapping_add(T::offset()),
        ensures
            r.ptr == this.ptr.wrapping_add(T::offset()),
            *final(device) == old(device).with_count(old(device).count().wrapping_add(1)),
    {
        let _ = ARef::into_raw(this);
        Device::get_device(device)
    }

    /// The device within the struct.
    pub fn as_device(&self) -> (r: &Device)
        ensures
            *r == T::embedded(self.raw),
    {
        T::generic_ref(self.as_raw_ref())
    }

    /// Obtain the address of the struct.
    pub fn as_raw(&self) -> (r: usize)
        ensures
            r == self.ptr,
    {
        self.ptr
    }

    /// Obtain the struct.
    pub fn as_raw_ref(&self) -> (r: &T::RawType)
        ensures
            *r == self.raw,
    {
        &self.raw
    }
}

/// The address of the struct that embeds a device, and the address of the device within a struct,
/// undo each other.
pub proof fn law_typed_and_generic<T: DeviceType>(addr: usize)
    ensures
        addr.wrapping_sub(T::offset()).wrapping_add(T::offset()) == addr,
        addr.wrapping_add(T::offset()).wrapping_sub(T::offset()) == addr,
{
}

/// The place that a search leads to is the only one of its kind: it does not depend on how the search
/// is done.
pub proof fn law_place_is_unique(
    classes: Option<ClassKset>,
    class: Seq<u8>,
    key: DeviceKey<'_>,
    p: (int, int),
    q: (int, int),
)
    requires
        is_place(classes, class, key, p),
        is_place(classes, class, key, q),
    ensures
        p == q,
{
}

/// A device that is found is there: it is one that was looked for, in the class that was named, and the
/// result refers to it.
pub proof fn law_found_device_fits(
    before: Option<ClassKset>,
    after: Option<ClassKset>,
    class: Seq<u8>,
    key: DeviceKey<'_>,
    r: Result<ARef<Device>>,
)
    requires
        Device::found(before, after, class, key, r),
        r is Ok,
    ensures
        key.fits(the_device(before, class, key)),
        r->Ok_0.ptr == the_device(before, class, key).addr,
        exists|place: (int, int)|
            #[trigger] is_place(before, class, key, place) && the_device(before, class, key)
                == subsystems(before)[place.0].devices@[place.1],
{
}

/// Finding a device by its two numbers is finding it by the number that holds both.
pub proof fn law_major_minor_is_devt(
    before: Option<ClassKset>,
    after: Option<ClassKset>,
    class: Seq<u8>,
    major: u32,
    minor: u32,
    r: Result<ARef<Device>>,
)
    requires
        major < 0x1000,
        minor < 0x10_0000,
    ensures
        Device::found(before, after, class, DeviceKey::Devt(device_number(major, minor)), r)
            == Device::found(
            before,
            after,
            class,
            DeviceKey::Devt((major * 0x10_0000 + minor) as u32),
            r,
        ),
{
    law_device_number(major, minor);
}

/// A device number holds both its parts: no other parts of their sizes give the same number.
pub proof fn law_device_number(major: u32, minor: u32)
    requires
        major < 0x1000,
        minor < 0x10_0000,
    ensures
        device_number(major, minor) == major * 0x10_0000 + minor,
        device_number(major, minor) / 0x10_0000 == major,
        device_number(major, minor) % 0x10_0000 == minor,
{
    assert(major << 20u32 | minor == major * 0x10_0000 + minor) by (bit_vector)
        requires
            major < 0x1000,
            minor < 0x10_0000,
    ;
}

} // verus!
