//! Subsystems of the driver model.

use crate::device::Device;
use crate::error::{Error, Result, ENOENT};
use crate::text::same_bytes;
use crate::types::{ARef, RefCounted};
use vstd::prelude::*;

verus! {

/// A device class.
pub struct Class {
    pub name: Vec<u8>,
}

/// The private data of a subsystem: a class with its devices.
pub struct SubsysPrivate {
    /// The address of the subsystem.
    pub addr: usize,
    /// The number of references to the subsystem.
    pub refcount: i32,
    pub class: Class,
    /// The devices of the class, in the order in which a search meets them.
    pub devices: Vec<Device>,
}

impl RefCounted for SubsysPrivate {
    open spec fn count(self) -> i32 {
        self.refcount
    }

    open spec fn with_count(self, count: i32) -> SubsysPrivate {
        SubsysPrivate { refcount: count, ..self }
    }

    fn inc_ref(&mut self) {
        self.refcount = self.refcount.wrapping_add(1);
    }

    fn dec_ref(&mut self) {
        self.refcount = self.refcount.wrapping_sub(1);
    }
}

impl SubsysPrivate {
    /// The reference to the subsystem at address `this`. It takes over a count of that subsystem.
    pub fn from_raw(this: usize) -> (r: ARef<SubsysPrivate>)
        ensures
            r.ptr == this,
    {
        ARef::from_raw(this)
    }

    /// The class of the subsystem.
    pub fn class(&self) -> (r: &Class)
        ensures
            *r == self.class,
    {
        &self.class
    }
}

/// The set of all classes.
pub struct ClassKset {
    pub subsystems: Vec<SubsysPrivate>,
}

/// `i` is the first subsystem whose class has this name.
pub open spec fn is_subsys(subsystems: Seq<SubsysPrivate>, name: Seq<u8>, i: int) -> bool {
    &&& 0 <= i < subsystems.len()
    &&& subsystems[i].class.name@ == name
    &&& forall|j: int| 0 <= j < i ==> (#[trigger] subsystems[j]).class.name@ != name
}

/// All subsystems. There are none as long as there is no set of classes.
pub open spec fn subsystems(classes: Option<ClassKset>) -> Seq<SubsysPrivate> {
    match classes {
        Some(kset) => kset.subsystems@,
        None => Seq::empty(),
    }
}

/// There is a class with this name.
pub open spec fn has_subsys(classes: Option<ClassKset>, name: Seq<u8>) -> bool {
    exists|i: int| is_subsys(subsystems(classes), name, i)
}

/// The number of the first subsystem whose class has this name.
pub(crate) fn find_subsys(subsystems: &Vec<SubsysPrivate>, name: &[u8]) -> (r: Option<usize>)
    ensures
        r matches Some(i) ==> is_subsys(subsystems@, name@, i as int),
        r is None ==> forall|i: int| !is_subsys(subsystems@, name@, i),
{
    let mut i: usize = 0;
    while i < subsystems.len()
        invariant
            i <= subsystems@.len(),
            forall|j: int| 0 <= j < i ==> (#[trigger] subsystems@[j]).class.name@ != name@,
        decreases subsystems.len() - i,
    {
        if same_bytes(subsystems[i].class().name.as_slice(), name) {
            return Some(i);
        }
        i = i + 1;
    }
    None
}

/// Finds the subsystem whose class has this name. The result holds a reference to it.
pub fn get_subsys_by_class_name(classes: &mut Option<ClassKset>, name: &[u8]) -> (r: Result<
    ARef<SubsysPrivate>,
>)
    ensures
        !has_subsys(*old(classes), name@) ==> {
            &&& r == Err::<ARef<SubsysPrivate>, Error>(Error(ENOENT))
            &&& *final(classes) == *old(classes)
        },
        has_subsys(*old(classes), name@) ==> {
            &&& r is Ok
            &&& forall|i: int| #[trigger]
                is_subsys(subsystems(*old(classes)), name@, i) ==> {
                    let sp = subsystems(*old(classes))[i];
                    &&& r->Ok_0.ptr == sp.addr
                    &&& subsystems(*final(classes)) == subsystems(*old(classes)).update(
                        i,
                        sp.with_count(sp.count().wrapping_add(1)),
                    )
                }
        },
{
    match classes {
        None => Err(Error(ENOENT)),
        Some(kset) => match find_subsys(&kset.subsystems, name) {
            Some(i) => {
                assert(is_subsys(subsystems(*old(classes)), name@, i as int));
                let sp = &mut kset.subsystems[i];
                let addr = sp.addr;
                sp.inc_ref();
                Ok(SubsysPrivate::from_raw(addr))
            },
            None => Err(Error(ENOENT)),
        },
    }
}

} // verus!
