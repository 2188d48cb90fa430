//! Reference counts, and references to objects that are counted.

use core::marker::PhantomData;
use vstd::prelude::*;

verus! {

/// A reference count. It is a plain number, and its operations are those of an atomic one, taken one
/// at a time. An operation that leaves the range of the count wraps around.
#[derive(Debug)]
pub struct Refcount {
    pub count: i32,
}

impl Refcount {
    /// What an exchange of `current` for `new` makes of a count, and what it returns: the count
    /// before, as an error if it was not `current`.
    pub open spec fn exchanged(count: i32, current: i32, new: i32) -> (
        i32,
        core::result::Result<i32, i32>,
    ) {
        if count == current {
            (new, Ok(count))
        } else {
            (count, Err(count))
        }
    }

    /// A count that starts at `count`.
    pub fn new(count: i32) -> (r: Refcount)
        ensures
            r.count == count,
    {
        Refcount { count }
    }

    /// The count.
    pub fn load(&self) -> (r: i32)
        ensures
            r == self.count,
    {
        self.count
    }

    /// Adds `n`. Returns the count before.
    pub fn fetch_add(&mut self, n: i32) -> (r: i32)
        ensures
            r == old(self).count,
            final(self).count == old(self).count.wrapping_add(n),
    {
        let before = self.count;
        self.count = before.wrapping_add(n);
        before
    }

    /// Subtracts `n`. Returns the count before.
    pub fn fetch_sub(&mut self, n: i32) -> (r: i32)
        ensures
            r == old(self).count,
            final(self).count == old(self).count.wrapping_sub(n),
    {
        let before = self.count;
        self.count = before.wrapping_sub(n);
        before
    }

    /// Sets the count. Returns the count before.
    pub fn swap(&mut self, count: i32) -> (r: i32)
        ensures
            r == old(self).count,
            final(self).count == count,
    {
        let before = self.count;
        self.count = count;
        before
    }

    /// Sets the count to `new` if it is `current`. Returns the count before, as an error if it was
    /// another.
    pub fn compare_exchange(&mut self, current: i32, new: i32) -> (r: core::result::Result<i32, i32>)
        ensures
            (final(self).count, r) == Refcount::exchanged(old(self).count, current, new),
    {
        let before = self.count;
        if before == current {
            self.count = new;
            Ok(before)
        } else {
            Err(before)
        }
    }
}

/// A shared reference to an object that is reference counted.
///
/// It owns one count of the object, which it tells by its address. Several of them may refer to the
/// same object, so what is done through one of them is done on the object at hand.
pub struct ARef<T> {
    pub ptr: usize,
    pub _p: PhantomData<T>,
}

impl<T> ARef<T> {
    /// The reference to the object at address `ptr`. It takes over a count of that object.
    pub fn from_raw(ptr: usize) -> (r: ARef<T>)
        ensures
            r.ptr == ptr,
    {
        ARef { ptr, _p: PhantomData }
    }

    /// The address of the object. The count stays with the caller.
    pub fn into_raw(this: ARef<T>) -> (r: usize)
        ensures
            r == this.ptr,
    {
        this.ptr
    }
}

/// The only reference to an object that is reference counted.
pub struct URef<'a, T> {
    pub obj: &'a mut T,
}

/// Objects that count the references to them.
pub trait RefCounted: Sized {
    /// The number that the count stands at.
    spec fn count(self) -> i32;

    /// This object with its count at `count`.
    spec fn with_count(self, count: i32) -> Self;

    /// Adds a reference.
    fn inc_ref(&mut self)
        ensures
            *final(self) == old(self).with_count(old(self).count().wrapping_add(1)),
    ;

    /// Takes a reference away.
    fn dec_ref(&mut self)
        ensures
            *final(self) == old(self).with_count(old(self).count().wrapping_sub(1)),
    ;
}

/// Counted objects of which there can also be a unique reference.
pub trait UniqueRefCounted: RefCounted {
    /// The address of the object.
    spec fn addr(self) -> usize;

    /// Turns a shared reference into a unique one if it is the only one. If it is not, it is handed
    /// back.
    fn try_shared_to_unique<'a>(this: ARef<Self>, obj: &'a mut Self) -> (r: core::result::Result<
        URef<'a, Self>,
        ARef<Self>,
    >)
        requires
            this.ptr == old(obj).addr(),
        ensures
            r is Ok <==> old(obj).count() == 2,
            r matches Ok(unique) ==> {
                &&& *unique.obj == old(obj).with_count(0)
                &&& *final(unique.obj) == *final(obj)
            },
            r matches Err(shared) ==> shared == this && *final(obj) == *old(obj),
    ;

    /// Turns a unique reference into a shared one.
    fn unique_to_shared(this: URef<'_, Self>) -> (r: ARef<Self>)
        ensures
            r.ptr == this.target().addr(),
            *final(this.obj) == this.target().with_count(this.target().count().wrapping_add(2)),
    ;

    /// Drops the unique reference.
    fn dec_ref(&mut self)
        ensures
            *final(self) == old(self).with_count(1),
    ;
}

impl<'a, T> URef<'a, T> {
    /// The object that is referred to.
    pub open spec fn target(self) -> T {
        *self.obj
    }
}

} // verus!
