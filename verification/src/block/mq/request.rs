//! Requests of the multi-queue block layer.

use super::counting::RefOp;
use super::{CompleteOperation, RequestTypes};
use crate::block::bio::{Bio, BioIterator, BioView, REQ_OP_BITS};
use crate::time::hrtimer::{HasHrTimer, HrTimerCallback, HrTimerHandle, HrTimerPointer, HrTimerRestart};
use crate::time::hrtimer::{Expiry, RawHrTimerCallback};
use crate::time::Ktime;
use crate::types::{ARef, RefCounted, Refcount, URef, UniqueRefCounted};
use vstd::prelude::*;

verus! {

/// The request was completed without errors.
pub const BLK_STS_OK: u8 = 0;

/// How far the block layer has got with a request.
#[derive(Clone, Copy, Debug, PartialEq, Eq, Structural)]
pub enum RequestState {
    /// Processing has not started.
    Idle,
    /// The driver has started to process the request.
    InFlight,
    /// The driver has completed the request, and the completion is being delivered.
    Complete,
    /// The request has ended with this status.
    Ended(u8),
}

/// A wrapper around data stored in the private area of a request.
pub struct RequestDataWrapper<T: RequestTypes> {
    /// The request refcount has the following states:
    ///
    /// - 0: The request is owned by the block layer or is uniquely referenced.
    /// - 1: The request is owned by the driver but is not referenced.
    /// - 2+: There is one or more [`ARef`] instances referencing the request.
    pub refcount: Refcount,
    /// Driver managed request data.
    pub data: T::RequestData,
}

impl<T: RequestTypes> RequestDataWrapper<T> {
    /// Return a reference to the refcount of the request that is embedding `self`.
    pub fn refcount(&self) -> (r: &Refcount)
        ensures
            *r == self.refcount,
    {
        &self.refcount
    }
}

/// An IO request.
///
/// There are three states for a request that the reference count tells apart:
///
/// 1. Request is owned by the block layer or a [`URef`] is referencing the request (refcount 0).
/// 2. Request is owned by the driver but with no [`ARef`] or [`URef`] referencing the request
///    (refcount 1).
/// 3. Request is owned by the driver with one or more [`ARef`] referencing the request
///    (refcount >= 2).
pub struct Request<T: RequestTypes> {
    /// The address of the request.
    pub ptr: usize,
    /// The operation and its flags.
    pub cmd_flags: u32,
    /// The first sector that the request is about.
    pub sector: u64,
    /// The bios of the request, in the order of the chain.
    pub bios: Vec<Bio>,
    /// How far the block layer has got with the request.
    pub state: RequestState,
    /// The private data area.
    pub wrapper: RequestDataWrapper<T>,
}

impl<T: RequestTypes> Request<T> {
    /// This request with other driver data.
    pub open spec fn with_data(self, data: T::RequestData) -> Request<T> {
        Request { wrapper: RequestDataWrapper { data, ..self.wrapper }, ..self }
    }

    /// This request in another state.
    pub open spec fn with_state(self, state: RequestState) -> Request<T> {
        Request { state, ..self }
    }

    /// What the bios hold.
    pub open spec fn bio_views(self) -> Seq<BioView> {
        self.bios@.map_values(|b: Bio| b@)
    }

    /// The number of the first sector, as far as it can be told in a `usize`: its low bits.
    pub open spec fn first_sector(self) -> usize {
        (self.sector as int % (usize::MAX + 1)) as usize
    }

    /// Create an [`ARef<Request>`] from the address of a request. The caller owns a refcount on the
    /// request, which is transferred to the returned [`ARef`].
    pub fn aref_from_raw(ptr: usize) -> (r: ARef<Request<T>>)
        ensures
            r.ptr == ptr,
    {
        ARef::from_raw(ptr)
    }

    /// Get the command identifier for the request.
    pub fn command(&self) -> (r: u32)
        ensures
            r == self.cmd_flags % 256,
    {
        let flags = self.cmd_flags;
        assert(1u32 << 8u32 == 256) by (bit_vector);
        assert(flags & 255 == flags % 256) by (bit_vector);
        flags & ((1u32 << REQ_OP_BITS) - 1)
    }

    /// Get a reference to the first [`Bio`] in this request.
    pub fn bio(&self) -> (r: Option<&Bio>)
        ensures
            r is Some <==> self.bios@.len() > 0,
            r matches Some(bio) ==> *bio == self.bios@[0],
    {
        if self.bios.len() == 0 {
            None
        } else {
            Some(&self.bios[0])
        }
    }

    /// Get a mutable reference to the first [`Bio`] in this request.
    pub fn bio_mut(&mut self) -> (r: Option<&mut Bio>)
        ensures
            r is Some <==> old(self).bios@.len() > 0,
            r is None ==> *final(self) == *old(self),
            r matches Some(bio) ==> {
                &&& *bio == old(self).bios@[0]
                &&& final(self).bios@ == old(self).bios@.update(0, *final(bio))
                &&& *final(self) == (Request { bios: final(self).bios, ..*old(self) })
            },
    {
        if self.bios.len() == 0 {
            None
        } else {
            Some(&mut self.bios[0])
        }
    }

    /// Get an iterator over all bio structures in this request.
    pub fn bio_iter_mut(&mut self) -> (r: BioIterator<'_>)
        ensures
            *r.bios == old(self).bios,
            r.next == 0,
            *final(self) == (Request { bios: *final(r.bios), ..*old(self) }),
    {
        BioIterator { bios: &mut self.bios, next: 0 }
    }

    /// Get the target sector for the request.
    pub fn sector(&self) -> (r: usize)
        ensures
            r == self.first_sector(),
            self.sector <= usize::MAX ==> r == self.sector,
    {
        let sector = self.sector;
        assert(sector & 0xffff_ffff_ffff_ffff == sector) by (bit_vector);
        assert(sector & 0xffff_ffff == sector % 0x1_0000_0000) by (bit_vector);
        (sector & (usize::MAX as u64)) as usize
    }

    /// Return a reference to the [`RequestDataWrapper`] stored in the private area of the request.
    pub fn wrapper_ref(&self) -> (r: &RequestDataWrapper<T>)
        ensures
            *r == self.wrapper,
    {
        &self.wrapper
    }

    /// Return a reference to the per-request data associated with this request. It lies in the
    /// private area of this request, at [`RequestLayout::data_addr`].
    pub fn data_ref(&self) -> (r: &T::RequestData)
        ensures
            *r == self.wrapper.data,
    {
        &self.wrapper_ref().data
    }
}

impl<T: CompleteOperation> Request<T> {
    /// Complete the request by scheduling [`CompleteOperation::complete`] for execution.
    ///
    /// The function may be scheduled locally, in a soft irq or on another CPU. `remote` says whether
    /// the block layer has taken it on to call it from there. If it has not, it is called here.
    pub fn complete(this: ARef<Self>, rq: &mut Request<T>, remote: bool)
        requires
            this.ptr == old(rq).ptr,
            !remote ==> T::completable(old(rq).with_state(RequestState::Complete)),
        ensures
            remote ==> *final(rq) == old(rq).with_state(RequestState::Complete),
            !remote ==> *final(rq) == T::completed(old(rq).with_state(RequestState::Complete)),
    {
        let ptr = ARef::into_raw(this);
        rq.state = RequestState::Complete;
        if !remote {
            let this = Request::<T>::aref_from_raw(ptr);
            T::complete(this, rq);
        }
    }
}

impl<T: RequestTypes> RefCounted for Request<T> {
    open spec fn count(self) -> i32 {
        self.wrapper.refcount.count
    }

    open spec fn with_count(self, count: i32) -> Request<T> {
        Request { wrapper: RequestDataWrapper { refcount: Refcount { count }, ..self.wrapper }, ..self }
    }

    fn inc_ref(&mut self)
        ensures
            final(self).count() == RefOp::Add.count(old(self).count()),
    {
        let _ = self.wrapper.refcount.fetch_add(1);
    }

    fn dec_ref(&mut self)
        ensures
            final(self).count() == RefOp::Drop.count(old(self).count()),
    {
        let _ = self.wrapper.refcount.fetch_sub(1);
    }
}

impl<T: RequestTypes> UniqueRefCounted for Request<T> {
    open spec fn addr(self) -> usize {
        self.ptr
    }

    fn try_shared_to_unique<'a>(this: ARef<Self>, obj: &'a mut Self) -> (r: core::result::Result<
        URef<'a, Self>,
        ARef<Self>,
    >)
        ensures
            r matches Ok(unique) ==> unique.target().count() == RefOp::TryUnique.count(
                old(obj).count(),
            ),
            r is Err ==> final(obj).count() == RefOp::TryUnique.count(old(obj).count()),
    {
        let updated = obj.wrapper.refcount.compare_exchange(2, 0);
        match updated {
            Ok(_) => Ok(URef { obj }),
            Err(_) => Err(this),
        }
    }

    fn unique_to_shared(this: URef<'_, Self>) -> (r: ARef<Self>)
        ensures
            final(this.obj).count() == RefOp::Share.count(this.target().count()),
    {
        let _ = this.obj.wrapper.refcount.fetch_add(2);
        ARef::from_raw(this.obj.ptr)
    }

    fn dec_ref(&mut self)
        ensures
            final(self).count() == RefOp::DropUnique.count(old(self).count()),
    {
        let _ = self.wrapper.refcount.swap(1);
    }
}

impl<'a, T: RequestTypes> URef<'a, Request<T>> {
    /// Notify the block layer that a request is going to be processed now.
    pub fn start_unchecked(&mut self)
        ensures
            *final(self).obj == (*old(self).obj).with_state(RequestState::InFlight),
            *final(final(self).obj) == *final(old(self).obj),
    {
        self.obj.state = RequestState::InFlight;
    }

    /// Notify the block layer that the request has been completed without errors.
    pub fn end_ok(self)
        ensures
            *final(self.obj) == self.target().with_state(RequestState::Ended(BLK_STS_OK)),
            final(self.obj).count() == RefOp::End.count(self.target().count()),
    {
        self.end(BLK_STS_OK)
    }

    /// Notify the block layer that the request has been completed with status `status`.
    pub fn end(self, status: u8)
        ensures
            *final(self.obj) == self.target().with_state(RequestState::Ended(status)),
            final(self.obj).count() == RefOp::End.count(self.target().count()),
    {
        self.obj.state = RequestState::Ended(status);
    }
}

/// The count that dropping a shared reference leaves behind, where the last one turns into a unique
/// reference.
pub open spec fn unique_or_dropped(count: i32) -> i32 {
    if count == 2 {
        0
    } else {
        (count - 1) as i32
    }
}

/// What to do next when a shared reference is to become unique or to be dropped.
#[derive(Clone, Copy, Debug, PartialEq, Eq, Structural)]
pub enum DropStep {
    /// Set the count to `new` if it is `current`, and tell how that went.
    Exchange { current: i32, new: i32 },
    /// It is done. The reference was the last one and is unique now, or it was dropped.
    Done { unique: bool },
}

impl DropStep {
    /// The attempt to make where the count is `count`.
    pub open spec fn attempt(count: i32) -> DropStep {
        DropStep::Exchange { current: count, new: unique_or_dropped(count) }
    }

    /// What comes after the attempt for `current`, whose outcome was `outcome`.
    pub open spec fn following(
        current: i32,
        outcome: core::result::Result<i32, i32>,
    ) -> DropStep {
        match outcome {
            Ok(_) => DropStep::Done { unique: current == 2 },
            Err(count) => DropStep::attempt(count),
        }
    }

    /// The attempt to make where the count is `count`.
    pub fn exchange(count: i32) -> (r: DropStep)
        requires
            count > i32::MIN,
        ensures
            r == DropStep::attempt(count),
    {
        let new = if count == 2 {
            0
        } else {
            count - 1
        };
        DropStep::Exchange { current: count, new }
    }

    /// What comes after the attempt for `current`, whose outcome was `outcome`: the count before, as
    /// an error if it was another.
    pub fn next(current: i32, outcome: core::result::Result<i32, i32>) -> (r: DropStep)
        requires
            outcome matches Err(count) ==> count > i32::MIN,
        ensures
            r == DropStep::following(current, outcome),
    {
        match outcome {
            Ok(_) => DropStep::Done { unique: current == 2 },
            Err(count) => DropStep::exchange(count),
        }
    }
}

impl<T: RequestTypes> ARef<Request<T>> {
    /// Turns this reference into a unique one if it is the only one, or else drops it.
    pub fn into_unique_or_drop<'a>(self, rq: &'a mut Request<T>) -> (r: Option<
        URef<'a, Request<T>>,
    >)
        requires
            self.ptr == old(rq).ptr,
            old(rq).count() > i32::MIN,
        ensures
            r is Some <==> old(rq).count() == 2,
            r matches Some(unique) ==> {
                &&& *unique.obj == old(rq).with_count(0)
                &&& *final(unique.obj) == *final(rq)
            },
            r is None ==> *final(rq) == old(rq).with_count((old(rq).count() - 1) as i32),
            r matches Some(unique) ==> unique.target().count() == RefOp::UniqueOrDrop.count(
                old(rq).count(),
            ),
            r is None ==> final(rq).count() == RefOp::UniqueOrDrop.count(old(rq).count()),
    {
        let mut step = DropStep::exchange(rq.wrapper_ref().refcount().load());
        loop
            invariant
                step is Exchange ==> *rq == *old(rq) && step == DropStep::attempt(old(rq).count()),
                step matches DropStep::Done { unique } ==> {
                    &&& unique == (old(rq).count() == 2)
                    &&& *rq == old(rq).with_count(unique_or_dropped(old(rq).count()))
                },
                *final(rq) == *final(old(rq)),
                old(rq).count() > i32::MIN,
            decreases
                    (if step is Exchange {
                        1int
                    } else {
                        0int
                    }),
        {
            match step {
                DropStep::Exchange { current, new } => {
                    let outcome = rq.wrapper.refcount.compare_exchange(current, new);
                    step = DropStep::next(current, outcome);
                },
                DropStep::Done { unique } => {
                    if unique {
                        return Some(URef { obj: rq });
                    } else {
                        return None;
                    }
                },
            }
        }
    }
}

/// A handle for a timer that is embedded in a [`Request`] private data area.
pub struct RequestTimerHandle<T> where T: RequestTypes, T::RequestData: HasHrTimer<T> {
    pub inner: ARef<Request<T>>,
}

impl<T> HrTimerHandle for RequestTimerHandle<T> where
    T: RequestTypes,
    T::RequestData: HasHrTimer<T>,
 {
    type Target = Request<T>;

    open spec fn is_for(self, target: Request<T>) -> bool {
        self.inner.ptr == target.ptr
    }

    open spec fn is_running(target: Request<T>) -> bool {
        target.wrapper.data.timer().is_running()
    }

    open spec fn cancelled(target: Request<T>) -> Request<T> {
        let data = target.wrapper.data;
        target.with_data(data.with_timer(data.timer().stopped()))
    }

    open spec fn released(self, target: Request<T>) -> Request<T> {
        Self::cancelled(target).with_count(target.count().wrapping_sub(1))
    }

    fn cancel(&mut self, target: &mut Request<T>) -> (r: bool) {
        proof {
            let data = target.wrapper.data;
            data.lemma_with_timer(data.timer().stopped());
        }
        let timer = target.wrapper.data.timer_mut();
        timer.raw_cancel()
    }

    fn release(self, target: &mut Request<T>) {
        let mut this = self;
        let _ = this.cancel(target);
        RefCounted::dec_ref(target);
    }
}

impl<T> RequestTimerHandle<T> where T: RequestTypes, T::RequestData: HasHrTimer<T> {
    /// Drop the timer handle without cancelling the timer.
    pub fn dismiss(self, rq: &mut Request<T>)
        requires
            self.inner.ptr == old(rq).ptr,
        ensures
            *final(rq) == old(rq).with_count(old(rq).count().wrapping_sub(1)),
    {
        RefCounted::dec_ref(rq);
    }
}

impl<T> HrTimerPointer for ARef<Request<T>> where
    T: RequestTypes,
    T::RequestData: HasHrTimer<T>,
 {
    type TimerHandle = RequestTimerHandle<T>;

    open spec fn points_to(self, target: Request<T>) -> bool {
        self.ptr == target.ptr
    }

    open spec fn started(target: Request<T>, expires: Ktime) -> Request<T> {
        let data = target.wrapper.data;
        target.with_data(data.with_timer(data.timer().started(expires)))
    }

    fn start(self, target: &mut Request<T>, expires: Ktime) -> (r: RequestTimerHandle<T>)
        ensures
            r.inner == self,
    {
        target.wrapper.data.start(expires);
        RequestTimerHandle { inner: self }
    }
}

impl<T> Request<T> where T: RequestTypes, T::RequestData: HasHrTimer<T> {
    /// This request when its timer has fired: the timer is stopped, and there is one more reference.
    pub open spec fn fired(self) -> Request<T> {
        let data = self.wrapper.data;
        self.with_data(data.with_timer(data.timer().stopped())).with_count(
            self.count().wrapping_add(1),
        )
    }

    /// This request when the handler of its timer has executed, after the timer expired with
    /// `expiry`.
    pub open spec fn resumed(self, restart: HrTimerRestart, expiry: Option<Expiry>) -> Request<T> {
        let data = self.wrapper.data;
        self.with_data(data.with_timer(data.timer().resumed(restart, expiry)))
    }
}

/// How the private area of a request is placed in memory.
#[derive(Clone, Copy, Debug, PartialEq, Eq, Structural)]
pub struct RequestLayout {
    /// The size of a request. The private area comes directly behind it.
    pub request_size: usize,
    /// Offset of the driver data within the private area.
    pub data_offset: usize,
    /// Offset of the refcount within the private area.
    pub refcount_offset: usize,
}

impl RequestLayout {
    /// The address of the private area of the request at address `ptr`.
    pub open spec fn wrapper_addr(self, ptr: int) -> int {
        ptr + self.request_size
    }

    /// The address of the driver data of the request at address `ptr`.
    pub open spec fn data_addr(self, ptr: int) -> int {
        self.wrapper_addr(ptr) + self.data_offset
    }

    /// Return the address of the private area of the request at address `ptr`.
    pub fn wrapper_ptr(&self, ptr: usize) -> (r: usize)
        requires
            ptr + self.request_size <= usize::MAX,
        ensures
            r == self.wrapper_addr(ptr as int),
    {
        ptr + self.request_size
    }

    /// Return the address of the refcount in the private area at address `wrapper_ptr`.
    pub fn refcount_ptr(&self, wrapper_ptr: usize) -> (r: usize)
        requires
            wrapper_ptr + self.refcount_offset <= usize::MAX,
        ensures
            r == wrapper_ptr + self.refcount_offset,
    {
        wrapper_ptr + self.refcount_offset
    }

    /// Return the address of the driver data in the private area at address `wrapper_ptr`.
    pub fn data_ptr(&self, wrapper_ptr: usize) -> (r: usize)
        requires
            wrapper_ptr + self.data_offset <= usize::MAX,
        ensures
            r == wrapper_ptr + self.data_offset,
    {
        wrapper_ptr + self.data_offset
    }

    /// Return the address of the request whose driver data is at address `data_ptr`.
    pub fn request_of(&self, data_ptr: usize) -> (r: usize)
        requires
            self.request_size + self.data_offset <= data_ptr,
        ensures
            self.data_addr(r as int) == data_ptr,
    {
        let pdu_ptr = data_ptr - self.data_offset;
        pdu_ptr - self.request_size
    }
}

/// The driver data of a request is its own: it lies at a fixed place behind the request, and no two
/// requests have theirs at the same address.
pub proof fn law_data_is_its_own(layout: RequestLayout, ptr: int, other: int)
    ensures
        layout.data_addr(ptr) == layout.wrapper_addr(ptr) + layout.data_offset,
        layout.data_addr(ptr) == layout.data_addr(other) <==> ptr == other,
{
}

impl<T> RawHrTimerCallback for ARef<Request<T>> where
    T: RequestTypes,
    T::RequestData: HasHrTimer<T> + HrTimerCallback<
        CallbackTargetParameter = ARef<Request<T>>,
        Target = Request<T>,
    >,
 {
    type Target = Request<T>;

    type Layout = RequestLayout;

    open spec fn callable(ptr: usize, layout: RequestLayout, target: Request<T>) -> bool {
        &&& ptr == layout.data_addr(target.ptr as int)
            + <T::RequestData as HasHrTimer<T>>::timer_offset()
        &&& forall|this: ARef<Request<T>>|
            this.ptr == target.ptr ==> #[trigger] <T::RequestData as HrTimerCallback>::callable(
                this,
                target.fired(),
            )
    }

    open spec fn called(before: Request<T>, after: Request<T>, code: u32) -> bool {
        let expiry = before.wrapper.data.timer().timer.expiry;
        exists|handled: Request<T>, restart: HrTimerRestart|
            {
                &&& #[trigger] <T::RequestData as HrTimerCallback>::called(
                    before.fired(),
                    handled,
                    restart,
                )
                &&& after == handled.resumed(restart, expiry)
                &&& code == restart.word()
            }
    }

    fn run(ptr: usize, layout: RequestLayout, target: &mut Request<T>) -> (r: u32) {
        let request_data_ptr = <T::RequestData as HasHrTimer<T>>::timer_container_of(ptr);
        let request_ptr = layout.request_of(request_data_ptr);
        let expiry = target.wrapper.data.timer_mut().expire();
        RefCounted::inc_ref(target);
        let aref = Request::<T>::aref_from_raw(request_ptr);
        let restart = <T::RequestData as HrTimerCallback>::run(aref, target);
        target.wrapper.data.timer_mut().resume(restart, expiry);
        restart.into()
    }
}

} // verus!
