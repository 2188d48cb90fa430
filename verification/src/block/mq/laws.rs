//! What holds of requests, their counts, their timers and the sizes of blocks.

use super::counting::{Holders, RefOp};
use super::gen_disk::valid_block_size;
use super::request::{unique_or_dropped, DropStep, Request, RequestLayout, RequestState};
use super::request::{RequestTimerHandle, BLK_STS_OK};
use super::RequestTypes;
use crate::time::hrtimer::{Expiry, HasHrTimer, HrTimerHandle, HrTimerPointer, HrTimerRestart};
use crate::time::Ktime;
use crate::types::{ARef, RefCounted, Refcount, UniqueRefCounted};
use vstd::arithmetic::div_mod::{lemma_fundamental_div_mod, lemma_mod_bound, lemma_mod_multiples_basic};
use vstd::arithmetic::div_mod::lemma_small_mod;
use vstd::prelude::*;

verus! {

/// A request is processed from the sector that it names: where that can be told in a `usize` it is the
/// number itself, so that requests for different sectors are processed from different ones. Where it
/// cannot, the low bits are kept.
pub proof fn law_first_sector<T: RequestTypes>(rq: Request<T>, other: Request<T>)
    ensures
        rq.sector <= usize::MAX ==> rq.first_sector() == rq.sector,
        rq.sector <= usize::MAX && other.sector <= usize::MAX && rq.sector != other.sector
            ==> rq.first_sector() != other.first_sector(),
        (rq.sector - rq.first_sector()) % (usize::MAX + 1) == 0,
{
    let m = usize::MAX + 1;
    if rq.sector <= usize::MAX {
        lemma_small_mod(rq.sector as nat, m as nat);
    }
    if other.sector <= usize::MAX {
        lemma_small_mod(other.sector as nat, m as nat);
    }
    lemma_fundamental_div_mod(rq.sector as int, m);
    lemma_mod_bound(rq.sector as int, m);
    lemma_mod_multiples_basic(rq.sector as int / m, m);
    assert(m * (rq.sector as int / m) == (rq.sector as int / m) * m) by (nonlinear_arith);
}

/// Each of the parts of a request that change can be changed by itself.
pub proof fn law_request_parts<T: RequestTypes>(
    rq: Request<T>,
    count: i32,
    state: RequestState,
    data: T::RequestData,
)
    ensures
        rq.count() == rq.wrapper.refcount.count,
        rq.addr() == rq.ptr,
        ({
            let r = rq.with_count(count);
            &&& r.wrapper.refcount.count == count
            &&& r.wrapper.data == rq.wrapper.data
            &&& r.state == rq.state
            &&& (r.ptr, r.cmd_flags, r.sector, r.bios) == (rq.ptr, rq.cmd_flags, rq.sector, rq.bios)
        }),
        ({
            let r = rq.with_state(state);
            &&& r.wrapper == rq.wrapper
            &&& r.state == state
            &&& (r.ptr, r.cmd_flags, r.sector, r.bios) == (rq.ptr, rq.cmd_flags, rq.sector, rq.bios)
        }),
        ({
            let r = rq.with_data(data);
            &&& r.wrapper.data == data
            &&& r.wrapper.refcount == rq.wrapper.refcount
            &&& r.state == rq.state
            &&& (r.ptr, r.cmd_flags, r.sector, r.bios) == (rq.ptr, rq.cmd_flags, rq.sector, rq.bios)
        }),
        rq.bio_views().len() == rq.bios@.len(),
        forall|i: int| 0 <= i < rq.bios@.len() ==> #[trigger] rq.bio_views()[i] == rq.bios@[i]@,
        BLK_STS_OK == 0,
{
}

/// The count with one reference less, and 0 where the one reference that was left becomes unique. An
/// attempt is made on the count that was read, and is repeated where the count has changed.
pub proof fn law_drop_steps(count: i32, current: i32)
    requires
        i32::MIN < count,
    ensures
        count != 2 ==> unique_or_dropped(count) + 1 == count,
        unique_or_dropped(2) == 0,
        DropStep::attempt(count) matches DropStep::Exchange { current, new } && current == count
            && new == unique_or_dropped(count),
        DropStep::following(current, Ok(current)) matches DropStep::Done { unique } && unique == (
        current == 2),
        DropStep::following(current, Err(count)) matches DropStep::Exchange { current, new }
            && current == count && new == unique_or_dropped(count),
{
}

/// An exchange puts the new count in the place of the one that it names, leaves any other as it is, and
/// tells the count before either way.
pub proof fn law_exchange(count: i32, current: i32, new: i32)
    ensures
        count == current ==> Refcount::exchanged(count, current, new) == (new, Ok::<i32, i32>(count)),
        count != current ==> Refcount::exchanged(count, current, new) == (
            count,
            Err::<i32, i32>(count),
        ),
{
}

/// What each operation on a reference makes of a count: sharing a unique reference gives one shared
/// reference, and each further one counts one more.
pub proof fn law_counts_of_operations(count: i32, n: nat)
    requires
        0 <= count <= i32::MAX - 2,
    ensures
        RefOp::Share.count(count) == count + 2,
        RefOp::Add.count(count) == count + 1,
        RefOp::Drop.count(count) == count - 1,
        RefOp::TryUnique.count(2) == 0,
        count != 2 ==> RefOp::TryUnique.count(count) == count,
        RefOp::UniqueOrDrop.count(2) == 0,
        count != 2 ==> RefOp::UniqueOrDrop.count(count) == count - 1,
        RefOp::DropUnique.count(count) == 1,
        RefOp::End.count(count) == count,
        Holders::BlockLayer.count() == 0,
        Holders::Unique.count() == 0,
        Holders::Shared(n).count() == n + 1,
{
}

/// The private area lies directly behind the request, and the driver data at its offset in it.
pub proof fn law_layout(layout: RequestLayout, ptr: int)
    ensures
        layout.wrapper_addr(ptr) == ptr + layout.request_size,
        layout.data_addr(ptr) == ptr + layout.request_size + layout.data_offset,
{
}

/// Starting the timer of a request, cancelling it and letting go of its handle change the timer and the
/// count, and nothing else. The timer runs with the time that it was started with.
pub proof fn law_request_timer<T>(
    rq: Request<T>,
    this: ARef<Request<T>>,
    handle: RequestTimerHandle<T>,
    expires: Ktime,
) where T: RequestTypes, T::RequestData: HasHrTimer<T>
    ensures
        this.points_to(rq) <==> this.ptr == rq.ptr,
        handle.is_for(rq) <==> handle.inner.ptr == rq.ptr,
        RequestTimerHandle::<T>::is_running(rq) <==> rq.wrapper.data.timer().timer.expiry is Some,
        ({
            let r = ARef::<Request<T>>::started(rq, expires);
            let timer = rq.wrapper.data.timer();
            &&& r.wrapper.data.timer().timer.expiry == Some(
                Expiry { tim: expires.ns, delta_ns: 0, mode: timer.mode.word() },
            )
            &&& r.wrapper.data.timer().timer.clock == timer.timer.clock
            &&& r.wrapper.data.timer().timer.mode == timer.timer.mode
            &&& r.wrapper.data.timer().mode == timer.mode
            &&& r == rq.with_data(rq.wrapper.data.with_timer(r.wrapper.data.timer()))
        }),
        ({
            let r = RequestTimerHandle::<T>::cancelled(rq);
            let timer = rq.wrapper.data.timer();
            &&& r.wrapper.data.timer().timer.expiry is None
            &&& r.wrapper.data.timer().timer.clock == timer.timer.clock
            &&& r.wrapper.data.timer().timer.mode == timer.timer.mode
            &&& r.wrapper.data.timer().mode == timer.mode
            &&& r == rq.with_data(rq.wrapper.data.with_timer(r.wrapper.data.timer()))
            &&& rq.count() > i32::MIN ==> handle.released(rq) == r.with_count(
                (rq.count() - 1) as i32,
            )
        }),
{
    let data = rq.wrapper.data;
    data.lemma_with_timer(data.timer().started(expires));
    data.lemma_with_timer(data.timer().stopped());
}

/// When the timer of a request fires it is stopped, and the request has one reference more; when its
/// handler has executed, it runs again exactly where the handler asks for that or has started it.
pub proof fn law_request_timer_fires<T>(
    rq: Request<T>,
    restart: HrTimerRestart,
    expiry: Option<Expiry>,
) where T: RequestTypes, T::RequestData: HasHrTimer<T>
    requires
        rq.count() < i32::MAX,
    ensures
        rq.fired().wrapper.data.timer().timer.expiry is None,
        rq.fired().count() == rq.count() + 1,
        rq.fired().state == rq.state,
        (rq.fired().ptr, rq.fired().cmd_flags, rq.fired().sector, rq.fired().bios) == (
            rq.ptr,
            rq.cmd_flags,
            rq.sector,
            rq.bios,
        ),
        ({
            let r = rq.resumed(restart, expiry);
            let before = rq.wrapper.data.timer().timer.expiry;
            &&& r.wrapper.data.timer().timer.expiry == (if before is None && restart
                == HrTimerRestart::Restart {
                expiry
            } else {
                before
            })
            &&& r.wrapper.refcount == rq.wrapper.refcount
            &&& r.state == rq.state
            &&& (r.ptr, r.cmd_flags, r.sector, r.bios) == (rq.ptr, rq.cmd_flags, rq.sector, rq.bios)
        }),
{
    let data = rq.wrapper.data;
    data.lemma_with_timer(data.timer().stopped());
    data.lemma_with_timer(data.timer().resumed(restart, expiry));
}

/// A block size can be used exactly where it is at least a sector and divides a page.
pub proof fn law_block_sizes(size: int)
    ensures
        valid_block_size(size) <==> 512 <= size && 4096int % size == 0,
{
    if 512 <= size && 4096int % size == 0 {
        let k = 4096int / size;
        assert(size * k == 4096 && 1 <= k <= 8) by (nonlinear_arith)
            requires
                512 <= size,
                4096int % size == 0,
                k == 4096int / size,
        ;
        assert(k == 1 || k == 2 || k == 3 || k == 4 || k == 5 || k == 6 || k == 7 || k == 8);
        assert(k == 1 ==> size * 1 == 4096);
        assert(k == 2 ==> size * 2 == 4096);
        assert(k == 3 ==> size * 3 == 4096);
        assert(k == 4 ==> size * 4 == 4096);
        assert(k == 5 ==> size * 5 == 4096);
        assert(k == 6 ==> size * 6 == 4096);
        assert(k == 7 ==> size * 7 == 4096);
        assert(k == 8 ==> size * 8 == 4096);
    }
}

} // verus!
