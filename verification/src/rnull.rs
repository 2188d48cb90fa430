//! The null block driver.

use crate::block::mq::gen_disk::{valid_block_size, GenDisk, GenDiskBuilder};
use crate::block::mq::request::{Request, RequestState, BLK_STS_OK};
use crate::block::mq::tag_set::TagSet;
use crate::block::mq::{CompleteOperation, Operations, RequestTypes};
use crate::block::SECTOR_SHIFT;
use crate::error::{Error, Result, EINVAL};
use crate::grants::Grants;
use crate::text::from_utf8;
use crate::time::hrtimer::{ClockSource, HasHrTimer, HrTimer, HrTimerCallback, HrTimerMarker};
use crate::time::hrtimer::{HrTimerMode, HrTimerPointer, HrTimerRestart, CLOCK_MONOTONIC};
use crate::time::Ktime;
use crate::types::{ARef, RefCounted, URef, UniqueRefCounted};
use configfs::IRQMode;
use pass::{pass_bios, sectors_in, Pass};
use tree::{Disk, Tree};
use vstd::prelude::*;
use vstd::slice::slice_to_vec;
use vstd::utf8::valid_utf8;

pub mod config_laws;
pub mod configfs;
pub mod laws;
pub mod module;
pub mod pass;
pub mod request_laws;
pub mod transfer;
pub mod tree;

verus! {

/// The number of sectors in `mib` MiB, as far as it can be told in 64 bits.
pub open spec fn sectors_of_mib(mib: u64) -> int {
    (mib * 2048) % 0x1_0000_0000_0000_0000
}

/// The number of sectors in `mib` MiB, as far as it can be told in 64 bits.
fn mib_to_sectors(mib: u64) -> (r: u64)
    ensures
        r == sectors_of_mib(mib),
{
    let r = mib << (20 - SECTOR_SHIFT);
    assert(mib << 11u32 == (mib % 0x20_0000_0000_0000) * 2048) by (bit_vector);
    r
}

/// The null block device.
pub struct NullBlkDevice;

/// What the creation of a device comes to: the error, if there is one, and how many requests the rest
/// of the kernel still grants.
pub struct Outcome {
    pub error: Option<Error>,
    pub left: int,
}

/// What the creation of a device comes to, where `nodes` NUMA nodes are online and the rest of the
/// kernel grants `left` requests before it refuses one with `refusal`. The home node is checked
/// first; then the tag set and the queue data are allocated; then the block size and the name are
/// checked; then the disk is registered.
pub open spec fn device_outcome(
    name: Seq<u8>,
    block_size: u32,
    home_node: i32,
    nodes: u32,
    left: int,
    refusal: Error,
) -> Outcome {
    if nodes > i32::MAX || home_node > nodes {
        Outcome { error: Some(Error(EINVAL)), left }
    } else if left < 2 {
        Outcome { error: Some(refusal), left: 0 }
    } else if !valid_block_size(block_size as int) || !valid_utf8(name) {
        Outcome { error: Some(Error(EINVAL)), left: left - 2 }
    } else if left < 3 {
        Outcome { error: Some(refusal), left: 0 }
    } else {
        Outcome { error: None, left: left - 3 }
    }
}

impl NullBlkDevice {
    /// Creates a device and registers its disk. `nodes` is the number of NUMA nodes that are online.
    pub fn new(
        name: &[u8],
        block_size: u32,
        rotational: bool,
        capacity_mib: u64,
        irq_mode: IRQMode,
        completion_time: Ktime,
        memory_backed: bool,
        submit_queues: u32,
        home_node: i32,
        nodes: u32,
        grants: &mut Grants,
    ) -> (r: Result<GenDisk<NullBlkDevice>>)
        ensures
            ({
                let o = device_outcome(
                    name@,
                    block_size,
                    home_node,
                    nodes,
                    old(grants).left as int,
                    old(grants).refusal,
                );
                &&& final(grants).left == o.left
                &&& match o.error {
                    Some(e) => r == Err::<GenDisk<NullBlkDevice>, Error>(e),
                    None => r is Ok,
                }
            }),
            final(grants).refusal == old(grants).refusal,
            r matches Ok(disk) ==> {
                &&& disk.name@ == name@
                &&& disk.rotational == rotational
                &&& disk.logical_block_size == block_size
                &&& disk.physical_block_size == block_size
                &&& disk.capacity_sectors == sectors_of_mib(capacity_mib)
                &&& capacity_mib * 2048 <= u64::MAX ==> disk.capacity_sectors * 512 == capacity_mib
                    * 1024 * 1024
                &&& disk.tagset == (TagSet {
                    nr_hw_queues: submit_queues,
                    num_tags: 256,
                    num_maps: 1,
                    home_node,
                })
                &&& disk.queue_data.tree.tree@ == Map::<int, Seq<u8>>::empty()
                &&& disk.queue_data.irq_mode == irq_mode
                &&& disk.queue_data.completion_time == completion_time
                &&& disk.queue_data.memory_backed == memory_backed
            },
    {
        if nodes > i32::MAX as u32 {
            return Err(Error(EINVAL));
        }
        if home_node > nodes as i32 {
            return Err(Error(EINVAL));
        }
        match grants.take() {
            Ok(()) => {},
            Err(e) => {
                return Err(e);
            },
        }
        let tagset = TagSet::new(submit_queues, 256, 1, home_node);
        match grants.take() {
            Ok(()) => {},
            Err(e) => {
                return Err(e);
            },
        }
        let queue_data = QueueData {
            tree: TreeContainer::new(),
            irq_mode,
            completion_time,
            memory_backed,
        };
        let builder = GenDiskBuilder::new().capacity_sectors(mib_to_sectors(capacity_mib));
        let builder = match builder.logical_block_size(block_size) {
            Ok(builder) => builder,
            Err(e) => {
                return Err(e);
            },
        };
        let builder = match builder.physical_block_size(block_size) {
            Ok(builder) => builder,
            Err(e) => {
                return Err(e);
            },
        };
        let builder = builder.rotational(rotational);
        match from_utf8(name) {
            Some(_) => {},
            None => {
                return Err(Error(EINVAL));
            },
        }
        builder.build(slice_to_vec(name), tagset, queue_data, grants)
    }
}

/// What becomes of a request whose data has been transferred. It ends at once; or it is completed,
/// and ends unless the block layer takes that on; or its timer is started, with no reference left.
pub open spec fn submitted(
    rq: Request<NullBlkDevice>,
    irq_mode: IRQMode,
    completion_time: Ktime,
    remote: bool,
) -> Request<NullBlkDevice> {
    match irq_mode {
        IRQMode::Direct => rq.with_state(RequestState::Ended(BLK_STS_OK)),
        IRQMode::Soft => if remote {
            rq.with_count(2).with_state(RequestState::Complete)
        } else {
            rq.with_state(RequestState::Ended(BLK_STS_OK))
        },
        IRQMode::Timer => rq.with_data(
            Pdu { timer: rq.wrapper.data.timer.started(completion_time) },
        ).with_count(1),
    }
}

/// What backs the data of a device.
pub struct TreeContainer {
    pub tree: Tree,
}

impl TreeContainer {
    /// A container without pages.
    pub fn new() -> (r: TreeContainer)
        ensures
            r.tree@ == Map::<int, Seq<u8>>::empty(),
    {
        TreeContainer { tree: Tree::new() }
    }
}

/// The data of a queue.
pub struct QueueData {
    pub tree: TreeContainer,
    pub irq_mode: IRQMode,
    pub completion_time: Ktime,
    pub memory_backed: bool,
}

/// The private data of a request.
pub struct Pdu {
    pub timer: HrTimer<NullBlkDevice>,
}

impl HasHrTimer<NullBlkDevice> for Pdu {
    open spec fn timer_offset() -> int {
        0
    }

    open spec fn timer(self) -> HrTimer<NullBlkDevice> {
        self.timer
    }

    open spec fn with_timer(self, timer: HrTimer<NullBlkDevice>) -> Pdu {
        Pdu { timer }
    }

    proof fn lemma_with_timer(self, timer: HrTimer<NullBlkDevice>) {
    }

    fn offset() -> (r: usize) {
        0
    }

    fn timer_mut(&mut self) -> (r: &mut HrTimer<NullBlkDevice>) {
        &mut self.timer
    }
}

impl HrTimerMarker for NullBlkDevice {
    type Struct = Pdu;
}

impl HrTimerCallback for Pdu {
    type CallbackTarget = ARef<Request<NullBlkDevice>>;

    type CallbackTargetParameter = ARef<Request<NullBlkDevice>>;

    type Target = Request<NullBlkDevice>;

    open spec fn callable(
        this: ARef<Request<NullBlkDevice>>,
        target: Request<NullBlkDevice>,
    ) -> bool {
        this.ptr == target.ptr && target.count() == 2
    }

    open spec fn called(
        before: Request<NullBlkDevice>,
        after: Request<NullBlkDevice>,
        r: HrTimerRestart,
    ) -> bool {
        &&& after == before.with_count(0).with_state(RequestState::Ended(BLK_STS_OK))
        &&& r == HrTimerRestart::NoRestart
    }

    fn run(this: ARef<Request<NullBlkDevice>>, target: &mut Request<NullBlkDevice>) -> (r:
        HrTimerRestart) {
        if let Ok(unique) = UniqueRefCounted::try_shared_to_unique(this, target) {
            unique.end_ok();
        }
        HrTimerRestart::NoRestart
    }
}

impl RequestTypes for NullBlkDevice {
    type RequestData = Pdu;
}

impl CompleteOperation for NullBlkDevice {
    open spec fn completable(rq: Request<NullBlkDevice>) -> bool {
        rq.count() == 2
    }

    open spec fn completed(rq: Request<NullBlkDevice>) -> Request<NullBlkDevice> {
        rq.with_count(0).with_state(RequestState::Ended(BLK_STS_OK))
    }

    fn complete(this: ARef<Request<NullBlkDevice>>, rq: &mut Request<NullBlkDevice>) {
        if let Ok(unique) = UniqueRefCounted::try_shared_to_unique(this, rq) {
            unique.end_ok();
        }
    }
}

impl Operations for NullBlkDevice {
    type QueueData = QueueData;

    open spec fn queueable(queue_data: QueueData, rq: Request<NullBlkDevice>) -> bool {
        &&& rq.count() == 0
        &&& queue_data.memory_backed ==> {
            &&& forall|i: int| 0 <= i < rq.bios@.len() ==> (#[trigger] rq.bios@[i])@.wf()
            &&& rq.first_sector() + sectors_in(rq.bio_views()) <= usize::MAX
        }
    }

    /// The data of a new request: a timer that takes a duration, on the monotonic clock.
    fn new_request_data() -> (r: Pdu)
        ensures
            r.timer.mode == HrTimerMode::Relative,
            r.timer.timer.mode == HrTimerMode::Relative.word(),
            r.timer.timer.clock == CLOCK_MONOTONIC,
            !r.timer.is_running(),
    {
        Pdu { timer: HrTimer::new(HrTimerMode::Relative, ClockSource::Monotonic) }
    }

    /// Processes a request. If the device is backed by memory the data is transferred first; if that
    /// fails the request goes back to being unreferenced. Then the request is completed as the
    /// interrupt mode says: at once, in a soft irq, or when the timer of the request expires.
    fn queue_rq(
        queue_data: &mut QueueData,
        rq: URef<'_, Request<NullBlkDevice>>,
        _is_last: bool,
        remote: bool,
        grants: &mut Grants,
    ) -> (r: Result<()>)
        ensures
            ({
                let before = rq.target();
                let disk = Disk { pages: old(queue_data).tree.tree@, left: old(grants).left as int };
                let p = if old(queue_data).memory_backed {
                    pass_bios(
                        before.cmd_flags % 256,
                        disk,
                        before.bio_views(),
                        before.first_sector() as int,
                    )
                } else {
                    Pass { disk, bios: before.bio_views(), ok: true }
                };
                let moved = Request { bios: final(rq.obj).bios, ..before };
                &&& final(queue_data).tree.tree@ == p.disk.pages
                &&& final(grants).left == p.disk.left
                &&& final(rq.obj).bio_views() == p.bios
                &&& r == (if p.ok {
                    Ok::<(), Error>(())
                } else {
                    Err::<(), Error>(old(grants).refusal)
                })
                &&& *final(rq.obj) == (if p.ok {
                    submitted(moved, old(queue_data).irq_mode, old(queue_data).completion_time, remote)
                } else {
                    moved.with_count(1)
                })
            }),
            final(queue_data).irq_mode == old(queue_data).irq_mode,
            final(queue_data).completion_time == old(queue_data).completion_time,
            final(queue_data).memory_backed == old(queue_data).memory_backed,
            final(grants).refusal == old(grants).refusal,
    {
        let obj = rq.obj;
        if queue_data.memory_backed {
            match Self::transfer_request(&mut queue_data.tree.tree, obj, grants) {
                Ok(()) => {},
                Err(e) => {
                    UniqueRefCounted::dec_ref(obj);
                    return Err(e);
                },
            }
        }
        match queue_data.irq_mode {
            IRQMode::Direct => URef { obj }.end_ok(),
            IRQMode::Soft => {
                let this = UniqueRefCounted::unique_to_shared(URef { obj: &mut *obj });
                Request::complete(this, obj, remote);
            },
            IRQMode::Timer => {
                let this = UniqueRefCounted::unique_to_shared(URef { obj: &mut *obj });
                this.start(obj, queue_data.completion_time).dismiss(obj);
            },
        }
        Ok(())
    }

    fn commit_rqs(_queue_data: &QueueData) {
    }
}

} // verus!
