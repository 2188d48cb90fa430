//! What holds of requests in terms of the sectors that they name and the bytes that they carry, and of
//! devices in terms of what was asked for.

use super::configfs::IRQMode;
use super::laws::{absent, all_carry_sectors, bytes_of, carries_sectors, fits};
use super::laws::{law_read, law_write, law_written_bytes, written};
use super::laws::lemma_supply_bound;
use super::pass::{pass_bio, pass_bios, pass_segment, pass_segments, sectors_in, sectors_of};
use super::pass::{BioPass, Pass};
use super::tree::{byte_at, fetch, overlay, pages_wf, supply, touches, Disk, Pages};
use super::{device_outcome, sectors_of_mib, submitted, NullBlkDevice, Pdu, QueueData};
use crate::block::bio::vec::min;
use crate::block::bio::{lemma_extents, lemma_shape_wf, op_stays, total_len, BioView, Extent};
use crate::block::mq::gen_disk::valid_block_size;
use crate::block::mq::request::{Request, RequestState};
use crate::block::mq::{CompleteOperation, Operations};
use crate::error::{Error, EINVAL};
use crate::page::PAGE_SIZE;
use crate::time::hrtimer::{Expiry, Handler, HasHrTimer, HrTimer, HrTimerCallback, HrTimerRestart};
use crate::time::hrtimer::RawHrTimerCallback;
use crate::time::Ktime;
use crate::types::{ARef, RefCounted};
use vstd::prelude::*;
use vstd::utf8::valid_utf8;

verus! {

/// The byte of a device at an address is the one at its place in its page, and 0 where the page is
/// absent.
pub proof fn law_byte_at(pages: Pages, k: int, j: int)
    requires
        0 <= j < 4096,
    ensures
        pages.contains_key(k) ==> byte_at(pages, k * 4096 + j) == pages[k][j],
        !pages.contains_key(k) ==> byte_at(pages, k * 4096 + j) == 0,
{
}

/// The bytes of a device from an address on are its bytes one by one.
pub proof fn law_fetch(pages: Pages, addr: int, len: int)
    requires
        0 <= len,
    ensures
        fetch(pages, addr, len).len() == len,
        forall|i: int| 0 <= i < len ==> #[trigger] fetch(pages, addr, len)[i] == byte_at(
            pages,
            addr + i,
        ),
{
}

/// Putting data on a device brings in the pages that hold some of it, and no others.
pub proof fn law_overlay_pages(pages: Pages, addr: int, data: Seq<u8>, k: int)
    requires
        0 <= addr,
    ensures
        overlay(pages, addr, data).contains_key(k) <==> pages.contains_key(k) || exists|a: int|
            addr <= a < addr + data.len() && #[trigger] (a / 4096) == k,
        pages_wf(overlay(pages, addr, data)),
{
    if touches(addr, data.len() as int, k) {
        let a = if addr / 4096 == k {
            addr
        } else {
            k * 4096
        };
        assert(addr <= a < addr + data.len() && a / 4096 == k);
    }
}

/// The number of absent pages in a range grows by one with each page that is absent.
pub proof fn law_absent(pages: Pages, k: int, end: int)
    requires
        k < end,
    ensures
        absent(pages, end, end) == 0,
        pages.contains_key(k) ==> absent(pages, k, end) == absent(pages, k + 1, end),
        !pages.contains_key(k) ==> absent(pages, k, end) == absent(pages, k + 1, end) + 1,
{
}

/// A write that fails has used up all memory, and stops at the start of a page that is absent, or at
/// its own start.
pub proof fn law_failed_write_stops(disk: Disk, addr: int, len: int)
    requires
        0 <= addr,
        0 < len,
        0 <= disk.left,
        !fits(disk, addr, len),
    ensures
        ({
            let (done, left) = supply(disk.pages, disk.left, addr, len);
            &&& 0 <= done < len
            &&& left == 0
            &&& !disk.pages.contains_key((addr + done) / 4096)
            &&& done == 0 || (addr + done) % 4096 == 0
            &&& absent(disk.pages, addr / 4096, (addr + done) / 4096) == disk.left
        }),
    decreases len,
{
    let n = min(len, PAGE_SIZE - addr % PAGE_SIZE as int);
    let k = addr / PAGE_SIZE as int;
    let need: int = if disk.pages.contains_key(k) {
        0
    } else {
        1
    };
    lemma_supply_bound(disk.pages, disk.left, addr, len);
    if need <= disk.left {
        let rest = Disk { left: disk.left - need, ..disk };
        let more = supply(disk.pages, rest.left, addr + n, len - n);
        assert(supply(disk.pages, disk.left, addr, len) == (n + more.0, more.1));
        assert(n < len);
        assert((addr + n) / PAGE_SIZE as int == k + 1);
        law_failed_write_stops(rest, addr + n, len - n);
        let end = (addr + n + more.0) / 4096;
        assert(k < end);
        assert(absent(disk.pages, k, end) == need + absent(disk.pages, k + 1, end));
    }
}

/// What a command does: 1 writes, 0 reads, and any other does nothing. Only a write can fail.
pub proof fn law_commands(disk: Disk, command: u32, addr: int, data: Seq<u8>)
    ensures
        command == 0 ==> disk.delivered(command, addr, data) == fetch(
            disk.pages,
            addr,
            data.len() as int,
        ),
        command != 0 ==> disk.delivered(command, addr, data) == data,
        command == 1 ==> disk.transferred(command, addr, data) == written(disk, addr, data),
        command != 1 ==> disk.transferred(command, addr, data) == disk,
        command == 1 ==> (disk.accepts(command, addr, data.len() as int) <==> fits(
            disk,
            addr,
            data.len() as int,
        )),
        command != 1 ==> disk.accepts(command, addr, data.len() as int),
        fits(disk, addr, data.len() as int) ==> written(disk, addr, data).pages == overlay(
            disk.pages,
            addr,
            data,
        ),
        ({
            let (done, left) = supply(disk.pages, disk.left, addr, data.len() as int);
            &&& written(disk, addr, data).pages == overlay(disk.pages, addr, data.take(done))
            &&& written(disk, addr, data).left == left
            &&& fits(disk, addr, data.len() as int) <==> done == data.len()
            &&& data.len() == 0 ==> done == 0 && left == disk.left
        }),
{
    assert(data.take(data.len() as int) =~= data);
}

/// A segment is processed at the address of its sector, and the next sector is as many sectors on as
/// fit in the segment.
pub proof fn law_segment_address(command: u32, e: Extent, p: BioPass)
    requires
        0 <= e.len,
    ensures
        ({
            let r = pass_segment(command, e, p);
            let addr = p.sector * 512;
            let data = p.bio.data(e);
            &&& r.disk == p.disk.transferred(command, addr, data)
            &&& r.bio == p.bio.put(e, p.disk.delivered(command, addr, data))
            &&& r.ok == p.disk.accepts(command, addr, e.len)
            &&& (r.sector - p.sector) * 512 <= e.len < (r.sector - p.sector) * 512 + 512
        }),
{
}

/// Segments and bios are processed one after another, each as the one before it has left the device,
/// up to the first that fails.
pub proof fn law_processed_in_order(
    command: u32,
    disk: Disk,
    p: BioPass,
    e: Extent,
    es: Seq<Extent>,
    bio: BioView,
    bios: Seq<BioView>,
    sector: int,
)
    ensures
        pass_segments(command, Seq::empty(), p) == p,
        p.ok ==> pass_segments(command, seq![e] + es, p) == pass_segments(
            command,
            es,
            pass_segment(command, e, p),
        ),
        !p.ok ==> pass_segments(command, seq![e] + es, p) == p,
        pass_bio(command, disk, bio, sector) == pass_segments(
            command,
            bio.extents(),
            BioPass { disk, bio, sector, ok: true },
        ),
        pass_bios(command, disk, Seq::empty(), sector) == (Pass {
            disk,
            bios: Seq::empty(),
            ok: true,
        }),
        ({
            let first = pass_bio(command, disk, bio, sector);
            let rest = pass_bios(command, first.disk, bios, first.sector);
            let all = pass_bios(command, disk, seq![bio] + bios, sector);
            if first.ok {
                all.disk == rest.disk && all.ok == rest.ok && all.bios == seq![first.bio]
                    + rest.bios
            } else {
                all.disk == first.disk && !all.ok && all.bios == seq![first.bio] + bios
            }
        }),
{
    assert((seq![e] + es).drop_first() =~= es);
    assert((seq![bio] + bios).drop_first() =~= bios);
    assert((seq![bio] + bios).update(0, pass_bio(command, disk, bio, sector).bio) =~= seq![
        pass_bio(command, disk, bio, sector).bio,
    ] + bios);
    reveal_with_fuel(pass_bios, 2);
}

/// The bytes of some bios are those of the first and then those of the others.
pub proof fn law_bytes_of(bio: BioView, bios: Seq<BioView>)
    ensures
        bytes_of(Seq::empty()).len() == 0,
        bytes_of(seq![bio] + bios) == bio.bytes() + bytes_of(bios),
{
    assert((seq![bio] + bios).drop_first() =~= bios);
}

proof fn lemma_whole_sectors(es: Seq<Extent>)
    requires
        forall|i: int| 0 <= i < es.len() ==> (#[trigger] es[i]).len % 512 == 0,
    ensures
        total_len(es) % 512 == 0,
    decreases es.len(),
{
    if es.len() > 0 {
        assert forall|i: int| 0 <= i < es.drop_first().len() implies (
        #[trigger] es.drop_first()[i]).len % 512 == 0 by {
            assert(es.drop_first()[i] == es[i + 1]);
        }
        lemma_whole_sectors(es.drop_first());
    }
}

/// The bios of a read or a write whose segments are all made of whole sectors carry whole sectors,
/// whatever flags they have.
pub proof fn law_whole_sectors(bios: Seq<BioView>)
    requires
        forall|i: int|
            0 <= i < bios.len() ==> {
                let bio = #[trigger] bios[i];
                &&& bio.wf()
                &&& bio.opf % 256 == 0 || bio.opf % 256 == 1
                &&& forall|k: int|
                    0 <= k < bio.extents().len() ==> (#[trigger] bio.extents()[k]).len % 512 == 0
            },
    ensures
        all_carry_sectors(bios),
{
    assert forall|i: int| 0 <= i < bios.len() implies carries_sectors(#[trigger] bios[i])
        && bios[i].iter.bi_size as int % 512 == 0 by {
        let bio = bios[i];
        lemma_shape_wf(bio);
        lemma_extents(bio.shape(), op_stays(bio.opf), bio.iter.cursor());
        lemma_whole_sectors(bio.extents());
    }
}

/// A write request that succeeds leaves its bytes at the address of the sector that it names, in bytes
/// from the start of the device, and no request changes bytes elsewhere.
pub proof fn law_write_request(rq: Request<NullBlkDevice>, disk: Disk)
    requires
        rq.cmd_flags % 256 == 1,
        rq.sector <= usize::MAX,
        all_carry_sectors(rq.bio_views()),
        pages_wf(disk.pages),
    ensures
        ({
            let r = pass_bios(
                rq.cmd_flags % 256,
                disk,
                rq.bio_views(),
                rq.first_sector() as int,
            );
            let addr = rq.sector * 512;
            let data = bytes_of(rq.bio_views());
            &&& r.bios == rq.bio_views()
            &&& r.ok ==> forall|i: int|
                0 <= i < data.len() ==> byte_at(r.disk.pages, addr + i) == #[trigger] data[i]
            &&& forall|a: int|
                0 <= a && !(addr <= a < addr + data.len()) ==> #[trigger] byte_at(r.disk.pages, a)
                    == byte_at(disk.pages, a)
        }),
{
    crate::block::mq::laws::law_first_sector(rq, rq);
    let r = pass_bios(1, disk, rq.bio_views(), rq.sector as int);
    let addr = rq.sector * 512;
    let data = bytes_of(rq.bio_views());
    law_write(disk, rq.bio_views(), rq.sector as int);
    law_written_bytes(disk, rq.bio_views(), rq.sector as int);
    if r.ok {
        assert forall|i: int| 0 <= i < data.len() implies byte_at(r.disk.pages, addr + i)
            == #[trigger] data[i] by {
            assert(fetch(r.disk.pages, addr, data.len() as int)[i] == data[i]);
        }
    }
}

/// A read request fills its bios with the bytes of the device from the address of the sector that it
/// names on, and leaves the device as it is.
pub proof fn law_read_request(rq: Request<NullBlkDevice>, disk: Disk)
    requires
        rq.cmd_flags % 256 == 0,
        rq.sector <= usize::MAX,
        all_carry_sectors(rq.bio_views()),
    ensures
        ({
            let r = pass_bios(
                rq.cmd_flags % 256,
                disk,
                rq.bio_views(),
                rq.first_sector() as int,
            );
            let addr = rq.sector * 512;
            &&& r.ok
            &&& r.disk == disk
            &&& bytes_of(r.bios).len() == bytes_of(rq.bio_views()).len()
            &&& forall|i: int|
                0 <= i < bytes_of(r.bios).len() ==> #[trigger] bytes_of(r.bios)[i] == byte_at(
                    disk.pages,
                    addr + i,
                )
        }),
{
    crate::block::mq::laws::law_first_sector(rq, rq);
    law_read(disk, rq.bio_views(), rq.sector as int);
}

/// Processing segments moves on by no more sectors than their bytes fill.
proof fn lemma_sectors_of(es: Seq<Extent>)
    requires
        forall|i: int| 0 <= i < es.len() ==> 0 <= (#[trigger] es[i]).len,
    ensures
        0 <= sectors_of(es) * 512 <= total_len(es),
    decreases es.len(),
{
    if es.len() > 0 {
        assert forall|i: int| 0 <= i < es.drop_first().len() implies 0 <= (
        #[trigger] es.drop_first()[i]).len by {
            assert(es.drop_first()[i] == es[i + 1]);
        }
        lemma_sectors_of(es.drop_first());
    }
}

/// The number of bytes that some bios have left.
pub open spec fn sizes(bios: Seq<BioView>) -> int
    decreases bios.len(),
{
    if bios.len() == 0 {
        0
    } else {
        bios[0].iter.bi_size + sizes(bios.drop_first())
    }
}

proof fn lemma_sectors_in(bios: Seq<BioView>)
    requires
        forall|i: int| 0 <= i < bios.len() ==> (#[trigger] bios[i]).wf(),
    ensures
        0 <= sectors_in(bios) * 512 <= sizes(bios),
    decreases bios.len(),
{
    if bios.len() > 0 {
        let bio = bios[0];
        lemma_shape_wf(bio);
        lemma_extents(bio.shape(), op_stays(bio.opf), bio.iter.cursor());
        assert forall|i: int| 0 <= i < bio.extents().len() implies 0 <= (
        #[trigger] bio.extents()[i]).len by {
            assert(crate::block::bio::extent_wf(bio.shape(), bio.extents()[i]));
        }
        lemma_sectors_of(bio.extents());
        lemma_sectors_in(bios.drop_first());
    }
}

/// A request to which there is a unique reference can be queued, if the device is not backed by memory,
/// or if its bios are good and its last sector can be told in a `usize`.
pub proof fn law_queueable(queue: QueueData, rq: Request<NullBlkDevice>)
    ensures
        NullBlkDevice::queueable(queue, rq) ==> rq.count() == 0,
        rq.count() == 0 && !queue.memory_backed ==> NullBlkDevice::queueable(queue, rq),
        rq.count() == 0 && (forall|i: int|
            0 <= i < rq.bios@.len() ==> (#[trigger] rq.bios@[i])@.wf()) && rq.first_sector()
            + sizes(rq.bio_views()) / 512 <= usize::MAX ==> NullBlkDevice::queueable(queue, rq),
{
    if forall|i: int| 0 <= i < rq.bios@.len() ==> (#[trigger] rq.bios@[i])@.wf() {
        let views = rq.bio_views();
        assert forall|i: int| 0 <= i < views.len() implies (#[trigger] views[i]).wf() by {
            assert(rq.bios@[i]@.wf());
        }
        lemma_sectors_in(views);
    }
}

/// What becomes of a request, part by part. In every mode its bios, its command, its sector and its
/// address stay as they are. At once: it ends without errors. In a soft irq: it is complete, with one
/// shared reference for the completion, or it ends without errors. By a timer: its timer runs with
/// exactly the completion time of the queue, and no reference is left.
pub proof fn law_submitted(
    rq: Request<NullBlkDevice>,
    irq_mode: IRQMode,
    completion_time: Ktime,
    remote: bool,
)
    requires
        rq.count() == 0,
    ensures
        ({
            let s = submitted(rq, irq_mode, completion_time, remote);
            let timer = rq.wrapper.data.timer;
            &&& (s.ptr, s.cmd_flags, s.sector, s.bios) == (rq.ptr, rq.cmd_flags, rq.sector, rq.bios)
            &&& s.wrapper.data.timer.mode == timer.mode
            &&& s.wrapper.data.timer.timer.clock == timer.timer.clock
            &&& s.wrapper.data.timer.timer.mode == timer.timer.mode
            &&& irq_mode == IRQMode::Timer ==> {
                &&& s.wrapper.data.timer.timer.expiry == Some(
                    Expiry { tim: completion_time.ns, delta_ns: 0, mode: timer.mode.word() },
                )
                &&& s.wrapper.refcount.count == 1
                &&& s.state == rq.state
            }
            &&& irq_mode != IRQMode::Timer ==> s.wrapper.data.timer.timer.expiry
                == timer.timer.expiry
            &&& irq_mode == IRQMode::Soft && remote ==> s.wrapper.refcount.count == 2 && s.state
                == RequestState::Complete
            &&& irq_mode == IRQMode::Direct || irq_mode == IRQMode::Soft && !remote
                ==> s.wrapper.refcount.count == 0 && s.state == RequestState::Ended(0)
        }),
{
}

/// Completing a request ends it without errors, and hands it back to the block layer.
pub proof fn law_completed(
    rq: Request<NullBlkDevice>,
    after: Request<NullBlkDevice>,
    this: ARef<Request<NullBlkDevice>>,
    restart: HrTimerRestart,
)
    ensures
        NullBlkDevice::completable(rq) <==> rq.wrapper.refcount.count == 2,
        ({
            let r = NullBlkDevice::completed(rq);
            &&& r.state == RequestState::Ended(0)
            &&& r.wrapper.refcount.count == 0
            &&& r.wrapper.data == rq.wrapper.data
            &&& (r.ptr, r.cmd_flags, r.sector, r.bios) == (rq.ptr, rq.cmd_flags, rq.sector, rq.bios)
        }),
        Pdu::callable(this, rq) <==> this.ptr == rq.ptr && rq.wrapper.refcount.count == 2,
        Pdu::called(rq, after, restart) <==> after == NullBlkDevice::completed(rq) && restart
            == HrTimerRestart::NoRestart,
{
}

/// A request whose timer fires ends without errors: it goes back to the block layer, its timer is
/// stopped and is not started again, and the rest of it stays as it is.
pub proof fn law_fired_request(
    rq: Request<NullBlkDevice>,
    after: Request<NullBlkDevice>,
    code: u32,
)
    requires
        rq.count() == 1,
        Handler::<NullBlkDevice>::called(rq, after, code),
    ensures
        after.state == RequestState::Ended(0),
        after.wrapper.refcount.count == 0,
        after.wrapper.data.timer.timer.expiry is None,
        after.wrapper.data.timer.mode == rq.wrapper.data.timer.mode,
        after.wrapper.data.timer.timer.clock == rq.wrapper.data.timer.timer.clock,
        (after.ptr, after.cmd_flags, after.sector, after.bios) == (
            rq.ptr,
            rq.cmd_flags,
            rq.sector,
            rq.bios,
        ),
        code == 0,
{
}

/// Every page that is there holds 4096 bytes.
pub proof fn law_pages_wf(pages: Pages)
    ensures
        pages_wf(pages) <==> forall|k: int| #[trigger]
            pages.contains_key(k) ==> pages[k].len() == 4096,
{
}

/// The timer of a request is the only part of its data, and comes first.
pub proof fn law_pdu(pdu: Pdu, timer: HrTimer<NullBlkDevice>)
    ensures
        <Pdu as HasHrTimer<NullBlkDevice>>::timer_offset() == 0,
        HasHrTimer::timer(pdu) == pdu.timer,
        pdu.with_timer(timer).timer == timer,
{
}

/// The capacity in sectors of so many MiB holds exactly as many bytes, wherever it can be told in 64
/// bits. Where it cannot, the low bits are kept.
pub proof fn law_capacity(mib: u64)
    ensures
        mib * 2048 <= u64::MAX ==> sectors_of_mib(mib) * 512 == mib * 1024 * 1024,
        0 <= sectors_of_mib(mib) <= u64::MAX,
        (mib * 2048 - sectors_of_mib(mib)) % 0x1_0000_0000_0000_0000 == 0,
{
}

/// When a device is created, and which error it is when it is not. It is created exactly where the home
/// node is one that is online, the block size can be used, the name is valid, and three requests are
/// granted, which are then used up. A home node that is not online is refused before anything is asked
/// for. With enough granted, every other failure is an invalid argument, after two requests; an error
/// of the rest of the kernel comes only where it grants fewer than three.
pub proof fn law_device_outcome(
    name: Seq<u8>,
    block_size: u32,
    home_node: i32,
    nodes: u32,
    left: int,
    refusal: Error,
)
    requires
        0 <= left,
    ensures
        ({
            let o = device_outcome(name, block_size, home_node, nodes, left, refusal);
            let online = nodes <= 0x7fff_ffff && home_node <= nodes;
            let valid = valid_block_size(block_size as int) && valid_utf8(name);
            &&& o.error is None <==> online && valid && left >= 3
            &&& o.error is None ==> o.left == left - 3
            &&& !online ==> o.error == Some(Error(EINVAL)) && o.left == left
            &&& online && left < 2 ==> o.error == Some(refusal) && o.left == 0
            &&& online && left >= 2 && !valid ==> o.error == Some(Error(EINVAL)) && o.left
                == left - 2
            &&& online && left == 2 && valid ==> o.error == Some(refusal) && o.left == 0
        }),
{
}

} // verus!
