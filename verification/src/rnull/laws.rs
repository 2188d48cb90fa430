//! What holds of requests to a device that is backed by memory.

use super::configfs::IRQMode;
use super::pass::{pass_bio, pass_bios, pass_segment, pass_segments, BioPass};
use super::tree::{byte_at, fetch, lemma_overlay_append, lemma_overlay_empty, overlay, pages_wf, supply};
use super::tree::{touches, Disk, Pages};
use super::{submitted, NullBlkDevice, Pdu};
use crate::block::bio::data::{disjoint, lemma_bytes_step, lemma_first_disjoint, lemma_put};
use crate::block::bio::data::law_segments_are_the_bytes;
use crate::block::bio::vec::min;
use crate::block::bio::{cursor_wf, extent_at, extent_wf, extents, lemma_extents, lemma_shape_wf};
use crate::block::bio::{lemma_step_wf, op_stays, step, BioView, Cursor, Extent};
use crate::block::bio::{REQ_OP_READ, REQ_OP_WRITE};
use crate::block::mq::request::{Request, RequestLayout, RequestState, BLK_STS_OK};
use crate::block::mq::CompleteOperation;
use crate::block::SECTOR_SIZE;
use crate::page::{zeroes, PAGE_SIZE};
use crate::time::hrtimer::{Handler, HasHrTimer, HrTimerCallback, RawHrTimerCallback};
use crate::time::hrtimer::HRTIMER_NORESTART;
use crate::time::Ktime;
use crate::types::{ARef, RefCounted};
use vstd::prelude::*;

verus! {

/// Each segment is made of whole sectors, but for the last one.
pub open spec fn in_sectors(es: Seq<Extent>) -> bool {
    forall|i: int| 0 <= i < es.len() - 1 ==> (#[trigger] es[i]).len % SECTOR_SIZE as int == 0
}

/// What comes behind the first segment is made of whole sectors too, and so is the first segment
/// where anything comes behind it.
proof fn lemma_rest_in_sectors(es: Seq<Extent>)
    requires
        in_sectors(es),
        es.len() > 0,
    ensures
        in_sectors(es.drop_first()),
        es.len() > 1 ==> es[0].len % SECTOR_SIZE as int == 0,
{
    let rest = es.drop_first();
    assert forall|i: int| 0 <= i < rest.len() - 1 implies (#[trigger] rest[i]).len
        % SECTOR_SIZE as int == 0 by {
        assert(rest[i] == es[i + 1]);
    }
}

/// A bio whose data is to be walked through, in segments of whole sectors but for the last one.
pub open spec fn carries_sectors(bio: BioView) -> bool {
    &&& bio.wf()
    &&& !op_stays(bio.opf)
    &&& in_sectors(bio.extents())
}

/// The bytes that have been put into place are there, and no others have changed.
pub proof fn lemma_overlay_bytes(pages: Pages, addr: int, data: Seq<u8>)
    requires
        0 <= addr,
    ensures
        pages_wf(overlay(pages, addr, data)),
        forall|a: int|
            0 <= a ==> #[trigger] byte_at(overlay(pages, addr, data), a) == (if addr <= a < addr
                + data.len() {
                data[a - addr]
            } else {
                byte_at(pages, a)
            }),
{
    let after = overlay(pages, addr, data);
    assert forall|a: int| 0 <= a implies #[trigger] byte_at(after, a) == (if addr <= a < addr
        + data.len() {
        data[a - addr]
    } else {
        byte_at(pages, a)
    }) by {
        let k = a / PAGE_SIZE as int;
        let j = a % PAGE_SIZE as int;
        assert(k * PAGE_SIZE + j == a);
    }
}

/// A write never gets further than its length.
pub proof fn lemma_supply_bound(pages: Pages, left: int, addr: int, len: int)
    requires
        0 <= len,
    ensures
        0 <= supply(pages, left, addr, len).0 <= len,
    decreases len,
{
    if len > 0 {
        let n = min(len, PAGE_SIZE - addr % PAGE_SIZE as int);
        let need: int = if pages.contains_key(addr / PAGE_SIZE as int) {
            0
        } else {
            1
        };
        lemma_supply_bound(pages, left - need, addr + n, len - n);
    }
}

/// How far a write gets depends only on which of the pages that it touches are there.
proof fn lemma_supply_local(p: Pages, q: Pages, left: int, addr: int, len: int)
    requires
        0 <= addr,
        forall|k: int|
            #[trigger] touches(addr, len, k) ==> (p.contains_key(k) <==> q.contains_key(k)),
    ensures
        supply(p, left, addr, len) == supply(q, left, addr, len),
    decreases len,
{
    if len > 0 {
        let n = min(len, PAGE_SIZE - addr % PAGE_SIZE as int);
        let k = addr / PAGE_SIZE as int;
        assert(touches(addr, len, k));
        let need: int = if p.contains_key(k) {
            0
        } else {
            1
        };
        assert forall|j: int| #[trigger] touches(addr + n, len - n, j) implies (p.contains_key(j)
            <==> q.contains_key(j)) by {
            assert(touches(addr, len, j));
        }
        lemma_supply_local(p, q, left - need, addr + n, len - n);
    }
}

/// One write behind another gets as far as both at once.
proof fn lemma_supply_append(pages: Pages, left: int, addr: int, first: Seq<u8>, len: int)
    requires
        0 <= addr,
        0 <= len,
    ensures
        ({
            let m = first.len() as int;
            let one = supply(pages, left, addr, m);
            let two = supply(overlay(pages, addr, first), one.1, addr + m, len);
            supply(pages, left, addr, m + len) == if one.0 < m {
                one
            } else {
                (m + two.0, two.1)
            }
        }),
    decreases first.len(),
{
    let m = first.len() as int;
    let after = overlay(pages, addr, first);
    lemma_supply_bound(pages, left, addr, m);
    if m == 0 {
        lemma_supply_local(pages, after, left, addr, len);
    } else {
        let room = PAGE_SIZE - addr % PAGE_SIZE as int;
        let k = addr / PAGE_SIZE as int;
        let need: int = if pages.contains_key(k) {
            0
        } else {
            1
        };
        if need <= left {
            if room < m {
                let rest = first.skip(room);
                let mid = overlay(pages, addr + room, rest);
                lemma_supply_append(pages, left - need, addr + room, rest, len);
                let one = supply(pages, left - need, addr + room, m - room);
                assert forall|j: int| #[trigger] touches(addr + m, len, j) implies (
                mid.contains_key(j) <==> after.contains_key(j)) by {}
                lemma_supply_local(mid, after, one.1, addr + m, len);
                lemma_supply_bound(pages, left - need, addr + room, m - room);
            } else {
                // The first write ends in this page, at its end or before it.
                assert(supply(pages, left, addr, m) == (m, left - need)) by {
                    assert(supply(pages, left - need, addr + m, 0) == (0int, left - need));
                }
                if len > 0 && m < room {
                    let c = min(m + len, room);
                    assert((addr + m) / PAGE_SIZE as int == k);
                    assert(after.contains_key(k)) by {
                        assert(touches(addr, m, k));
                    }
                    assert forall|j: int| #[trigger]
                        touches(addr + c, m + len - c, j) implies (pages.contains_key(j)
                        <==> after.contains_key(j)) by {}
                    lemma_supply_local(pages, after, left - need, addr + c, m + len - c);
                } else if len > 0 {
                    assert forall|j: int| #[trigger] touches(addr + m, len, j) implies (
                    pages.contains_key(j) <==> after.contains_key(j)) by {}
                    lemma_supply_local(pages, after, left - need, addr + m, len);
                }
            }
        }
    }
}

/// What a read of the segments from a position on leaves behind.
proof fn lemma_read(c: Cursor, p: BioPass)
    requires
        p.ok,
        p.bio.wf(),
        cursor_wf(p.bio.shape(), false, c),
        in_sectors(extents(p.bio.shape(), false, c)),
        0 <= p.sector,
    ensures
        ({
            let es = extents(p.bio.shape(), false, c);
            let r = pass_segments(REQ_OP_READ, es, p);
            &&& r.ok
            &&& r.disk == p.disk
            &&& r.sector == p.sector + c.size / SECTOR_SIZE as int
            &&& r.bio.wf()
            &&& r.bio.shape() == p.bio.shape()
            &&& r.bio.iter == p.bio.iter
            &&& r.bio.opf == p.bio.opf
            &&& r.bio.bytes_at(c) == fetch(p.disk.pages, p.sector * SECTOR_SIZE, c.size)
            &&& forall|f: Extent|
                extent_wf(p.bio.shape(), f) && (forall|i: int|
                    0 <= i < es.len() ==> disjoint(#[trigger] es[i], f)) ==> #[trigger] r.bio.data(f)
                    == p.bio.data(f)
        }),
    decreases c.size, p.bio.vecs.len() - c.idx,
{
    let shape = p.bio.shape();
    let es = extents(shape, false, c);
    lemma_shape_wf(p.bio);
    if c.size > 0 {
        let e = extent_at(shape, c);
        let next = step(shape, false, c, e.len);
        lemma_step_wf(shape, false, c);
        lemma_extents(shape, false, c);
        lemma_first_disjoint(shape, c);
        let rest = extents(shape, false, next);
        assert(es.drop_first() =~= rest);
        assert(es[0] == e);
        assert(extent_wf(shape, es[0]));
        let addr = p.sector * SECTOR_SIZE;
        let got = fetch(p.disk.pages, addr, e.len);
        let q = pass_segment(REQ_OP_READ, e, p);
        lemma_put(p.bio, e, got);
        lemma_rest_in_sectors(es);
        if next.size > 0 {
            assert(es.len() > 1);
        }
        lemma_read(next, q);
        let r = pass_segments(REQ_OP_READ, es, p);
        assert(r == pass_segments(REQ_OP_READ, rest, q));
        assert(r.bio.data(e) == got) by {
            assert forall|i: int| 0 <= i < rest.len() implies disjoint(#[trigger] rest[i], e) by {
                assert(disjoint(e, rest[i]));
            }
        }
        lemma_bytes_step(r.bio, c);
        assert(r.bio.bytes_at(c) =~= fetch(p.disk.pages, addr, c.size));
        assert forall|f: Extent|
            extent_wf(shape, f) && (forall|i: int|
                0 <= i < es.len() ==> disjoint(#[trigger] es[i], f)) implies #[trigger] r.bio.data(
            f,
        ) == p.bio.data(f) by {
            assert forall|i: int| 0 <= i < rest.len() implies disjoint(#[trigger] rest[i], f) by {
                assert(rest[i] == es[i + 1]);
            }
            assert(disjoint(es[0], f));
            assert(q.bio.data(f) == p.bio.data(f));
        }
    } else {
        assert(p.bio.bytes_at(c) =~= fetch(p.disk.pages, p.sector * SECTOR_SIZE, c.size));
    }
}

/// The device after a write of `data` at `addr` that gets as far as the pages allow.
pub open spec fn written(disk: Disk, addr: int, data: Seq<u8>) -> Disk {
    let (done, left) = supply(disk.pages, disk.left, addr, data.len() as int);
    Disk { pages: overlay(disk.pages, addr, data.take(done)), left }
}

/// A write of `len` bytes at `addr` gets to its end.
pub open spec fn fits(disk: Disk, addr: int, len: int) -> bool {
    supply(disk.pages, disk.left, addr, len).0 == len
}

/// One write behind another comes to the same as both at once, unless the first does not get to its
/// end.
proof fn lemma_written_append(disk: Disk, addr: int, first: Seq<u8>, second: Seq<u8>)
    requires
        0 <= addr,
    ensures
        ({
            let all = first + second;
            let mid = written(disk, addr, first);
            let at = addr + first.len();
            if fits(disk, addr, first.len() as int) {
                &&& written(disk, addr, all) == written(mid, at, second)
                &&& fits(disk, addr, all.len() as int) == fits(mid, at, second.len() as int)
            } else {
                &&& written(disk, addr, all) == mid
                &&& !fits(disk, addr, all.len() as int)
            }
        }),
{
    let all = first + second;
    let m = first.len() as int;
    let n = second.len() as int;
    let (done, left) = supply(disk.pages, disk.left, addr, m);
    lemma_supply_append(disk.pages, disk.left, addr, first, n);
    lemma_supply_bound(disk.pages, disk.left, addr, m);
    assert(all.len() == m + n);
    if done == m {
        assert(first.take(m) =~= first);
        let mid = overlay(disk.pages, addr, first);
        let two = supply(mid, left, addr + m, n);
        lemma_supply_bound(mid, left, addr + m, n);
        lemma_overlay_append(disk.pages, addr, first, second.take(two.0));
        assert(all.take(m + two.0) =~= first + second.take(two.0));
    } else {
        assert(all.take(done) =~= first.take(done));
    }
}

/// A write of nothing gets to its end and changes nothing.
proof fn lemma_written_nothing(disk: Disk, addr: int)
    requires
        pages_wf(disk.pages),
    ensures
        written(disk, addr, Seq::empty()) == disk,
        fits(disk, addr, 0),
{
    lemma_overlay_empty(disk.pages, addr);
    assert(Seq::<u8>::empty().take(0) =~= Seq::empty());
}

/// What a write of the segments from a position on leaves behind.
proof fn lemma_write(c: Cursor, p: BioPass)
    requires
        p.ok,
        p.bio.wf(),
        cursor_wf(p.bio.shape(), false, c),
        in_sectors(extents(p.bio.shape(), false, c)),
        pages_wf(p.disk.pages),
        0 <= p.sector,
    ensures
        ({
            let r = pass_segments(REQ_OP_WRITE, extents(p.bio.shape(), false, c), p);
            let addr = p.sector * SECTOR_SIZE;
            let bytes = p.bio.bytes_at(c);
            &&& r.bio == p.bio
            &&& r.disk == written(p.disk, addr, bytes)
            &&& r.ok == fits(p.disk, addr, bytes.len() as int)
            &&& r.ok ==> r.sector == p.sector + c.size / SECTOR_SIZE as int
        }),
    decreases c.size, p.bio.vecs.len() - c.idx,
{
    let shape = p.bio.shape();
    let es = extents(shape, false, c);
    let addr = p.sector * SECTOR_SIZE;
    lemma_shape_wf(p.bio);
    if c.size > 0 {
        let e = extent_at(shape, c);
        let next = step(shape, false, c, e.len);
        lemma_step_wf(shape, false, c);
        lemma_extents(shape, false, c);
        let rest = extents(shape, false, next);
        assert(es.drop_first() =~= rest);
        assert(es[0] == e);
        assert(extent_wf(shape, es[0]));
        let data = p.bio.data(e);
        let v = p.bio.vecs[e.vec];
        assert(v.wf());
        assert(v.pages[e.page].len() == PAGE_SIZE);
        assert(data.len() == e.len);
        let q = pass_segment(REQ_OP_WRITE, e, p);
        lemma_put(p.bio, e, data);
        lemma_rest_in_sectors(es);
        let r = pass_segments(REQ_OP_WRITE, es, p);
        assert(r == pass_segments(REQ_OP_WRITE, rest, q));
        lemma_bytes_step(p.bio, c);
        assert(q.disk == written(p.disk, addr, data));
        if next.size > 0 {
            assert(es.len() > 1);
            lemma_written_append(p.disk, addr, data, p.bio.bytes_at(next));
            if q.ok {
                lemma_overlay_bytes(p.disk.pages, addr, data.take(e.len));
                lemma_write(next, q);
            }
        } else {
            assert(p.bio.bytes_at(c) =~= data);
        }
    } else {
        lemma_overlay_empty(p.disk.pages, addr);
        assert(p.bio.bytes_at(c).take(0) =~= Seq::empty());
    }
}

/// The bytes of some bios, one behind another.
pub open spec fn bytes_of(bios: Seq<BioView>) -> Seq<u8>
    decreases bios.len(),
{
    if bios.len() == 0 {
        Seq::empty()
    } else {
        bios[0].bytes() + bytes_of(bios.drop_first())
    }
}

/// Every bio carries whole sectors, but for the last one that carries anything.
pub open spec fn all_carry_sectors(bios: Seq<BioView>) -> bool {
    &&& forall|i: int| 0 <= i < bios.len() ==> carries_sectors(#[trigger] bios[i])
    &&& forall|i: int, j: int|
        0 <= i < j < bios.len() && 0 < (#[trigger] bios[j]).iter.bi_size ==> (
        #[trigger] bios[i]).iter.bi_size as int % SECTOR_SIZE as int == 0
}

/// What comes behind the first bio carries whole sectors too.
proof fn lemma_rest_carries_sectors(bios: Seq<BioView>)
    requires
        all_carry_sectors(bios),
        bios.len() > 0,
    ensures
        carries_sectors(bios[0]),
        all_carry_sectors(bios.drop_first()),
{
    let rest = bios.drop_first();
    assert forall|i: int| 0 <= i < rest.len() implies carries_sectors(#[trigger] rest[i]) by {
        assert(rest[i] == bios[i + 1]);
    }
    assert forall|i: int, j: int|
        0 <= i < j < rest.len() && 0 < (#[trigger] rest[j]).iter.bi_size implies (
    #[trigger] rest[i]).iter.bi_size as int % SECTOR_SIZE as int == 0 by {
        assert(rest[i] == bios[i + 1] && rest[j] == bios[j + 1]);
    }
}

/// A bio with bytes behind it carries whole sectors.
proof fn lemma_carry_rest(bios: Seq<BioView>)
    requires
        all_carry_sectors(bios),
        bios.len() > 0,
    ensures
        carries_sectors(bios[0]),
        all_carry_sectors(bios.drop_first()),
        bytes_of(bios.drop_first()).len() > 0 ==> bios[0].iter.bi_size as int % SECTOR_SIZE as int
            == 0,
{
    let rest = bios.drop_first();
    lemma_rest_carries_sectors(bios);
    if bytes_of(rest).len() > 0 {
        let j = lemma_bytes_somewhere(rest);
        assert(0 < bios[j + 1].iter.bi_size);
    }
}

/// Where there are bytes, one of the bios has them.
proof fn lemma_bytes_somewhere(bios: Seq<BioView>) -> (j: int)
    requires
        all_carry_sectors(bios),
        bytes_of(bios).len() > 0,
    ensures
        0 <= j < bios.len(),
        0 < bios[j].iter.bi_size,
    decreases bios.len(),
{
    lemma_rest_carries_sectors(bios);
    law_segments_are_the_bytes(bios[0]);
    if 0 < bios[0].iter.bi_size {
        0
    } else {
        lemma_bytes_somewhere(bios.drop_first()) + 1
    }
}

/// A read fills the bios of the request with the bytes of the device, and leaves the device as it
/// is.
pub proof fn law_read(disk: Disk, bios: Seq<BioView>, sector: int)
    requires
        all_carry_sectors(bios),
        0 <= sector,
    ensures
        ({
            let r = pass_bios(REQ_OP_READ, disk, bios, sector);
            &&& r.ok
            &&& r.disk == disk
            &&& r.bios.len() == bios.len()
            &&& bytes_of(r.bios) == fetch(
                disk.pages,
                sector * SECTOR_SIZE,
                bytes_of(bios).len() as int,
            )
        }),
    decreases bios.len(),
{
    let r = pass_bios(REQ_OP_READ, disk, bios, sector);
    let addr = sector * SECTOR_SIZE;
    if bios.len() > 0 {
        let bio = bios[0];
        lemma_carry_rest(bios);
        let p = pass_bio(REQ_OP_READ, disk, bio, sector);
        lemma_read(bio.iter.cursor(), BioPass { disk, bio, sector, ok: true });
        law_segments_are_the_bytes(bio);
        law_read(disk, bios.drop_first(), p.sector);
        let rest = pass_bios(REQ_OP_READ, disk, bios.drop_first(), p.sector);
        assert(r.bios.drop_first() =~= rest.bios);
        assert(bytes_of(r.bios) =~= fetch(disk.pages, addr, bytes_of(bios).len() as int));
    } else {
        assert(bytes_of(r.bios) =~= fetch(disk.pages, addr, 0));
    }
}

/// A write request is one write of the bytes of its bios, however they are spread over bios, IO
/// vectors and pages: it goes page by page up to the first page that is absent and cannot be
/// allocated. The bios are left as they are.
pub proof fn law_write(disk: Disk, bios: Seq<BioView>, sector: int)
    requires
        all_carry_sectors(bios),
        pages_wf(disk.pages),
        0 <= sector,
    ensures
        ({
            let r = pass_bios(REQ_OP_WRITE, disk, bios, sector);
            let addr = sector * SECTOR_SIZE;
            &&& r.bios == bios
            &&& r.disk == written(disk, addr, bytes_of(bios))
            &&& r.ok == fits(disk, addr, bytes_of(bios).len() as int)
        }),
    decreases bios.len(),
{
    let r = pass_bios(REQ_OP_WRITE, disk, bios, sector);
    let addr = sector * SECTOR_SIZE;
    if bios.len() > 0 {
        let bio = bios[0];
        lemma_carry_rest(bios);
        let p = pass_bio(REQ_OP_WRITE, disk, bio, sector);
        lemma_write(bio.iter.cursor(), BioPass { disk, bio, sector, ok: true });
        law_segments_are_the_bytes(bio);
        lemma_written_append(disk, addr, bio.bytes(), bytes_of(bios.drop_first()));
        if p.ok {
            lemma_overlay_bytes(disk.pages, addr, bio.bytes().take(bio.bytes().len() as int));
            law_write(p.disk, bios.drop_first(), p.sector);
            if bytes_of(bios.drop_first()).len() == 0 {
                lemma_written_nothing(p.disk, p.sector * SECTOR_SIZE);
                lemma_written_nothing(p.disk, addr + bio.bytes().len());
                assert(bytes_of(bios.drop_first()) =~= Seq::empty());
            }
        }
        assert(r.bios =~= bios);
    } else {
        lemma_overlay_empty(disk.pages, addr);
        assert(bytes_of(bios).take(0) =~= Seq::empty());
    }
}

/// A write request that succeeds leaves its bytes on the device. Whether or not it succeeds, the
/// bytes of the device outside its range stay as they are.
pub proof fn law_written_bytes(disk: Disk, bios: Seq<BioView>, sector: int)
    requires
        all_carry_sectors(bios),
        pages_wf(disk.pages),
        0 <= sector,
    ensures
        ({
            let r = pass_bios(REQ_OP_WRITE, disk, bios, sector);
            let addr = sector * SECTOR_SIZE;
            let data = bytes_of(bios);
            &&& pages_wf(r.disk.pages)
            &&& r.ok ==> fetch(r.disk.pages, addr, data.len() as int) == data
            &&& forall|a: int|
                0 <= a && !(addr <= a < addr + data.len()) ==> #[trigger] byte_at(r.disk.pages, a)
                    == byte_at(disk.pages, a)
        }),
{
    let r = pass_bios(REQ_OP_WRITE, disk, bios, sector);
    let addr = sector * SECTOR_SIZE;
    let data = bytes_of(bios);
    law_write(disk, bios, sector);
    let done = supply(disk.pages, disk.left, addr, data.len() as int).0;
    lemma_supply_bound(disk.pages, disk.left, addr, data.len() as int);
    lemma_overlay_bytes(disk.pages, addr, data.take(done));
    if r.ok {
        assert(data.take(done) =~= data);
        assert(fetch(r.disk.pages, addr, data.len() as int) =~= data);
    }
}

/// The number of absent pages among those with numbers from `k` up to but not including `end`.
pub open spec fn absent(pages: Pages, k: int, end: int) -> int
    decreases end - k,
{
    if k >= end {
        0
    } else {
        (if pages.contains_key(k) {
            0
        } else {
            1int
        }) + absent(pages, k + 1, end)
    }
}

/// A write gets to its end exactly where there is memory for every absent page that it touches.
pub proof fn law_write_needs_absent_pages(disk: Disk, addr: int, len: int)
    requires
        0 <= addr,
        0 < len,
        0 <= disk.left,
    ensures
        ({
            let need = absent(
                disk.pages,
                addr / PAGE_SIZE as int,
                (addr + len - 1) / PAGE_SIZE as int + 1,
            );
            &&& fits(disk, addr, len) <==> need <= disk.left
            &&& fits(disk, addr, len) ==> supply(disk.pages, disk.left, addr, len).1 == disk.left
                - need
        }),
    decreases len,
{
    let n = min(len, PAGE_SIZE - addr % PAGE_SIZE as int);
    let k = addr / PAGE_SIZE as int;
    let end = (addr + len - 1) / PAGE_SIZE as int + 1;
    let need: int = if disk.pages.contains_key(k) {
        0
    } else {
        1
    };
    lemma_absent_nonneg(disk.pages, k + 1, end);
    if need <= disk.left {
        let rest = Disk { left: disk.left - need, ..disk };
        lemma_supply_bound(disk.pages, rest.left, addr + n, len - n);
        if n < len {
            assert((addr + n) / PAGE_SIZE as int == k + 1);
            law_write_needs_absent_pages(rest, addr + n, len - n);
        } else {
            assert(end == k + 1);
        }
    }
}

proof fn lemma_absent_nonneg(pages: Pages, k: int, end: int)
    ensures
        absent(pages, k, end) >= 0,
    decreases end - k,
{
    if k < end {
        lemma_absent_nonneg(pages, k + 1, end);
    }
}

/// A read gives back what was written: where a write succeeds, a read of the same sectors that
/// follows it succeeds and fills its bios with the bytes that the bios of the write held. How the
/// bytes are spread over bios, IO vectors and pages may differ. In both, every segment but the last
/// is made of whole sectors: the place of a segment on the device is counted in sectors.
pub proof fn law_read_after_write(
    disk: Disk,
    source: Seq<BioView>,
    target: Seq<BioView>,
    sector: int,
)
    requires
        all_carry_sectors(source),
        all_carry_sectors(target),
        bytes_of(target).len() == bytes_of(source).len(),
        pages_wf(disk.pages),
        0 <= sector,
        pass_bios(REQ_OP_WRITE, disk, source, sector).ok,
    ensures
        ({
            let w = pass_bios(REQ_OP_WRITE, disk, source, sector);
            let r = pass_bios(REQ_OP_READ, w.disk, target, sector);
            &&& r.ok
            &&& r.disk == w.disk
            &&& bytes_of(r.bios) == bytes_of(source)
        }),
{
    let w = pass_bios(REQ_OP_WRITE, disk, source, sector);
    law_written_bytes(disk, source, sector);
    law_read(w.disk, target, sector);
}

/// A device to which nothing was written reads as zeroes.
pub proof fn law_new_device_reads_zeroes(left: int, bios: Seq<BioView>, sector: int)
    requires
        all_carry_sectors(bios),
        0 <= sector,
    ensures
        ({
            let r = pass_bios(REQ_OP_READ, Disk { pages: Map::empty(), left }, bios, sector);
            r.ok && bytes_of(r.bios) == zeroes(bytes_of(bios).len())
        }),
{
    law_read(Disk { pages: Map::empty(), left }, bios, sector);
    assert(fetch(Map::empty(), sector * SECTOR_SIZE, bytes_of(bios).len() as int) =~= zeroes(
        bytes_of(bios).len(),
    ));
}

/// Performing a command that neither reads nor writes changes nothing.
proof fn lemma_other_segments(command: u32, c: Cursor, p: BioPass)
    requires
        command != REQ_OP_READ,
        command != REQ_OP_WRITE,
        p.ok,
        p.bio.wf(),
        cursor_wf(p.bio.shape(), op_stays(p.bio.opf), c),
    ensures
        ({
            let es = extents(p.bio.shape(), op_stays(p.bio.opf), c);
            let r = pass_segments(command, es, p);
            r.ok && r.disk == p.disk && r.bio == p.bio
        }),
    decreases c.size, p.bio.vecs.len() - c.idx,
{
    let shape = p.bio.shape();
    let stays = op_stays(p.bio.opf);
    lemma_shape_wf(p.bio);
    if c.size > 0 {
        let e = extent_at(shape, c);
        let next = step(shape, stays, c, e.len);
        lemma_step_wf(shape, stays, c);
        lemma_extents(shape, stays, c);
        let es = extents(shape, stays, c);
        assert(es.drop_first() =~= extents(shape, stays, next));
        assert(es[0] == e);
        assert(extent_wf(shape, es[0]));
        let v = p.bio.vecs[e.vec];
        assert(v.wf());
        assert(v.pages[e.page].len() == PAGE_SIZE);
        lemma_put(p.bio, e, p.bio.data(e));
        lemma_other_segments(command, next, pass_segment(command, e, p));
    }
}

/// A request that neither reads nor writes succeeds, and changes neither the device nor its bios.
pub proof fn law_other_commands(command: u32, disk: Disk, bios: Seq<BioView>, sector: int)
    requires
        command != REQ_OP_READ,
        command != REQ_OP_WRITE,
        forall|i: int| 0 <= i < bios.len() ==> (#[trigger] bios[i]).wf(),
    ensures
        ({
            let r = pass_bios(command, disk, bios, sector);
            r.ok && r.disk == disk && r.bios == bios
        }),
    decreases bios.len(),
{
    if bios.len() > 0 {
        let bio = bios[0];
        let p = pass_bio(command, disk, bio, sector);
        lemma_other_segments(
            command,
            bio.iter.cursor(),
            BioPass { disk, bio, sector, ok: true },
        );
        law_other_commands(command, disk, bios.drop_first(), p.sector);
        assert(pass_bios(command, disk, bios, sector).bios =~= bios);
    }
}

/// Every request whose data was transferred ends without errors, whatever the interrupt mode, and the
/// block layer owns it then: at once; or when the block layer calls the completion that it took on;
/// or when the timer that was started fires, which is stopped then and not started again.
pub proof fn law_every_mode_ends_the_request(
    rq: Request<NullBlkDevice>,
    irq_mode: IRQMode,
    completion_time: Ktime,
    remote: bool,
    this: ARef<Request<NullBlkDevice>>,
)
    requires
        rq.count() == 0,
        this.ptr == rq.ptr,
    ensures
        ({
            let s = submitted(rq, irq_mode, completion_time, remote);
            let ended = RequestState::Ended(BLK_STS_OK);
            if irq_mode is Timer {
                &&& s.wrapper.data.timer.is_running()
                &&& Pdu::callable(this, s.fired())
                &&& forall|after: Request<NullBlkDevice>, code: u32| #[trigger]
                    Handler::<NullBlkDevice>::called(s, after, code) ==> {
                        &&& after.state == ended
                        &&& after.count() == 0
                        &&& !after.wrapper.data.timer.is_running()
                        &&& code == HRTIMER_NORESTART
                    }
            } else if irq_mode is Soft && remote {
                &&& NullBlkDevice::completable(s)
                &&& NullBlkDevice::completed(s).state == ended
                &&& NullBlkDevice::completed(s).count() == 0
            } else {
                s.state == ended && s.count() == 0
            }
        }),
{
}

/// The timer of a request leads back to the request: the callback that is handed the address of the
/// timer refers to the request that embeds it.
pub proof fn law_timer_leads_to_request(layout: RequestLayout, rq: Request<NullBlkDevice>, ptr: usize)
    requires
        rq.count() == 1,
        ptr == layout.data_addr(rq.ptr as int) + <Pdu as HasHrTimer<NullBlkDevice>>::timer_offset(),
    ensures
        Handler::<NullBlkDevice>::callable(ptr, layout, rq),
        forall|other: int| #[trigger]
            layout.data_addr(other) + <Pdu as HasHrTimer<NullBlkDevice>>::timer_offset() == ptr
                ==> other == rq.ptr,
{
}

} // verus!
