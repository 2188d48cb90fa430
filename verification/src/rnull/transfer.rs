//! The transfer of data between requests and a device.

use super::pass::{lemma_sectors_in_nonneg, lemma_sectors_of_nonneg, pass_bio, pass_bios, pass_segment};
use super::pass::{pass_segments, sectors_in, sectors_of, BioPass, Pass};
use super::tree::{byte_at, fetch, lemma_overlay_append, lemma_overlay_empty, lemma_overlay_page, overlay};
use super::tree::{pages_wf, supply, Disk, Tree};
use super::NullBlkDevice;
use crate::block::bio::vec::min;
use crate::block::bio::{lemma_extents, lemma_shape_wf, op_stays, Bio, Segment};
use crate::block::bio::{REQ_OP_READ, REQ_OP_WRITE};
use crate::block::mq::request::Request;
use crate::block::{PAGE_SECTORS_SHIFT, SECTOR_MASK, SECTOR_SHIFT, SECTOR_SIZE};
use crate::error::{Error, Result};
use crate::grants::Grants;
use crate::page::{Page, PAGE_SIZE};
use vstd::prelude::*;

verus! {

broadcast use Page::lemma_len;

/// The number of the page that holds `sector`.
fn page_index(sector: usize) -> (r: usize)
    ensures
        r == (sector * SECTOR_SIZE) / PAGE_SIZE as int,
{
    let r = sector >> PAGE_SECTORS_SHIFT;
    assert(sector >> 3 == sector / 8) by (bit_vector);
    r
}

/// The place of `sector` within its page, in bytes.
fn page_offset(sector: usize) -> (r: usize)
    ensures
        r == (sector * SECTOR_SIZE) % PAGE_SIZE as int,
{
    let r = (sector & SECTOR_MASK as usize) << SECTOR_SHIFT;
    assert(sector & 7 == sector % 8) by (bit_vector);
    let m = sector % 8;
    assert(m << 9 == m * 512) by (bit_vector)
        requires
            m < 8,
    ;
    r
}

/// The number of whole sectors in `bytes`.
fn sectors(bytes: usize) -> (r: usize)
    ensures
        r == bytes / SECTOR_SIZE,
{
    let r = bytes >> SECTOR_SHIFT;
    assert(bytes >> 9 == bytes / 512) by (bit_vector);
    r
}

impl NullBlkDevice {
    /// Writes the data of `segment` that goes into the page of `sector`. If the page is absent it is
    /// allocated.
    ///
    /// Returns the number of bytes written.
    fn write_page(
        tree: &mut Tree,
        sector: usize,
        segment: &mut Segment<'_>,
        grants: &mut Grants,
    ) -> (r: Result<usize>)
        requires
            old(segment).wf(),
            0 < old(segment).bv_len,
        ensures
            ({
                let addr = sector * SECTOR_SIZE;
                let n = min(old(segment).bv_len as int, PAGE_SIZE - addr % PAGE_SIZE as int);
                let need: int = if old(tree)@.contains_key(addr / PAGE_SIZE as int) {
                    0
                } else {
                    1
                };
                if need > old(grants).left {
                    &&& r == Err::<usize, Error>(old(grants).refusal)
                    &&& final(tree)@ == old(tree)@
                    &&& final(grants).left == old(grants).left
                    &&& final(segment).advanced_from(*old(segment), 0)
                } else {
                    &&& r == Ok::<usize, Error>(n as usize)
                    &&& 0 < n <= PAGE_SIZE
                    &&& final(tree)@ == overlay(old(tree)@, addr, old(segment).data().take(n))
                    &&& final(grants).left == old(grants).left - need
                    &&& final(segment).advanced_from(*old(segment), n)
                }
            }),
            final(grants).refusal == old(grants).refusal,
            final(segment).wf(),
            *final(segment).bv_page == *old(segment).bv_page,
            *final(final(segment).bv_page) == *final(old(segment).bv_page),
    {
        let ghost before = tree@;
        let ghost addr = sector * SECTOR_SIZE;
        let ghost unread = segment.data();
        let page_idx = page_index(sector);
        proof {
            tree.lemma_wf();
        }
        if tree.get(page_idx).is_none() {
            match grants.take() {
                Ok(()) => {},
                Err(e) => {
                    return Err(e);
                },
            }
            tree.store(page_idx, Page::zeroed());
        }
        let page = tree.get_mut(page_idx);
        let page_offset = page_offset(sector);
        let copied = segment.copy_to_page(page, page_offset);
        proof {
            lemma_overlay_page(before, addr, unread.take(copied as int));
            assert(tree@ =~= overlay(before, addr, unread.take(copied as int)));
        }
        Ok(copied)
    }

    /// Writes the data of `segment` to the device, from `sector` on.
    ///
    /// Pages are allocated as the data needs them. If one cannot be had the write ends there, with
    /// the data of the pages before it written.
    pub fn write(tree: &mut Tree, sector: usize, segment: Segment<'_>, grants: &mut Grants) -> (r:
        Result<()>)
        requires
            segment.wf(),
            sector + segment.bv_len / 512 <= usize::MAX,
        ensures
            ({
                let addr = sector * SECTOR_SIZE;
                let (done, left) = supply(
                    old(tree)@,
                    old(grants).left as int,
                    addr,
                    segment.bv_len as int,
                );
                &&& final(tree)@ == overlay(old(tree)@, addr, segment.data().take(done))
                &&& final(grants).left == left
                &&& r == (if done == segment.bv_len {
                    Ok::<(), Error>(())
                } else {
                    Err::<(), Error>(old(grants).refusal)
                })
            }),
            final(grants).refusal == old(grants).refusal,
            final(segment.bv_page)@ == segment.page(),
    {
        let ghost addr = sector * SECTOR_SIZE;
        let ghost data = segment.data();
        let ghost len = segment.bv_len as int;
        let ghost pages = tree@;
        let ghost mut done: int = 0;
        proof {
            tree.lemma_wf();
            assert(data.take(0) =~= Seq::empty());
            lemma_overlay_empty(pages, addr);
        }
        let mut rest = segment;
        let mut at = sector;
        while !rest.is_empty()
            invariant
                rest.wf(),
                0 <= done <= len,
                rest.bv_len == len - done,
                rest.bv_offset == segment.bv_offset + done,
                *rest.bv_page == *segment.bv_page,
                *final(rest.bv_page) == *final(segment.bv_page),
                segment.wf(),
                data == segment.data(),
                len == segment.bv_len,
                addr == sector * SECTOR_SIZE,
                rest.bv_len > 0 ==> at * SECTOR_SIZE == addr + done,
                sector + len / 512 <= usize::MAX,
                done == 0 || done == len || (addr + done) % PAGE_SIZE as int == 0,
                pages == old(tree)@,
                tree@ == overlay(pages, addr, data.take(done)),
                grants.refusal == old(grants).refusal,
                ({
                    let all = supply(pages, old(grants).left as int, addr, len);
                    let more = supply(pages, grants.left as int, addr + done, len - done);
                    all == (done + more.0, more.1)
                }),
            decreases rest.bv_len,
        {
            let ghost here = addr + done;
            let ghost unread = rest.data();
            let ghost k = here / PAGE_SIZE as int;
            assert(tree@.contains_key(k) <==> pages.contains_key(k));
            let copied = match Self::write_page(tree, at, &mut rest, grants) {
                Ok(copied) => copied,
                Err(e) => {
                    return Err(e);
                },
            };
            proof {
                let chunk = data.subrange(done, done + copied);
                assert(unread.take(copied as int) =~= chunk);
                lemma_overlay_append(pages, addr, data.take(done), chunk);
                assert(data.take(done) + chunk =~= data.take(done + copied));
                done = done + copied;
            }
            at = at + sectors(copied);
        }
        assert(data.take(len) =~= data);
        Ok(())
    }

    /// Fills `segment` with the data of the device from `sector` on. A page that is absent reads as
    /// zeroes.
    pub fn read(tree: &Tree, sector: usize, segment: Segment<'_>) -> (r: Result<()>)
        requires
            segment.wf(),
            sector + segment.bv_len / 512 <= usize::MAX,
        ensures
            r == Ok::<(), Error>(()),
            final(segment.bv_page)@ == segment.page().update_subrange_with(
                segment.bv_offset as int,
                fetch(tree@, sector * SECTOR_SIZE, segment.bv_len as int),
            ),
    {
        let ghost addr = sector * SECTOR_SIZE;
        let ghost len = segment.bv_len as int;
        let ghost all = fetch(tree@, addr, len);
        let ghost mut done: int = 0;
        let mut rest = segment;
        let mut at = sector;
        proof {
            tree.lemma_wf();
            assert(rest.page() =~= segment.page().update_subrange_with(
                segment.bv_offset as int,
                all.take(0),
            ));
        }
        while !rest.is_empty()
            invariant
                rest.wf(),
                0 <= done <= len,
                rest.bv_len == len - done,
                rest.bv_offset == segment.bv_offset + done,
                *final(rest.bv_page) == *final(segment.bv_page),
                segment.wf(),
                len == segment.bv_len,
                addr == sector * SECTOR_SIZE,
                all == fetch(tree@, addr, len),
                rest.bv_len > 0 ==> at * SECTOR_SIZE == addr + done,
                sector + len / 512 <= usize::MAX,
                done == 0 || done == len || (addr + done) % PAGE_SIZE as int == 0,
                pages_wf(tree@),
                rest.page() == segment.page().update_subrange_with(
                    segment.bv_offset as int,
                    all.take(done),
                ),
            decreases rest.bv_len,
        {
            let page_offset = page_offset(at);
            let copied = match tree.get(page_index(at)) {
                Some(page) => rest.copy_from_page(page, page_offset),
                None => rest.copy_from_page(&Page::zeroed(), page_offset),
            };
            at = at + sectors(copied);
            proof {
                done = done + copied;
                assert(rest.page() =~= segment.page().update_subrange_with(
                    segment.bv_offset as int,
                    all.take(done),
                ));
            }
        }
        assert(all.take(len) =~= all);
        Ok(())
    }

    /// Performs `command` on one segment: a write or a read moves its data, any other command does
    /// nothing.
    pub fn transfer(
        command: u32,
        tree: &mut Tree,
        sector: usize,
        segment: Segment<'_>,
        grants: &mut Grants,
    ) -> (r: Result<()>)
        requires
            segment.wf(),
            command == REQ_OP_READ || command == REQ_OP_WRITE ==> sector + segment.bv_len / 512
                <= usize::MAX,
        ensures
            ({
                let disk = Disk { pages: old(tree)@, left: old(grants).left as int };
                let after = Disk { pages: final(tree)@, left: final(grants).left as int };
                let addr = sector * SECTOR_SIZE;
                &&& after == disk.transferred(command, addr, segment.data())
                &&& final(segment.bv_page)@ == segment.page().update_subrange_with(
                    segment.bv_offset as int,
                    disk.delivered(command, addr, segment.data()),
                )
                &&& r == (if disk.accepts(command, addr, segment.bv_len as int) {
                    Ok::<(), Error>(())
                } else {
                    Err::<(), Error>(old(grants).refusal)
                })
            }),
            final(grants).refusal == old(grants).refusal,
    {
        proof {
            tree.lemma_wf();
            assert(segment.page().update_subrange_with(segment.bv_offset as int, segment.data())
                =~= segment.page());
        }
        match command {
            REQ_OP_WRITE => Self::write(tree, sector, segment, grants),
            REQ_OP_READ => Self::read(tree, sector, segment),
            _ => Ok(()),
        }
    }

    /// Performs `command` on the segments of `bio`, one after another from `sector` on. Returns the
    /// sector behind the last.
    pub fn transfer_bio(
        command: u32,
        tree: &mut Tree,
        sector: usize,
        bio: &mut Bio,
        grants: &mut Grants,
    ) -> (r: Result<usize>)
        requires
            old(bio)@.wf(),
            sector + sectors_of(old(bio)@.extents()) <= usize::MAX,
        ensures
            ({
                let disk = Disk { pages: old(tree)@, left: old(grants).left as int };
                let p = pass_bio(command, disk, old(bio)@, sector as int);
                &&& final(tree)@ == p.disk.pages
                &&& final(grants).left == p.disk.left
                &&& final(bio)@ == p.bio
                &&& r == (if p.ok {
                    Ok::<usize, Error>(p.sector as usize)
                } else {
                    Err::<usize, Error>(old(grants).refusal)
                })
                &&& p.ok ==> sector <= p.sector == sector + sectors_of(old(bio)@.extents())
            }),
            final(grants).refusal == old(grants).refusal,
            final(bio)@.wf(),
    {
        let ghost p0 = BioPass {
            disk: Disk { pages: tree@, left: grants.left as int },
            bio: bio@,
            sector: sector as int,
            ok: true,
        };
        let ghost all = bio@.extents();
        let mut at = sector;
        let mut segment_iter = bio.segment_iter();
        loop
            invariant
                segment_iter.wf(),
                *final(segment_iter.bio) == *after_borrow(bio),
                all == old(bio)@.extents(),
                p0 == (BioPass {
                    disk: Disk { pages: old(tree)@, left: old(grants).left as int },
                    bio: old(bio)@,
                    sector: sector as int,
                    ok: true,
                }),
                sector <= at,
                at + sectors_of(segment_iter.remaining()) == sector + sectors_of(all),
                sector + sectors_of(all) <= usize::MAX,
                pass_segments(command, all, p0) == pass_segments(
                    command,
                    segment_iter.remaining(),
                    BioPass {
                        disk: Disk { pages: tree@, left: grants.left as int },
                        bio: segment_iter.bio@,
                        sector: at as int,
                        ok: true,
                    },
                ),
                grants.refusal == old(grants).refusal,
            ensures
                segment_iter.remaining().len() == 0,
            decreases
                    segment_iter.iter.bi_size,
                    segment_iter.bio@.vecs.len() - segment_iter.iter.bi_idx,
        {
            let ghost before = segment_iter;
            let ghost p = BioPass {
                disk: Disk { pages: tree@, left: grants.left as int },
                bio: before.bio@,
                sector: at as int,
                ok: true,
            };
            proof {
                lemma_shape_wf(before.bio@);
                lemma_extents(before.bio@.shape(), op_stays(before.bio@.opf), before.iter.cursor());
            }
            match segment_iter.next() {
                None => {
                    break;
                },
                Some(segment) => {
                    proof {
                        assert(before.remaining().drop_first() =~= after_borrow(
                            segment_iter,
                        ).remaining());
                        lemma_sectors_of_nonneg(before.remaining().drop_first());
                    }
                    let length = segment.len();
                    match Self::transfer(command, tree, at, segment, grants) {
                        Ok(()) => {},
                        Err(e) => {
                            let ghost next = pass_segment(command, before.current(), p);
                            assert(pass_segments(command, before.remaining().drop_first(), next)
                                == next);
                            return Err(e);
                        },
                    }
                    at = at + sectors(length as usize);
                },
            }
        }
        Ok(at)
    }

    /// Performs the command of `rq` on the segments of its bios, one after another from its sector
    /// on.
    pub fn transfer_request(
        tree: &mut Tree,
        rq: &mut Request<NullBlkDevice>,
        grants: &mut Grants,
    ) -> (r: Result<()>)
        requires
            forall|i: int| 0 <= i < old(rq).bios@.len() ==> (#[trigger] old(rq).bios@[i])@.wf(),
            old(rq).first_sector() + sectors_in(old(rq).bio_views()) <= usize::MAX,
        ensures
            ({
                let disk = Disk { pages: old(tree)@, left: old(grants).left as int };
                let p = pass_bios(
                    old(rq).cmd_flags % 256,
                    disk,
                    old(rq).bio_views(),
                    old(rq).first_sector() as int,
                );
                &&& final(tree)@ == p.disk.pages
                &&& final(grants).left == p.disk.left
                &&& final(rq).bio_views() == p.bios
                &&& *final(rq) == (Request { bios: final(rq).bios, ..*old(rq) })
                &&& r == (if p.ok {
                    Ok::<(), Error>(())
                } else {
                    Err::<(), Error>(old(grants).refusal)
                })
            }),
            final(grants).refusal == old(grants).refusal,
    {
        let ghost views = rq.bio_views();
        let ghost all = pass_bios(
            rq.cmd_flags % 256,
            Disk { pages: tree@, left: grants.left as int },
            views,
            rq.first_sector() as int,
        );
        let command = rq.command();
        let mut sector = rq.sector();
        let mut bios = rq.bio_iter_mut();
        proof {
            assert(views.skip(0) =~= views);
            assert(bios.bios@.map_values(|b: Bio| b@).take(0) + all.bios =~= all.bios);
        }
        loop
            invariant
                bios.next <= bios.bios@.len() == views.len(),
                *after_borrow(rq) == (Request { bios: *final(bios.bios), ..*old(rq) }),
                views == old(rq).bio_views(),
                forall|i: int| 0 <= i < views.len() ==> (#[trigger] views[i]).wf(),
                forall|i: int|
                    bios.next <= i < views.len() ==> (#[trigger] bios.bios@[i])@ == views[i],
                sector + sectors_in(views.skip(bios.next as int)) <= usize::MAX,
                command == old(rq).cmd_flags % 256,
                all == pass_bios(
                    old(rq).cmd_flags % 256,
                    Disk { pages: old(tree)@, left: old(grants).left as int },
                    views,
                    old(rq).first_sector() as int,
                ),
                ({
                    let rest = pass_bios(
                        command,
                        Disk { pages: tree@, left: grants.left as int },
                        views.skip(bios.next as int),
                        sector as int,
                    );
                    all == (Pass {
                        bios: bios.bios@.map_values(|b: Bio| b@).take(bios.next as int) + rest.bios,
                        ..rest
                    })
                }),
                grants.refusal == old(grants).refusal,
            ensures
                bios.next == views.len(),
            decreases views.len() - bios.next,
        {
            let ghost before = bios.bios@.map_values(|b: Bio| b@);
            let ghost n = bios.next as int;
            let ghost disk = Disk { pages: tree@, left: grants.left as int };
            let ghost at = sector as int;
            match bios.next() {
                None => {
                    break;
                },
                Some(bio) => {
                    let ghost rest = views.skip(n);
                    proof {
                        assert(rest[0] == views[n]);
                        assert(rest.drop_first() =~= views.skip(n + 1));
                        lemma_sectors_in_nonneg(rest.drop_first());
                    }
                    match Self::transfer_bio(command, tree, sector, bio, grants) {
                        Ok(next) => {
                            sector = next;
                            proof {
                                let p = pass_bio(command, disk, rest[0], at);
                                let tail = pass_bios(command, p.disk, rest.drop_first(), p.sector);
                                let after = after_borrow(bios).bios@.map_values(|b: Bio| b@);
                                assert(after.take(n + 1) + tail.bios =~= before.take(n) + (seq![
                                    p.bio,
                                ] + tail.bios));
                            }
                        },
                        Err(e) => {
                            proof {
                                let p = pass_bio(command, disk, rest[0], at);
                                let after = after_borrow(bios).bios@.map_values(|b: Bio| b@);
                                assert(after =~= before.take(n) + rest.update(0, p.bio));
                            }
                            return Err(e);
                        },
                    }
                },
            }
        }
        Ok(())
    }
}

} // verus!
