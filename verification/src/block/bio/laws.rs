//! What holds of bios and their segments, whatever flags, shapes and positions they have.

use super::data::{entry_bytes, lemma_entry_bytes_len};
use super::vec::min;
use super::{cursor_wf, extent_at, extents, lemma_extents, lemma_shape_wf, lemma_step_wf};
use super::{op_stays, shape_wf, step, total_len};
use super::{Bio, BioSegmentIterator, BioVecView, BioView, BvecIter, Cursor, Extent, Segment, Shape};
use super::{REQ_OP_BITS, REQ_OP_DISCARD, REQ_OP_READ, REQ_OP_SECURE_ERASE, REQ_OP_WRITE};
use super::REQ_OP_WRITE_ZEROES;
use crate::block::{PAGE_SECTORS_SHIFT, SECTOR_MASK, SECTOR_SHIFT, SECTOR_SIZE};
use crate::page::{zeroes, Page, PAGE_SIZE};
use crate::text::{decimal, number};
use vstd::prelude::*;
use vstd::utf8::encode_utf8;

verus! {

broadcast use Page::lemma_len;

/// The sizes and the numbers of operations that requests are made of.
pub proof fn law_block_numbers()
    ensures
        PAGE_SIZE == 4096,
        SECTOR_SIZE == 512,
        SECTOR_SHIFT == 9,
        PAGE_SECTORS_SHIFT == 3,
        SECTOR_MASK == 7,
        REQ_OP_BITS == 8,
        REQ_OP_READ == 0,
        REQ_OP_WRITE == 1,
        REQ_OP_DISCARD == 3,
        REQ_OP_SECURE_ERASE == 5,
        REQ_OP_WRITE_ZEROES == 9,
{
}

/// A page of zeroes holds nothing else.
pub proof fn law_zeroes(n: nat)
    ensures
        zeroes(n).len() == n,
        forall|i: int| 0 <= i < n ==> #[trigger] zeroes(n)[i] == 0,
{
}

/// Whether a position stays in place depends on the operation alone, that is on the low eight bits,
/// and not on the flags above them. A read or a write never stays, nor does any other operation that
/// is not a discard, a secure erase or a write of zeroes.
pub proof fn law_only_discards_stay(opf: u32, other: u32)
    ensures
        opf % 256 == other % 256 ==> op_stays(opf) == op_stays(other),
        opf % 256 == 0 ==> !op_stays(opf),
        opf % 256 == 1 ==> !op_stays(opf),
        op_stays(opf) ==> opf % 256 == 3 || opf % 256 == 5 || opf % 256 == 9,
        opf % 256 == 3 || opf % 256 == 5 || opf % 256 == 9 ==> op_stays(opf),
{
}

/// The bytes of a read or a write, whatever flags it carries, are those of its segments, one behind
/// another.
pub proof fn law_reads_and_writes_walk_all_bytes(bio: BioView)
    requires
        bio.wf(),
        bio.opf % 256 == 0 || bio.opf % 256 == 1,
    ensures
        bio.gather(bio.extents()) == bio.bytes(),
        bio.bytes().len() == bio.iter.bi_size,
{
    super::data::law_segments_are_the_bytes(bio);
}

/// What a bio holds is what its fields hold.
pub proof fn law_bio_view(bio: Bio)
    ensures
        bio@.iter == bio.bi_iter,
        bio@.opf == bio.bi_opf,
        bio@.vecs.len() == bio.bi_io_vec@.len(),
        forall|i: int|
            0 <= i < bio.bi_io_vec@.len() ==> {
                let v = #[trigger] bio.bi_io_vec@[i];
                let w = bio@.vecs[i];
                &&& w.offset == v.bv_offset
                &&& w.len == v.bv_len
                &&& w.pages.len() == v.bv_pages@.len()
                &&& forall|j: int|
                    0 <= j < v.bv_pages@.len() ==> #[trigger] w.pages[j] == v.bv_pages@[j]@
            },
        bio.bi_iter.cursor().size == bio.bi_iter.bi_size,
        bio.bi_iter.cursor().idx == bio.bi_iter.bi_idx,
        bio.bi_iter.cursor().done == bio.bi_iter.bi_bvec_done,
{
}

/// An entry is good exactly where each byte of its range lies in one of its pages, and an empty range
/// starts in one of them, as far as 32 bits tell.
pub proof fn law_good_entry(v: BioVecView)
    requires
        0 <= v.offset,
        0 <= v.len,
        v.offset + v.len <= 0xffff_ffff,
        forall|j: int| 0 <= j < v.pages.len() ==> #[trigger] v.pages[j].len() == 4096,
    ensures
        v.wf() <==> v.offset / 4096 < v.pages.len() && (v.len > 0 ==> (v.offset + v.len - 1) / 4096
            < v.pages.len()),
{
}

/// A bio whose entries are good is good where it has nothing left to transfer, or where its position
/// is in one of its entries and its entries hold the bytes that it has left.
pub proof fn law_good_bio(bio: BioView)
    requires
        forall|i: int| 0 <= i < bio.vecs.len() ==> (#[trigger] bio.vecs[i]).wf(),
        bio.vecs.len() <= 0xffff,
    ensures
        bio.iter.bi_size == 0 ==> bio.wf(),
        bio.iter.bi_size > 0 && bio.iter.bi_idx < bio.vecs.len() && bio.iter.bi_bvec_done
            < bio.vecs[bio.iter.bi_idx as int].len && (op_stays(bio.opf) || bio.iter.bi_bvec_done
            + bio.iter.bi_size <= entry_bytes(bio.vecs, bio.iter.bi_idx as int).len())
            ==> bio.wf(),
        bio.iter.bi_size > 0 && bio.iter.bi_idx < bio.vecs.len() && bio.iter.bi_bvec_done == 0
            && bio.vecs[bio.iter.bi_idx as int].len == 0 && !op_stays(bio.opf) && bio.iter.bi_size
            <= entry_bytes(bio.vecs, bio.iter.bi_idx as int).len() ==> bio.wf(),
{
    let rest = BioView { iter: BvecIter { bi_size: 0, ..bio.iter }, ..bio };
    assert(rest.wf());
    assert(rest.shape() == bio.shape());
    lemma_entry_bytes_len(rest, bio.iter.bi_idx as int);
}

/// The bytes of an entry are those of its pages, from its offset on.
pub proof fn law_entry_bytes(v: BioVecView)
    requires
        v.wf(),
    ensures
        v.bytes().len() == v.len,
        forall|j: int|
            0 <= j < v.len ==> #[trigger] v.bytes()[j] == v.pages[(v.offset + j) / 4096][(v.offset
                + j) % 4096],
{
}

/// The bytes that a bio has left start at its position in the current entry, and go on with the entry
/// behind it.
pub proof fn law_bio_bytes(bio: BioView)
    requires
        bio.wf(),
        !op_stays(bio.opf),
        bio.iter.bi_size > 0,
    ensures
        ({
            let v = bio.vecs[bio.iter.bi_idx as int];
            let done = bio.iter.bi_bvec_done as int;
            let size = bio.iter.bi_size as int;
            let here = v.len - done;
            let next = Cursor { size: size - here, idx: bio.iter.bi_idx + 1, done: 0 };
            &&& bio.bytes().len() == size
            &&& forall|i: int|
                0 <= i < size && i < here ==> #[trigger] bio.bytes()[i] == v.bytes()[done + i]
            &&& here < size ==> bio.bytes().skip(here) == bio.bytes_at(next)
        }),
{
    let c = bio.iter.cursor();
    let v = bio.vecs[c.idx];
    assert(v.wf());
    lemma_shape_wf(bio);
    lemma_entry_bytes_len(bio, c.idx);
    lemma_entry_bytes_len(bio, c.idx + 1);
    let here = v.len - c.done;
    if here < c.size {
        let next = Cursor { size: c.size - here, idx: c.idx + 1, done: 0 };
        assert(bio.bytes().skip(here) =~= bio.bytes_at(next));
    }
}

/// The data of a piece is that of its range of its page.
pub proof fn law_piece_data(bio: BioView, e: Extent)
    requires
        0 <= e.offset,
        0 <= e.len,
        e.offset + e.len <= bio.vecs[e.vec].pages[e.page].len(),
    ensures
        bio.data(e).len() == e.len,
        forall|i: int|
            0 <= i < e.len ==> #[trigger] bio.data(e)[i] == bio.vecs[e.vec].pages[e.page][e.offset
                + i],
{
}

/// Putting other contents into one page changes that page and nothing else.
pub proof fn law_with_page(bio: BioView, vec: int, page: int, data: Seq<u8>)
    requires
        0 <= vec < bio.vecs.len(),
        0 <= page < bio.vecs[vec].pages.len(),
    ensures
        ({
            let after = bio.with_page(vec, page, data);
            &&& after.iter == bio.iter
            &&& after.opf == bio.opf
            &&& after.vecs.len() == bio.vecs.len()
            &&& after.vecs[vec].pages[page] == data
            &&& forall|i: int|
                0 <= i < bio.vecs.len() ==> {
                    let v = #[trigger] after.vecs[i];
                    &&& v.offset == bio.vecs[i].offset
                    &&& v.len == bio.vecs[i].len
                    &&& v.pages.len() == bio.vecs[i].pages.len()
                    &&& forall|j: int|
                        0 <= j < v.pages.len() && !(i == vec && j == page)
                            ==> #[trigger] v.pages[j] == bio.vecs[i].pages[j]
                }
        }),
{
}

/// A piece reaches as far as it can: to the end of its page, of its entry, or of the bio.
proof fn lemma_reaches(shape: Shape, stays: bool, c: Cursor)
    requires
        shape_wf(shape),
        cursor_wf(shape, stays, c),
    ensures
        ({
            let es = extents(shape, stays, c);
            &&& forall|i: int|
                0 <= i < es.len() - 1 ==> {
                    let e = #[trigger] es[i];
                    ||| e.offset + e.len == 4096
                    ||| e.page * 4096 + e.offset + e.len == shape[e.vec].0 + shape[e.vec].1
                }
            &&& c.size > 0 ==> es.len() > 0 && es[0].vec == c.idx && es[0].page * 4096
                + es[0].offset == shape[c.idx].0 + c.done
            &&& c.size == 0 ==> es.len() == 0
            &&& !stays ==> forall|i: int|
                0 <= i < es.len() - 1 ==> {
                    let e = #[trigger] es[i];
                    let n = es[i + 1];
                    let end = e.page * 4096 + e.offset + e.len;
                    let start = n.page * 4096 + n.offset;
                    ||| n.vec == e.vec && start == end
                    ||| n.vec == e.vec + 1 && end == shape[e.vec].0 + shape[e.vec].1 && start
                        == shape[n.vec].0
                }
            &&& stays ==> forall|i: int|
                0 <= i < es.len() ==> {
                    let e = #[trigger] es[i];
                    e.vec == c.idx && e.page * 4096 + e.offset == shape[c.idx].0 + c.done
                }
        }),
    decreases c.size, shape.len() - c.idx,
{
    if c.size > 0 {
        let e = extent_at(shape, c);
        let next = step(shape, stays, c, e.len);
        lemma_step_wf(shape, stays, c);
        lemma_reaches(shape, stays, next);
        let es = extents(shape, stays, c);
        let rest = extents(shape, stays, next);
        assert(es.drop_first() =~= rest);
        assert forall|i: int| 0 < i < es.len() implies #[trigger] es[i] == rest[i - 1] by {}
        assert(es[0] == e);
        if es.len() > 1 {
            assert(es[1] == rest[0]);
            assert(next.size > 0);
        }
        if !stays {
            assert forall|i: int| 0 <= i < es.len() - 1 implies {
                let e = #[trigger] es[i];
                let n = es[i + 1];
                let end = e.page * 4096 + e.offset + e.len;
                let start = n.page * 4096 + n.offset;
                ||| n.vec == e.vec && start == end
                ||| n.vec == e.vec + 1 && end == shape[e.vec].0 + shape[e.vec].1 && start
                    == shape[n.vec].0
            } by {
                if i > 0 {
                    assert(es[i] == rest[i - 1] && es[i + 1] == rest[i]);
                }
            }
        }
    }
}

/// The segments of a bio go page by page: each but the last reaches to the end of its page or of its
/// entry. The first starts at the position of the bio. Each of the others starts where the one before
/// it ends, in the same entry or at the start of the next; in a bio that stays in place, each starts
/// where the first does.
pub proof fn law_segments_go_page_by_page(bio: BioView)
    requires
        bio.wf(),
    ensures
        ({
            let es = bio.extents();
            let first = bio.iter.bi_idx as int;
            let at = bio.vecs[first].offset + bio.iter.bi_bvec_done;
            &&& bio.iter.bi_size == 0 <==> es.len() == 0
            &&& bio.iter.bi_size > 0 ==> es[0].vec == first && es[0].page * 4096 + es[0].offset
                == at
            &&& forall|i: int|
                0 <= i < es.len() - 1 ==> {
                    let e = #[trigger] es[i];
                    ||| e.offset + e.len == 4096
                    ||| e.page * 4096 + e.offset + e.len == bio.vecs[e.vec].offset
                        + bio.vecs[e.vec].len
                }
            &&& !op_stays(bio.opf) ==> forall|i: int|
                0 <= i < es.len() - 1 ==> {
                    let e = #[trigger] es[i];
                    let n = es[i + 1];
                    let end = e.page * 4096 + e.offset + e.len;
                    let start = n.page * 4096 + n.offset;
                    ||| n.vec == e.vec && start == end
                    ||| n.vec == e.vec + 1 && end == bio.vecs[e.vec].offset + bio.vecs[e.vec].len
                        && start == bio.vecs[n.vec].offset
                }
            &&& op_stays(bio.opf) ==> forall|i: int|
                0 <= i < es.len() ==> {
                    let e = #[trigger] es[i];
                    e.vec == first && e.page * 4096 + e.offset == at
                }
        }),
{
    lemma_shape_wf(bio);
    lemma_extents(bio.shape(), op_stays(bio.opf), bio.iter.cursor());
    lemma_reaches(bio.shape(), op_stays(bio.opf), bio.iter.cursor());
    let es = bio.extents();
    assert forall|i: int| 0 <= i < es.len() implies 0 <= (#[trigger] es[i]).vec
        < bio.vecs.len() by {
        assert(super::extent_wf(bio.shape(), es[i]));
    }
}

/// The number of bytes in some pieces is the sum of their lengths.
pub proof fn law_total_len(first: Extent, rest: Seq<Extent>)
    ensures
        total_len(Seq::empty()) == 0,
        total_len(seq![first] + rest) == first.len + total_len(rest),
{
    assert((seq![first] + rest).drop_first() =~= rest);
}

/// A segment iterator that has just been made has all the segments of its bio before it.
pub proof fn law_iterator_starts_with_all_segments(iter: BioSegmentIterator<'_>, bio: BioView)
    requires
        iter.bio@ == bio,
        iter.iter == bio.iter,
    ensures
        iter.remaining() == bio.extents(),
        bio.wf() ==> iter.wf(),
        bio.iter.bi_size > 0 && bio.wf() ==> iter.current() == bio.extents()[0],
{
    if bio.wf() {
        lemma_shape_wf(bio);
    }
}

/// A position that moves on by some bytes has so many bytes less left, and its sector moves on by the
/// whole sectors in them. What is left is what was left before without those bytes, unless the
/// operation stays in place.
pub proof fn law_position_moves_on(bio: BioView, iter: BvecIter, bytes: int)
    requires
        bio.wf(),
        cursor_wf(bio.shape(), op_stays(bio.opf), iter.cursor()),
        0 < iter.bi_size,
        0 <= bytes <= iter.bi_size,
        bytes <= bio.vecs[iter.bi_idx as int].len - iter.bi_bvec_done,
        iter.bi_sector + bytes <= u64::MAX,
    ensures
        ({
            let next = bio.advance(iter, bytes);
            &&& next.bi_size == iter.bi_size - bytes
            &&& 512 * (next.bi_sector - iter.bi_sector) <= bytes < 512 * (next.bi_sector
                - iter.bi_sector) + 512
            &&& op_stays(bio.opf) ==> next.bi_idx == iter.bi_idx && next.bi_bvec_done
                == iter.bi_bvec_done
            &&& !op_stays(bio.opf) ==> bio.bytes_at(next.cursor()) == bio.bytes_at(
                iter.cursor(),
            ).skip(bytes)
        }),
{
    let c = iter.cursor();
    let next = bio.advance(iter, bytes);
    let v = bio.vecs[c.idx];
    assert(v.wf());
    lemma_shape_wf(bio);
    lemma_entry_bytes_len(bio, c.idx);
    lemma_entry_bytes_len(bio, c.idx + 1);
    if !op_stays(bio.opf) {
        assert(bio.bytes_at(next.cursor()) =~= bio.bytes_at(c).skip(bytes));
    }
}

/// The text of a bio gives its address, the number of its entries, and its position.
pub proof fn law_bio_text(bio: BioView, addr: int)
    ensures
        bio.text(addr) == encode_utf8("Bio(0x"@) + number(addr, 16) + encode_utf8(", vcnt: "@)
            + decimal(bio.vecs.len() as int) + encode_utf8(", idx: "@) + decimal(
            bio.iter.bi_idx as int,
        ) + encode_utf8(", size: 0x"@) + number(bio.iter.bi_size as int, 16) + encode_utf8(
            ", completed: 0x"@,
        ) + number(bio.iter.bi_bvec_done as int, 16) + encode_utf8(")"@),
{
}

/// The range of a segment lies within its page, and the contents of the page are those of the page that
/// it borrows.
pub proof fn law_segment_page(segment: Segment<'_>, page: Seq<u8>)
    requires
        segment.bv_page@ == page,
    ensures
        segment.page() == page,
        segment.wf() <==> segment.bv_offset + segment.bv_len <= 4096,
{
}

/// What is still to be processed of a segment is the range of its page that its offset and its length
/// give.
pub proof fn law_segment_data(segment: Segment<'_>)
    requires
        segment.wf(),
    ensures
        segment.data().len() == segment.bv_len,
        segment.page().len() == 4096,
        forall|i: int|
            0 <= i < segment.bv_len ==> #[trigger] segment.data()[i]
                == segment.page()[segment.bv_offset + i],
{
}

/// One call moves as many bytes as it can: never more than the segment, its page or the other page
/// have left, and no less than one of them has.
pub proof fn law_transfer_len(segment: Segment<'_>, page_offset: int)
    requires
        segment.wf(),
        0 <= page_offset <= 4096,
    ensures
        ({
            let n = segment.transfer_len(page_offset);
            let in_page = 4096 - segment.bv_offset as int % 4096;
            &&& 0 <= n <= segment.bv_len
            &&& n <= in_page
            &&& n <= 4096 - page_offset
            &&& n == segment.bv_len || n == in_page || n == 4096 - page_offset
        }),
{
}

/// Processing bytes moves the start of a segment and leaves its end where it is.
pub proof fn law_segment_keeps_its_end(before: Segment<'_>, after: Segment<'_>, count: int)
    requires
        after.advanced_from(before, count),
    ensures
        after.bv_offset - before.bv_offset == count,
        after.bv_offset + after.bv_len == before.bv_offset + before.bv_len,
{
}

/// The smaller of two numbers is one of them, and the other is no smaller.
pub proof fn law_min(a: int, b: int)
    ensures
        min(a, b) <= a,
        min(a, b) <= b,
        min(a, b) == a || min(a, b) == b,
{
}

} // verus!
