//! Types for working with IO vectors.

use crate::error::{Error, Result, EINVAL};
use super::{cursor_wf, extent_at, extents, lemma_shape_wf, lemma_step_wf, lemma_with_page, op_stays};
use super::{Bio, BioVec, BioVecView, BvecIter, Extent};
use crate::page::{zeroes, Page, PAGE_SIZE};
use crate::text::{decimal, number, push_decimal, push_number, push_text};
use vstd::prelude::*;
use vstd::utf8::encode_utf8;

verus! {

broadcast use Page::lemma_len;

/// The smaller of two numbers.
pub open spec fn min(a: int, b: int) -> int {
    if a <= b {
        a
    } else {
        b
    }
}

fn min_u32(a: u32, b: u32) -> (r: u32)
    ensures
        r == min(a as int, b as int),
{
    if a <= b {
        a
    } else {
        b
    }
}

fn min_usize(a: usize, b: usize) -> (r: usize)
    ensures
        r == min(a as int, b as int),
{
    if a <= b {
        a
    } else {
        b
    }
}

/// A segment of an IO request.
///
/// A segment is a contiguous range of one page of an IO request. It has an offset and a length,
/// which say what data is still to be processed. Processing the data increases the offset and
/// reduces the length. The page is mutably borrowed from the owning bio.
pub struct Segment<'a> {
    pub bv_page: &'a mut Page,
    pub bv_len: u32,
    pub bv_offset: u32,
}

impl<'a> Segment<'a> {
    /// The range lies within the page.
    pub open spec fn wf(self) -> bool {
        self.bv_offset + self.bv_len <= PAGE_SIZE
    }

    /// The contents of the page.
    pub open spec fn page(self) -> Seq<u8> {
        self.bv_page@
    }

    /// The data that is still to be processed.
    pub open spec fn data(self) -> Seq<u8> {
        self.bv_page@.subrange(self.bv_offset as int, self.bv_offset + self.bv_len)
    }

    /// The offset and the length are those of `before` with `count` bytes processed.
    pub open spec fn advanced_from(self, before: Self, count: int) -> bool {
        &&& self.bv_offset == before.bv_offset + count
        &&& self.bv_len == before.bv_len - count
    }

    /// The number of bytes that one call moves between this segment and a page, where
    /// `page_offset` is the place in that page: as far as the next page boundary, the end of this
    /// segment and the end of that page all allow.
    pub open spec fn transfer_len(self, page_offset: int) -> int {
        min(
            min(PAGE_SIZE - self.bv_offset as int % PAGE_SIZE as int, self.bv_len as int),
            PAGE_SIZE - page_offset,
        )
    }

    /// Get the length of the segment in bytes.
    pub fn len(&self) -> (r: u32)
        ensures
            r == self.bv_len,
    {
        self.bv_len
    }

    /// Returns true if the length of the segment is 0.
    pub fn is_empty(&self) -> (r: bool)
        ensures
            r == (self.bv_len == 0),
    {
        self.len() == 0
    }

    /// Get the offset of the segment in bytes.
    pub fn offset(&self) -> (r: usize)
        ensures
            r == self.bv_offset,
    {
        self.bv_offset as usize
    }

    /// The text that describes this segment, whose page is at address `page`.
    pub fn fmt(&self, page: usize) -> (r: Vec<u8>)
        ensures
            r@ == encode_utf8("Segment 0x"@) + number(page as int, 16) + encode_utf8(" len: "@)
                + decimal(self.bv_len as int) + encode_utf8(", offset: "@) + decimal(
                self.bv_offset as int,
            ),
    {
        let mut r: Vec<u8> = Vec::new();
        push_text(&mut r, "Segment 0x");
        push_number(&mut r, page as u64, 16);
        push_text(&mut r, " len: ");
        push_decimal(&mut r, self.len() as u64);
        push_text(&mut r, ", offset: ");
        push_decimal(&mut r, self.bv_offset as u64);
        assert(r@ =~= encode_utf8("Segment 0x"@) + number(page as int, 16) + encode_utf8(" len: "@)
            + decimal(self.bv_len as int) + encode_utf8(", offset: "@) + decimal(
            self.bv_offset as int,
        ));
        r
    }

    /// Advance the offset of the segment.
    ///
    /// If `count` is greater than the remaining size of the segment, an error is returned.
    pub fn advance(&mut self, count: u32) -> (r: Result<()>)
        requires
            old(self).wf(),
        ensures
            final(self).wf(),
            *final(self).bv_page == *old(self).bv_page,
            *final(final(self).bv_page) == *final(old(self).bv_page),
            r == (if count <= old(self).bv_len {
                Ok::<(), Error>(())
            } else {
                Err::<(), Error>(Error(EINVAL))
            }),
            final(self).advanced_from(
                *old(self),
                if count <= old(self).bv_len {
                    count as int
                } else {
                    0
                },
            ),
    {
        if self.len() < count {
            return Err(Error(EINVAL));
        }
        self.bv_offset = self.bv_offset + count;
        self.bv_len = self.bv_len - count;
        Ok(())
    }

    /// Copy data of this segment into `dst_page`.
    ///
    /// Copies data from the current offset to the next page boundary, the end of the segment or
    /// the end of the target page, whichever comes first. Data is placed at offset `dst_offset` in
    /// the target page. This call will advance offset and reduce length of `self`.
    ///
    /// Returns the number of bytes copied.
    pub fn copy_to_page(&mut self, dst_page: &mut Page, dst_offset: usize) -> (r: usize)
        requires
            old(self).wf(),
            dst_offset <= PAGE_SIZE,
        ensures
            final(self).wf(),
            r == old(self).transfer_len(dst_offset as int),
            final(dst_page)@ == old(dst_page)@.update_subrange_with(
                dst_offset as int,
                old(self).data().take(r as int),
            ),
            final(self).advanced_from(*old(self), r as int),
            *final(self).bv_page == *old(self).bv_page,
            *final(final(self).bv_page) == *final(old(self).bv_page),
    {
        let src_offset: usize = self.offset() % PAGE_SIZE;
        let length: usize = min_usize(
            min_usize(PAGE_SIZE - src_offset, self.len() as usize),
            PAGE_SIZE - dst_offset,
        );
        assert(self.data().take(length as int) =~= self.bv_page@.subrange(
            src_offset as int,
            src_offset + length,
        ));
        dst_page.copy_from(dst_offset, &*self.bv_page, src_offset, length);
        let _ = self.advance(length as u32);
        length
    }

    /// Copy data to this segment from `src_page`.
    ///
    /// Copies data from offset `src_offset` in `src_page` to the current offset of this segment, up
    /// to the next page boundary, the end of the segment or the end of the source page, whichever
    /// comes first. This call will advance offset and reduce length of `self`.
    ///
    /// Returns the number of bytes copied.
    pub fn copy_from_page(&mut self, src_page: &Page, src_offset: usize) -> (r: usize)
        requires
            old(self).wf(),
            src_offset <= PAGE_SIZE,
        ensures
            final(self).wf(),
            r == old(self).transfer_len(src_offset as int),
            final(self).bv_page@ == old(self).bv_page@.update_subrange_with(
                old(self).bv_offset as int,
                src_page@.subrange(src_offset as int, src_offset + r),
            ),
            final(self).advanced_from(*old(self), r as int),
            *final(final(self).bv_page) == *final(old(self).bv_page),
    {
        let dst_offset: usize = self.offset() % PAGE_SIZE;
        let length: usize = min_usize(
            min_usize(PAGE_SIZE - dst_offset, self.len() as usize),
            PAGE_SIZE - src_offset,
        );
        self.bv_page.copy_from(dst_offset, src_page, src_offset, length);
        assert(self.bv_page@ =~= old(self).bv_page@.update_subrange_with(
            old(self).bv_offset as int,
            src_page@.subrange(src_offset as int, src_offset + length),
        ));
        let _ = self.advance(length as u32);
        length
    }

    /// Copy zeroes to this segment, from the current offset to the next page boundary or the end of
    /// the segment, whichever comes first. This call will advance offset and reduce length of
    /// `self`.
    ///
    /// Returns the number of bytes written.
    pub fn zero_page(&mut self) -> (r: usize)
        requires
            old(self).wf(),
        ensures
            final(self).wf(),
            r == old(self).transfer_len(0),
            final(self).bv_page@ == old(self).bv_page@.update_subrange_with(
                old(self).bv_offset as int,
                zeroes(r as nat),
            ),
            final(self).advanced_from(*old(self), r as int),
            *final(final(self).bv_page) == *final(old(self).bv_page),
    {
        let offset: usize = self.offset() % PAGE_SIZE;
        let length: usize = min_usize(PAGE_SIZE - offset, self.len() as usize);
        self.bv_page.fill_zero(offset, length);
        assert(self.bv_page@ =~= old(self).bv_page@.update_subrange_with(
            old(self).bv_offset as int,
            zeroes(length as nat),
        ));
        let _ = self.advance(length as u32);
        length
    }
}

/// The place of a segment: a range of one page of one entry of an IO vector.
struct IoVec {
    bv_vec: usize,
    bv_page: usize,
    bv_len: u32,
    bv_offset: u32,
}

impl IoVec {
    /// The place as numbers.
    closed spec fn extent(self) -> Extent {
        Extent {
            vec: self.bv_vec as int,
            page: self.bv_page as int,
            offset: self.bv_offset as int,
            len: self.bv_len as int,
        }
    }
}

/// An iterator over the segments of a bio.
pub struct BioSegmentIterator<'a> {
    pub bio: &'a mut Bio,
    pub iter: BvecIter,
}

impl<'a> BioSegmentIterator<'a> {
    /// If bytes remain, the position indexes a valid entry of the bio's IO vector.
    pub open spec fn wf(self) -> bool {
        &&& self.bio@.wf()
        &&& cursor_wf(self.bio@.shape(), op_stays(self.bio@.opf), self.iter.cursor())
    }

    /// The currently indexed entry.
    pub open spec fn current_vec(self) -> BioVecView {
        self.bio@.vecs[self.iter.bi_idx as int]
    }

    /// The segment at the current position.
    pub open spec fn current(self) -> Extent {
        extent_at(self.bio@.shape(), self.iter.cursor())
    }

    /// The segments that are still to come.
    pub open spec fn remaining(self) -> Seq<Extent> {
        extents(self.bio@.shape(), op_stays(self.bio@.opf), self.iter.cursor())
    }

    /// Create a new segment iterator for iterating the segments of `bio`. The iterator starts at
    /// the beginning of `bio`.
    pub(crate) fn new(bio: &'a mut Bio) -> (r: BioSegmentIterator<'a>)
        requires
            old(bio)@.wf(),
        ensures
            r.wf(),
            *r.bio == *old(bio),
            *final(r.bio) == *final(bio),
            r.iter == old(bio).bi_iter,
    {
        let iter = bio.raw_iter();
        BioSegmentIterator { bio, iter }
    }

    /// Construct the place of a segment from the current iterator state. It is no larger than a
    /// page.
    fn io_vec(&self) -> (r: IoVec)
        requires
            self.wf(),
            self.iter.bi_size > 0,
        ensures
            r.extent() == self.current(),
            r.bv_offset + r.bv_len <= PAGE_SIZE,
    {
        let (bv_vec, bv_page) = self.page();
        IoVec { bv_vec, bv_page, bv_len: self.len(), bv_offset: self.offset() }
    }

    /// Get the currently indexed entry.
    fn bvec(&self) -> (r: &BioVec)
        requires
            self.wf(),
            self.iter.bi_size > 0,
        ensures
            r@ == self.current_vec(),
            r@.wf(),
            self.iter.bi_bvec_done <= r@.len,
    {
        assert(self.bio@.vecs[self.iter.bi_idx as int].wf());
        &self.bio.io_vec()[self.iter.bi_idx as usize]
    }

    /// Get the currently indexed page: the number of the entry, and the number of the page in it.
    fn page(&self) -> (r: (usize, usize))
        requires
            self.wf(),
            self.iter.bi_size > 0,
        ensures
            r.0 == self.current().vec,
            r.1 == self.current().page,
    {
        (self.mp_page(), self.mp_page_idx())
    }

    /// Get the number of the currently indexed entry, whose pages may be more than one.
    fn mp_page(&self) -> (r: usize)
        requires
            self.wf(),
            self.iter.bi_size > 0,
        ensures
            r == self.current().vec,
    {
        self.iter.bi_idx as usize
    }

    /// Get the offset in the currently indexed multi-page entry. This can be more than `PAGE_SIZE`.
    fn mp_offset(&self) -> (r: u32)
        requires
            self.wf(),
            self.iter.bi_size > 0,
        ensures
            r == self.current_vec().offset + self.iter.bi_bvec_done,
    {
        self.bvec().bv_offset + self.iter.bi_bvec_done
    }

    /// Get the number of remaining bytes for the currently indexed entry. Can be more than
    /// `PAGE_SIZE`.
    fn mp_len(&self) -> (r: u32)
        requires
            self.wf(),
            self.iter.bi_size > 0,
        ensures
            r == min(
                self.iter.bi_size as int,
                self.current_vec().len - self.iter.bi_bvec_done,
            ),
    {
        min_u32(self.iter.bi_size, self.bvec().bv_len - self.iter.bi_bvec_done)
    }

    /// Get the offset in whole pages into the currently indexed entry.
    fn mp_page_idx(&self) -> (r: usize)
        requires
            self.wf(),
            self.iter.bi_size > 0,
        ensures
            r == self.current().page,
    {
        (self.mp_offset() / (PAGE_SIZE as u32)) as usize
    }

    /// Get the offset from the last page boundary in the currently indexed entry. Never more than
    /// `PAGE_SIZE`.
    fn offset(&self) -> (r: u32)
        requires
            self.wf(),
            self.iter.bi_size > 0,
        ensures
            r == self.current().offset,
            r < PAGE_SIZE,
    {
        self.mp_offset() % (PAGE_SIZE as u32)
    }

    /// Get the remaining bytes in the current page. Never more than `PAGE_SIZE`.
    fn len(&self) -> (r: u32)
        requires
            self.wf(),
            self.iter.bi_size > 0,
        ensures
            r == self.current().len,
            r <= PAGE_SIZE,
    {
        min_u32(self.mp_len(), (PAGE_SIZE as u32) - self.offset())
    }

    /// The next segment of the bio, or `None` where no bytes remain. The segment borrows the page
    /// that it lies in, and never extends beyond that page.
    pub fn next<'b>(&'b mut self) -> (r: Option<Segment<'b>>)
        requires
            old(self).wf(),
        ensures
            *final(final(self).bio) == *final(old(self).bio),
            r is Some <==> old(self).iter.bi_size > 0,
            r is None ==> *final(self).bio == *old(self).bio && final(self).iter == old(self).iter,
            r matches Some(segment) ==> {
                let e = old(self).current();
                &&& segment.wf()
                &&& segment.bv_offset == e.offset
                &&& segment.bv_len == e.len
                &&& segment.bv_page@ == old(self).bio@.vecs[e.vec].pages[e.page]
                &&& final(self).bio@ == old(self).bio@.with_page(
                    e.vec,
                    e.page,
                    final(segment.bv_page)@,
                )
                &&& final(self).iter == old(self).bio@.advance(old(self).iter, e.len)
                &&& old(self).remaining() == seq![e] + final(self).remaining()
            },
            final(self).wf(),
    {
        if self.iter.bi_size == 0 {
            return None;
        }
        let ghost before = self.bio@;
        let ghost shape = before.shape();
        let ghost c = self.iter.cursor();
        let ghost stays = op_stays(self.bio@.opf);
        assert(self.current_vec().wf());
        proof {
            lemma_shape_wf(before);
            lemma_step_wf(shape, stays, c);
        }
        let place = self.io_vec();
        let iter = self.bio.advance_iter_single(self.iter, place.bv_len);
        self.iter = iter;
        let bv_page = self.bio.page_mut(place.bv_vec, place.bv_page);
        proof {
            let e = extent_at(shape, c);
            lemma_with_page(before, e.vec, e.page, final(bv_page)@);
        }
        Some(Segment { bv_page, bv_len: place.bv_len, bv_offset: place.bv_offset })
    }
}

} // verus!
