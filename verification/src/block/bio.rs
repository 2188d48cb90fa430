//! Types for working with the bio layer.

use crate::page::{Page, PAGE_SIZE};
use crate::text::{decimal, number, push_decimal, push_number, push_text};
use vstd::prelude::*;
use vstd::utf8::encode_utf8;

pub mod data;
pub mod laws;
pub mod vec;

pub use vec::BioSegmentIterator;
pub use vec::Segment;

verus! {

broadcast use Page::lemma_len;

/// Reads from the device.
pub const REQ_OP_READ: u32 = 0;

/// Writes to the device.
pub const REQ_OP_WRITE: u32 = 1;

/// Discards sectors.
pub const REQ_OP_DISCARD: u32 = 3;

/// Discards sectors for good.
pub const REQ_OP_SECURE_ERASE: u32 = 5;

/// Writes zeroes.
pub const REQ_OP_WRITE_ZEROES: u32 = 9;

/// The number of bits of a flags word that hold the operation.
pub const REQ_OP_BITS: u32 = 8;

/// An entry of an IO vector: a range of a run of pages.
pub struct BioVec {
    pub bv_pages: Vec<Page>,
    pub bv_len: u32,
    pub bv_offset: u32,
}

/// What a [`BioVec`] holds.
#[verifier::ext_equal]
pub struct BioVecView {
    pub pages: Seq<Seq<u8>>,
    pub offset: int,
    pub len: int,
}

impl View for BioVec {
    type V = BioVecView;

    open spec fn view(&self) -> BioVecView {
        BioVecView {
            pages: self.bv_pages@.map_values(|p: Page| p@),
            offset: self.bv_offset as int,
            len: self.bv_len as int,
        }
    }
}

impl BioVecView {
    /// The range starts within the pages and ends no later than they do, and its end can be told in
    /// 32 bits.
    pub open spec fn wf(self) -> bool {
        &&& 0 <= self.offset < self.pages.len() * PAGE_SIZE
        &&& 0 <= self.len
        &&& self.offset + self.len <= self.pages.len() * PAGE_SIZE
        &&& self.offset + self.len <= u32::MAX
        &&& forall|i: int| 0 <= i < self.pages.len() ==> #[trigger] self.pages[i].len() == PAGE_SIZE
    }
}

/// A position within an IO vector.
#[derive(Clone, Copy, Debug, PartialEq, Eq, Structural)]
pub struct BvecIter {
    /// The device sector of the position.
    pub bi_sector: u64,
    /// The number of bytes that remain.
    pub bi_size: u32,
    /// The index of the current entry.
    pub bi_idx: u32,
    /// The number of bytes of the current entry that are done.
    pub bi_bvec_done: u32,
}

/// A position within an IO vector, without the device sector.
pub struct Cursor {
    pub size: int,
    pub idx: int,
    pub done: int,
}

impl BvecIter {
    pub open spec fn cursor(self) -> Cursor {
        Cursor {
            size: self.bi_size as int,
            idx: self.bi_idx as int,
            done: self.bi_bvec_done as int,
        }
    }
}

/// The operations whose bios have no data to walk through: a position moves in size only.
pub open spec fn op_stays(opf: u32) -> bool {
    let op = opf % 256;
    op == REQ_OP_DISCARD || op == REQ_OP_SECURE_ERASE || op == REQ_OP_WRITE_ZEROES
}

/// A block device IO descriptor.
pub struct Bio {
    pub bi_io_vec: Vec<BioVec>,
    pub bi_iter: BvecIter,
    pub bi_opf: u32,
}

/// What a [`Bio`] holds.
#[verifier::ext_equal]
pub struct BioView {
    pub vecs: Seq<BioVecView>,
    pub iter: BvecIter,
    pub opf: u32,
}

impl View for Bio {
    type V = BioView;

    open spec fn view(&self) -> BioView {
        BioView {
            vecs: self.bi_io_vec@.map_values(|v: BioVec| v@),
            iter: self.bi_iter,
            opf: self.bi_opf,
        }
    }
}

/// Offset and length of each entry of an IO vector.
pub type Shape = Seq<(int, int)>;

/// A piece of a bio's data: a range of one page of one entry.
pub struct Extent {
    pub vec: int,
    pub page: int,
    pub offset: int,
    pub len: int,
}

/// The number of bytes in the entries from `i` on.
pub open spec fn bytes_from(shape: Shape, i: int) -> int
    decreases shape.len() - i,
{
    if 0 <= i < shape.len() {
        shape[i].1 + bytes_from(shape, i + 1)
    } else {
        0
    }
}

/// Where bytes remain, the position indexes a valid entry that is not done, and the entries hold
/// those bytes. A position that moves in size only is in an entry that holds something.
pub open spec fn cursor_wf(shape: Shape, stays: bool, c: Cursor) -> bool {
    &&& 0 <= c.size
    &&& c.size > 0 ==> {
        &&& 0 <= c.idx < shape.len()
        &&& 0 <= c.done
        &&& c.done < shape[c.idx].1 || c.done == shape[c.idx].1 == 0 && !stays
        &&& stays || c.size <= bytes_from(shape, c.idx) - c.done
    }
}

/// The piece of data at a position: the rest of the current page of the current entry, as far as
/// the entry and the size reach.
pub open spec fn extent_at(shape: Shape, c: Cursor) -> Extent {
    let (offset, len) = shape[c.idx];
    let at = offset + c.done;
    Extent {
        vec: c.idx,
        page: at / PAGE_SIZE as int,
        offset: at % PAGE_SIZE as int,
        len: vec::min(vec::min(c.size, len - c.done), PAGE_SIZE - at % PAGE_SIZE as int),
    }
}

/// The position `bytes` further on, within the current entry or at the start of the next.
pub open spec fn step(shape: Shape, stays: bool, c: Cursor, bytes: int) -> Cursor {
    if stays {
        Cursor { size: c.size - bytes, ..c }
    } else if c.done + bytes == shape[c.idx].1 {
        Cursor { size: c.size - bytes, idx: c.idx + 1, done: 0 }
    } else {
        Cursor { size: c.size - bytes, done: c.done + bytes, ..c }
    }
}

/// No offset or length is negative.
pub open spec fn shape_wf(shape: Shape) -> bool {
    forall|i: int| 0 <= i < shape.len() ==> 0 <= (#[trigger] shape[i]).0 && 0 <= shape[i].1
}

/// The pieces of data from a position on, in order.
pub open spec fn extents(shape: Shape, stays: bool, c: Cursor) -> Seq<Extent>
    decreases c.size, shape.len() - c.idx,
{
    if c.size > 0 && shape_wf(shape) && cursor_wf(shape, stays, c) {
        let e = extent_at(shape, c);
        seq![e] + extents(shape, stays, step(shape, stays, c, e.len))
    } else {
        Seq::empty()
    }
}

/// Advancing by the piece at hand leads from one good position to another.
pub proof fn lemma_step_wf(shape: Shape, stays: bool, c: Cursor)
    requires
        shape_wf(shape),
        cursor_wf(shape, stays, c),
        c.size > 0,
    ensures
        cursor_wf(shape, stays, step(shape, stays, c, extent_at(shape, c).len)),
        0 <= extent_at(shape, c).len <= c.size,
        extent_at(shape, c).len == 0 ==> step(shape, stays, c, 0) == (Cursor {
            idx: c.idx + 1,
            done: 0,
            ..c
        }),
{
    let s = step(shape, stays, c, extent_at(shape, c).len);
    if !stays {
        lemma_bytes_from_nonneg(shape, c.idx + 1);
        if s.idx == c.idx + 1 && s.size > 0 {
            assert(bytes_from(shape, c.idx + 1) > 0);
        }
    }
}

/// A piece lies within one page, and within the range of its entry. It is empty only where the entry
/// is.
pub open spec fn extent_wf(shape: Shape, e: Extent) -> bool {
    &&& 0 <= e.vec < shape.len()
    &&& 0 <= e.len
    &&& e.len == 0 ==> shape[e.vec].1 == 0
    &&& 0 <= e.offset < PAGE_SIZE
    &&& e.offset + e.len <= PAGE_SIZE
    &&& shape[e.vec].0 <= e.page * PAGE_SIZE + e.offset
    &&& e.page * PAGE_SIZE + e.offset + e.len <= shape[e.vec].0 + shape[e.vec].1
}

/// The number of bytes in some pieces.
pub open spec fn total_len(es: Seq<Extent>) -> int
    decreases es.len(),
{
    if es.len() == 0 {
        0
    } else {
        es[0].len + total_len(es.drop_first())
    }
}

/// Every piece of a bio's data is a good one, and together they have as many bytes as the bio has
/// left.
pub proof fn lemma_extents(shape: Shape, stays: bool, c: Cursor)
    requires
        shape_wf(shape),
        cursor_wf(shape, stays, c),
    ensures
        forall|i: int|
            0 <= i < extents(shape, stays, c).len() ==> extent_wf(
                shape,
                #[trigger] extents(shape, stays, c)[i],
            ),
        total_len(extents(shape, stays, c)) == c.size,
    decreases c.size, shape.len() - c.idx,
{
    if c.size > 0 {
        let e = extent_at(shape, c);
        lemma_step_wf(shape, stays, c);
        let rest = step(shape, stays, c, e.len);
        lemma_extents(shape, stays, rest);
        let all = extents(shape, stays, c);
        assert(all.drop_first() =~= extents(shape, stays, rest));
        assert(extent_wf(shape, e));
        assert forall|i: int| 0 <= i < all.len() implies extent_wf(shape, #[trigger] all[i]) by {
            if i > 0 {
                assert(all[i] == extents(shape, stays, rest)[i - 1]);
            }
        }
    }
}

proof fn lemma_bytes_from_nonneg(shape: Shape, i: int)
    requires
        shape_wf(shape),
    ensures
        bytes_from(shape, i) >= 0,
    decreases shape.len() - i,
{
    if 0 <= i < shape.len() {
        lemma_bytes_from_nonneg(shape, i + 1);
    }
}

impl BioView {
    pub open spec fn shape(self) -> Shape {
        self.vecs.map_values(|v: BioVecView| (v.offset, v.len))
    }

    /// The entries are good, and the position of the bio is a good position in them.
    pub open spec fn wf(self) -> bool {
        &&& forall|i: int| 0 <= i < self.vecs.len() ==> (#[trigger] self.vecs[i]).wf()
        &&& self.vecs.len() <= u16::MAX
        &&& cursor_wf(self.shape(), op_stays(self.opf), self.iter.cursor())
    }

    /// This bio with other contents in one page.
    pub open spec fn with_page(self, vec: int, page: int, data: Seq<u8>) -> BioView {
        let v = self.vecs[vec];
        BioView {
            vecs: self.vecs.update(vec, BioVecView { pages: v.pages.update(page, data), ..v }),
            ..self
        }
    }

    /// The data of a piece.
    pub open spec fn data(self, e: Extent) -> Seq<u8> {
        self.vecs[e.vec].pages[e.page].subrange(e.offset, e.offset + e.len)
    }

    /// This bio with other data in a piece.
    pub open spec fn put(self, e: Extent, data: Seq<u8>) -> BioView {
        self.with_page(
            e.vec,
            e.page,
            self.vecs[e.vec].pages[e.page].update_subrange_with(e.offset, data),
        )
    }

    /// The pieces of this bio's data, in order.
    pub open spec fn extents(self) -> Seq<Extent> {
        extents(self.shape(), op_stays(self.opf), self.iter.cursor())
    }
}

impl BioView {
    /// The text that describes the bio at address `addr`.
    pub open spec fn text(self, addr: int) -> Seq<u8> {
        encode_utf8("Bio(0x"@) + number(addr, 16) + encode_utf8(", vcnt: "@) + decimal(
            self.vecs.len() as int,
        ) + encode_utf8(", idx: "@) + decimal(self.iter.bi_idx as int) + encode_utf8(
            ", size: 0x"@,
        ) + number(self.iter.bi_size as int, 16) + encode_utf8(", completed: 0x"@) + number(
            self.iter.bi_bvec_done as int,
            16,
        ) + encode_utf8(")"@)
    }
}

/// Other contents of the same size in one page leave a bio good, and its shape as it is.
pub proof fn lemma_with_page(bio: BioView, vec: int, page: int, data: Seq<u8>)
    requires
        0 <= vec < bio.vecs.len(),
        0 <= page < bio.vecs[vec].pages.len(),
        data.len() == PAGE_SIZE,
    ensures
        bio.with_page(vec, page, data).shape() == bio.shape(),
        bio.wf() ==> bio.with_page(vec, page, data).wf(),
{
    let after = bio.with_page(vec, page, data);
    assert(after.shape() =~= bio.shape());
    if bio.wf() {
        assert forall|i: int| 0 <= i < after.vecs.len() implies (#[trigger] after.vecs[i]).wf() by {
            assert(bio.vecs[i].wf());
        }
    }
}

/// A good bio has a good shape.
pub proof fn lemma_shape_wf(bio: BioView)
    requires
        bio.wf(),
    ensures
        shape_wf(bio.shape()),
{
    let shape = bio.shape();
    assert forall|i: int| 0 <= i < shape.len() implies 0 <= (#[trigger] shape[i]).0 && 0
        <= shape[i].1 by {
        assert(bio.vecs[i].wf());
    }
}

impl BioView {
    /// The position `bytes` further on.
    pub open spec fn advance(self, iter: BvecIter, bytes: int) -> BvecIter {
        let c = step(self.shape(), op_stays(self.opf), iter.cursor(), bytes);
        BvecIter {
            bi_sector: iter.bi_sector.wrapping_add((bytes / 512) as u64),
            bi_size: c.size as u32,
            bi_idx: c.idx as u32,
            bi_bvec_done: c.done as u32,
        }
    }
}

impl BioVec {
    /// Whether this entry is a good one: its range starts within the pages and ends no later than
    /// they do, and its end can be told in 32 bits.
    pub fn is_valid(&self) -> (r: bool)
        ensures
            r == self@.wf(),
    {
        if self.bv_len > u32::MAX - self.bv_offset {
            return false;
        }
        let last: u32 = if self.bv_len == 0 {
            self.bv_offset
        } else {
            self.bv_offset + self.bv_len - 1
        };
        ((last / PAGE_SIZE as u32) as usize) < self.bv_pages.len()
    }
}

impl Bio {
    /// Whether this bio is a good one: its entries are, and its position is a good one in them.
    pub fn is_valid(&self) -> (r: bool)
        ensures
            r == self@.wf(),
    {
        if self.bi_io_vec.len() > u16::MAX as usize {
            return false;
        }
        let mut i: usize = self.bi_io_vec.len();
        let mut bytes: u64 = 0;
        let mut here: u64 = 0;
        let idx = self.bi_iter.bi_idx as usize;
        let ghost shape = self@.shape();
        while i > 0
            invariant
                i <= self.bi_io_vec@.len() <= u16::MAX,
                idx == self.bi_iter.bi_idx,
                shape == self@.shape(),
                forall|j: int| i <= j < self@.vecs.len() ==> (#[trigger] self@.vecs[j]).wf(),
                bytes == bytes_from(shape, i as int),
                bytes <= (self.bi_io_vec@.len() - i) * u32::MAX,
                i <= idx < self.bi_io_vec@.len() ==> here == bytes_from(shape, idx as int),
            decreases i,
        {
            i = i - 1;
            assert(self@.vecs[i as int] == self.bi_io_vec@[i as int]@);
            if !self.bi_io_vec[i].is_valid() {
                return false;
            }
            assert(bytes <= 0xffff * u32::MAX) by (nonlinear_arith)
                requires
                    bytes <= (self.bi_io_vec@.len() - i - 1) * u32::MAX,
                    self.bi_io_vec@.len() <= u16::MAX,
                    0 <= i,
            ;
            bytes = bytes + self.bi_io_vec[i].bv_len as u64;
            if i == idx {
                here = bytes;
            }
        }
        let iter = self.raw_iter();
        if iter.bi_size == 0 {
            return true;
        }
        if idx >= self.bi_io_vec.len() {
            return false;
        }
        assert(self@.vecs[idx as int] == self.bi_io_vec@[idx as int]@);
        let len = self.bi_io_vec[idx].bv_len;
        let stays = self.no_advance_iter();
        if iter.bi_bvec_done >= len && (stays || iter.bi_bvec_done > 0 || len > 0) {
            return false;
        }
        stays || iter.bi_size as u64 + iter.bi_bvec_done as u64 <= here
    }

    /// Returns an iterator over segments in this `Bio`. Does not consider segments of other bios in
    /// this bio chain.
    pub fn segment_iter(&mut self) -> (r: BioSegmentIterator<'_>)
        requires
            old(self)@.wf(),
        ensures
            r.wf(),
            *r.bio == *old(self),
            *final(r.bio) == *final(self),
            r.iter == old(self).bi_iter,
    {
        BioSegmentIterator::new(self)
    }

    /// Get the number of io vectors in this bio.
    pub fn io_vec_count(&self) -> (r: u16)
        requires
            self@.vecs.len() <= u16::MAX,
        ensures
            r == self@.vecs.len(),
    {
        self.bi_io_vec.len() as u16
    }

    /// The text that describes this bio, which is at address `addr`.
    pub fn fmt(&self, addr: usize) -> (r: Vec<u8>)
        requires
            self@.vecs.len() <= u16::MAX,
        ensures
            r@ == self@.text(addr as int),
    {
        let mut r: Vec<u8> = Vec::new();
        push_text(&mut r, "Bio(0x");
        push_number(&mut r, addr as u64, 16);
        push_text(&mut r, ", vcnt: ");
        push_decimal(&mut r, self.io_vec_count() as u64);
        push_text(&mut r, ", idx: ");
        push_decimal(&mut r, self.raw_iter().bi_idx as u64);
        push_text(&mut r, ", size: 0x");
        push_number(&mut r, self.raw_iter().bi_size as u64, 16);
        push_text(&mut r, ", completed: 0x");
        push_number(&mut r, self.raw_iter().bi_bvec_done as u64, 16);
        push_text(&mut r, ")");
        assert(r@ =~= self@.text(addr as int));
        r
    }

    /// Get the entries of the IO vector of this bio.
    fn io_vec(&self) -> (r: &Vec<BioVec>)
        ensures
            *r == self.bi_io_vec,
    {
        &self.bi_io_vec
    }

    /// Return a copy of the position of this bio.
    fn raw_iter(&self) -> (r: BvecIter)
        ensures
            r == self.bi_iter,
    {
        self.bi_iter
    }

    /// A page of an entry.
    fn page_mut(&mut self, vec: usize, page: usize) -> (r: &mut Page)
        requires
            vec < old(self)@.vecs.len(),
            page < old(self)@.vecs[vec as int].pages.len(),
        ensures
            r@ == old(self)@.vecs[vec as int].pages[page as int],
            final(self)@ == old(self)@.with_page(vec as int, page as int, final(r)@),
    {
        let ghost before = *self;
        let r = &mut self.bi_io_vec[vec].bv_pages[page];
        proof {
            let after = after_borrow(self)@;
            let v = before@.vecs[vec as int];
            assert(after.vecs[vec as int].pages =~= v.pages.update(page as int, final(r)@));
            assert(after.vecs =~= before@.with_page(vec as int, page as int, final(r)@).vecs);
        }
        r
    }

    /// Whether a position in this bio moves in size only.
    fn no_advance_iter(&self) -> (r: bool)
        ensures
            r == op_stays(self.bi_opf),
    {
        let op = self.bi_opf % 256;
        op == REQ_OP_DISCARD || op == REQ_OP_SECURE_ERASE || op == REQ_OP_WRITE_ZEROES
    }

    /// The position `bytes` further on than `iter`, which does not go beyond the current entry.
    fn advance_iter_single(&self, iter: BvecIter, bytes: u32) -> (r: BvecIter)
        requires
            self@.wf(),
            cursor_wf(self@.shape(), op_stays(self.bi_opf), iter.cursor()),
            bytes <= iter.bi_size,
            0 < iter.bi_size,
            bytes <= self@.shape()[iter.bi_idx as int].1 - iter.bi_bvec_done,
        ensures
            r == self@.advance(iter, bytes as int),
            r.cursor() == step(
                self@.shape(),
                op_stays(self.bi_opf),
                iter.cursor(),
                bytes as int,
            ),
    {
        let bi_sector = iter.bi_sector.wrapping_add((bytes / 512) as u64);
        let bi_size = iter.bi_size - bytes;
        if self.no_advance_iter() {
            return BvecIter { bi_sector, bi_size, bi_idx: iter.bi_idx, bi_bvec_done: iter.bi_bvec_done };
        }
        assert(self@.vecs[iter.bi_idx as int].wf());
        let done = iter.bi_bvec_done + bytes;
        if done == self.bi_io_vec[iter.bi_idx as usize].bv_len {
            BvecIter { bi_sector, bi_size, bi_idx: iter.bi_idx + 1, bi_bvec_done: 0 }
        } else {
            BvecIter { bi_sector, bi_size, bi_idx: iter.bi_idx, bi_bvec_done: done }
        }
    }
}

/// An iterator over the `Bio`s of a bio chain, yielding `&mut Bio`.
pub struct BioIterator<'a> {
    pub bios: &'a mut Vec<Bio>,
    pub next: usize,
}

impl<'a> BioIterator<'a> {
    /// The next bio of the chain, or `None` at its end.
    pub fn next<'b>(&'b mut self) -> (r: Option<&'b mut Bio>)
        ensures
            *final(final(self).bios) == *final(old(self).bios),
            r is Some <==> old(self).next < old(self).bios@.len(),
            r is None ==> *final(self).bios == *old(self).bios && final(self).next
                == old(self).next,
            r matches Some(bio) ==> {
                &&& *bio == old(self).bios@[old(self).next as int]
                &&& final(self).bios@ == old(self).bios@.update(
                    old(self).next as int,
                    *final(bio),
                )
                &&& final(self).next == old(self).next + 1
            },
    {
        if self.next >= self.bios.len() {
            return None;
        }
        let current = self.next;
        self.next = current + 1;
        Some(&mut self.bios[current])
    }
}

} // verus!
