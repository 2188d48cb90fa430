//! The data of a bio as one run of bytes.

use super::{bytes_from, cursor_wf, extent_at, extent_wf, extents, lemma_extents, lemma_shape_wf};
use super::lemma_with_page;
use super::{lemma_step_wf, op_stays, shape_wf, step, total_len};
use super::{BioVecView, BioView, Cursor, Extent, Shape};
use crate::page::PAGE_SIZE;
use vstd::prelude::*;

verus! {

impl BioVecView {
    /// The bytes of the range.
    pub open spec fn bytes(self) -> Seq<u8> {
        Seq::new(
            self.len as nat,
            |j: int|
                self.pages[(self.offset + j) / PAGE_SIZE as int][(self.offset + j)
                    % PAGE_SIZE as int],
        )
    }
}

/// The bytes of the entries from `i` on, one behind another.
pub open spec fn entry_bytes(vecs: Seq<BioVecView>, i: int) -> Seq<u8>
    decreases vecs.len() - i,
{
    if 0 <= i < vecs.len() {
        vecs[i].bytes() + entry_bytes(vecs, i + 1)
    } else {
        Seq::empty()
    }
}

impl BioView {
    /// The bytes from a position on.
    pub open spec fn bytes_at(self, c: Cursor) -> Seq<u8> {
        if c.size > 0 {
            entry_bytes(self.vecs, c.idx).subrange(c.done, c.done + c.size)
        } else {
            Seq::empty()
        }
    }

    /// The bytes that this bio still has to transfer.
    pub open spec fn bytes(self) -> Seq<u8> {
        self.bytes_at(self.iter.cursor())
    }

    /// The data of some pieces, one behind another.
    pub open spec fn gather(self, es: Seq<Extent>) -> Seq<u8>
        decreases es.len(),
    {
        if es.len() == 0 {
            Seq::empty()
        } else {
            self.data(es[0]) + self.gather(es.drop_first())
        }
    }
}

/// The entries hold as many bytes as their lengths say.
pub proof fn lemma_entry_bytes_len(bio: BioView, i: int)
    requires
        bio.wf(),
        0 <= i,
    ensures
        entry_bytes(bio.vecs, i).len() == bytes_from(bio.shape(), i),
    decreases bio.vecs.len() - i,
{
    if i < bio.vecs.len() {
        assert(bio.vecs[i].wf());
        lemma_entry_bytes_len(bio, i + 1);
    }
}

/// The data of the piece at a position comes first, and the bytes from behind it follow.
pub proof fn lemma_bytes_step(bio: BioView, c: Cursor)
    requires
        bio.wf(),
        cursor_wf(bio.shape(), false, c),
        c.size > 0,
    ensures
        ({
            let e = extent_at(bio.shape(), c);
            bio.bytes_at(c) == bio.data(e) + bio.bytes_at(step(bio.shape(), false, c, e.len))
        }),
{
    let shape = bio.shape();
    let e = extent_at(shape, c);
    let next = step(shape, false, c, e.len);
    let v = bio.vecs[c.idx];
    assert(v.wf());
    lemma_shape_wf(bio);
    lemma_step_wf(shape, false, c);
    lemma_entry_bytes_len(bio, c.idx);
    lemma_entry_bytes_len(bio, c.idx + 1);
    let left = bio.bytes_at(c);
    let right = bio.data(e) + bio.bytes_at(next);
    assert(v.pages[e.page].len() == PAGE_SIZE);
    assert(left.len() == right.len());
    assert forall|i: int| 0 <= i < left.len() implies left[i] == right[i] by {
        if i < e.len {
            let at = v.offset + c.done;
            assert((at + i) / PAGE_SIZE as int == e.page && (at + i) % PAGE_SIZE as int == e.offset
                + i);
        }
    }
    assert(left =~= right);
}

/// The segments from a position on hold the bytes from there on, in order.
pub proof fn lemma_gather_at(bio: BioView, c: Cursor)
    requires
        bio.wf(),
        cursor_wf(bio.shape(), false, c),
    ensures
        bio.gather(extents(bio.shape(), false, c)) == bio.bytes_at(c),
    decreases c.size, bio.vecs.len() - c.idx,
{
    lemma_shape_wf(bio);
    let shape = bio.shape();
    if c.size > 0 {
        let e = extent_at(shape, c);
        let next = step(shape, false, c, e.len);
        lemma_step_wf(shape, false, c);
        lemma_gather_at(bio, next);
        lemma_bytes_step(bio, c);
        assert(extents(shape, false, c).drop_first() =~= extents(shape, false, next));
    }
}

/// The segments of a bio, one behind another, are its bytes: none is left out, none comes twice,
/// and they come in order. There are as many of them as the size of the bio says.
pub proof fn law_segments_are_the_bytes(bio: BioView)
    requires
        bio.wf(),
        !op_stays(bio.opf),
    ensures
        bio.gather(bio.extents()) == bio.bytes(),
        bio.bytes().len() == bio.iter.bi_size,
{
    lemma_gather_at(bio, bio.iter.cursor());
    if bio.iter.bi_size > 0 {
        lemma_entry_bytes_len(bio, bio.iter.bi_idx as int);
    }
}

/// No segment reaches beyond the end of its page, none is empty unless its entry is, and together they
/// have as many bytes as the size of the bio says.
pub proof fn law_segments_lie_in_pages(bio: BioView)
    requires
        bio.wf(),
    ensures
        total_len(bio.extents()) == bio.iter.bi_size,
        forall|i: int|
            0 <= i < bio.extents().len() ==> {
                let e = #[trigger] bio.extents()[i];
                &&& 0 <= e.len
                &&& 0 <= e.offset
                &&& e.offset + e.len <= PAGE_SIZE
                &&& e.len == 0 ==> bio.vecs[e.vec].len == 0
            },
{
    lemma_shape_wf(bio);
    lemma_extents(bio.shape(), op_stays(bio.opf), bio.iter.cursor());
    assert forall|i: int| 0 <= i < bio.extents().len() implies {
        let e = #[trigger] bio.extents()[i];
        &&& 0 <= e.len
        &&& 0 <= e.offset
        &&& e.offset + e.len <= PAGE_SIZE
        &&& e.len == 0 ==> bio.vecs[e.vec].len == 0
    } by {
        assert(extent_wf(bio.shape(), bio.extents()[i]));
    }
}

/// Two pieces have no byte in common.
pub open spec fn disjoint(a: Extent, b: Extent) -> bool {
    a.vec != b.vec || a.page != b.page || a.offset + a.len <= b.offset || b.offset + b.len
        <= a.offset
}

/// Nothing of a piece lies before a position.
pub open spec fn not_before(shape: Shape, c: Cursor, e: Extent) -> bool {
    e.vec > c.idx || e.vec == c.idx && e.page * PAGE_SIZE + e.offset >= shape[c.idx].0 + c.done
}

/// The pieces from a position on lie behind it.
proof fn lemma_extents_not_before(shape: Shape, c: Cursor)
    requires
        shape_wf(shape),
        cursor_wf(shape, false, c),
    ensures
        forall|i: int|
            0 <= i < extents(shape, false, c).len() ==> not_before(
                shape,
                c,
                #[trigger] extents(shape, false, c)[i],
            ),
    decreases c.size, shape.len() - c.idx,
{
    if c.size > 0 {
        let e = extent_at(shape, c);
        let next = step(shape, false, c, e.len);
        lemma_step_wf(shape, false, c);
        lemma_extents_not_before(shape, next);
        let all = extents(shape, false, c);
        let rest = extents(shape, false, next);
        assert forall|i: int| 0 <= i < all.len() implies not_before(shape, c, #[trigger] all[i]) by {
            if i > 0 {
                assert(all[i] == rest[i - 1]);
            }
        }
    }
}

/// The piece at a position has no byte in common with those that follow it.
pub proof fn lemma_first_disjoint(shape: Shape, c: Cursor)
    requires
        shape_wf(shape),
        cursor_wf(shape, false, c),
        c.size > 0,
    ensures
        ({
            let e = extent_at(shape, c);
            let rest = extents(shape, false, step(shape, false, c, e.len));
            forall|i: int| 0 <= i < rest.len() ==> disjoint(e, #[trigger] rest[i])
        }),
{
    let e = extent_at(shape, c);
    let next = step(shape, false, c, e.len);
    let rest = extents(shape, false, next);
    lemma_step_wf(shape, false, c);
    lemma_extents_not_before(shape, next);
    lemma_extents(shape, false, next);
    assert forall|i: int| 0 <= i < rest.len() implies disjoint(e, #[trigger] rest[i]) by {
        assert(not_before(shape, next, rest[i]));
        assert(extent_wf(shape, rest[i]));
    }
}

/// Putting data into one piece leaves a bio good, and it changes neither its shape nor the data of a
/// piece that has no byte in common with the first.
pub proof fn lemma_put(bio: BioView, e: Extent, data: Seq<u8>)
    requires
        bio.wf(),
        extent_wf(bio.shape(), e),
        data.len() == e.len,
    ensures
        bio.put(e, data).wf(),
        bio.put(e, data).shape() == bio.shape(),
        bio.put(e, data).data(e) == data,
        bio.put(e, bio.data(e)) == bio,
        forall|f: Extent|
            extent_wf(bio.shape(), f) && disjoint(e, f) ==> #[trigger] bio.put(e, data).data(f)
                == bio.data(f),
{
    let v = bio.vecs[e.vec];
    assert(v.wf());
    assert(0 <= e.page < v.pages.len());
    let page = v.pages[e.page];
    assert(page.len() == PAGE_SIZE);
    lemma_with_page(bio, e.vec, e.page, page.update_subrange_with(e.offset, data));
    let after = bio.put(e, data);
    assert(after.data(e) =~= data);
    assert(page.update_subrange_with(e.offset, bio.data(e)) =~= page);
    assert(v.pages.update(e.page, page) =~= v.pages);
    assert(bio.put(e, bio.data(e)).vecs =~= bio.vecs);
    assert forall|f: Extent| extent_wf(bio.shape(), f) && disjoint(e, f) implies #[trigger] after.data(
        f,
    ) == bio.data(f) by {
        assert(bio.vecs[f.vec].wf());
        assert(0 <= f.page < bio.vecs[f.vec].pages.len());
        assert(bio.vecs[f.vec].pages[f.page].len() == PAGE_SIZE);
        assert(after.data(f) =~= bio.data(f));
    }
}

} // verus!
