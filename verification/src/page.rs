//! Pages of memory.

use vstd::prelude::*;

verus! {

/// The number of bytes in a page.
pub const PAGE_SIZE: usize = 4096;

/// `n` zero bytes.
pub open spec fn zeroes(n: nat) -> Seq<u8> {
    Seq::new(n, |i: int| 0u8)
}

/// A page of memory.
pub struct Page {
    data: [u8; 4096],
}

impl View for Page {
    type V = Seq<u8>;

    closed spec fn view(&self) -> Seq<u8> {
        self.data@
    }
}

impl Page {
    /// A page holds `PAGE_SIZE` bytes.
    pub broadcast proof fn lemma_len(&self)
        ensures
            #[trigger] self@.len() == PAGE_SIZE,
    {
    }

    /// A page that holds zeroes only.
    pub fn zeroed() -> (r: Page)
        ensures
            r@ == zeroes(PAGE_SIZE as nat),
    {
        Page { data: [0u8; 4096] }
    }

    /// The byte at `offset`.
    pub fn byte(&self, offset: usize) -> (r: u8)
        requires
            offset < PAGE_SIZE,
        ensures
            r == self@[offset as int],
    {
        self.data[offset]
    }

    /// Sets the byte at `offset` to `value`.
    pub fn set_byte(&mut self, offset: usize, value: u8)
        requires
            offset < PAGE_SIZE,
        ensures
            final(self)@ == old(self)@.update(offset as int, value),
    {
        self.data[offset] = value;
    }

    /// Copies `len` bytes of `src`, from `src_offset` on, to `offset`.
    pub fn copy_from(&mut self, offset: usize, src: &Page, src_offset: usize, len: usize)
        requires
            offset + len <= PAGE_SIZE,
            src_offset + len <= PAGE_SIZE,
        ensures
            final(self)@ == old(self)@.update_subrange_with(
                offset as int,
                src@.subrange(src_offset as int, src_offset + len),
            ),
    {
        broadcast use Page::lemma_len;

        let mut i: usize = 0;
        while i < len
            invariant
                i <= len,
                offset + len <= PAGE_SIZE,
                src_offset + len <= PAGE_SIZE,
                self@ == old(self)@.update_subrange_with(
                    offset as int,
                    src@.subrange(src_offset as int, src_offset + i),
                ),
            decreases len - i,
        {
            self.set_byte(offset + i, src.byte(src_offset + i));
            i = i + 1;
            assert(self@ =~= old(self)@.update_subrange_with(
                offset as int,
                src@.subrange(src_offset as int, src_offset + i),
            ));
        }
    }

    /// Fills `len` bytes from `offset` on with zeroes.
    pub fn fill_zero(&mut self, offset: usize, len: usize)
        requires
            offset + len <= PAGE_SIZE,
        ensures
            final(self)@ == old(self)@.update_subrange_with(offset as int, zeroes(len as nat)),
    {
        broadcast use Page::lemma_len;

        let mut i: usize = 0;
        while i < len
            invariant
                i <= len,
                offset + len <= PAGE_SIZE,
                self@ == old(self)@.update_subrange_with(offset as int, zeroes(i as nat)),
            decreases len - i,
        {
            self.set_byte(offset + i, 0);
            i = i + 1;
            assert(self@ =~= old(self)@.update_subrange_with(offset as int, zeroes(i as nat)));
        }
    }
}

} // verus!
