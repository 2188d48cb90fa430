//! The pages that back a device.

use crate::block::bio::vec::min;
use crate::block::bio::{REQ_OP_READ, REQ_OP_WRITE};
use crate::page::{zeroes, Page, PAGE_SIZE};
use std::collections::HashMap;
use vstd::prelude::*;

verus! {

broadcast use {Page::lemma_len, vstd::std_specs::hash::group_hash_axioms};

/// The contents of a device: its pages, by page number. A page that is absent holds zeroes.
pub type Pages = Map<int, Seq<u8>>;

/// The byte at address `addr` of a device.
pub open spec fn byte_at(pages: Pages, addr: int) -> u8 {
    let k = addr / PAGE_SIZE as int;
    if pages.contains_key(k) {
        pages[k][addr % PAGE_SIZE as int]
    } else {
        0
    }
}

/// Page `k` holds some of the `len` bytes from `addr` on.
pub open spec fn touches(addr: int, len: int, k: int) -> bool {
    len > 0 && addr / PAGE_SIZE as int <= k <= (addr + len - 1) / PAGE_SIZE as int
}

/// The contents of a device after `data` has been put at `addr`. The pages that hold the data are
/// there afterwards; those that were absent hold zeroes around the data.
pub open spec fn overlay(pages: Pages, addr: int, data: Seq<u8>) -> Pages {
    Map::new(
        |k: int| pages.contains_key(k) || touches(addr, data.len() as int, k),
        |k: int|
            Seq::new(
                PAGE_SIZE as nat,
                |j: int|
                    {
                        let a = k * PAGE_SIZE + j;
                        if addr <= a < addr + data.len() {
                            data[a - addr]
                        } else {
                            byte_at(pages, a)
                        }
                    },
            ),
    )
}

/// How far a write of `len` bytes at `addr` gets when `left` pages can still be allocated, and how
/// many pages can be allocated after it. The write goes page by page and ends at the first page
/// that is absent and cannot be allocated.
pub open spec fn supply(pages: Pages, left: int, addr: int, len: int) -> (int, int)
    decreases len,
{
    if len <= 0 {
        (0, left)
    } else {
        let n = min(len, PAGE_SIZE - addr % PAGE_SIZE as int);
        let need: int = if pages.contains_key(addr / PAGE_SIZE as int) {
            0
        } else {
            1
        };
        if need > left {
            (0, left)
        } else {
            let rest = supply(pages, left - need, addr + n, len - n);
            (n + rest.0, rest.1)
        }
    }
}

/// The `len` bytes of a device from `addr` on.
pub open spec fn fetch(pages: Pages, addr: int, len: int) -> Seq<u8> {
    Seq::new(len as nat, |i: int| byte_at(pages, addr + i))
}

/// A device, as the transfer of data sees it: its contents, and the number of pages that can still
/// be allocated.
#[verifier::ext_equal]
pub struct Disk {
    pub pages: Pages,
    pub left: int,
}

impl Disk {
    /// The device after `command` on the segment that holds `data`, at `addr`.
    pub open spec fn transferred(self, command: u32, addr: int, data: Seq<u8>) -> Disk {
        if command == REQ_OP_WRITE {
            let (done, left) = supply(self.pages, self.left, addr, data.len() as int);
            Disk { pages: overlay(self.pages, addr, data.take(done)), left }
        } else {
            self
        }
    }

    /// What the segment that held `data` holds after `command` at `addr`.
    pub open spec fn delivered(self, command: u32, addr: int, data: Seq<u8>) -> Seq<u8> {
        if command == REQ_OP_READ {
            fetch(self.pages, addr, data.len() as int)
        } else {
            data
        }
    }

    /// `command` on a segment of `len` bytes at `addr` goes through.
    pub open spec fn accepts(self, command: u32, addr: int, len: int) -> bool {
        command == REQ_OP_WRITE ==> supply(self.pages, self.left, addr, len).0 == len
    }
}

/// Every page holds `PAGE_SIZE` bytes.
pub open spec fn pages_wf(pages: Pages) -> bool {
    forall|k: int| #[trigger] pages.contains_key(k) ==> pages[k].len() == PAGE_SIZE
}

/// Putting no data anywhere changes nothing.
pub proof fn lemma_overlay_empty(pages: Pages, addr: int)
    requires
        pages_wf(pages),
    ensures
        overlay(pages, addr, Seq::empty()) == pages,
{
    let after = overlay(pages, addr, Seq::empty());
    assert forall|k: int| pages.contains_key(k) implies after[k] == pages[k] by {
        assert(after[k] =~= pages[k]);
    }
    assert(after =~= pages);
}

/// Putting one piece of data behind another comes to the same as putting both at once.
pub proof fn lemma_overlay_append(pages: Pages, addr: int, first: Seq<u8>, second: Seq<u8>)
    requires
        0 <= addr,
    ensures
        overlay(overlay(pages, addr, first), addr + first.len(), second) == overlay(
            pages,
            addr,
            first + second,
        ),
{
    let mid = overlay(pages, addr, first);
    let left = overlay(mid, addr + first.len(), second);
    let right = overlay(pages, addr, first + second);
    assert forall|k: int| left.contains_key(k) <==> right.contains_key(k) by {}
    assert forall|k: int| left.contains_key(k) implies left[k] == right[k] by {
        assert forall|j: int| 0 <= j < PAGE_SIZE implies left[k][j] == right[k][j] by {
            let a = k * PAGE_SIZE + j;
            assert(a / PAGE_SIZE as int == k && a % PAGE_SIZE as int == j);
        }
        assert(left[k] =~= right[k]);
    }
    assert(left =~= right);
}

/// Putting data within one page changes that page, which starts out as zeroes if it is absent.
pub proof fn lemma_overlay_page(pages: Pages, addr: int, data: Seq<u8>)
    requires
        pages_wf(pages),
        0 <= addr,
        0 < data.len(),
        addr % PAGE_SIZE as int + data.len() <= PAGE_SIZE,
    ensures
        ({
            let k = addr / PAGE_SIZE as int;
            let before = if pages.contains_key(k) {
                pages[k]
            } else {
                zeroes(PAGE_SIZE as nat)
            };
            overlay(pages, addr, data) == pages.insert(
                k,
                before.update_subrange_with(addr % PAGE_SIZE as int, data),
            )
        }),
{
    let k0 = addr / PAGE_SIZE as int;
    let before = if pages.contains_key(k0) {
        pages[k0]
    } else {
        zeroes(PAGE_SIZE as nat)
    };
    let left = overlay(pages, addr, data);
    let right = pages.insert(k0, before.update_subrange_with(addr % PAGE_SIZE as int, data));
    assert forall|k: int| left.contains_key(k) implies left[k] == right[k] by {
        assert forall|j: int| 0 <= j < PAGE_SIZE implies left[k][j] == right[k][j] by {
            let a = k * PAGE_SIZE + j;
            assert(a / PAGE_SIZE as int == k && a % PAGE_SIZE as int == j);
        }
        assert(left[k] =~= right[k]);
    }
    assert(left =~= right);
}

/// The pages of a device, by page number.
pub struct Tree {
    pages: HashMap<usize, Page>,
}

impl View for Tree {
    type V = Pages;

    closed spec fn view(&self) -> Pages {
        Map::new(
            |k: int| 0 <= k <= usize::MAX && self.pages@.contains_key(k as usize),
            |k: int| self.pages@[k as usize]@,
        )
    }
}

impl Tree {
    /// Every page of a tree holds `PAGE_SIZE` bytes.
    pub proof fn lemma_wf(&self)
        ensures
            pages_wf(self@),
    {
    }

    /// A tree without pages.
    pub fn new() -> (r: Tree)
        ensures
            r@ == Map::<int, Seq<u8>>::empty(),
    {
        let r = Tree { pages: HashMap::new() };
        assert(r@ =~= Map::<int, Seq<u8>>::empty());
        r
    }

    /// The page with number `index`.
    pub fn get(&self, index: usize) -> (r: Option<&Page>)
        ensures
            r is Some <==> self@.contains_key(index as int),
            r matches Some(page) ==> page@ == self@[index as int],
    {
        self.pages.get(&index)
    }

    /// The page with number `index`, to be changed.
    pub fn get_mut(&mut self, index: usize) -> (r: &mut Page)
        requires
            old(self)@.contains_key(index as int),
        ensures
            r@ == old(self)@[index as int],
            final(self)@ == old(self)@.insert(index as int, final(r)@),
    {
        let ghost before = *self;
        let r = self.pages.entry(index).or_insert(Page::zeroed());
        assert(after_borrow(self)@ =~= before@.insert(index as int, final(r)@));
        r
    }

    /// Puts `page` in the place with number `index`.
    pub fn store(&mut self, index: usize, page: Page)
        ensures
            final(self)@ == old(self)@.insert(index as int, page@),
    {
        self.pages.insert(index, page);
        assert(self@ =~= old(self)@.insert(index as int, page@));
    }
}

} // verus!
